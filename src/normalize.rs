use vstd::prelude::*;
use crate::dep_map::{keys_unique, pairs_to_map, DepMap};

verus! {

/// The characters that quoting leaves behind in a specifier: the double quote
/// and the backslash.
pub open spec fn is_escape_char(c: char) -> bool {
    c == '"' || c == '\\'
}

/// `s` with every double quote and backslash taken out.
pub open spec fn strip_escapes(s: Seq<char>) -> Seq<char> {
    s.filter(|c: char| !is_escape_char(c))
}

/// A Poetry constraint in pip's syntax: a leading caret becomes `>=`, anything
/// else is pinned with `==`, after the escape characters are stripped.
pub open spec fn normalized(raw: Seq<char>) -> Seq<char> {
    let clean = strip_escapes(raw);
    if clean.len() > 0 && clean[0] == '^' {
        ">="@ + clean.drop_first()
    } else {
        "=="@ + clean
    }
}

/// The name under which Poetry lists the interpreter version; it is no package.
pub open spec fn runtime_key() -> Seq<char> {
    "python"@
}

/// Every specifier of `m` normalized, the names unchanged.
pub open spec fn normalize_all(m: Map<Seq<char>, Seq<char>>) -> Map<Seq<char>, Seq<char>> {
    Map::new(|k: Seq<char>| m.contains_key(k), |k: Seq<char>| normalized(m[k]))
}

/// The regular expression of one character class: `"` or `\`.
spec fn escape_class_pattern() -> Seq<char> {
    "[\"\\\\]"@
}

/// Relies on regex::Regex::new and regex::Regex::replace_all: the pattern is a
/// single class of the double quote and the backslash, so it compiles, and
/// replacing every match with the empty string deletes exactly those characters.
#[verifier::external_body]
fn delete_class_matches(pattern: &str, text: &str) -> (r: String)
    requires
        pattern@ == escape_class_pattern(),
    ensures
        r@ == strip_escapes(text@),
{
    regex::Regex::new(pattern).unwrap().replace_all(text, "").into_owned()
}

/// Stripping leaves a specifier without escape characters unchanged.
proof fn lemma_strip_clean(v: Seq<char>)
    requires
        forall|i: int| 0 <= i < v.len() ==> !is_escape_char(#[trigger] v[i]),
    ensures
        strip_escapes(v) == v,
    decreases v.len(),
{
    reveal(Seq::filter);
    if v.len() > 0 {
        let d = v.drop_last();
        assert forall|i: int| 0 <= i < d.len() implies !is_escape_char(#[trigger] d[i]) by {
            assert(d[i] == v[i]);
        }
        lemma_strip_clean(d);
        assert(d.push(v.last()) =~= v);
    }
}

/// A caret constraint `^V` becomes `>=V`, `V` otherwise unchanged.
pub proof fn lemma_caret_rewrite(v: Seq<char>)
    requires
        forall|i: int| 0 <= i < v.len() ==> !is_escape_char(#[trigger] v[i]),
    ensures
        normalized(seq!['^'] + v) == ">="@ + v,
{
    let s = seq!['^'] + v;
    assert forall|i: int| 0 <= i < s.len() implies !is_escape_char(#[trigger] s[i]) by {
        if i > 0 {
            assert(s[i] == v[i - 1]);
        }
    }
    lemma_strip_clean(s);
    assert(s.drop_first() =~= v);
}

/// A literal without a leading caret and without escape characters is pinned
/// with `==`.
pub proof fn lemma_bare_pin(v: Seq<char>)
    requires
        forall|i: int| 0 <= i < v.len() ==> !is_escape_char(#[trigger] v[i]),
        v.len() == 0 || v[0] != '^',
    ensures
        normalized(v) == "=="@ + v,
{
    lemma_strip_clean(v);
}

/// Every quote and backslash is removed before the caret rule or the pin rule
/// applies: the result is that of the stripped specifier, and its version part
/// holds no escape character.
pub proof fn lemma_escapes_stripped(raw: Seq<char>)
    ensures
        normalized(raw) == normalized(strip_escapes(raw)),
        forall|i: int|
            0 <= i < strip_escapes(raw).len() ==> !is_escape_char(#[trigger] strip_escapes(raw)[i]),
{
    let pred = |c: char| !is_escape_char(c);
    raw.filter_lemma(pred);
    let clean = strip_escapes(raw);
    assert forall|i: int| 0 <= i < clean.len() implies !is_escape_char(#[trigger] clean[i]) by {
        assert(pred(raw.filter(pred)[i]));
    }
    lemma_strip_clean(clean);
}

/// A normalized specifier is `>=` or `==` followed by a version that holds no
/// quote and no backslash.
pub proof fn lemma_normalized_shape(raw: Seq<char>)
    ensures
        exists|v: Seq<char>|
            (normalized(raw) == ">="@ + v || normalized(raw) == "=="@ + v) && forall|i: int|
                0 <= i < v.len() ==> !is_escape_char(#[trigger] v[i]),
{
    lemma_escapes_stripped(raw);
    let clean = strip_escapes(raw);
    if clean.len() > 0 && clean[0] == '^' {
        let v = clean.drop_first();
        assert forall|i: int| 0 <= i < v.len() implies !is_escape_char(#[trigger] v[i]) by {
            assert(v[i] == clean[i + 1]);
        }
        assert(normalized(raw) == ">="@ + v);
    } else {
        assert(normalized(raw) == "=="@ + clean);
    }
}

/// Rewrites one Poetry version constraint into pip's syntax.
pub fn process_poetry_version(poetry_version: &String) -> (r: String)
    ensures
        r@ == normalized(poetry_version@),
{
    let pattern = "[\"\\\\]";
    let cleaned = delete_class_matches(pattern, poetry_version.as_str());
    let n = cleaned.as_str().unicode_len();
    if n > 0 && cleaned.as_str().get_char(0) == '^' {
        let rest = cleaned.as_str().substring_char(1, n);
        String::from_str(">=").concat(rest)
    } else {
        String::from_str("==").concat(cleaned.as_str())
    }
}

/// Normalizes every specifier and drops the interpreter entry.
pub fn processing_deps(poetry_deps: DepMap) -> (r: DepMap)
    requires
        poetry_deps.wf(),
    ensures
        r.wf(),
        r@ == normalize_all(poetry_deps@).remove(runtime_key()),
        !r@.contains_key(runtime_key()),
{
    let mut processed = DepMap::new();
    let n = poetry_deps.len();
    let ghost s = poetry_deps.pairs();
    let mut i: usize = 0;
    while i < n
        invariant
            n == s.len(),
            s == poetry_deps.pairs(),
            i <= n,
            processed.wf(),
            processed@ == normalize_all(pairs_to_map(s.take(i as int))),
        decreases n - i,
    {
        let key = poetry_deps.key_at(i);
        let pip_val = process_poetry_version(poetry_deps.value_at(i));
        processed.insert(key.clone(), pip_val);
        proof {
            assert(s.take(i + 1).drop_last() =~= s.take(i as int));
            assert(processed@ =~= normalize_all(pairs_to_map(s.take(i + 1))));
        }
        i = i + 1;
    }
    assert(s.take(n as int) =~= s);
    let python = String::from_str("python");
    processed.remove(&python);
    processed
}

} // verus!
