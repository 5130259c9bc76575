use vstd::prelude::*;
use crate::dep_map::DepMap;
use crate::document::{entry_value, Node};

verus! {

/// Why a dependency section could not be read.
pub enum ManifestError {
    /// The named dependency is a table without a `version` entry.
    MissingVersion(String),
}

/// The version specifier that a dependency's node gives: a string is taken as
/// it is, a table gives its `version` string, anything else the empty string.
/// A table without `version` gives none.
pub open spec fn resolve_version(n: Node) -> Option<Seq<char>> {
    match n {
        Node::Str(s) => Some(s@),
        Node::Table(entries) => match entry_value(entries@, "version"@) {
            Some(Node::Str(v)) => Some(v@),
            Some(_) => Some(Seq::empty()),
            None => None,
        },
        Node::Other => Some(Seq::empty()),
    }
}

/// The mapping that a dependency table's entries give, if each resolves.
pub open spec fn extract_entries(entries: Seq<(String, Node)>) -> Option<
    Map<Seq<char>, Seq<char>>,
>
    decreases entries.len(),
{
    if entries.len() == 0 {
        Some(Map::empty())
    } else {
        match extract_entries(entries.drop_last()) {
            Some(m) => match resolve_version(entries.last().1) {
                Some(v) => Some(m.insert(entries.last().0@, v)),
                None => None,
            },
            None => None,
        }
    }
}

/// The mapping of a dependency section; a section that is no table is empty.
pub open spec fn extracted(n: Node) -> Option<Map<Seq<char>, Seq<char>>> {
    match n {
        Node::Table(entries) => extract_entries(entries@),
        _ => Some(Map::empty()),
    }
}

/// The sections' mappings united, a later section winning on a shared name.
pub open spec fn merge_sections(s: Seq<Node>) -> Option<Map<Seq<char>, Seq<char>>>
    decreases s.len(),
{
    if s.len() == 0 {
        Some(Map::empty())
    } else {
        match (merge_sections(s.drop_last()), extracted(s.last())) {
            (Some(a), Some(b)) => Some(a.union_prefer_right(b)),
            _ => None,
        }
    }
}

/// `n` is a table in which dependency `name` lacks its `version`.
pub open spec fn lacks_version(n: Node, name: Seq<char>) -> bool {
    match n {
        Node::Table(entries) => exists|i: int|
            0 <= i < entries@.len() && entries@[i].0@ == name && resolve_version(
                entries@[i].1,
            ) is None,
        _ => false,
    }
}

proof fn lemma_extract_prefix_none(s: Seq<(String, Node)>, j: int)
    requires
        0 <= j <= s.len(),
        extract_entries(s.take(j)) is None,
    ensures
        extract_entries(s) is None,
    decreases s.len(),
{
    if j == s.len() {
        assert(s.take(j) =~= s);
    } else {
        assert(s.drop_last().take(j) =~= s.take(j));
        lemma_extract_prefix_none(s.drop_last(), j);
    }
}

proof fn lemma_merge_prefix_none(s: Seq<Node>, j: int)
    requires
        0 <= j <= s.len(),
        merge_sections(s.take(j)) is None,
    ensures
        merge_sections(s) is None,
    decreases s.len(),
{
    if j == s.len() {
        assert(s.take(j) =~= s);
    } else {
        assert(s.drop_last().take(j) =~= s.take(j));
        lemma_merge_prefix_none(s.drop_last(), j);
    }
}

/// The version specifier of one dependency, or `None` for a table without
/// `version`.
pub fn get_version(toml_value: &Node) -> (r: Option<String>)
    ensures
        match r {
            Some(s) => resolve_version(*toml_value) == Some(s@),
            None => resolve_version(*toml_value) is None,
        },
{
    match toml_value {
        Node::Table(entries) => match crate::document::table_get(
            entries,
            &String::from_str("version"),
        ) {
            Some(Node::Str(v)) => Some(v.clone()),
            Some(_) => Some(String::new()),
            None => None,
        },
        Node::Str(s) => Some(s.clone()),
        Node::Other => Some(String::new()),
    }
}

/// The mapping from name to raw specifier of one dependency section.
pub fn accumulate_dependencies(dependencies: &Node) -> (r: Result<DepMap, ManifestError>)
    ensures
        match r {
            Ok(m) => m.wf() && extracted(*dependencies) == Some(m@),
            Err(ManifestError::MissingVersion(name)) => extracted(*dependencies) is None
                && lacks_version(*dependencies, name@),
        },
{
    let mut dep_with_version = DepMap::new();
    match dependencies {
        Node::Table(entries) => {
            let n = entries.len();
            let mut i: usize = 0;
            while i < n
                invariant
                    *dependencies == Node::Table(*entries),
                    n == entries@.len(),
                    i <= n,
                    dep_with_version.wf(),
                    extract_entries(entries@.take(i as int)) == Some(dep_with_version@),
                decreases n - i,
            {
                assert(entries@.take(i + 1).drop_last() =~= entries@.take(i as int));
                match get_version(&entries[i].1) {
                    Some(v) => {
                        dep_with_version.insert(entries[i].0.clone(), v);
                    },
                    None => {
                        let name = entries[i].0.clone();
                        proof {
                            lemma_extract_prefix_none(entries@, i + 1);
                            assert(entries@[i as int].0@ == name@);
                            assert(resolve_version(entries@[i as int].1) is None);
                            assert(lacks_version(*dependencies, name@));
                        }
                        return Err(ManifestError::MissingVersion(name));
                    },
                }
                i = i + 1;
            }
            assert(entries@.take(n as int) =~= entries@);
        },
        _ => {},
    }
    Ok(dep_with_version)
}

/// The sections' mappings united in order; a later section wins on a shared
/// name.
pub fn merging_deps(all_deps: Vec<&Node>) -> (r: Result<DepMap, ManifestError>)
    ensures
        match r {
            Ok(m) => m.wf() && merge_sections(all_deps@.map_values(|n: &Node| *n)) == Some(m@),
            Err(ManifestError::MissingVersion(name)) => merge_sections(
                all_deps@.map_values(|n: &Node| *n),
            ) is None && exists|k: int|
                0 <= k < all_deps@.len() && lacks_version(*all_deps@[k], name@),
        },
{
    let ghost s = all_deps@.map_values(|n: &Node| *n);
    let mut merged_deps = DepMap::new();
    let n = all_deps.len();
    let mut k: usize = 0;
    while k < n
        invariant
            n == all_deps@.len(),
            s == all_deps@.map_values(|n: &Node| *n),
            k <= n,
            merged_deps.wf(),
            merge_sections(s.take(k as int)) == Some(merged_deps@),
        decreases n - k,
    {
        assert(s.take(k + 1).drop_last() =~= s.take(k as int));
        match accumulate_dependencies(all_deps[k]) {
            Ok(dep_map) => {
                merged_deps.extend_from(&dep_map);
            },
            Err(e) => {
                proof {
                    lemma_merge_prefix_none(s, k + 1);
                }
                return Err(e);
            },
        }
        k = k + 1;
    }
    assert(s.take(n as int) =~= s);
    Ok(merged_deps)
}

/// A later section's specifier overrides an earlier one of the same name, and
/// every name of either section is kept.
pub proof fn lemma_later_section_wins(primary: Node, secondary: Node)
    requires
        extracted(primary) is Some,
        extracted(secondary) is Some,
    ensures
        merge_sections(seq![primary, secondary]) == Some(
            extracted(primary)->0.union_prefer_right(extracted(secondary)->0),
        ),
        forall|k: Seq<char>|
            #![trigger extracted(secondary)->0[k]]
            extracted(secondary)->0.contains_key(k) ==> merge_sections(
                seq![primary, secondary],
            )->0[k] == extracted(secondary)->0[k],
{
    let s = seq![primary, secondary];
    reveal_with_fuel(merge_sections, 3);
    assert(s.drop_last() =~= seq![primary]);
    assert(seq![primary].drop_last() =~= Seq::<Node>::empty());
    assert(extracted(primary)->0 =~= Map::<Seq<char>, Seq<char>>::empty().union_prefer_right(
        extracted(primary)->0,
    ));
}

} // verus!
