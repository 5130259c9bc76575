use vstd::prelude::*;

verus! {

/// A node of a parsed manifest: a table of named nodes, a string, or any other
/// value, whose content the conversion never reads.
pub enum Node {
    Table(Vec<(String, Node)>),
    Str(String),
    Other,
}

/// The value of `key` in a table's entries; where a key is listed twice the
/// later entry counts.
pub open spec fn entry_value(entries: Seq<(String, Node)>, key: Seq<char>) -> Option<Node>
    decreases entries.len(),
{
    if entries.len() == 0 {
        None
    } else if entries.last().0@ == key {
        Some(entries.last().1)
    } else {
        entry_value(entries.drop_last(), key)
    }
}

/// The value of `key` in `n`, where `n` is a table.
pub open spec fn child(n: Node, key: Seq<char>) -> Option<Node> {
    match n {
        Node::Table(entries) => entry_value(entries@, key),
        _ => None,
    }
}

pub open spec fn is_table(n: Option<Node>) -> bool {
    match n {
        Some(Node::Table(_)) => true,
        _ => false,
    }
}

/// The `tool.poetry` section of a manifest, where both levels are tables.
pub open spec fn poetry_section(doc: Node) -> Option<Node> {
    let tool = child(doc, "tool"@);
    if is_table(tool) && is_table(child(tool->0, "poetry"@)) {
        child(tool->0, "poetry"@)
    } else {
        None
    }
}

/// The manifest has a `tool.poetry` table holding a `dependencies` or a
/// `dev-dependencies` table.
pub open spec fn is_poetry_manifest(doc: Node) -> bool {
    let poetry = poetry_section(doc);
    poetry is Some && (is_table(child(poetry->0, "dependencies"@)) || is_table(
        child(poetry->0, "dev-dependencies"@),
    ))
}

/// The dependency sections that `tool.poetry` holds, primary first.
pub open spec fn dependency_sections(poetry: Node) -> Seq<Node> {
    let deps = child(poetry, "dependencies"@);
    let dev = child(poetry, "dev-dependencies"@);
    let first = if deps is Some { seq![deps->0] } else { Seq::empty() };
    if dev is Some {
        first.push(dev->0)
    } else {
        first
    }
}

/// Looks `key` up among a table's entries.
pub fn table_get<'a>(entries: &'a Vec<(String, Node)>, key: &String) -> (r: Option<&'a Node>)
    ensures
        match r {
            Some(n) => entry_value(entries@, key@) == Some(*n),
            None => entry_value(entries@, key@) is None,
        },
{
    let mut i: usize = entries.len();
    assert(entries@.take(i as int) =~= entries@);
    while i > 0
        invariant
            i <= entries@.len(),
            entry_value(entries@, key@) == entry_value(entries@.take(i as int), key@),
        decreases i,
    {
        assert(entries@.take(i - 1) =~= entries@.take(i as int).drop_last());
        if entries[i - 1].0 == *key {
            return Some(&entries[i - 1].1);
        }
        i = i - 1;
    }
    None
}

/// Looks `key` up in `n`, where `n` is a table.
pub fn node_get<'a>(n: &'a Node, key: &String) -> (r: Option<&'a Node>)
    ensures
        match r {
            Some(c) => child(*n, key@) == Some(*c),
            None => child(*n, key@) is None,
        },
{
    match n {
        Node::Table(entries) => table_get(entries, key),
        _ => None,
    }
}

fn node_is_table(n: Option<&Node>) -> (r: bool)
    ensures
        r == match n {
            Some(c) => is_table(Some(*c)),
            None => false,
        },
{
    match n {
        Some(Node::Table(_)) => true,
        _ => false,
    }
}

/// The `tool.poetry` table of the manifest, if both levels are tables.
fn find_poetry_section(doc: &Node) -> (r: Option<&Node>)
    ensures
        match r {
            Some(p) => poetry_section(*doc) == Some(*p),
            None => poetry_section(*doc) is None,
        },
{
    let tool = node_get(doc, &String::from_str("tool"));
    if !node_is_table(tool) {
        return None;
    }
    let tool = tool.unwrap();
    let poetry = node_get(tool, &String::from_str("poetry"));
    if node_is_table(poetry) {
        poetry
    } else {
        None
    }
}

/// Whether the manifest has the sections the conversion reads.
pub fn validate_toml(parsed_toml: &Node) -> (r: bool)
    ensures
        r == is_poetry_manifest(*parsed_toml),
{
    match find_poetry_section(parsed_toml) {
        Some(poetry) => {
            node_is_table(node_get(poetry, &String::from_str("dependencies")))
                || node_is_table(node_get(poetry, &String::from_str("dev-dependencies")))
        },
        None => false,
    }
}

/// The dependency sections of a valid manifest, primary first.
pub fn get_poetry_dependencies(parsed_toml: &Node) -> (r: Vec<&Node>)
    requires
        is_poetry_manifest(*parsed_toml),
    ensures
        r@.len() == dependency_sections(poetry_section(*parsed_toml)->0).len(),
        forall|i: int|
            0 <= i < r@.len() ==> *r@[i] == dependency_sections(
                poetry_section(*parsed_toml)->0,
            )[i],
{
    let poetry = find_poetry_section(parsed_toml).unwrap();
    let mut pd: Vec<&Node> = Vec::new();
    match node_get(poetry, &String::from_str("dependencies")) {
        Some(d) => pd.push(d),
        None => {},
    }
    match node_get(poetry, &String::from_str("dev-dependencies")) {
        Some(d) => pd.push(d),
        None => {},
    }
    pd
}

} // verus!
