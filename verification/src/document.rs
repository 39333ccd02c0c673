//! A format-neutral tree for the structured manifests a project may carry
//! (TOML, JSON, YAML), the lookups that project detection makes in it, and
//! the parsers that produce it.
use vstd::prelude::*;

verus! {

broadcast use vstd::string::group_string_axioms;

/// A parsed manifest value, as far as project detection reads it.
///
/// Strings, sequences and tables keep their contents; every other kind of
/// value (numbers, booleans, dates, null) is `Other`. A table entry whose key
/// is not a string has the key `None`.
#[derive(Debug)]
pub enum Node {
    Text(String),
    List(Vec<Node>),
    Table(Vec<(Option<String>, Node)>),
    Other,
}

// ---------------------------------------------------------------------------
// What a lookup gives
// ---------------------------------------------------------------------------

/// The value stored under the string key `key` among `entries`.
pub open spec fn entries_get(entries: Seq<(Option<String>, Node)>, key: Seq<char>) -> Option<Node>
    decreases entries.len(),
{
    if entries.len() == 0 {
        None
    } else if entries[0].0 is Some && entries[0].0->0@ == key {
        Some(entries[0].1)
    } else {
        entries_get(entries.drop_first(), key)
    }
}

/// The value under `key` when `n` is a table.
pub open spec fn node_get(n: Node, key: Seq<char>) -> Option<Node> {
    match n {
        Node::Table(entries) => entries_get(entries@, key),
        _ => None,
    }
}

/// The string that `n` holds, when it is a string.
pub open spec fn node_text(n: Node) -> Option<Seq<char>> {
    match n {
        Node::Text(s) => Some(s@),
        _ => None,
    }
}

/// The first element of `n`, when it is a non-empty sequence.
pub open spec fn node_first(n: Node) -> Option<Node> {
    match n {
        Node::List(items) => if items@.len() > 0 {
            Some(items@[0])
        } else {
            None
        },
        _ => None,
    }
}

/// The string under `key` in `n`.
pub open spec fn get_text(n: Node, key: Seq<char>) -> Option<Seq<char>> {
    match node_get(n, key) {
        Some(v) => node_text(v),
        None => None,
    }
}

/// The first element of the sequence under `key` in `n`.
pub open spec fn get_first(n: Node, key: Seq<char>) -> Option<Node> {
    match node_get(n, key) {
        Some(v) => node_first(v),
        None => None,
    }
}

/// The string held by an optional node.
pub open spec fn opt_text(n: Option<Node>) -> Option<Seq<char>> {
    match n {
        Some(v) => node_text(v),
        None => None,
    }
}

// ---------------------------------------------------------------------------
// Lookups
// ---------------------------------------------------------------------------

/// Whether `a` is the text `b`.
pub fn same_text(a: &String, b: &str) -> (r: bool)
    ensures
        r == (a@ == b@),
{
    let other = String::from_str(b);
    a.eq(&other)
}

/// The value under `key` when `n` is a table; the `get` of each format.
pub fn get<'a>(n: &'a Node, key: &str) -> (r: Option<&'a Node>)
    ensures
        r matches Some(v) ==> node_get(*n, key@) == Some(*v),
        r is None ==> node_get(*n, key@) is None,
{
    match n {
        Node::Table(entries) => {
            let mut i: usize = 0;
            assert(entries@.skip(0) =~= entries@);
            while i < entries.len()
                invariant
                    i <= entries@.len(),
                    node_get(*n, key@) == entries_get(entries@, key@),
                    entries_get(entries@, key@) == entries_get(entries@.skip(i as int), key@),
                decreases entries.len() - i,
            {
                proof {
                    assert(entries@.skip(i as int).drop_first() =~= entries@.skip(i + 1));
                    assert(entries@.skip(i as int)[0] == entries@[i as int]);
                }
                let hit = match &entries[i].0 {
                    Some(k) => same_text(k, key),
                    None => false,
                };
                if hit {
                    return Some(&entries[i].1);
                }
                i += 1;
            }
            None
        },
        _ => None,
    }
}

/// The string that `n` holds, when it is a string; the `as_str` of each format.
pub fn as_text(n: &Node) -> (r: Option<&String>)
    ensures
        r matches Some(s) ==> node_text(*n) == Some(s@),
        r is None ==> node_text(*n) is None,
{
    match n {
        Node::Text(s) => Some(s),
        _ => None,
    }
}

/// The first element of `n`, when it is a non-empty sequence.
pub fn first(n: &Node) -> (r: Option<&Node>)
    ensures
        r matches Some(v) ==> node_first(*n) == Some(*v),
        r is None ==> node_first(*n) is None,
{
    match n {
        Node::List(items) => if items.len() > 0 {
            Some(&items[0])
        } else {
            None
        },
        _ => None,
    }
}

/// The string under `key` in `n`, copied.
pub fn get_text_exec(n: &Node, key: &str) -> (r: Option<String>)
    ensures
        r matches Some(s) ==> get_text(*n, key@) == Some(s@),
        r is None ==> get_text(*n, key@) is None,
{
    match get(n, key) {
        Some(v) => match as_text(v) {
            Some(s) => Some(s.clone()),
            None => None,
        },
        None => None,
    }
}

/// The string held by an optional node, copied.
pub fn opt_text_exec(n: Option<&Node>) -> (r: Option<String>)
    ensures
        r matches Some(s) ==> (n matches Some(v) && node_text(*v) == Some(s@)),
        r is None ==> (n is None || node_text(*n->0) is None),
{
    match n {
        Some(v) => match as_text(v) {
            Some(s) => Some(s.clone()),
            None => None,
        },
        None => None,
    }
}

// ---------------------------------------------------------------------------
// Parsers
// ---------------------------------------------------------------------------

#[verifier::external_type_specification]
#[verifier::external_body]
pub struct ExTomlValue(toml::Value);

#[verifier::external_type_specification]
#[verifier::external_body]
pub struct ExJsonValue(serde_json::Value);

#[verifier::external_type_specification]
#[verifier::external_body]
pub struct ExYamlValue(serde_yaml::Value);

/// The tree that `toml` parses a document into, or `None` where it reports
/// an error.
pub uninterp spec fn toml_document(text: Seq<char>) -> Option<Node>;

/// The tree that `serde_json` parses a text into, or `None` where it reports
/// an error.
pub uninterp spec fn json_document(text: Seq<char>) -> Option<Node>;

/// The tree that `serde_yaml` parses a text into, or `None` where it reports
/// an error.
pub uninterp spec fn yaml_document(text: Seq<char>) -> Option<Node>;

/// A `toml::Value` as a tree: strings, arrays and tables kept, every other
/// variant `Other`. Nothing about it is stated here; `parse_toml` states it.
#[verifier::external_body]
fn toml_node(v: toml::Value) -> Node {
    match v {
        toml::Value::String(s) => Node::Text(s),
        toml::Value::Array(items) => Node::List(items.into_iter().map(toml_node).collect()),
        toml::Value::Table(t) => Node::Table(t.into_iter().map(|(k, v)| (Some(k), toml_node(v))).collect()),
        _ => Node::Other,
    }
}

/// Parses a TOML document with `toml`'s `Value` parser (`str::parse` into
/// `toml::Value`, which reads a whole document). The contract claims only
/// that the result is a function of the text, named `toml_document`.
#[verifier::external_body]
pub(crate) fn parse_toml(text: &str) -> (r: Option<Node>)
    ensures
        r == toml_document(text@),
{
    match text.parse::<toml::Value>() {
        Ok(v) => Some(toml_node(v)),
        Err(_) => None,
    }
}

/// A `serde_json::Value` as a tree: strings, arrays and objects kept, every
/// other variant `Other`. Nothing about it is stated here; `parse_json`
/// states it.
#[verifier::external_body]
fn json_node(v: serde_json::Value) -> Node {
    match v {
        serde_json::Value::String(s) => Node::Text(s),
        serde_json::Value::Array(items) => Node::List(items.into_iter().map(json_node).collect()),
        serde_json::Value::Object(m) => Node::Table(m.into_iter().map(|(k, v)| (Some(k), json_node(v))).collect()),
        _ => Node::Other,
    }
}

/// Parses a JSON text with `serde_json::from_str` into `serde_json::Value`.
/// The contract claims only that the result is a function of the text,
/// named `json_document`.
#[verifier::external_body]
pub(crate) fn parse_json(text: &str) -> (r: Option<Node>)
    ensures
        r == json_document(text@),
{
    match serde_json::from_str::<serde_json::Value>(text) {
        Ok(v) => Some(json_node(v)),
        Err(_) => None,
    }
}

/// A `serde_yaml::Value` as a tree: strings, sequences and mappings kept, a
/// tagged value replaced by the value it tags (as `serde_yaml`'s `get` and
/// `as_str` see through tags), a mapping key kept only when it is a plain
/// string, every other variant `Other`. Nothing about it is stated here;
/// `parse_yaml` states it.
#[verifier::external_body]
fn yaml_node(v: serde_yaml::Value) -> Node {
    match v {
        serde_yaml::Value::String(s) => Node::Text(s),
        serde_yaml::Value::Sequence(items) => Node::List(items.into_iter().map(yaml_node).collect()),
        serde_yaml::Value::Mapping(m) => Node::Table(m.into_iter().map(|(k, v)| (match k { serde_yaml::Value::String(s) => Some(s), _ => None }, yaml_node(v))).collect()),
        serde_yaml::Value::Tagged(t) => yaml_node(t.value),
        _ => Node::Other,
    }
}

/// Parses a YAML text with `serde_yaml::from_str` into `serde_yaml::Value`.
/// The contract claims only that the result is a function of the text,
/// named `yaml_document`.
#[verifier::external_body]
pub(crate) fn parse_yaml(text: &str) -> (r: Option<Node>)
    ensures
        r == yaml_document(text@),
{
    match serde_yaml::from_str::<serde_yaml::Value>(text) {
        Ok(v) => Some(yaml_node(v)),
        Err(_) => None,
    }
}

} // verus!
