//! Saved states as trees of text, and the TOML values that hold them.
use vstd::prelude::*;

verus! {

/// What a TOML value holds, as far as saved states go.
pub enum Tree {
    Text(Seq<char>),
    Bool(bool),
    List(Seq<Tree>),
    Table(Map<Seq<char>, Tree>),
    /// A number or a date.
    Other,
}

/// A value of the `toml` crate.
#[verifier::external_type_specification]
#[verifier::external_body]
pub struct ExTomlValue(toml::Value);

/// A table of the `toml` crate.
#[verifier::external_type_specification]
#[verifier::external_body]
#[verifier::reject_recursive_types(K)]
#[verifier::reject_recursive_types(V)]
pub struct ExTomlMap<K, V>(toml::map::Map<K, V>);

/// What a TOML value holds.
pub uninterp spec fn tree_of(v: toml::Value) -> Tree;

/// What a TOML table holds.
pub uninterp spec fn table_of(m: toml::map::Map<String, toml::Value>) -> Map<Seq<char>, Tree>;

/// What TOML values in a row hold.
pub open spec fn trees_of(v: Seq<toml::Value>) -> Seq<Tree> {
    Seq::new(v.len(), |i: int| tree_of(v[i]))
}

/// A table with nothing in it.
pub open spec fn no_fields() -> Map<Seq<char>, Tree> {
    Map::empty()
}

/// `toml::map::Map::new`: an empty table.
#[verifier::external_body]
pub(crate) fn new_table() -> (r: toml::map::Map<String, toml::Value>)
    ensures
        table_of(r) == no_fields(),
{
    toml::map::Map::new()
}

/// `toml::map::Map::insert`: the key has the new value, and all others have theirs.
#[verifier::external_body]
pub(crate) fn insert(m: &mut toml::map::Map<String, toml::Value>, key: String, v: toml::Value)
    ensures
        table_of(*final(m)) == table_of(*old(m)).insert(key@, tree_of(v)),
{
    m.insert(key, v);
}

/// `toml::Value::Table`: a value that holds a table.
#[verifier::external_body]
pub(crate) fn table_value(m: toml::map::Map<String, toml::Value>) -> (v: toml::Value)
    ensures
        tree_of(v) == Tree::Table(table_of(m)),
{
    toml::Value::Table(m)
}

/// `toml::Value::String`: a value that holds a text.
#[verifier::external_body]
pub(crate) fn text_value(s: String) -> (v: toml::Value)
    ensures
        tree_of(v) == Tree::Text(s@),
{
    toml::Value::String(s)
}

/// `toml::Value::Boolean`: a value that holds a truth value.
#[verifier::external_body]
pub(crate) fn bool_value(b: bool) -> (v: toml::Value)
    ensures
        tree_of(v) == Tree::Bool(b),
{
    toml::Value::Boolean(b)
}

/// `toml::Value::Array`: a value that holds a list.
#[verifier::external_body]
pub(crate) fn list_value(items: Vec<toml::Value>) -> (v: toml::Value)
    ensures
        tree_of(v) == Tree::List(trees_of(items@)),
{
    toml::Value::Array(items)
}

/// What a table holds under a key; nothing of what is no table.
pub open spec fn field_of(t: Tree, key: Seq<char>) -> Option<Tree> {
    match t {
        Tree::Table(m) => if m.contains_key(key) {
            Some(m[key])
        } else {
            None
        },
        _ => None,
    }
}

/// What a list holds; nothing of what is no list.
pub open spec fn list_of(t: Tree) -> Option<Seq<Tree>> {
    match t {
        Tree::List(l) => Some(l),
        _ => None,
    }
}

pub open spec fn text_of(t: Tree) -> Option<Seq<char>> {
    match t {
        Tree::Text(s) => Some(s),
        _ => None,
    }
}

pub open spec fn bool_of(t: Tree) -> Option<bool> {
    match t {
        Tree::Bool(b) => Some(b),
        _ => None,
    }
}

/// `toml::Value::get` with a text: what a table holds under that key, and nothing of a
/// value that is no table.
#[verifier::external_body]
pub(crate) fn get_field<'a>(v: &'a toml::Value, key: &str) -> (r: Option<&'a toml::Value>)
    ensures
        match field_of(tree_of(*v), key@) {
            Some(t) => r is Some && tree_of(*r->0) == t,
            None => r is None,
        },
{
    v.get(key)
}

/// `toml::Value::as_str`: the text of a value that holds one.
#[verifier::external_body]
pub(crate) fn as_text(v: &toml::Value) -> (r: Option<&str>)
    ensures
        match text_of(tree_of(*v)) {
            Some(s) => r is Some && r->0@ == s,
            None => r is None,
        },
{
    v.as_str()
}

/// `toml::Value::as_bool`: the truth value of a value that holds one.
#[verifier::external_body]
pub(crate) fn as_bool(v: &toml::Value) -> (r: Option<bool>)
    ensures
        r == bool_of(tree_of(*v)),
{
    v.as_bool()
}

/// `toml::Value::as_array`: the values in a value that holds a list.
#[verifier::external_body]
pub(crate) fn as_list(v: &toml::Value) -> (r: Option<&Vec<toml::Value>>)
    ensures
        match list_of(tree_of(*v)) {
            Some(l) => r is Some && trees_of(r->0@) == l,
            None => r is None,
        },
{
    v.as_array()
}

} // verus!
