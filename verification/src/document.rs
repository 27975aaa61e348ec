//! A configuration file as a tree of plain values.
//!
//! The file is written in TOML and read by the `toml` crate.  What comes
//! back from it is turned into a tree that holds what the configuration
//! looks at: texts, whole numbers and tables.

use vstd::prelude::*;

verus! {

/// A value of a configuration file.
#[derive(Debug, PartialEq, Eq)]
pub enum Node {
    /// A text.
    Text(String),
    /// A whole number.
    Integer(i64),
    /// A table: names and their values, in the order in which they are
    /// listed.
    Table(Vec<(String, Node)>),
    /// Any other value.
    Other,
}

/// The `toml` crate's type of a value.  It is carried from the parser to
/// the function that hands its entries out, and not looked into.
#[verifier::external_type_specification]
#[verifier::external_body]
pub struct ExTomlValue(toml::Value);

/// The `toml` crate's type of a parser's error.  Only its message is taken
/// from it.
#[verifier::external_type_specification]
#[verifier::external_body]
pub struct ExTomlError(toml::de::Error);

/// The entries of the table that the text of a configuration file stands
/// for, or nothing where the text is not a TOML document.  It is the `toml`
/// crate that decides both.
pub uninterp spec fn toml_entries(text: Seq<char>) -> Option<Seq<(String, Node)>>;

/// The entries of a table that the `toml` crate handed out.
pub uninterp spec fn value_entries(value: toml::Value) -> Seq<(String, Node)>;

/// Calls `toml::from_str` for a `toml::Value`.  The contract claims that
/// what the call gives depends on the text alone: whether it succeeds, and
/// the entries of the value that it hands out.  It does not say which texts
/// are TOML documents, nor what their entries are.
#[verifier::external_body]
fn toml_from_str(text: &str) -> (parsed: Result<toml::Value, toml::de::Error>)
    ensures
        parsed is Ok == toml_entries(text@) is Some,
        parsed matches Ok(value) ==> toml_entries(text@) == Some(value_entries(value)),
{
    toml::from_str::<toml::Value>(text)
}

/// Hands out the entries of a table of type `toml::Value`, in the order in
/// which `toml::map::Map::iter` walks them, each with its value as a
/// `Node`: a string as a text, an integer as a whole number, a table as a
/// table of its own entries, anything else as `Other`.  A value that is no
/// table has no entries.  The contract gives what is handed out its name
/// and claims nothing else.
#[verifier::external_body]
fn entries_of_value(value: &toml::Value) -> (entries: Vec<(String, Node)>)
    ensures
        entries@ == value_entries(*value),
{
    let mut entries = Vec::new();
    if let toml::Value::Table(table) = value {
        for (name, item) in table.iter() {
            let node = match item {
                toml::Value::String(text) => Node::Text(text.clone()),
                toml::Value::Integer(number) => Node::Integer(*number),
                toml::Value::Table(_) => Node::Table(entries_of_value(item)),
                _ => Node::Other,
            };
            entries.push((name.clone(), node));
        }
    }
    entries
}

/// Reads the text of a configuration file.  What comes back is the entries
/// of the document, or the parser's message where the text is no TOML
/// document.
pub fn parse_document(text: &str) -> (document: Result<Vec<(String, Node)>, String>)
    ensures
        document is Ok == toml_entries(text@) is Some,
        document matches Ok(entries) ==> toml_entries(text@) == Some(entries@),
{
    match toml_from_str(text) {
        Ok(value) => Ok(entries_of_value(&value)),
        Err(error) => Err(error.to_string()),
    }
}

/// The value that stands under `name` in a table: that of the first entry
/// of that name.
pub open spec fn field(entries: Seq<(String, Node)>, name: Seq<char>) -> Option<Node>
    decreases entries.len(),
{
    if entries.len() == 0 {
        None
    } else if entries.first().0@ == name {
        Some(entries.first().1)
    } else {
        field(entries.drop_first(), name)
    }
}

/// The text that stands under `name` in a table, if a text stands there.
pub open spec fn text_field(entries: Seq<(String, Node)>, name: Seq<char>) -> Option<Seq<char>> {
    match field(entries, name) {
        Some(Node::Text(text)) => Some(text@),
        _ => None,
    }
}

/// The whole number that stands under `name` in a table, if one stands
/// there.
pub open spec fn integer_field(entries: Seq<(String, Node)>, name: Seq<char>) -> Option<i64> {
    match field(entries, name) {
        Some(Node::Integer(number)) => Some(number),
        _ => None,
    }
}

/// The table that stands under `name` in a table, if one stands there.
pub open spec fn table_field(entries: Seq<(String, Node)>, name: Seq<char>) -> Option<
    Seq<(String, Node)>,
> {
    match field(entries, name) {
        Some(Node::Table(table)) => Some(table@),
        _ => None,
    }
}

/// Finds the value that stands under `name` in a table.
pub fn find<'a>(entries: &'a Vec<(String, Node)>, name: &str) -> (found: Option<&'a Node>)
    ensures
        found is Some == field(entries@, name@) is Some,
        found matches Some(node) ==> field(entries@, name@) == Some(*node),
{
    let mut i: usize = 0;
    proof {
        assert(entries@.skip(0) =~= entries@);
    }
    while i < entries.len()
        invariant
            i <= entries.len(),
            field(entries@, name@) == field(entries@.skip(i as int), name@),
        decreases entries.len() - i,
    {
        proof {
            assert(entries@.skip(i as int).first() == entries@[i as int]);
            assert(entries@.skip(i as int).drop_first() =~= entries@.skip(i + 1));
        }
        if crate::text::same_text(entries[i].0.as_str(), name) {
            return Some(&entries[i].1);
        }
        i += 1;
    }
    None
}

/// Finds the text that stands under `name` in a table.
pub fn find_text<'a>(entries: &'a Vec<(String, Node)>, name: &str) -> (found: Option<&'a String>)
    ensures
        found is Some == text_field(entries@, name@) is Some,
        found matches Some(text) ==> text_field(entries@, name@) == Some(text@),
{
    match find(entries, name) {
        Some(Node::Text(text)) => Some(text),
        _ => None,
    }
}

/// Finds the whole number that stands under `name` in a table.
pub fn find_integer(entries: &Vec<(String, Node)>, name: &str) -> (found: Option<i64>)
    ensures
        found == integer_field(entries@, name@),
{
    match find(entries, name) {
        Some(Node::Integer(number)) => Some(*number),
        _ => None,
    }
}

/// Finds the table that stands under `name` in a table.
pub fn find_table<'a>(entries: &'a Vec<(String, Node)>, name: &str) -> (found: Option<
    &'a Vec<(String, Node)>,
>)
    ensures
        found is Some == table_field(entries@, name@) is Some,
        found matches Some(table) ==> table_field(entries@, name@) == Some(table@),
{
    match find(entries, name) {
        Some(Node::Table(table)) => Some(table),
        _ => None,
    }
}

} // verus!
