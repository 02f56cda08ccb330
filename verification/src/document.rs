//! The shape of a translation source once it is parsed: strings, tables of
//! named values, and everything else.

use vstd::prelude::*;

verus! {

/// A value of a parsed source. `at` is the byte offset at which the value
/// starts in the text it was parsed from, where that is known.
#[derive(Debug)]
pub enum Document {
    /// A string.
    Text { value: String, at: Option<usize> },
    /// A table: named values, in the order in which they were written.
    Table { entries: Vec<(String, Document)>, at: Option<usize> },
    /// Any other value: a number, a boolean, an array, a date.
    Other { at: Option<usize> },
}

/// Why a text could not be parsed: the parser's message, and the byte
/// offset that it points at.
#[derive(Debug)]
pub struct ParseFailure {
    pub message: String,
    pub at: Option<usize>,
}

/// What parsing a text as TOML gives: its root table as a [`Document`], or
/// the parser's complaint.
pub uninterp spec fn parsed_toml(raw: Seq<char>) -> Result<Document, ParseFailure>;

/// `toml_edit::Item`, declared so that it can stand in a signature.
/// Nothing is known of what a value of it holds.
#[verifier::external_type_specification]
#[verifier::external_body]
pub struct ExTomlItem(toml_edit::Item);

/// Turns an item of `toml_edit` into a [`Document`], value by value: a
/// string stays a string, a table (`Item::Table`) stays a table with its
/// entries in the order of `Table::iter`, and every other item, inline
/// tables and arrays of tables among them, counts as something else. Each
/// offset is the start of what `span` returns. Nothing is claimed of the
/// result here; `parse_toml` names it.
#[verifier::external_body]
fn document_of_item(item: &toml_edit::Item) -> Document {
    match item {
        toml_edit::Item::Value(toml_edit::Value::String(s)) => {
            Document::Text { value: s.value().clone(), at: s.span().map(|r| r.start) }
        },
        toml_edit::Item::Table(t) => {
            let mut entries = Vec::new();
            for (key, value) in t.iter() {
                entries.push((key.to_string(), document_of_item(value)));
            }
            Document::Table { entries, at: t.span().map(|r| r.start) }
        },
        other => Document::Other { at: other.span().map(|r| r.start) },
    }
}

/// Calls `toml_edit::ImDocument::parse`, the TOML parser of `toml_edit` in
/// the form that keeps the place of each value, and hands back the
/// document's root item as a [`Document`] or the parser's error as its
/// message and the start of its span. The parser's result depends on the
/// text alone; the contract names it and says nothing of what it holds.
#[verifier::external_body]
pub(crate) fn parse_toml(raw: &str) -> (r: Result<Document, ParseFailure>)
    ensures
        r == parsed_toml(raw@),
{
    match toml_edit::ImDocument::parse(raw) {
        Ok(parsed) => Ok(document_of_item(parsed.as_item())),
        Err(e) => Err(ParseFailure { message: e.to_string(), at: e.span().map(|r| r.start) }),
    }
}

/// Parses `raw` as TOML and gives its root table as a [`Document`], or the
/// parser's complaint.
pub fn parse(raw: &str) -> (r: Result<Document, ParseFailure>)
    ensures
        r == parsed_toml(raw@),
{
    parse_toml(raw)
}

} // verus!
