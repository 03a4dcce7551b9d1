//! Reading TOML documents without losing sight of their text. The parser
//! is that of `toml_edit`, which records where in the source each value
//! stands; this module states what the library relies on.

use vstd::prelude::*;

verus! {

/// What a TOML item holds, as far as the library reads it: a text with the
/// place of its literal in the source, a table (inline or not) with its
/// members, or something else.
pub enum TomlNode {
    Other,
    /// A string value. `span` gives the byte offsets at which its literal
    /// starts and ends in the source, where the parser recorded them.
    Text { value: Seq<char>, span: Option<(nat, nat)> },
    Table(Map<Seq<char>, TomlNode>),
}

impl TomlNode {
    /// The member of a table under `key`. Anything that is no table, or that
    /// lacks the key, yields [`TomlNode::Other`].
    pub open spec fn member(self, key: Seq<char>) -> TomlNode {
        match self {
            TomlNode::Table(members) => if members.dom().contains(key) {
                members[key]
            } else {
                TomlNode::Other
            },
            _ => TomlNode::Other,
        }
    }
}

/// `toml_edit::Item`, a parsed TOML item. The library carries such an item
/// through and reads it with the functions below alone.
#[verifier::external_type_specification]
#[verifier::external_body]
pub struct ExTomlItem(toml_edit::Item);

/// What `item` holds.
pub uninterp spec fn toml_content(item: toml_edit::Item) -> TomlNode;

/// What the TOML parser makes of `text`: the content of the root table, or
/// `None` where the text is no TOML document.
pub uninterp spec fn toml_parse(text: Seq<char>) -> Option<TomlNode>;

/// How TOML writes the string `text` as a value: quoted, and escaped where
/// needed.
pub uninterp spec fn toml_literal(text: Seq<char>) -> Seq<char>;

/// Parses `text` with `toml_edit::ImDocument::parse`, which keeps the place
/// of every value, and takes the root item out of the document. The outcome
/// depends on the text alone and is named [`toml_parse`]; an error is
/// reported as `None`.
#[verifier::external_body]
pub(crate) fn parse_toml(text: &str) -> (r: Option<toml_edit::Item>)
    ensures
        match r {
            Some(root) => toml_parse(text@) == Some(toml_content(root)),
            None => toml_parse(text@) is None,
        },
{
    match toml_edit::ImDocument::parse(text) {
        Ok(document) => Some(document.into_item()),
        Err(_) => None,
    }
}

/// Calls `toml_edit::Item::get` with a text key, which returns the member of
/// a table or an inline table under that key, and `None` where the item is
/// neither or has no such member.
#[verifier::external_body]
pub(crate) fn toml_member<'a>(item: &'a toml_edit::Item, key: &str) -> (r: Option<
    &'a toml_edit::Item,
>)
    ensures
        match r {
            Some(member) => toml_content(*member) == toml_content(*item).member(key@),
            None => toml_content(*item).member(key@) is Other,
        },
{
    item.get(key)
}

/// Calls `toml_edit::Item::as_str`, which returns the text of a string
/// value, or `None` for any other item.
#[verifier::external_body]
pub(crate) fn toml_text(item: &toml_edit::Item) -> (r: Option<&str>)
    ensures
        match r {
            Some(text) => toml_content(*item) is Text && toml_content(*item)->value == text@,
            None => !(toml_content(*item) is Text),
        },
{
    item.as_str()
}

/// Calls `toml_edit::Item::span`, the location of the item within the
/// parsed source, and returns its two ends. For a string value this is the
/// place of its literal.
#[verifier::external_body]
pub(crate) fn toml_span(item: &toml_edit::Item) -> (r: Option<(usize, usize)>)
    ensures
        toml_content(*item) is Text ==> match r {
            Some((start, end)) => toml_content(*item)->span == Some((start as nat, end as nat)),
            None => toml_content(*item)->span is None,
        },
{
    match item.span() {
        Some(range) => Some((range.start, range.end)),
        None => None,
    }
}

/// Writes `text` as a TOML string value with `toml_edit::value` and renders
/// it. The outcome depends on the text alone and is named [`toml_literal`].
#[verifier::external_body]
pub(crate) fn write_literal(text: &str) -> (r: String)
    ensures
        r@ == toml_literal(text@),
{
    toml_edit::value(text).to_string()
}

} // verus!
