//! Reading YAML documents. The parser and the document tree are those of
//! `serde_yaml`; this module states what the library relies on.

use vstd::prelude::*;

verus! {

/// What a YAML value holds, as far as the library reads it: a text, a
/// sequence, a mapping with its text keys, or something else (a null, a
/// boolean, a number). A tag in front of a value is looked through.
pub enum YamlNode {
    Other,
    Text(Seq<char>),
    Sequence(Seq<YamlNode>),
    Mapping(Map<Seq<char>, YamlNode>),
}

impl YamlNode {
    /// The member of a mapping under `key`. Anything that is no mapping, or
    /// that lacks the key, yields [`YamlNode::Other`].
    pub open spec fn member(self, key: Seq<char>) -> YamlNode {
        match self {
            YamlNode::Mapping(members) => if members.dom().contains(key) {
                members[key]
            } else {
                YamlNode::Other
            },
            _ => YamlNode::Other,
        }
    }

    /// The text of a text node.
    pub open spec fn text(self) -> Option<Seq<char>> {
        match self {
            YamlNode::Text(text) => Some(text),
            _ => None,
        }
    }
}

/// `serde_yaml::Value`, a parsed YAML value. The library carries such a
/// value through and reads it with the functions below alone.
#[verifier::external_type_specification]
#[verifier::external_body]
pub struct ExYamlValue(serde_yaml::Value);

/// What `value` holds.
pub uninterp spec fn yaml_content(value: serde_yaml::Value) -> YamlNode;

/// What the YAML parser makes of `text`: the content of the document, or
/// `None` where the text is no YAML document.
pub uninterp spec fn yaml_parse(text: Seq<char>) -> Option<YamlNode>;

/// Calls `serde_yaml::from_str` for a `serde_yaml::Value`. The outcome depends
/// on the text alone and is named [`yaml_parse`]; an error is reported as
/// `None`.
#[verifier::external_body]
pub(crate) fn parse_yaml(text: &str) -> (r: Option<serde_yaml::Value>)
    ensures
        match r {
            Some(value) => yaml_parse(text@) == Some(yaml_content(value)),
            None => yaml_parse(text@) is None,
        },
{
    serde_yaml::from_str::<serde_yaml::Value>(text).ok()
}

/// Indexes `value` with a text key, as `value[key]` does. `serde_yaml` looks
/// through a tag, returns the entry of a mapping under that key, and returns
/// a null where the value is no mapping or has no such key.
#[verifier::external_body]
pub(crate) fn yaml_member<'a>(value: &'a serde_yaml::Value, key: &str) -> (r: &'a serde_yaml::Value)
    ensures
        yaml_content(*r) == yaml_content(*value).member(key@),
{
    &value[key]
}

/// Calls `serde_yaml::Value::as_sequence`, which looks through a tag and
/// returns the items of a sequence, or `None` for any other value.
#[verifier::external_body]
pub(crate) fn yaml_sequence(value: &serde_yaml::Value) -> (r: Option<&Vec<serde_yaml::Value>>)
    ensures
        match r {
            Some(items) => yaml_content(*value) == YamlNode::Sequence(
                Seq::new(items@.len(), |i: int| yaml_content(items@[i])),
            ),
            None => !(yaml_content(*value) is Sequence),
        },
{
    value.as_sequence()
}

/// Calls `serde_yaml::Value::as_str`, which looks through a tag and returns
/// the text of a string, or `None` for any other value.
#[verifier::external_body]
pub(crate) fn yaml_text(value: &serde_yaml::Value) -> (r: Option<&str>)
    ensures
        match r {
            Some(text) => yaml_content(*value) == YamlNode::Text(text@),
            None => !(yaml_content(*value) is Text),
        },
{
    value.as_str()
}

} // verus!
