//! The generator's persistent identity: a UUID kept as text in a file.
//! Reading and writing the file is left to the caller.

use vstd::prelude::*;
use vstd::string::StringExecFns;
use crate::protocol::NodeId;
use crate::render::hyphenated_text;

verus! {

/// The text that `str::trim` makes of `text`.
pub uninterp spec fn trimmed_text(text: Seq<char>) -> Seq<char>;

/// The identifier that `uuid::Uuid::parse_str` reads from `text`, if it
/// reads one.
pub uninterp spec fn uuid_parse(text: Seq<char>) -> Option<Seq<u8>>;

/// Removes leading and trailing whitespace with `str::trim`. The result
/// is a function of the text alone.
#[verifier::external_body]
fn trimmed(text: &str) -> (inner: &str)
    ensures
        inner@ == trimmed_text(text@),
{
    text.trim()
}

/// Parses a UUID with `uuid::Uuid::parse_str`, which accepts the simple,
/// hyphenated, URN and braced forms, and returns its sixteen bytes. Whether
/// a text parses, and to what, is a function of the text alone.
#[verifier::external_body]
fn parse_uuid(text: &str) -> (id: Option<NodeId>)
    ensures
        match id {
            Some(bytes) => uuid_parse(text@) == Some(bytes@),
            None => uuid_parse(text@) is None,
        },
{
    match uuid::Uuid::parse_str(text) {
        Ok(id) => Some(*id.as_bytes()),
        Err(_) => None,
    }
}

/// Draws a random version-4 UUID with `uuid::Uuid::new_v4` and returns
/// its sixteen bytes. Every outcome carries the version in the upper half
/// of byte 6 and the variant in the top two bits of byte 8; nothing else is
/// claimed.
#[verifier::external_body]
fn random_uuid() -> (id: NodeId)
    ensures
        id[6] / 16 == 4,
        id[8] / 64 == 2,
{
    *uuid::Uuid::new_v4().as_bytes()
}

/// Writes a UUID as text with its `Display`, which gives the hyphenated
/// form in small hexadecimal digits.
#[verifier::external_body]
fn uuid_text(id: &NodeId) -> (text: String)
    ensures
        text@ == hyphenated_text(id@),
{
    uuid::Uuid::from_bytes(*id).to_string()
}

/// An identity and, where it was newly made, the contents of the file
/// that is to keep it.
pub struct Identity {
    pub node_id: NodeId,
    pub contents: Option<String>,
}

/// The identifier kept in a file with contents `text`, if there is one.
pub open spec fn kept_id(text: Seq<char>) -> Option<Seq<u8>> {
    uuid_parse(trimmed_text(text))
}

/// The identifier that a file with contents `text` keeps, if it keeps one.
pub fn parse_identity(text: &str) -> (id: Option<NodeId>)
    ensures
        match id {
            Some(bytes) => kept_id(text@) == Some(bytes@),
            None => kept_id(text@) is None,
        },
{
    parse_uuid(trimmed(text))
}

/// A new random identity with the contents of the file that is to keep
/// it: the identifier in hyphenated form and a line feed.
pub fn new_identity() -> (identity: Identity)
    ensures
        identity.contents matches Some(contents) && contents@ == hyphenated_text(
            identity.node_id@,
        ) + seq!['\n'],
        identity.node_id[6] / 16 == 4,
        identity.node_id[8] / 64 == 2,
{
    proof {
        reveal_strlit("\n");
    }
    let node_id = random_uuid();
    let mut contents = uuid_text(&node_id);
    contents.append("\n");
    assert(contents@ =~= hyphenated_text(node_id@) + seq!['\n']);
    Identity { node_id, contents: Some(contents) }
}

/// The generator's identity, given the contents of its identity file if
/// the file exists: the identifier the file keeps, or else a new random one
/// together with the contents to write.
pub fn load_or_create_id(existing: Option<&str>) -> (identity: Identity)
    ensures
        match existing {
            Some(text) if kept_id(text@) is Some => kept_id(text@) == Some(identity.node_id@)
                && identity.contents is None,
            _ => identity.contents matches Some(contents) && contents@ == hyphenated_text(
                identity.node_id@,
            ) + seq!['\n'],
        },
{
    let kept = match existing {
        Some(text) => parse_identity(text),
        None => None,
    };
    match kept {
        Some(node_id) => Identity { node_id, contents: None },
        None => new_identity(),
    }
}

} // verus!
