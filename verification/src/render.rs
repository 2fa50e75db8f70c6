//! Texts the programs show: names of domains and routes, identifiers in
//! hexadecimal, and descriptions.

use vstd::prelude::*;
use vstd::string::StringExecFns;
use crate::protocol::{EndpointDomain, NodeDomain, NodeId};

verus! {

pub fn format_domain(domain: EndpointDomain) -> (text: &'static str)
    ensures
        text@ == (match domain {
            EndpointDomain::Internal => "internal"@,
            EndpointDomain::External => "external"@,
        }),
{
    match domain {
        EndpointDomain::Internal => "internal",
        EndpointDomain::External => "external",
    }
}

pub fn format_node_domain(domain: NodeDomain) -> (text: &'static str)
    ensures
        text@ == (match domain {
            NodeDomain::Internal => "internal"@,
            NodeDomain::External => "external"@,
        }),
{
    match domain {
        NodeDomain::Internal => "internal",
        NodeDomain::External => "external",
    }
}

pub fn pass_label(pass: bool) -> (text: &'static str)
    ensures
        text@ == (if pass {
            "PASS"@
        } else {
            "FAIL"@
        }),
{
    if pass {
        "PASS"
    } else {
        "FAIL"
    }
}

pub fn yes_no(value: bool) -> (text: &'static str)
    ensures
        text@ == (if value {
            "yes"@
        } else {
            "no"@
        }),
{
    if value {
        "yes"
    } else {
        "no"
    }
}

/// Name of the route in slot `index` of a per-route array.
pub fn route_label(index: usize) -> (text: &'static str)
    ensures
        text@ == (if index == 0 {
            "internal->internal"@
        } else if index == 1 {
            "internal->external"@
        } else if index == 2 {
            "external->internal"@
        } else if index == 3 {
            "external->external"@
        } else {
            "unknown"@
        }),
{
    if index == 0 {
        "internal->internal"
    } else if index == 1 {
        "internal->external"
    } else if index == 2 {
        "external->internal"
    } else if index == 3 {
        "external->external"
    } else {
        "unknown"
    }
}

/// The small hexadecimal digit of a value below sixteen.
pub open spec fn hex_char(n: int) -> char {
    if n < 10 {
        (48 + n) as char
    } else {
        (87 + n) as char
    }
}

/// `bytes` in small hexadecimal digits, two per byte.
pub open spec fn hex_text(bytes: Seq<u8>) -> Seq<char>
    decreases bytes.len(),
{
    if bytes.len() == 0 {
        Seq::empty()
    } else {
        hex_text(bytes.drop_last()) + seq![
            hex_char(bytes.last() as int / 16),
            hex_char(bytes.last() as int % 16),
        ]
    }
}

/// An identifier in the hyphenated form of a UUID: groups of 8, 4, 4, 4
/// and 12 small hexadecimal digits.
pub open spec fn hyphenated_text(id: Seq<u8>) -> Seq<char> {
    hex_text(id.subrange(0, 4)) + seq!['-'] + hex_text(id.subrange(4, 6)) + seq!['-'] + hex_text(
        id.subrange(6, 8),
    ) + seq!['-'] + hex_text(id.subrange(8, 10)) + seq!['-'] + hex_text(id.subrange(10, 16))
}

fn hex_digit(n: u8) -> (text: &'static str)
    requires
        n < 16,
    ensures
        text@ == seq![hex_char(n as int)],
{
    proof {
        reveal_strlit("0");
        reveal_strlit("1");
        reveal_strlit("2");
        reveal_strlit("3");
        reveal_strlit("4");
        reveal_strlit("5");
        reveal_strlit("6");
        reveal_strlit("7");
        reveal_strlit("8");
        reveal_strlit("9");
        reveal_strlit("a");
        reveal_strlit("b");
        reveal_strlit("c");
        reveal_strlit("d");
        reveal_strlit("e");
        reveal_strlit("f");
    }
    let text = if n == 0 {
        "0"
    } else if n == 1 {
        "1"
    } else if n == 2 {
        "2"
    } else if n == 3 {
        "3"
    } else if n == 4 {
        "4"
    } else if n == 5 {
        "5"
    } else if n == 6 {
        "6"
    } else if n == 7 {
        "7"
    } else if n == 8 {
        "8"
    } else if n == 9 {
        "9"
    } else if n == 10 {
        "a"
    } else if n == 11 {
        "b"
    } else if n == 12 {
        "c"
    } else if n == 13 {
        "d"
    } else if n == 14 {
        "e"
    } else {
        "f"
    };
    assert(text@ =~= seq![hex_char(n as int)]);
    text
}

/// Appends bytes `from..to` of `id` in hexadecimal.
fn push_hex(text: &mut String, id: &NodeId, from: usize, to: usize)
    requires
        from <= to <= 16,
    ensures
        final(text)@ == old(text)@ + hex_text(id@.subrange(from as int, to as int)),
{
    let mut i: usize = from;
    while i < to
        invariant
            from <= i <= to <= 16,
            text@ =~= old(text)@ + hex_text(id@.subrange(from as int, i as int)),
        decreases to - i,
    {
        proof {
            assert(id@.subrange(from as int, i + 1).drop_last() =~= id@.subrange(
                from as int,
                i as int,
            ));
        }
        text.append(hex_digit(id[i] / 16));
        text.append(hex_digit(id[i] % 16));
        i += 1;
    }
}

/// The first four bytes of an identifier in hexadecimal.
pub fn short_node_id(node_id: &NodeId) -> (text: String)
    ensures
        text@ == hex_text(node_id@.subrange(0, 4)),
{
    let mut text = String::new();
    push_hex(&mut text, node_id, 0, 4);
    text
}

/// An identifier in the hyphenated form of a UUID.
pub fn format_node_id_as_uuid(node_id: &NodeId) -> (text: String)
    ensures
        text@ == hyphenated_text(node_id@),
{
    proof {
        reveal_strlit("-");
    }
    let mut text = String::new();
    push_hex(&mut text, node_id, 0, 4);
    text.append("-");
    push_hex(&mut text, node_id, 4, 6);
    text.append("-");
    push_hex(&mut text, node_id, 6, 8);
    text.append("-");
    push_hex(&mut text, node_id, 8, 10);
    text.append("-");
    push_hex(&mut text, node_id, 10, 16);
    assert(text@ =~= hyphenated_text(node_id@));
    text
}

/// Number of bytes of `desc` up to its last byte that is not zero.
pub open spec fn text_len(desc: Seq<u8>) -> int
    decreases desc.len(),
{
    if desc.len() == 0 {
        0
    } else if desc.last() != 0 {
        desc.len() as int
    } else {
        text_len(desc.drop_last())
    }
}

/// The text that `String::from_utf8_lossy` makes of `bytes`.
pub uninterp spec fn utf8_lossy_text(bytes: Seq<u8>) -> Seq<char>;

/// Decodes `bytes` with `String::from_utf8_lossy`, which reads them as
/// UTF-8 and puts U+FFFD in place of what is not. The text is a function
/// of the bytes alone.
#[verifier::external_body]
fn lossy_text(bytes: &Vec<u8>) -> (text: String)
    ensures
        text@ == utf8_lossy_text(bytes@),
{
    String::from_utf8_lossy(bytes).into_owned()
}

/// A description as text: its bytes without the zeros that pad it, read
/// as UTF-8, or `<empty>` where nothing is left.
pub fn format_desc(desc: &[u8; 16]) -> (text: String)
    ensures
        text@ == (if text_len(desc@) == 0 {
            "<empty>"@
        } else {
            utf8_lossy_text(desc@.subrange(0, text_len(desc@)))
        }),
{
    let mut len: usize = 16;
    proof {
        assert(desc@.subrange(0, 16) =~= desc@);
    }
    while len > 0 && desc[len - 1] == 0
        invariant
            len <= 16,
            text_len(desc@.subrange(0, len as int)) == text_len(desc@),
        decreases len,
    {
        proof {
            assert(desc@.subrange(0, len as int).drop_last() =~= desc@.subrange(0, len - 1));
        }
        len -= 1;
    }
    proof {
        assert(text_len(desc@.subrange(0, len as int)) == len);
    }
    if len == 0 {
        return String::from_str("<empty>");
    }
    let mut bytes: Vec<u8> = Vec::new();
    let mut i: usize = 0;
    while i < len
        invariant
            i <= len <= 16,
            bytes@ =~= desc@.subrange(0, i as int),
        decreases len - i,
    {
        bytes.push(desc[i]);
        i += 1;
    }
    lossy_text(&bytes)
}

} // verus!
