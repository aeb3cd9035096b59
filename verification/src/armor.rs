//! Check of an ASCII-armored OpenPGP message: the armor is taken off, the
//! base64 text inside is decoded, and the bytes are handed to the packet
//! validator.

use crate::openpgp::{check_openpgp_payload, is_encrypted_message, is_packet_chain};
use crate::openpgp::lemma_accepted_iff_packet_chain;
use crate::text::{
    chars_of, count_leading_spaces, find, find_first, find_last_char, has_prefix, last_index_of,
    starts_with, string_of, strip_spaces, trim_start, without_spaces,
};
use base64::engine::general_purpose::STANDARD;
use base64::Engine;
use vstd::prelude::*;
use vstd::slice::slice_subrange;

verus! {

/// The line that opens the armor.
pub open spec fn armor_head() -> Seq<char> {
    "-----BEGIN PGP MESSAGE-----"@
}

/// The line that closes the armor.
pub open spec fn armor_tail() -> Seq<char> {
    "-----END PGP MESSAGE-----"@
}

/// The start of a version comment inside the armor.
pub open spec fn version_comment() -> Seq<char> {
    "Version: "@
}

/// A carriage return followed by a line feed.
pub open spec fn crlf() -> Seq<char> {
    seq!['\r', '\n']
}

/// What the standard base64 engine (standard alphabet, canonical padding
/// required) decodes from `text`; `None` where it refuses the text.
pub uninterp spec fn base64_decoded(text: Seq<char>) -> Option<Seq<u8>>;

/// `s` after its version comment, if it has one: an outgoing message may
/// carry none, and in an incoming one the comment runs up to and including
/// the first line break, which must be there.
pub open spec fn after_version_comment(s: Seq<char>, outgoing: bool) -> Option<Seq<char>> {
    if starts_with(s, version_comment()) {
        if outgoing {
            None
        } else {
            match find(s, crlf()) {
                Some(i) => Some(s.skip(i + 2)),
                None => None,
            }
        }
    } else {
        Some(s)
    }
}

/// `s` without the line breaks it begins with.
pub open spec fn after_line_breaks(s: Seq<char>) -> Seq<char>
    decreases s.len(),
{
    if starts_with(s, crlf()) {
        after_line_breaks(s.skip(2))
    } else {
        s
    }
}

/// `s` up to its last `=`, which opens the CRC24 checksum; all of `s`
/// where it holds none.
pub open spec fn before_checksum(s: Seq<char>) -> Seq<char> {
    match last_index_of(s, '=') {
        Some(i) => s.take(i),
        None => s,
    }
}

/// The base64 text that the armor in `text` holds, all white space
/// removed; `None` where the armor is not as it must be.
pub open spec fn armor_body(text: Seq<char>, outgoing: bool) -> Option<Seq<char>> {
    match find(text, armor_head()) {
        None => None,
        Some(b) => {
            let opened = trim_start(text.skip(b + armor_head().len()));
            match find(opened, armor_tail()) {
                None => None,
                Some(e) => match after_version_comment(opened.take(e), outgoing) {
                    None => None,
                    Some(inner) => Some(
                        without_spaces(before_checksum(after_line_breaks(inner))),
                    ),
                },
            }
        },
    }
}

/// The verdict on the outcome of base64 decoding: refused text is
/// rejected, decoded bytes must be a well-formed encrypted message.
pub open spec fn decoded_ok(decoded: Option<Seq<u8>>) -> bool {
    match decoded {
        Some(bytes) => is_encrypted_message(bytes),
        None => false,
    }
}

/// `text` is a well-formed armored encrypted message.
pub open spec fn armored_payload_ok(text: Seq<char>, outgoing: bool) -> bool {
    match armor_body(text, outgoing) {
        Some(body) => decoded_ok(base64_decoded(body)),
        None => false,
    }
}

/// Calls `decode` of the `base64` crate's `STANDARD` engine on the bytes of
/// `text`. The contract claims only that the outcome is a function of the
/// text: the decoded bytes, or `None` where the engine returns an error.
#[verifier::external_body]
fn base64_decode(text: &str) -> (r: Option<Vec<u8>>)
    ensures
        match r {
            Some(bytes) => base64_decoded(text@) == Some(bytes@),
            None => base64_decoded(text@) is None,
        },
{
    STANDARD.decode(text).ok()
}

/// `hay` without the line breaks it begins with.
fn skip_line_breaks(hay: &[char]) -> (r: &[char])
    ensures
        r@ == after_line_breaks(hay@),
{
    let pair: Vec<char> = vec!['\r', '\n'];
    assert(pair@ =~= crlf());
    let mut rest = hay;
    while has_prefix(rest, pair.as_slice())
        invariant
            pair@ == crlf(),
            after_line_breaks(rest@) == after_line_breaks(hay@),
        decreases rest@.len(),
    {
        rest = slice_subrange(rest, 2, rest.len());
    }
    rest
}

/// Takes the armor off `payload` and returns the base64 text inside, all
/// white space removed; `None` where the armor is not as it must be.
pub fn armor_base64_text(payload: &str, outgoing: bool) -> (r: Option<String>)
    ensures
        match r {
            Some(body) => armor_body(payload@, outgoing) == Some(body@),
            None => armor_body(payload@, outgoing) is None,
        },
{
    let text = chars_of(payload);
    let head = chars_of("-----BEGIN PGP MESSAGE-----");
    let tail = chars_of("-----END PGP MESSAGE-----");
    let comment = chars_of("Version: ");
    let pair: Vec<char> = vec!['\r', '\n'];
    assert(pair@ =~= crlf());
    let begin = match find_first(text.as_slice(), head.as_slice()) {
        Some(b) => b,
        None => {
            return None;
        },
    };
    let len = text.len();
    let after_head = slice_subrange(text.as_slice(), begin + head.len(), len);
    let spaces = count_leading_spaces(after_head);
    let opened = slice_subrange(after_head, spaces, after_head.len());
    let end = match find_first(opened, tail.as_slice()) {
        Some(e) => e,
        None => {
            return None;
        },
    };
    let mut inner = slice_subrange(opened, 0, end);
    if has_prefix(inner, comment.as_slice()) {
        if outgoing {
            return None;
        }
        match find_first(inner, pair.as_slice()) {
            Some(i) => {
                inner = slice_subrange(inner, i + 2, inner.len());
            },
            None => {
                return None;
            },
        }
    }
    let mut body = skip_line_breaks(inner);
    match find_last_char(body, '=') {
        Some(i) => {
            body = slice_subrange(body, 0, i);
        },
        None => {},
    }
    let cleaned = strip_spaces(body);
    Some(string_of(cleaned.as_slice()))
}

/// The verdict on the outcome of base64 decoding.
pub fn check_decoded_payload(decoded: Option<Vec<u8>>) -> (ok: bool)
    ensures
        ok == decoded_ok(
            match decoded {
                Some(bytes) => Some(bytes@),
                None => None,
            },
        ),
{
    match decoded {
        Some(bytes) => check_openpgp_payload(bytes.as_slice()),
        None => false,
    }
}

/// Decides whether `payload` is a well-formed armored encrypted message.
pub fn check_armored_payload(payload: &str, outgoing: bool) -> (ok: bool)
    ensures
        ok == armored_payload_ok(payload@, outgoing),
{
    match armor_base64_text(payload, outgoing) {
        Some(body) => check_decoded_payload(base64_decode(body.as_str())),
        None => false,
    }
}

/// The bytes inside an accepted armored payload are consumed whole by
/// their packets: the last is an SEIPD packet, and every packet before it
/// is a PKESK or SKESK packet.
pub proof fn lemma_accepted_armor_holds_packet_chain(text: Seq<char>, outgoing: bool)
    requires
        armored_payload_ok(text, outgoing),
    ensures
        armor_body(text, outgoing) matches Some(body) && base64_decoded(body) matches Some(bytes)
            && exists|cuts: Seq<int>| is_packet_chain(bytes, 0, cuts),
{
    let bytes = base64_decoded(armor_body(text, outgoing)->0)->0;
    lemma_accepted_iff_packet_chain(bytes);
}

} // verus!
