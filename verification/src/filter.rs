//! The two classifiers of a parsed message: is it an OpenPGP/MIME encrypted
//! message, and is it a Secure-Join handshake request.

use crate::armor::{armored_payload_ok, check_armored_payload};
use crate::mime::{MimePart, MimePartView, ParsedMessage, ParsedMessageView, PartBody, PartBodyView};
use crate::text::{
    chars_of, eq_ignoring_ascii_case, lowercase_of, same_ignoring_ascii_case, same_text, string_of,
    trim, trimmed,
};
use vstd::prelude::*;
use vstd::utf8::{decode_utf8, valid_utf8};

verus! {

broadcast use vstd::utf8::encode_utf8_decode_utf8;

/// The reply that turns away unencrypted mail. It carries no trailing period.
pub const ENCRYPTION_NEEDED_523: &'static str = "523 Encryption Needed: Invalid Unencrypted Mail";

/// A part that is no multipart container: it has no content type, or its
/// type in lower case is not `multipart`.
pub open spec fn is_leaf(part: MimePartView) -> bool {
    match part.content_type {
        Some(ct) => lowercase_of(ct.c_type) != "multipart"@,
        None => true,
    }
}

/// The parts of `parts` that are no multipart containers, in document order.
pub open spec fn leaf_parts(parts: Seq<MimePartView>) -> Seq<MimePartView>
    decreases parts.len(),
{
    if parts.len() == 0 {
        parts
    } else if is_leaf(parts.last()) {
        leaf_parts(parts.drop_last()).push(parts.last())
    } else {
        leaf_parts(parts.drop_last())
    }
}

/// The part has a content type with the given type and subtype, the case
/// of ASCII letters aside.
pub open spec fn has_content_type(part: MimePartView, c_type: Seq<char>, c_subtype: Seq<char>) -> bool {
    &&& part.content_type matches Some(ct)
    &&& eq_ignoring_ascii_case(ct.c_type, c_type)
    &&& ct.c_subtype matches Some(sub)
    &&& eq_ignoring_ascii_case(sub, c_subtype)
}

/// The message itself, that is its root part, has the given content type.
pub open spec fn message_has_content_type(
    m: ParsedMessageView,
    c_type: Seq<char>,
    c_subtype: Seq<char>,
) -> bool {
    m.parts.len() > 0 && has_content_type(m.parts[0], c_type, c_subtype)
}

/// The text of a Secure-Join request, as a header value.
pub open spec fn is_join_request(value: Seq<char>) -> bool {
    value == "vc-request"@ || value == "vg-request"@
}

/// The body of a Secure-Join request: the header line in lower case.
pub open spec fn is_join_request_body(body: Seq<char>) -> bool {
    let line = lowercase_of(trim(body));
    line == "secure-join: vc-request"@ || line == "secure-join: vg-request"@
}

/// The message is a Secure-Join handshake request: its `Secure-Join` header
/// names a request, and its only leaf part is `text/plain` with a text body
/// that repeats the header.
pub open spec fn is_securejoin_message(m: ParsedMessageView) -> bool {
    &&& m.secure_join matches Some(value)
    &&& is_join_request(value)
    &&& leaf_parts(m.parts).len() == 1
    &&& has_content_type(leaf_parts(m.parts)[0], "text"@, "plain"@)
    &&& leaf_parts(m.parts)[0].body matches PartBodyView::Text(body)
    &&& is_join_request_body(body)
}

/// The control part of an encrypted message: `application/pgp-encrypted`,
/// and where its body is text, the text is `Version: 1`.
pub open spec fn is_pgp_control_part(part: MimePartView) -> bool {
    &&& has_content_type(part, "application"@, "pgp-encrypted"@)
    &&& (part.body matches PartBodyView::Text(body) ==> trim(body) == "Version: 1"@)
}

/// The payload part of an encrypted message: `application/octet-stream`
/// with a text body, or a binary body that is valid UTF-8, which holds a
/// well-formed armored message.
pub open spec fn is_pgp_payload_part(part: MimePartView, outgoing: bool) -> bool {
    &&& has_content_type(part, "application"@, "octet-stream"@)
    &&& match part.body {
        PartBodyView::Text(body) => armored_payload_ok(body, outgoing),
        PartBodyView::Binary(bytes) => valid_utf8(bytes) && armored_payload_ok(
            decode_utf8(bytes),
            outgoing,
        ),
        _ => false,
    }
}

/// The message is a well-formed OpenPGP/MIME encrypted message:
/// `multipart/encrypted` with exactly two leaf parts, the control part and
/// the payload part.
pub open spec fn is_encrypted_mail(m: ParsedMessageView, outgoing: bool) -> bool {
    &&& message_has_content_type(m, "multipart"@, "encrypted"@)
    &&& leaf_parts(m.parts).len() == 2
    &&& is_pgp_control_part(leaf_parts(m.parts)[0])
    &&& is_pgp_payload_part(leaf_parts(m.parts)[1], outgoing)
}

/// No message is both a Secure-Join request and an encrypted message.
pub proof fn lemma_securejoin_excludes_encrypted(m: ParsedMessageView, outgoing: bool)
    ensures
        !(is_securejoin_message(m) && is_encrypted_mail(m, outgoing)),
{
}

/// Calls `core::str::from_utf8`: the text that `bytes` encode, `None` where
/// they are not valid UTF-8.
#[verifier::external_body]
fn utf8_text(bytes: &[u8]) -> (r: Option<&str>)
    ensures
        match r {
            Some(s) => valid_utf8(bytes@) && s@ == decode_utf8(bytes@),
            None => !valid_utf8(bytes@),
        },
{
    core::str::from_utf8(bytes).ok()
}

/// Whether `part` is no multipart container.
pub fn part_is_leaf(part: &MimePart) -> (r: bool)
    ensures
        r == is_leaf(part@),
{
    match &part.content_type {
        Some(ct) => {
            let lower = ct.c_type.as_str().to_lowercase();
            !same_text(lower.as_str(), "multipart")
        },
        None => true,
    }
}

/// Whether `part` has the given content type, the case of ASCII letters aside.
pub fn part_has_content_type(part: &MimePart, c_type: &str, c_subtype: &str) -> (r: bool)
    ensures
        r == has_content_type(part@, c_type@, c_subtype@),
{
    match &part.content_type {
        Some(ct) => match &ct.c_subtype {
            Some(sub) => same_ignoring_ascii_case(ct.c_type.as_str(), c_type)
                && same_ignoring_ascii_case(sub.as_str(), c_subtype),
            None => false,
        },
        None => false,
    }
}

/// Whether the message itself has the given content type.
pub fn is_content_type(message: &ParsedMessage, c_type: &str, c_subtype: &str) -> (r: bool)
    ensures
        r == message_has_content_type(message@, c_type@, c_subtype@),
{
    message.parts.len() > 0 && part_has_content_type(&message.parts[0], c_type, c_subtype)
}

/// The indices of the leaf parts of `message`, in document order.
pub fn leaf_part_indices(message: &ParsedMessage) -> (r: Vec<usize>)
    ensures
        r@.len() == leaf_parts(message@.parts).len(),
        forall|k: int|
            0 <= k < r@.len() ==> (#[trigger] r@[k]) < message.parts@.len()
                && message@.parts[r@[k] as int] == leaf_parts(message@.parts)[k],
{
    let mut r: Vec<usize> = Vec::new();
    let mut i: usize = 0;
    while i < message.parts.len()
        invariant
            i <= message.parts@.len(),
            r@.len() == leaf_parts(message@.parts.take(i as int)).len(),
            forall|k: int|
                0 <= k < r@.len() ==> (#[trigger] r@[k]) < i && message@.parts[r@[k] as int]
                    == leaf_parts(message@.parts.take(i as int))[k],
        decreases message.parts@.len() - i,
    {
        assert(message@.parts.take(i + 1).drop_last() =~= message@.parts.take(i as int));
        if part_is_leaf(&message.parts[i]) {
            r.push(i);
        }
        i += 1;
    }
    assert(message@.parts.take(i as int) =~= message@.parts);
    r
}

/// Decides whether `message` is a Secure-Join handshake request.
pub fn is_securejoin(message: &ParsedMessage) -> (r: bool)
    ensures
        r == is_securejoin_message(message@),
{
    match &message.secure_join {
        Some(value) => {
            if !same_text(value.as_str(), "vc-request") && !same_text(value.as_str(), "vg-request") {
                return false;
            }
        },
        None => {
            return false;
        },
    }
    let leaves = leaf_part_indices(message);
    if leaves.len() != 1 {
        return false;
    }
    let part = &message.parts[leaves[0]];
    if !part_has_content_type(part, "text", "plain") {
        return false;
    }
    match &part.body {
        PartBody::Text(body) => {
            let chars = chars_of(body.as_str());
            let line = string_of(trimmed(chars.as_slice())).as_str().to_lowercase();
            same_text(line.as_str(), "secure-join: vc-request") || same_text(
                line.as_str(),
                "secure-join: vg-request",
            )
        },
        _ => false,
    }
}

/// Decides whether `message` is a well-formed OpenPGP/MIME encrypted
/// message.
pub fn check_encrypted(message: &ParsedMessage, outgoing: bool) -> (r: bool)
    ensures
        r == is_encrypted_mail(message@, outgoing),
{
    if !is_content_type(message, "multipart", "encrypted") {
        return false;
    }
    let leaves = leaf_part_indices(message);
    if leaves.len() != 2 {
        return false;
    }
    let control = &message.parts[leaves[0]];
    if !part_has_content_type(control, "application", "pgp-encrypted") {
        return false;
    }
    match &control.body {
        PartBody::Text(body) => {
            let chars = chars_of(body.as_str());
            let version = string_of(trimmed(chars.as_slice()));
            if !same_text(version.as_str(), "Version: 1") {
                return false;
            }
        },
        _ => {},
    }
    let payload = &message.parts[leaves[1]];
    if !part_has_content_type(payload, "application", "octet-stream") {
        return false;
    }
    match &payload.body {
        PartBody::Text(body) => check_armored_payload(body.as_str(), outgoing),
        PartBody::Binary(bytes) => match utf8_text(bytes.as_slice()) {
            Some(body) => check_armored_payload(body, outgoing),
            None => false,
        },
        _ => false,
    }
}

} // verus!
