//! The parts of a parsed MIME message that the policy reads, held as plain
//! values, and the parser that fills them in.

use crate::text::optional_text;
use mail_parser::{Message, MessageParser, MimeHeaders, PartType};
use vstd::prelude::*;

verus! {

/// A `Content-Type` header: the type and, where one was given, the subtype.
#[derive(Debug, Clone, PartialEq, Eq)]
pub struct ContentType {
    pub c_type: String,
    pub c_subtype: Option<String>,
}

/// The body of one MIME part. Only text and binary bodies are read, so only
/// they are carried along.
#[derive(Debug, Clone, PartialEq, Eq)]
pub enum PartBody {
    /// A `text/*` body other than HTML.
    Text(String),
    /// A `text/html` body.
    Html,
    /// A body that is not text.
    Binary(Vec<u8>),
    /// Binary data shown inline.
    InlineBinary,
    /// A nested message.
    Message,
    /// A multipart container.
    Multipart,
}

/// One MIME part.
#[derive(Debug, Clone, PartialEq, Eq)]
pub struct MimePart {
    pub content_type: Option<ContentType>,
    pub body: PartBody,
}

/// A parsed message: the header fields that the policy reads and all MIME
/// parts in document order, the root part first.
#[derive(Debug, Clone, PartialEq, Eq)]
pub struct ParsedMessage {
    /// Text of the `Secure-Join` header.
    pub secure_join: Option<String>,
    /// Text of the `Auto-Submitted` header.
    pub auto_submitted: Option<String>,
    /// First address of the `From` header.
    pub from_address: Option<String>,
    /// Text of the `Subject` header.
    pub subject: Option<String>,
    /// All parts in document order, the root part first.
    pub parts: Vec<MimePart>,
}

/// A content type as plain values.
pub struct ContentTypeView {
    pub c_type: Seq<char>,
    pub c_subtype: Option<Seq<char>>,
}

/// The body of a part as plain values.
pub enum PartBodyView {
    Text(Seq<char>),
    Html,
    Binary(Seq<u8>),
    InlineBinary,
    Message,
    Multipart,
}

/// A part as plain values.
pub struct MimePartView {
    pub content_type: Option<ContentTypeView>,
    pub body: PartBodyView,
}

/// A parsed message as plain values.
pub struct ParsedMessageView {
    pub secure_join: Option<Seq<char>>,
    pub auto_submitted: Option<Seq<char>>,
    pub from_address: Option<Seq<char>>,
    pub subject: Option<Seq<char>>,
    pub parts: Seq<MimePartView>,
}

/// The views of the parts in `parts`, in order.
pub open spec fn parts_view(parts: Seq<MimePart>) -> Seq<MimePartView> {
    Seq::new(parts.len(), |i: int| parts[i]@)
}

impl View for ContentType {
    type V = ContentTypeView;

    open spec fn view(&self) -> ContentTypeView {
        ContentTypeView { c_type: self.c_type@, c_subtype: optional_text(self.c_subtype) }
    }
}

impl View for PartBody {
    type V = PartBodyView;

    open spec fn view(&self) -> PartBodyView {
        match self {
            PartBody::Text(t) => PartBodyView::Text(t@),
            PartBody::Html => PartBodyView::Html,
            PartBody::Binary(b) => PartBodyView::Binary(b@),
            PartBody::InlineBinary => PartBodyView::InlineBinary,
            PartBody::Message => PartBodyView::Message,
            PartBody::Multipart => PartBodyView::Multipart,
        }
    }
}

impl View for MimePart {
    type V = MimePartView;

    open spec fn view(&self) -> MimePartView {
        MimePartView {
            content_type: match self.content_type {
                Some(c) => Some(c@),
                None => None,
            },
            body: self.body@,
        }
    }
}

impl View for ParsedMessage {
    type V = ParsedMessageView;

    open spec fn view(&self) -> ParsedMessageView {
        ParsedMessageView {
            secure_join: optional_text(self.secure_join),
            auto_submitted: optional_text(self.auto_submitted),
            from_address: optional_text(self.from_address),
            subject: optional_text(self.subject),
            parts: parts_view(self.parts@),
        }
    }
}

/// `mail_parser::Message`, a parsed message that borrows the raw bytes.
#[verifier::external_type_specification]
#[verifier::external_body]
pub struct ExMessage<'x>(Message<'x>);

/// What a `mail_parser::Message` holds of the fields and parts that the
/// policy reads.
pub uninterp spec fn message_contents(msg: &Message<'_>) -> ParsedMessageView;

/// What `mail_parser`'s default parser makes of `data`: `None` where it
/// finds no message, else the contents of the message it returns.
pub uninterp spec fn parsed_message(data: Seq<u8>) -> Option<ParsedMessageView>;

/// Calls `MessageParser::default().parse`. The contract claims that the
/// outcome is a function of the bytes, and that a message has at least its
/// root part.
#[verifier::external_body]
fn mime_parse<'x>(data: &'x [u8]) -> (r: Option<Message<'x>>)
    ensures
        match r {
            Some(msg) => parsed_message(data@) == Some(message_contents(&msg))
                && message_contents(&msg).parts.len() > 0,
            None => parsed_message(data@) is None,
        },
{
    MessageParser::default().parse(data)
}

/// Reads the `Secure-Join` and `Auto-Submitted` headers as text, the first
/// address of `From`, and `Subject`, through `Message::header`,
/// `HeaderValue::as_text`, `Message::from`, `Address::first` and
/// `Message::subject`. The contract claims that they are what the message
/// holds; the parts are left empty.
#[verifier::external_body]
fn message_fields(msg: &Message<'_>) -> (m: ParsedMessage)
    requires
        message_contents(msg).parts.len() > 0,
    ensures
        optional_text(m.secure_join) == message_contents(msg).secure_join,
        optional_text(m.auto_submitted) == message_contents(msg).auto_submitted,
        optional_text(m.from_address) == message_contents(msg).from_address,
        optional_text(m.subject) == message_contents(msg).subject,
        m.parts@.len() == 0,
{
    ParsedMessage {
        secure_join: msg.header("secure-join").and_then(|h| h.as_text()).map(String::from),
        auto_submitted: msg.header("Auto-Submitted").and_then(|h| h.as_text()).map(String::from),
        from_address: msg.from().and_then(|f| f.first()?.address.as_deref()).map(String::from),
        subject: msg.subject().map(String::from),
        parts: Vec::new(),
    }
}

/// The length of `Message::parts`.
#[verifier::external_body]
fn message_part_count(msg: &Message<'_>) -> (n: usize)
    ensures
        n == message_contents(msg).parts.len(),
{
    msg.parts.len()
}

/// Copies out `Message::parts[i]`: its content type, read through
/// `MimeHeaders::content_type`, and its body, one arm for each variant of
/// `PartType`.
#[verifier::external_body]
fn message_part(msg: &Message<'_>, i: usize) -> (p: MimePart)
    requires
        i < message_contents(msg).parts.len(),
    ensures
        p@ == message_contents(msg).parts[i as int],
{
    let content_type = msg.parts[i].content_type().map(|c| ContentType {
        c_type: c.c_type.to_string(),
        c_subtype: c.c_subtype.as_deref().map(String::from),
    });
    let body = match &msg.parts[i].body {
        PartType::Text(t) => PartBody::Text(t.to_string()),
        PartType::Html(_) => PartBody::Html,
        PartType::Binary(b) => PartBody::Binary(b.to_vec()),
        PartType::InlineBinary(_) => PartBody::InlineBinary,
        PartType::Message(_) => PartBody::Message,
        PartType::Multipart(_) => PartBody::Multipart,
    };
    MimePart { content_type, body }
}

/// Parses `data` as a MIME message and copies out what the policy reads.
/// A message has at least one part, its root part.
pub fn parse_message(data: &[u8]) -> (r: Option<ParsedMessage>)
    ensures
        match r {
            Some(m) => parsed_message(data@) == Some(m@) && m.parts@.len() > 0,
            None => parsed_message(data@) is None,
        },
{
    let msg = match mime_parse(data) {
        Some(msg) => msg,
        None => {
            return None;
        },
    };
    let mut m = message_fields(&msg);
    let count = message_part_count(&msg);
    let mut i: usize = 0;
    while i < count
        invariant
            i <= count,
            count == message_contents(&msg).parts.len(),
            optional_text(m.secure_join) == message_contents(&msg).secure_join,
            optional_text(m.auto_submitted) == message_contents(&msg).auto_submitted,
            optional_text(m.from_address) == message_contents(&msg).from_address,
            optional_text(m.subject) == message_contents(&msg).subject,
            parts_view(m.parts@) == message_contents(&msg).parts.take(i as int),
        decreases count - i,
    {
        let ghost old_parts = m.parts@;
        let part = message_part(&msg, i);
        m.parts.push(part);
        i += 1;
        proof {
            let all = message_contents(&msg).parts;
            assert(m.parts@ == old_parts.push(part));
            assert(parts_view(old_parts).len() == i - 1);
            assert forall|j: int| 0 <= j < i implies parts_view(m.parts@)[j] == all[j] by {
                if j < i - 1 {
                    assert(parts_view(old_parts)[j] == all.take(i - 1)[j]);
                    assert(m.parts@[j] == old_parts[j]);
                }
            }
            assert(parts_view(m.parts@) =~= all.take(i as int));
        }
    }
    assert(message_contents(&msg).parts.take(count as int) =~= message_contents(&msg).parts);
    Some(m)
}

} // verus!
