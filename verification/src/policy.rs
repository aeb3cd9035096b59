//! The policy engine: from the classifier's verdicts, the envelope and the
//! configuration to acceptance or a rejection line.

use crate::config::Config;
use crate::filter::{
    check_encrypted, is_content_type, is_encrypted_mail, is_securejoin, is_securejoin_message,
    message_has_content_type, ENCRYPTION_NEEDED_523,
};
use crate::mime::{ParsedMessage, ParsedMessageView};
use crate::text::{
    chars_of, ends_with, has_prefix, has_suffix, lowercase_of, same_chars, same_text, starts_with,
    texts,
};
use vstd::prelude::*;
use vstd::string::StringExecFns;

verus! {

/// `recipient` is exempt by `pattern`: the two are equal, or the pattern is
/// a domain written with a leading `@` and the recipient ends with it.
pub open spec fn exempts(pattern: Seq<char>, recipient: Seq<char>) -> bool {
    recipient == pattern || (starts_with(pattern, seq!['@']) && ends_with(recipient, pattern))
}

/// `recipient` is exempt by one of `patterns`.
pub open spec fn is_passthrough_recipient(recipient: Seq<char>, patterns: Seq<Seq<char>>) -> bool {
    exists|j: int| 0 <= j < patterns.len() && exempts(#[trigger] patterns[j], recipient)
}

/// Every one of `recipients` is exempt by one of `patterns`.
pub open spec fn all_passthrough(recipients: Seq<Seq<char>>, patterns: Seq<Seq<char>>) -> bool {
    forall|i: int|
        0 <= i < recipients.len() ==> is_passthrough_recipient(#[trigger] recipients[i], patterns)
}

/// The `From` header names an address that is not the envelope sender, the
/// case of letters aside.
pub open spec fn from_mismatch(m: ParsedMessageView, mail_from: Seq<char>) -> bool {
    m.from_address matches Some(from) && lowercase_of(mail_from) != lowercase_of(from)
}

/// The line that rejects a message whose `From` header is not the sender.
pub open spec fn invalid_from_reply(from: Seq<char>, mail_from: Seq<char>) -> Seq<char> {
    "500 Invalid FROM <"@ + from + "> for <"@ + mail_from + ">"@
}

/// An Autocrypt Setup Message that a user sends to themselves: one
/// recipient, the sender, with the fixed subject and `multipart/mixed`.
pub open spec fn is_self_sent_setup(
    m: ParsedMessageView,
    mail_from: Seq<char>,
    rcpt_tos: Seq<Seq<char>>,
) -> bool {
    &&& rcpt_tos.len() == 1
    &&& lowercase_of(rcpt_tos[0]) == lowercase_of(mail_from)
    &&& m.subject == Some("Autocrypt Setup Message"@)
    &&& message_has_content_type(m, "multipart"@, "mixed"@)
}

/// A bounce: an auto-submitted `multipart/report` from a mailer daemon.
pub open spec fn is_bounce_report(m: ParsedMessageView) -> bool {
    &&& m.auto_submitted is Some
    &&& m.from_address matches Some(from)
    &&& starts_with(lowercase_of(from), "mailer-daemon@"@)
    &&& message_has_content_type(m, "multipart"@, "report"@)
}

/// One of `rcpt_tos` is among `enforcing`, the recipients whose mailboxes
/// ask that unencrypted incoming mail be turned away.
pub open spec fn some_recipient_enforces(
    rcpt_tos: Seq<Seq<char>>,
    enforcing: Seq<Seq<char>>,
) -> bool {
    exists|i: int, j: int|
        0 <= i < rcpt_tos.len() && 0 <= j < enforcing.len() && #[trigger] rcpt_tos[i]
            == #[trigger] enforcing[j]
}

/// The verdict on an outgoing message: `None` accepts it, `Some` holds the
/// line that rejects it.
pub open spec fn outgoing_verdict(
    m: ParsedMessageView,
    mail_from: Seq<char>,
    rcpt_tos: Seq<Seq<char>>,
    passthrough_senders: Seq<Seq<char>>,
    passthrough_recipients: Seq<Seq<char>>,
) -> Option<Seq<char>> {
    if from_mismatch(m, mail_from) {
        Some(invalid_from_reply(m.from_address->0, mail_from))
    } else if is_encrypted_mail(m, true) || is_securejoin_message(m) {
        None
    } else if passthrough_senders.contains(mail_from) {
        None
    } else if is_self_sent_setup(m, mail_from, rcpt_tos) {
        None
    } else if all_passthrough(rcpt_tos, passthrough_recipients) {
        None
    } else {
        Some(ENCRYPTION_NEEDED_523@)
    }
}

/// The verdict on an incoming message: `None` accepts it, `Some` holds the
/// line that rejects it.
pub open spec fn incoming_verdict(
    m: ParsedMessageView,
    rcpt_tos: Seq<Seq<char>>,
    enforcing: Seq<Seq<char>>,
) -> Option<Seq<char>> {
    if is_encrypted_mail(m, false) || is_securejoin_message(m) {
        None
    } else if is_bounce_report(m) {
        None
    } else if some_recipient_enforces(rcpt_tos, enforcing) {
        Some(ENCRYPTION_NEEDED_523@)
    } else {
        None
    }
}

/// The verdict on a message: that of the outgoing rules where `mode` is
/// `outgoing`, else that of the incoming rules.
pub open spec fn verdict(
    m: ParsedMessageView,
    mail_from: Seq<char>,
    rcpt_tos: Seq<Seq<char>>,
    config: Config,
    mode: Seq<char>,
    enforcing: Seq<Seq<char>>,
) -> Option<Seq<char>> {
    if mode == "outgoing"@ {
        outgoing_verdict(
            m,
            mail_from,
            rcpt_tos,
            texts(config.passthrough_senders@),
            texts(config.passthrough_recipients@),
        )
    } else {
        incoming_verdict(m, rcpt_tos, enforcing)
    }
}

/// An outgoing message whose `From` header does not contradict the sender
/// is accepted exactly when it is encrypted, or a Secure-Join request, or
/// its sender is a passthrough sender, or it is a self-sent Autocrypt Setup
/// Message, or every recipient is a passthrough recipient.
pub proof fn lemma_outgoing_accepts_iff(
    m: ParsedMessageView,
    mail_from: Seq<char>,
    rcpt_tos: Seq<Seq<char>>,
    passthrough_senders: Seq<Seq<char>>,
    passthrough_recipients: Seq<Seq<char>>,
)
    requires
        !from_mismatch(m, mail_from),
    ensures
        outgoing_verdict(m, mail_from, rcpt_tos, passthrough_senders, passthrough_recipients)
            is None <==> {
            ||| is_encrypted_mail(m, true)
            ||| is_securejoin_message(m)
            ||| passthrough_senders.contains(mail_from)
            ||| is_self_sent_setup(m, mail_from, rcpt_tos)
            ||| all_passthrough(rcpt_tos, passthrough_recipients)
        },
{
}

/// An incoming message is accepted exactly when it is encrypted, or a
/// Secure-Join request, or a mailer-daemon report, or no recipient's
/// mailbox asks for enforcement.
pub proof fn lemma_incoming_accepts_iff(
    m: ParsedMessageView,
    rcpt_tos: Seq<Seq<char>>,
    enforcing: Seq<Seq<char>>,
)
    ensures
        incoming_verdict(m, rcpt_tos, enforcing) is None <==> {
            ||| is_encrypted_mail(m, false)
            ||| is_securejoin_message(m)
            ||| is_bounce_report(m)
            ||| !some_recipient_enforces(rcpt_tos, enforcing)
        },
{
}

/// Whether `recipient` is exempt by one of `passthrough_recipients`.
pub fn recipient_matches_passthrough(recipient: &str, passthrough_recipients: &[String]) -> (r:
    bool)
    ensures
        r == is_passthrough_recipient(recipient@, texts(passthrough_recipients@)),
{
    let rcpt = chars_of(recipient);
    let at: Vec<char> = vec!['@'];
    assert(at@ =~= seq!['@']);
    let mut j: usize = 0;
    while j < passthrough_recipients.len()
        invariant
            j <= passthrough_recipients@.len(),
            rcpt@ == recipient@,
            at@ == seq!['@'],
            forall|k: int|
                0 <= k < j ==> !exempts(#[trigger] texts(passthrough_recipients@)[k], recipient@),
        decreases passthrough_recipients@.len() - j,
    {
        let pattern = chars_of(passthrough_recipients[j].as_str());
        assert(pattern@ == texts(passthrough_recipients@)[j as int]);
        if same_chars(rcpt.as_slice(), pattern.as_slice()) {
            return true;
        }
        if has_prefix(pattern.as_slice(), at.as_slice()) && has_suffix(
            rcpt.as_slice(),
            pattern.as_slice(),
        ) {
            return true;
        }
        j += 1;
    }
    false
}

/// Whether `item` is one of `list`.
pub fn contains_text(list: &[String], item: &str) -> (r: bool)
    ensures
        r == texts(list@).contains(item@),
{
    let mut j: usize = 0;
    while j < list.len()
        invariant
            j <= list@.len(),
            forall|k: int| 0 <= k < j ==> texts(list@)[k] != item@,
        decreases list@.len() - j,
    {
        if same_text(list[j].as_str(), item) {
            assert(texts(list@)[j as int] == item@);
            return true;
        }
        j += 1;
    }
    false
}

/// Whether cleartext may not reach one of `rcpt_tos`.
pub fn any_recipient_enforces(config: &Config, rcpt_tos: &[String], enforcing: &[String]) -> (r:
    bool)
    ensures
        r == some_recipient_enforces(texts(rcpt_tos@), texts(enforcing@)),
{
    let mut i: usize = 0;
    while i < rcpt_tos.len()
        invariant
            i <= rcpt_tos@.len(),
            forall|a: int, b: int|
                0 <= a < i && 0 <= b < enforcing@.len() ==> #[trigger] texts(rcpt_tos@)[a]
                    != #[trigger] texts(enforcing@)[b],
        decreases rcpt_tos@.len() - i,
    {
        if !config.is_incoming_cleartext_ok(rcpt_tos[i].as_str(), enforcing) {
            let ghost b = choose|b: int|
                0 <= b < enforcing@.len() && texts(enforcing@)[b] == rcpt_tos@[i as int]@;
            assert(texts(rcpt_tos@)[i as int] == texts(enforcing@)[b]);
            return true;
        }
        assert forall|b: int| 0 <= b < enforcing@.len() implies texts(rcpt_tos@)[i as int]
            != #[trigger] texts(enforcing@)[b] by {
            assert(texts(enforcing@).contains(texts(enforcing@)[b]));
        }
        i += 1;
    }
    false
}

/// Whether every one of `rcpt_tos` is exempt by one of `patterns`.
pub fn all_recipients_passthrough(rcpt_tos: &[String], patterns: &[String]) -> (r: bool)
    ensures
        r == all_passthrough(texts(rcpt_tos@), texts(patterns@)),
{
    let mut i: usize = 0;
    while i < rcpt_tos.len()
        invariant
            i <= rcpt_tos@.len(),
            forall|k: int|
                0 <= k < i ==> is_passthrough_recipient(
                    #[trigger] texts(rcpt_tos@)[k],
                    texts(patterns@),
                ),
        decreases rcpt_tos@.len() - i,
    {
        if !recipient_matches_passthrough(rcpt_tos[i].as_str(), patterns) {
            assert(!is_passthrough_recipient(texts(rcpt_tos@)[i as int], texts(patterns@)));
            return false;
        }
        i += 1;
    }
    true
}

/// Decides on a message: `None` accepts it, `Some` holds the line that
/// rejects it. `enforcing` lists the recipients whose mailboxes ask that
/// unencrypted incoming mail be turned away; it is read in incoming mode
/// only.
pub fn check_data(
    msg: &ParsedMessage,
    mail_from: &str,
    rcpt_tos: &[String],
    config: &Config,
    mode: &str,
    enforcing: &[String],
) -> (r: Option<String>)
    ensures
        match r {
            Some(line) => verdict(
                msg@,
                mail_from@,
                texts(rcpt_tos@),
                *config,
                mode@,
                texts(enforcing@),
            ) == Some(line@),
            None => verdict(msg@, mail_from@, texts(rcpt_tos@), *config, mode@, texts(enforcing@))
                is None,
        },
{
    let outgoing = same_text(mode, "outgoing");
    let is_encrypted = check_encrypted(msg, outgoing);
    let is_sj = is_securejoin(msg);
    if outgoing {
        let sender = mail_from.to_lowercase();
        match &msg.from_address {
            Some(from) => {
                let from_lower = from.as_str().to_lowercase();
                if !same_text(sender.as_str(), from_lower.as_str()) {
                    let mut line = String::from_str("500 Invalid FROM <");
                    line.append(from.as_str());
                    line.append("> for <");
                    line.append(mail_from);
                    line.append(">");
                    return Some(line);
                }
            },
            None => {},
        }
        if is_encrypted || is_sj {
            return None;
        }
        if contains_text(config.passthrough_senders.as_slice(), mail_from) {
            return None;
        }
        if rcpt_tos.len() == 1 {
            let rcpt = rcpt_tos[0].as_str().to_lowercase();
            assert(texts(rcpt_tos@)[0] == rcpt_tos@[0]@);
            if same_text(rcpt.as_str(), sender.as_str()) {
                let setup = match &msg.subject {
                    Some(subject) => same_text(subject.as_str(), "Autocrypt Setup Message"),
                    None => false,
                };
                if setup && is_content_type(msg, "multipart", "mixed") {
                    return None;
                }
            }
        }
        if all_recipients_passthrough(rcpt_tos, config.passthrough_recipients.as_slice()) {
            return None;
        }
        Some(String::from_str(ENCRYPTION_NEEDED_523))
    } else {
        if is_encrypted || is_sj {
            return None;
        }
        if msg.auto_submitted.is_some() {
            match &msg.from_address {
                Some(from) => {
                    let from_lower = chars_of(from.as_str().to_lowercase().as_str());
                    let daemon = chars_of("mailer-daemon@");
                    if has_prefix(from_lower.as_slice(), daemon.as_slice()) && is_content_type(
                        msg,
                        "multipart",
                        "report",
                    ) {
                        return None;
                    }
                },
                None => {},
            }
        }
        if any_recipient_enforces(config, rcpt_tos, enforcing) {
            return Some(String::from_str(ENCRYPTION_NEEDED_523));
        }
        None
    }
}

} // verus!
