//! One SMTP session as a state machine. The driver reports what happened on
//! the connection; the machine says what to reply and what to do next.

use crate::command::{address_in, classify_command, command_of, extract_addr, Command};
use crate::config::Config;
use crate::mime::{parse_message, parsed_message, ParsedMessage, ParsedMessageView};
use crate::policy::{check_data, verdict};
use crate::rate_limit::{after_probe, probe_allows, SendRateLimiter};
use crate::reinject::{append_range, CR, DOT, LF};
use crate::text::{
    chars_of, decimal, decimal_text, same_text, string_of, texts, trim, trimmed, uppercase_of,
};
use vstd::prelude::*;
use vstd::string::StringExecFns;
use vstd::string::StringSliceAdditionalSpecFns;

verus! {

/// Whether `mode` names one of the two modes, `incoming` and `outgoing`.
pub fn is_valid_mode(mode: &str) -> (r: bool)
    ensures
        r == (mode@ == "incoming"@ || mode@ == "outgoing"@),
{
    same_text(mode, "incoming") || same_text(mode, "outgoing")
}

/// Where a session stands.
#[derive(Debug, Clone, Copy, PartialEq, Eq, Structural)]
pub enum Phase {
    /// Connected, not yet greeted.
    Greeting,
    /// Reading commands.
    Envelope,
    /// Reading the lines of a message body.
    Data,
    /// Waiting to learn which recipients' mailboxes enforce encryption.
    Evaluating,
    /// Waiting to learn whether the message was handed on.
    Reinjecting,
    /// Over.
    Closed,
}

/// One SMTP session: its phase, the envelope so far, and the message body
/// so far.
#[derive(Debug, PartialEq, Eq)]
pub struct Session {
    pub phase: Phase,
    pub mail_from: String,
    pub rcpt_tos: Vec<String>,
    pub data: Vec<u8>,
}

/// What happened on the connection, or what the driver found out.
#[derive(Debug, PartialEq, Eq)]
pub enum Event {
    /// The client has connected.
    Connected,
    /// A line has been read, its line ending included.
    Line(String),
    /// The client has closed the connection.
    Eof,
    /// The recipients, among those of the envelope, whose mailboxes ask
    /// that unencrypted incoming mail be turned away.
    Enforcing(Vec<String>),
    /// The message was handed on (`true`), or handing it on failed.
    Reinjected(bool),
}

/// What the driver is to do next.
#[derive(Debug, PartialEq, Eq)]
pub enum Action {
    /// Send the reply, then read the next line.
    Reply(String),
    /// Read the next line.
    Read,
    /// Find out which recipients' mailboxes enforce encryption, and report
    /// them with `Event::Enforcing`.
    ProbeMailboxes,
    /// Hand the message on, and report the outcome with `Event::Reinjected`.
    Reinject,
    /// Send the reply, if there is one, and close the connection.
    Close(Option<String>),
}

/// A session as plain values.
pub struct SessionView {
    pub phase: Phase,
    pub mail_from: Seq<char>,
    pub rcpt_tos: Seq<Seq<char>>,
    pub data: Seq<u8>,
}

/// An event as plain values.
pub enum EventView {
    Connected,
    Line(Seq<char>),
    Eof,
    Enforcing(Seq<Seq<char>>),
    Reinjected(bool),
}

/// An action as plain values.
pub enum ActionView {
    Reply(Seq<char>),
    Read,
    ProbeMailboxes,
    Reinject,
    Close(Option<Seq<char>>),
}

impl View for Session {
    type V = SessionView;

    open spec fn view(&self) -> SessionView {
        SessionView {
            phase: self.phase,
            mail_from: self.mail_from@,
            rcpt_tos: texts(self.rcpt_tos@),
            data: self.data@,
        }
    }
}

impl View for Event {
    type V = EventView;

    open spec fn view(&self) -> EventView {
        match self {
            Event::Connected => EventView::Connected,
            Event::Line(line) => EventView::Line(line@),
            Event::Eof => EventView::Eof,
            Event::Enforcing(list) => EventView::Enforcing(texts(list@)),
            Event::Reinjected(ok) => EventView::Reinjected(*ok),
        }
    }
}

impl View for Action {
    type V = ActionView;

    open spec fn view(&self) -> ActionView {
        match self {
            Action::Reply(line) => ActionView::Reply(line@),
            Action::Read => ActionView::Read,
            Action::ProbeMailboxes => ActionView::ProbeMailboxes,
            Action::Reinject => ActionView::Reinject,
            Action::Close(Some(line)) => ActionView::Close(Some(line@)),
            Action::Close(None) => ActionView::Close(None),
        }
    }
}

/// A line of the message body as it is kept: a line that begins with a
/// full stop loses it.
pub open spec fn unstuffed_line(line: Seq<u8>) -> Seq<u8> {
    if line.len() > 0 && line[0] == DOT {
        line.skip(1)
    } else {
        line
    }
}

/// A line that ends the message body: a lone full stop.
pub open spec fn is_end_of_data(line: Seq<u8>) -> bool {
    line == seq![DOT, CR, LF] || line == seq![DOT, LF]
}

/// The greeting.
pub open spec fn greeting() -> Seq<char> {
    "220 localhost ESMTP\r\n"@
}

/// The reply that all is well.
pub open spec fn ok_reply() -> Seq<char> {
    "250 OK\r\n"@
}

/// The reply to `HELO` and `EHLO`, which announces the size limit.
pub open spec fn helo_reply(max_message_size: nat) -> Seq<char> {
    "250-localhost\r\n250-PIPELINING\r\n250-SIZE "@ + decimal(max_message_size) + "\r\n250 OK\r\n"@
}

/// The reply to a sender who is over the rate limit.
pub open spec fn too_much_mail_reply(addr: Seq<char>) -> Seq<char> {
    "450 4.7.1: Too much mail from "@ + addr + "\r\n"@
}

/// A session with an empty envelope that reads commands.
pub open spec fn fresh_envelope() -> SessionView {
    SessionView {
        phase: Phase::Envelope,
        mail_from: Seq::empty(),
        rcpt_tos: Seq::empty(),
        data: Seq::empty(),
    }
}

/// The session is closed without a word.
pub open spec fn closed(s: SessionView) -> (SessionView, ActionView) {
    (SessionView { phase: Phase::Closed, ..s }, ActionView::Close(None))
}

/// What a command line does to a session that reads commands. `allowed`
/// is the rate limiter's answer; it is read for `MAIL FROM` in outgoing
/// mode only.
pub open spec fn envelope_step(
    s: SessionView,
    line: Seq<char>,
    max_message_size: nat,
    outgoing: bool,
    allowed: bool,
) -> (SessionView, ActionView) {
    let cmd = trim(line);
    match command_of(uppercase_of(cmd)) {
        Command::Helo => (s, ActionView::Reply(helo_reply(max_message_size))),
        Command::MailFrom => {
            let addr = address_in(cmd, "MAIL FROM:"@.len());
            (
                SessionView { mail_from: addr, ..s },
                ActionView::Reply(
                    if outgoing && !allowed {
                        too_much_mail_reply(addr)
                    } else {
                        ok_reply()
                    },
                ),
            )
        },
        Command::RcptTo => (
            SessionView { rcpt_tos: s.rcpt_tos.push(address_in(cmd, "RCPT TO:"@.len())), ..s },
            ActionView::Reply(ok_reply()),
        ),
        Command::Data => (
            SessionView { phase: Phase::Data, data: Seq::empty(), ..s },
            ActionView::Reply("354 End data with <CR><LF>.<CR><LF>\r\n"@),
        ),
        Command::Quit => (
            SessionView { phase: Phase::Closed, ..s },
            ActionView::Close(Some("221 Bye\r\n"@)),
        ),
        Command::Rset => (
            SessionView { mail_from: Seq::empty(), rcpt_tos: Seq::empty(), ..s },
            ActionView::Reply(ok_reply()),
        ),
        Command::Noop => (s, ActionView::Reply(ok_reply())),
        Command::Unknown => (s, ActionView::Reply("500 Unknown command\r\n"@)),
    }
}

/// The sender that a command line puts to the rate limiter, if it does:
/// the address of a `MAIL FROM` line in outgoing mode.
pub open spec fn probed_sender(s: SessionView, e: EventView, outgoing: bool) -> Option<Seq<char>> {
    match e {
        EventView::Line(line) => if s.phase == Phase::Envelope && outgoing && command_of(
            uppercase_of(trim(line)),
        ) == Command::MailFrom {
            Some(address_in(trim(line), "MAIL FROM:"@.len()))
        } else {
            None
        },
        _ => None,
    }
}

/// The verdict on the complete message of a session, given what the
/// parser made of its body and which recipients' mailboxes enforce
/// encryption. A body that is no message is turned away with a 451 reply,
/// a message that the policy rejects with the policy's line, and in both
/// cases the envelope is cleared; a message that the policy accepts is to
/// be handed on.
pub open spec fn concluded(
    s: SessionView,
    parsed: Option<ParsedMessageView>,
    enforcing: Seq<Seq<char>>,
    config: Config,
    mode: Seq<char>,
) -> (SessionView, ActionView) {
    match parsed {
        None => (fresh_envelope(), ActionView::Reply("451 Failed to parse message\r\n"@)),
        Some(m) => match verdict(m, s.mail_from, s.rcpt_tos, config, mode, enforcing) {
            Some(line) => (fresh_envelope(), ActionView::Reply(line + "\r\n"@)),
            None => (SessionView { phase: Phase::Reinjecting, ..s }, ActionView::Reinject),
        },
    }
}

/// The message is complete: its body is parsed and the outcome judged.
pub open spec fn evaluate(
    s: SessionView,
    enforcing: Seq<Seq<char>>,
    config: Config,
    mode: Seq<char>,
) -> (SessionView, ActionView) {
    concluded(s, parsed_message(s.data), enforcing, config, mode)
}

/// The body has ended. An outgoing message is judged at once; for an
/// incoming one the driver is first asked about the recipients' mailboxes.
pub open spec fn end_of_data(s: SessionView, config: Config, mode: Seq<char>) -> (
    SessionView,
    ActionView,
) {
    if mode == "outgoing"@ {
        evaluate(s, Seq::empty(), config, mode)
    } else {
        (SessionView { phase: Phase::Evaluating, ..s }, ActionView::ProbeMailboxes)
    }
}

/// What an event does to a session, and what the driver is to do next. An
/// event that the phase does not await closes the session.
pub open spec fn step(
    s: SessionView,
    e: EventView,
    config: Config,
    mode: Seq<char>,
    allowed: bool,
) -> (SessionView, ActionView) {
    match (s.phase, e) {
        (Phase::Greeting, EventView::Connected) => (
            SessionView { phase: Phase::Envelope, ..s },
            ActionView::Reply(greeting()),
        ),
        (Phase::Envelope, EventView::Line(line)) => envelope_step(
            s,
            line,
            config.max_message_size as nat,
            mode == "outgoing"@,
            allowed,
        ),
        (Phase::Data, EventView::Line(line)) => {
            let bytes = vstd::utf8::encode_utf8(line);
            if is_end_of_data(bytes) {
                end_of_data(s, config, mode)
            } else {
                (SessionView { data: s.data + unstuffed_line(bytes), ..s }, ActionView::Read)
            }
        },
        (Phase::Data, EventView::Eof) => end_of_data(s, config, mode),
        (Phase::Evaluating, EventView::Enforcing(enforcing)) => evaluate(
            s,
            enforcing,
            config,
            mode,
        ),
        (Phase::Reinjecting, EventView::Reinjected(ok)) => (
            fresh_envelope(),
            ActionView::Reply(
                if ok {
                    ok_reply()
                } else {
                    "451 Error re-injecting mail\r\n"@
                },
            ),
        ),
        _ => closed(s),
    }
}

/// A message is handed on only where the parser found a message in the
/// body of the session and the policy accepts it for the envelope of the
/// session.
pub proof fn lemma_handed_on_only_if_accepted(
    s: SessionView,
    e: EventView,
    config: Config,
    mode: Seq<char>,
    allowed: bool,
)
    requires
        step(s, e, config, mode, allowed).1 == ActionView::Reinject,
    ensures
        parsed_message(s.data) matches Some(m) && verdict(
            m,
            s.mail_from,
            s.rcpt_tos,
            config,
            mode,
            match e {
                EventView::Enforcing(enforcing) => enforcing,
                _ => Seq::empty(),
            },
        ) is None,
{
}

impl Session {
    /// A session that has just been connected.
    pub fn new() -> (s: Session)
        ensures
            s@ == (SessionView {
                phase: Phase::Greeting,
                mail_from: Seq::empty(),
                rcpt_tos: Seq::empty(),
                data: Seq::empty(),
            }),
    {
        let s = Session {
            phase: Phase::Greeting,
            mail_from: String::new(),
            rcpt_tos: Vec::new(),
            data: Vec::new(),
        };
        assert(s@.rcpt_tos =~= Seq::empty());
        s
    }

    /// Clears the envelope and the body, and goes back to reading commands.
    fn reset(&mut self)
        ensures
            final(self)@ == fresh_envelope(),
    {
        self.phase = Phase::Envelope;
        self.mail_from = String::new();
        self.rcpt_tos = Vec::new();
        self.data = Vec::new();
        assert(self@.rcpt_tos =~= Seq::empty());
    }

    /// Closes the session without a word.
    fn close(&mut self) -> (action: Action)
        ensures
            (final(self)@, action@) == closed(old(self)@),
    {
        self.phase = Phase::Closed;
        Action::Close(None)
    }

    /// Takes in one line of the message body. Returns whether the line ends
    /// the body; a line that does not is added to it, without the full stop
    /// that it begins with, if it begins with one.
    fn take_data_line(&mut self, line: &str) -> (ended: bool)
        ensures
            ended == is_end_of_data(line.spec_bytes()),
            ended ==> *final(self) == *old(self),
            !ended ==> final(self)@ == (SessionView {
                data: old(self)@.data + unstuffed_line(line.spec_bytes()),
                ..old(self)@
            }),
    {
        let bytes = line.as_bytes();
        let n = bytes.len();
        if n == 3 && bytes[0] == DOT && bytes[1] == CR && bytes[2] == LF {
            assert(bytes@ =~= seq![DOT, CR, LF]);
            return true;
        }
        if n == 2 && bytes[0] == DOT && bytes[1] == LF {
            assert(bytes@ =~= seq![DOT, LF]);
            return true;
        }
        assert(!is_end_of_data(bytes@)) by {
            if bytes@ == seq![DOT, CR, LF] {
                assert(seq![DOT, CR, LF].len() == 3);
                assert(bytes@[0] == DOT && bytes@[1] == CR && bytes@[2] == LF);
            }
            if bytes@ == seq![DOT, LF] {
                assert(seq![DOT, LF].len() == 2);
                assert(bytes@[0] == DOT && bytes@[1] == LF);
            }
        }
        let from: usize = if n > 0 && bytes[0] == DOT {
            1
        } else {
            0
        };
        append_range(&mut self.data, bytes, from, n);
        assert(bytes@.subrange(from as int, n as int) =~= unstuffed_line(bytes@));
        false
    }
}

/// The filter as one process runs it: its configuration, its rate
/// limiter, and its mode, `outgoing` or `incoming`.
pub struct SmtpProxy {
    pub config: Config,
    pub rate_limiter: SendRateLimiter,
    pub mode: String,
}

impl SmtpProxy {
    /// Whether the proxy filters outgoing mail. Any mode but `outgoing` is
    /// incoming.
    pub open spec fn is_outgoing(&self) -> bool {
        self.mode@ == "outgoing"@
    }

    /// The rate limiter's answer to the event, where the event puts a
    /// sender to it at time `now`; `true` where it does not.
    pub open spec fn limiter_allows(&self, s: SessionView, e: EventView, now: u128) -> bool {
        match probed_sender(s, e, self.is_outgoing()) {
            Some(addr) => probe_allows(
                self.rate_limiter.stamps(addr),
                now,
                self.config.max_user_send_per_minute,
            ),
            None => true,
        }
    }

    /// The rate limiter's record after `before` has handled the event at
    /// time `now`: the probed sender's record is that after the probe, and
    /// every other record is as it was.
    pub open spec fn limiter_follows(
        &self,
        before: SmtpProxy,
        s: SessionView,
        e: EventView,
        now: u128,
    ) -> bool {
        forall|sender: Seq<char>| #[trigger]
            self.rate_limiter.stamps(sender) == if probed_sender(s, e, before.is_outgoing())
                == Some(sender) {
                after_probe(
                    before.rate_limiter.stamps(sender),
                    now,
                    before.config.max_user_send_per_minute,
                )
            } else {
                before.rate_limiter.stamps(sender)
            }
    }

    /// A proxy with the given configuration, rate limiter and mode.
    pub fn new(config: Config, rate_limiter: SendRateLimiter, mode: String) -> (proxy: SmtpProxy)
        ensures
            proxy.config == config,
            proxy.rate_limiter == rate_limiter,
            proxy.mode == mode,
    {
        SmtpProxy { config, rate_limiter, mode }
    }

    /// Whether the proxy filters outgoing mail.
    pub fn outgoing(&self) -> (r: bool)
        ensures
            r == self.is_outgoing(),
    {
        same_text(self.mode.as_str(), "outgoing")
    }

    /// The port on the loopback interface to listen on.
    pub fn listen_port(&self) -> (port: u16)
        ensures
            port == if self.is_outgoing() {
                self.config.filtermail_smtp_port
            } else {
                self.config.filtermail_smtp_port_incoming
            },
    {
        if self.outgoing() {
            self.config.filtermail_smtp_port
        } else {
            self.config.filtermail_smtp_port_incoming
        }
    }

    /// The port on the loopback interface at which the downstream MTA
    /// takes accepted mail.
    pub fn reinject_port(&self) -> (port: u16)
        ensures
            port == if self.is_outgoing() {
                self.config.postfix_reinject_port
            } else {
                self.config.postfix_reinject_port_incoming
            },
    {
        if self.outgoing() {
            self.config.postfix_reinject_port
        } else {
            self.config.postfix_reinject_port_incoming
        }
    }

    /// Judges the complete message of `session`, given what the parser
    /// made of its body.
    pub fn conclude(
        &self,
        session: &mut Session,
        parsed: Option<ParsedMessage>,
        enforcing: &[String],
    ) -> (action: Action)
        ensures
            (final(session)@, action@) == concluded(
                old(session)@,
                match parsed {
                    Some(m) => Some(m@),
                    None => None,
                },
                texts(enforcing@),
                self.config,
                self.mode@,
            ),
    {
        let verdict = match parsed {
            Some(msg) => check_data(
                &msg,
                session.mail_from.as_str(),
                session.rcpt_tos.as_slice(),
                &self.config,
                self.mode.as_str(),
                enforcing,
            ),
            None => {
                session.reset();
                return Action::Reply(String::from_str("451 Failed to parse message\r\n"));
            },
        };
        match verdict {
            Some(line) => {
                let mut reply = line;
                reply.append("\r\n");
                session.reset();
                Action::Reply(reply)
            },
            None => {
                session.phase = Phase::Reinjecting;
                Action::Reinject
            },
        }
    }

    /// Parses and judges the complete message of `session`.
    fn judge(&self, session: &mut Session, enforcing: &[String]) -> (action: Action)
        ensures
            (final(session)@, action@) == evaluate(
                old(session)@,
                texts(enforcing@),
                self.config,
                self.mode@,
            ),
    {
        let parsed = parse_message(session.data.as_slice());
        self.conclude(session, parsed, enforcing)
    }

    /// Acts on the end of the message body.
    fn finish_data(&self, session: &mut Session) -> (action: Action)
        ensures
            (final(session)@, action@) == end_of_data(old(session)@, self.config, self.mode@),
    {
        if self.outgoing() {
            let nobody: Vec<String> = Vec::new();
            assert(texts(nobody@) =~= Seq::empty());
            self.judge(session, nobody.as_slice())
        } else {
            session.phase = Phase::Evaluating;
            Action::ProbeMailboxes
        }
    }

    /// Acts on one command line.
    fn command(&mut self, session: &mut Session, line: &str, now: u128) -> (action: Action)
        requires
            old(session).phase == Phase::Envelope,
        ensures
            final(self).config == old(self).config,
            final(self).mode == old(self).mode,
            (final(session)@, action@) == envelope_step(
                old(session)@,
                line@,
                old(self).config.max_message_size as nat,
                old(self).is_outgoing(),
                old(self).limiter_allows(old(session)@, EventView::Line(line@), now),
            ),
            final(self).limiter_follows(*old(self), old(session)@, EventView::Line(line@), now),
    {
        let chars = chars_of(line);
        let cmd = string_of(trimmed(chars.as_slice()));
        let upper = cmd.as_str().to_uppercase();
        match classify_command(upper.as_str()) {
            Command::Helo => {
                let mut reply = String::from_str("250-localhost\r\n250-PIPELINING\r\n250-SIZE ");
                reply.append(decimal_text(self.config.max_message_size as u64).as_str());
                reply.append("\r\n250 OK\r\n");
                Action::Reply(reply)
            },
            Command::MailFrom => {
                session.mail_from = extract_addr(cmd.as_str(), "MAIL FROM:");
                if self.outgoing() {
                    let allowed = self.rate_limiter.is_sending_allowed_at(
                        session.mail_from.as_str(),
                        self.config.max_user_send_per_minute,
                        now,
                    );
                    if !allowed {
                        let mut reply = String::from_str("450 4.7.1: Too much mail from ");
                        reply.append(session.mail_from.as_str());
                        reply.append("\r\n");
                        return Action::Reply(reply);
                    }
                }
                Action::Reply(String::from_str("250 OK\r\n"))
            },
            Command::RcptTo => {
                let addr = extract_addr(cmd.as_str(), "RCPT TO:");
                session.rcpt_tos.push(addr);
                assert(session@.rcpt_tos =~= old(session)@.rcpt_tos.push(addr@));
                Action::Reply(String::from_str("250 OK\r\n"))
            },
            Command::Data => {
                session.phase = Phase::Data;
                session.data = Vec::new();
                Action::Reply(String::from_str("354 End data with <CR><LF>.<CR><LF>\r\n"))
            },
            Command::Quit => {
                session.phase = Phase::Closed;
                Action::Close(Some(String::from_str("221 Bye\r\n")))
            },
            Command::Rset => {
                session.mail_from = String::new();
                session.rcpt_tos = Vec::new();
                assert(session@.rcpt_tos =~= Seq::empty());
                Action::Reply(String::from_str("250 OK\r\n"))
            },
            Command::Noop => Action::Reply(String::from_str("250 OK\r\n")),
            Command::Unknown => Action::Reply(String::from_str("500 Unknown command\r\n")),
        }
    }

    /// Acts on `event` as if the clock read `now`: the session moves on as
    /// `step` says, and the rate limiter's record changes only for the
    /// sender of a `MAIL FROM` line in outgoing mode.
    pub fn handle_at(&mut self, session: &mut Session, event: Event, now: u128) -> (action: Action)
        ensures
            final(self).config == old(self).config,
            final(self).mode == old(self).mode,
            (final(session)@, action@) == step(
                old(session)@,
                event@,
                old(self).config,
                old(self).mode@,
                old(self).limiter_allows(old(session)@, event@, now),
            ),
            final(self).limiter_follows(*old(self), old(session)@, event@, now),
    {
        match event {
            Event::Connected => match session.phase {
                Phase::Greeting => {
                    session.phase = Phase::Envelope;
                    Action::Reply(String::from_str("220 localhost ESMTP\r\n"))
                },
                _ => session.close(),
            },
            Event::Line(line) => match session.phase {
                Phase::Envelope => self.command(session, line.as_str(), now),
                Phase::Data => {
                    if session.take_data_line(line.as_str()) {
                        self.finish_data(session)
                    } else {
                        Action::Read
                    }
                },
                _ => session.close(),
            },
            Event::Eof => match session.phase {
                Phase::Data => self.finish_data(session),
                _ => session.close(),
            },
            Event::Enforcing(enforcing) => match session.phase {
                Phase::Evaluating => self.judge(session, enforcing.as_slice()),
                _ => session.close(),
            },
            Event::Reinjected(ok) => match session.phase {
                Phase::Reinjecting => {
                    session.reset();
                    if ok {
                        Action::Reply(String::from_str("250 OK\r\n"))
                    } else {
                        Action::Reply(String::from_str("451 Error re-injecting mail\r\n"))
                    }
                },
                _ => session.close(),
            },
        }
    }

    /// Acts on `event` at the present time. Whatever the clock reads, the
    /// outcome is that of `handle_at` for some time.
    pub fn handle(&mut self, session: &mut Session, event: Event) -> (action: Action)
        ensures
            final(self).config == old(self).config,
            final(self).mode == old(self).mode,
            exists|now: u128|
                {
                    &&& (final(session)@, action@) == step(
                        old(session)@,
                        event@,
                        old(self).config,
                        old(self).mode@,
                        #[trigger] old(self).limiter_allows(old(session)@, event@, now),
                    )
                    &&& final(self).limiter_follows(*old(self), old(session)@, event@, now)
                },
    {
        let now = self.rate_limiter.now();
        let action = self.handle_at(session, event, now);
        assert(old(self).limiter_allows(old(session)@, event@, now) == old(self).limiter_allows(
            old(session)@,
            event@,
            now,
        ));
        action
    }
}

} // verus!
