use madfilter::config::Config;
use madfilter::mime::{MimePart, ParsedMessage, PartBody};
use madfilter::rate_limit::SendRateLimiter;
use madfilter::command::{classify_command, extract_addr, Command};
use madfilter::reinject::{dot_stuff, reinject_script};
use madfilter::text::decimal_text;
use madfilter::smtp::{is_valid_mode, Action, Event, Phase, Session, SmtpProxy};

const OK: &str = "250 OK\r\n";
const REJECT: &str = "523 Encryption Needed: Invalid Unencrypted Mail\r\n";

const ENCRYPTED: &[&str] = &[
    "From: a@dom\r\n",
    "To: x@other\r\n",
    "Content-Type: multipart/encrypted; protocol=\"application/pgp-encrypted\"; boundary=\"b1\"\r\n",
    "\r\n",
    "--b1\r\n",
    "Content-Type: application/pgp-encrypted\r\n",
    "\r\n",
    "Version: 1\r\n",
    "\r\n",
    "--b1\r\n",
    "Content-Type: application/octet-stream\r\n",
    "\r\n",
    "-----BEGIN PGP MESSAGE-----\r\n",
    "\r\n",
    "wQMBAgPSBAQFBgc=\r\n",
    "=1qUZ\r\n",
    "-----END PGP MESSAGE-----\r\n",
    "\r\n",
    "--b1--\r\n",
];

fn config(max_user_send_per_minute: u32) -> Config {
    Config {
        mail_domain: "dom".to_string(),
        max_user_send_per_minute,
        max_message_size: 31457280,
        passthrough_senders: vec![],
        passthrough_recipients: vec![],
        filtermail_smtp_port: 10080,
        filtermail_smtp_port_incoming: 10081,
        postfix_reinject_port: 10025,
        postfix_reinject_port_incoming: 10026,
        mailboxes_dir: "/home/vmail/mail/dom".to_string(),
    }
}

fn proxy(mode: &str, max_user_send_per_minute: u32) -> SmtpProxy {
    SmtpProxy::new(config(max_user_send_per_minute), SendRateLimiter::new(), mode.to_string())
}

fn line(p: &mut SmtpProxy, s: &mut Session, text: &str) -> Action {
    p.handle_at(s, Event::Line(text.to_string()), 0)
}

fn reply(text: &str) -> Action {
    Action::Reply(text.to_string())
}

/// Greets, and sends the envelope and `DATA`.
fn open(p: &mut SmtpProxy, mail_from: &str, rcpt_tos: &[&str]) -> Session {
    let mut s = Session::new();
    assert_eq!(p.handle_at(&mut s, Event::Connected, 0), reply("220 localhost ESMTP\r\n"));
    assert_eq!(line(p, &mut s, &format!("MAIL FROM:<{}>\r\n", mail_from)), reply(OK));
    for rcpt in rcpt_tos {
        assert_eq!(line(p, &mut s, &format!("RCPT TO:<{}>\r\n", rcpt)), reply(OK));
    }
    assert_eq!(line(p, &mut s, "DATA\r\n"), reply("354 End data with <CR><LF>.<CR><LF>\r\n"));
    assert_eq!(s.phase, Phase::Data);
    s
}

/// Sends the body and the closing full stop; returns what the last line
/// brought.
fn send_body(p: &mut SmtpProxy, s: &mut Session, body: &[&str]) -> Action {
    for text in body {
        assert_eq!(line(p, s, text), Action::Read);
    }
    line(p, s, ".\r\n")
}

fn assert_fresh_envelope(s: &Session) {
    assert_eq!(s.phase, Phase::Envelope);
    assert_eq!(s.mail_from, "");
    assert!(s.rcpt_tos.is_empty());
    assert!(s.data.is_empty());
}

#[test]
fn new_session_waits_to_greet() {
    let s = Session::new();
    assert_eq!(s.phase, Phase::Greeting);
    assert_eq!(s.mail_from, "");
    assert!(s.rcpt_tos.is_empty());
    assert!(s.data.is_empty());
}

#[test]
fn greeting_opens_the_session() {
    let mut p = proxy("outgoing", 60);
    let mut s = Session::new();
    assert_eq!(p.handle_at(&mut s, Event::Connected, 0), reply("220 localhost ESMTP\r\n"));
    assert_eq!(s.phase, Phase::Envelope);
}

#[test]
fn helo_announces_pipelining_and_the_size_limit() {
    let mut p = proxy("outgoing", 60);
    let mut s = open(&mut p, "a@dom", &[]);
    s.phase = Phase::Envelope;
    let expected = "250-localhost\r\n250-PIPELINING\r\n250-SIZE 31457280\r\n250 OK\r\n";
    assert_eq!(line(&mut p, &mut s, "EHLO client.example\r\n"), reply(expected));
    assert_eq!(line(&mut p, &mut s, "helo x\r\n"), reply(expected));
    assert_eq!(line(&mut p, &mut s, "HELO\r\n"), reply(expected));
    assert_eq!(s.mail_from, "a@dom");
}

#[test]
fn helo_announces_the_configured_size() {
    let mut cfg = config(60);
    cfg.max_message_size = 1000;
    let mut p = SmtpProxy::new(cfg, SendRateLimiter::new(), "incoming".to_string());
    let mut s = Session::new();
    p.handle_at(&mut s, Event::Connected, 0);
    assert_eq!(
        line(&mut p, &mut s, "EHLO x\r\n"),
        reply("250-localhost\r\n250-PIPELINING\r\n250-SIZE 1000\r\n250 OK\r\n")
    );
}

#[test]
fn envelope_commands_fill_the_envelope() {
    let mut p = proxy("incoming", 60);
    let mut s = Session::new();
    p.handle_at(&mut s, Event::Connected, 0);
    assert_eq!(line(&mut p, &mut s, "MAIL FROM:<A@Dom> SIZE=100\r\n"), reply(OK));
    assert_eq!(line(&mut p, &mut s, "rcpt to:<x@other>\r\n"), reply(OK));
    assert_eq!(line(&mut p, &mut s, "  RCPT TO: y@other  \r\n"), reply(OK));
    assert_eq!(s.mail_from, "A@Dom");
    assert_eq!(s.rcpt_tos, vec!["x@other".to_string(), "y@other".to_string()]);
    assert_eq!(s.phase, Phase::Envelope);
}

#[test]
fn rset_clears_the_envelope() {
    let mut p = proxy("incoming", 60);
    let mut s = open(&mut p, "a@dom", &["x@other"]);
    s.phase = Phase::Envelope;
    assert_eq!(line(&mut p, &mut s, "RSET\r\n"), reply(OK));
    assert_eq!(s.mail_from, "");
    assert!(s.rcpt_tos.is_empty());
    assert_eq!(s.phase, Phase::Envelope);
}

#[test]
fn noop_changes_nothing() {
    let mut p = proxy("incoming", 60);
    let mut s = open(&mut p, "a@dom", &["x@other"]);
    s.phase = Phase::Envelope;
    assert_eq!(line(&mut p, &mut s, "noop\r\n"), reply(OK));
    assert_eq!(s.mail_from, "a@dom");
    assert_eq!(s.rcpt_tos, vec!["x@other".to_string()]);
}

#[test]
fn quit_says_bye_and_closes() {
    let mut p = proxy("incoming", 60);
    let mut s = Session::new();
    p.handle_at(&mut s, Event::Connected, 0);
    assert_eq!(line(&mut p, &mut s, "QUIT\r\n"), Action::Close(Some("221 Bye\r\n".to_string())));
    assert_eq!(s.phase, Phase::Closed);
}

#[test]
fn unknown_commands_get_a_500() {
    let mut p = proxy("incoming", 60);
    let mut s = Session::new();
    p.handle_at(&mut s, Event::Connected, 0);
    for text in ["VRFY a\r\n", "\r\n", "DATA now\r\n", "QUIT please\r\n", "MAILFROM:<a>\r\n"] {
        assert_eq!(line(&mut p, &mut s, text), reply("500 Unknown command\r\n"));
        assert_eq!(s.phase, Phase::Envelope);
    }
}

#[test]
fn end_of_file_closes_the_session() {
    let mut p = proxy("incoming", 60);
    let mut s = Session::new();
    p.handle_at(&mut s, Event::Connected, 0);
    assert_eq!(p.handle_at(&mut s, Event::Eof, 0), Action::Close(None));
    assert_eq!(s.phase, Phase::Closed);
}

#[test]
fn an_event_out_of_turn_closes_the_session() {
    let mut p = proxy("incoming", 60);
    let events = || {
        vec![
            Event::Connected,
            Event::Line("NOOP\r\n".to_string()),
            Event::Eof,
            Event::Enforcing(vec![]),
            Event::Reinjected(true),
        ]
    };
    let awaited = |phase: Phase, event: &Event| {
        matches!(
            (phase, event),
            (Phase::Greeting, Event::Connected)
                | (Phase::Envelope, Event::Line(_))
                | (Phase::Data, Event::Line(_))
                | (Phase::Data, Event::Eof)
                | (Phase::Evaluating, Event::Enforcing(_))
                | (Phase::Reinjecting, Event::Reinjected(_))
        )
    };
    for phase in [
        Phase::Greeting,
        Phase::Envelope,
        Phase::Data,
        Phase::Evaluating,
        Phase::Reinjecting,
        Phase::Closed,
    ] {
        for event in events() {
            if awaited(phase, &event) {
                continue;
            }
            let mut s = Session::new();
            s.phase = phase;
            s.mail_from = "a@dom".to_string();
            assert_eq!(p.handle_at(&mut s, event, 0), Action::Close(None));
            assert_eq!(s.phase, Phase::Closed);
            assert_eq!(s.mail_from, "a@dom");
        }
    }
}

#[test]
fn outgoing_cleartext_to_an_outside_recipient_gets_523() {
    let mut p = proxy("outgoing", 60);
    let mut s = open(&mut p, "a@dom", &["x@other"]);
    let action = send_body(&mut p, &mut s, &["Subject: hi\r\n", "\r\n", "hello\r\n"]);
    assert_eq!(action, reply(REJECT));
    assert_fresh_envelope(&s);
}

#[test]
fn the_session_carries_a_second_transaction() {
    let mut p = proxy("outgoing", 60);
    let mut s = open(&mut p, "a@dom", &["x@other"]);
    assert_eq!(send_body(&mut p, &mut s, &["Subject: hi\r\n", "\r\n", "hello\r\n"]), reply(REJECT));
    assert_eq!(line(&mut p, &mut s, "MAIL FROM:<a@dom>\r\n"), reply(OK));
    assert_eq!(line(&mut p, &mut s, "RCPT TO:<x@other>\r\n"), reply(OK));
    assert_eq!(line(&mut p, &mut s, "DATA\r\n"), reply("354 End data with <CR><LF>.<CR><LF>\r\n"));
    assert_eq!(send_body(&mut p, &mut s, ENCRYPTED), Action::Reinject);
    assert_eq!(s.rcpt_tos, vec!["x@other".to_string()]);
}

#[test]
fn outgoing_rate_limit_with_ceiling_of_one() {
    let mut p = proxy("outgoing", 1);
    let mut s = Session::new();
    p.handle_at(&mut s, Event::Connected, 0);
    assert_eq!(line(&mut p, &mut s, "MAIL FROM:<a@dom>\r\n"), reply(OK));
    assert_eq!(line(&mut p, &mut s, "MAIL FROM:<a@dom>\r\n"), reply(OK));
    assert_eq!(
        line(&mut p, &mut s, "MAIL FROM:<a@dom>\r\n"),
        reply("450 4.7.1: Too much mail from a@dom\r\n")
    );
    assert_eq!(s.mail_from, "a@dom");
    assert_eq!(s.phase, Phase::Envelope);
    assert_eq!(line(&mut p, &mut s, "MAIL FROM:<b@dom>\r\n"), reply(OK));
}

#[test]
fn outgoing_rate_limit_with_ceiling_of_zero() {
    let mut p = proxy("outgoing", 0);
    let mut s = Session::new();
    p.handle_at(&mut s, Event::Connected, 0);
    assert_eq!(line(&mut p, &mut s, "MAIL FROM:<a@dom>\r\n"), reply(OK));
    assert_eq!(
        line(&mut p, &mut s, "MAIL FROM:<a@dom>\r\n"),
        reply("450 4.7.1: Too much mail from a@dom\r\n")
    );
}

#[test]
fn outgoing_rate_limit_is_shared_by_sessions_and_forgets() {
    let mut p = proxy("outgoing", 0);
    let mut first = Session::new();
    let mut second = Session::new();
    p.handle_at(&mut first, Event::Connected, 0);
    p.handle_at(&mut second, Event::Connected, 0);
    let mail = || Event::Line("MAIL FROM:<a@dom>\r\n".to_string());
    assert_eq!(p.handle_at(&mut first, mail(), 10), reply(OK));
    assert_eq!(
        p.handle_at(&mut second, mail(), 20),
        reply("450 4.7.1: Too much mail from a@dom\r\n")
    );
    assert_eq!(p.handle_at(&mut second, mail(), 60_000_000_011), reply(OK));
}

#[test]
fn incoming_mail_is_not_rate_limited() {
    let mut p = proxy("incoming", 0);
    let mut s = Session::new();
    p.handle_at(&mut s, Event::Connected, 0);
    for _ in 0..5 {
        assert_eq!(line(&mut p, &mut s, "MAIL FROM:<a@dom>\r\n"), reply(OK));
    }
}

#[test]
fn rate_limit_by_the_clock() {
    let mut p = proxy("outgoing", 0);
    let mut s = Session::new();
    assert_eq!(p.handle(&mut s, Event::Connected), reply("220 localhost ESMTP\r\n"));
    assert_eq!(p.handle(&mut s, Event::Line("MAIL FROM:<a@dom>\r\n".to_string())), reply(OK));
    assert_eq!(
        p.handle(&mut s, Event::Line("MAIL FROM:<a@dom>\r\n".to_string())),
        reply("450 4.7.1: Too much mail from a@dom\r\n")
    );
}

#[test]
fn outgoing_autocrypt_setup_to_self_is_handed_on() {
    let mut p = proxy("outgoing", 60);
    let mut s = open(&mut p, "a@dom", &["a@dom"]);
    let body = [
        "From: a@dom\r\n",
        "Subject: Autocrypt Setup Message\r\n",
        "Content-Type: multipart/mixed; boundary=x\r\n",
        "\r\n",
        "--x\r\n",
        "Content-Type: text/plain\r\n",
        "\r\n",
        "setup\r\n",
        "--x--\r\n",
    ];
    assert_eq!(send_body(&mut p, &mut s, &body), Action::Reinject);
    assert_eq!(s.phase, Phase::Reinjecting);
    assert_eq!(s.mail_from, "a@dom");
    assert_eq!(s.rcpt_tos, vec!["a@dom".to_string()]);
    assert_eq!(s.data, body.concat().into_bytes());
    assert_eq!(p.handle_at(&mut s, Event::Reinjected(true), 0), reply(OK));
    assert_fresh_envelope(&s);
}

#[test]
fn failed_handing_on_gets_451() {
    let mut p = proxy("outgoing", 60);
    let mut s = open(&mut p, "a@dom", &["x@other"]);
    assert_eq!(send_body(&mut p, &mut s, ENCRYPTED), Action::Reinject);
    assert_eq!(
        p.handle_at(&mut s, Event::Reinjected(false), 0),
        reply("451 Error re-injecting mail\r\n")
    );
    assert_fresh_envelope(&s);
}

#[test]
fn incoming_cleartext_to_a_mailbox_without_marker_is_handed_on() {
    let mut p = proxy("incoming", 60);
    let mut s = open(&mut p, "x@other", &["u@dom"]);
    let action = send_body(&mut p, &mut s, &["Subject: hi\r\n", "\r\n", "hello\r\n"]);
    assert_eq!(action, Action::ProbeMailboxes);
    assert_eq!(s.phase, Phase::Evaluating);
    assert_eq!(p.handle_at(&mut s, Event::Enforcing(vec![]), 0), Action::Reinject);
    assert_eq!(p.handle_at(&mut s, Event::Reinjected(true), 0), reply(OK));
    assert_fresh_envelope(&s);
}

#[test]
fn incoming_cleartext_to_a_mailbox_with_marker_gets_523() {
    let mut p = proxy("incoming", 60);
    let mut s = open(&mut p, "x@other", &["u@dom"]);
    let action = send_body(&mut p, &mut s, &["Subject: hi\r\n", "\r\n", "hello\r\n"]);
    assert_eq!(action, Action::ProbeMailboxes);
    let enforcing = Event::Enforcing(vec!["u@dom".to_string()]);
    assert_eq!(p.handle_at(&mut s, enforcing, 0), reply(REJECT));
    assert_fresh_envelope(&s);
}

#[test]
fn incoming_bounce_is_handed_on_whatever_the_marker() {
    let mut p = proxy("incoming", 60);
    let mut s = open(&mut p, "", &["u@dom"]);
    let body = [
        "From: mailer-daemon@somemta\r\n",
        "Auto-Submitted: auto-replied\r\n",
        "Content-Type: multipart/report; boundary=x\r\n",
        "\r\n",
        "--x\r\n",
        "Content-Type: text/plain\r\n",
        "\r\n",
        "bounced\r\n",
        "--x--\r\n",
    ];
    assert_eq!(send_body(&mut p, &mut s, &body), Action::ProbeMailboxes);
    let enforcing = Event::Enforcing(vec!["u@dom".to_string()]);
    assert_eq!(p.handle_at(&mut s, enforcing, 0), Action::Reinject);
}

#[test]
fn well_formed_encrypted_mail_is_handed_on_in_both_modes() {
    let mut p = proxy("outgoing", 60);
    let mut s = open(&mut p, "a@dom", &["x@other"]);
    assert_eq!(send_body(&mut p, &mut s, ENCRYPTED), Action::Reinject);

    let mut p = proxy("incoming", 60);
    let mut s = open(&mut p, "a@dom", &["u@dom"]);
    assert_eq!(send_body(&mut p, &mut s, ENCRYPTED), Action::ProbeMailboxes);
    let enforcing = Event::Enforcing(vec!["u@dom".to_string()]);
    assert_eq!(p.handle_at(&mut s, enforcing, 0), Action::Reinject);
}

#[test]
fn a_body_that_is_no_message_gets_451() {
    let mut p = proxy("outgoing", 60);
    let mut s = open(&mut p, "a@dom", &["x@other"]);
    assert_eq!(line(&mut p, &mut s, ".\r\n"), reply("451 Failed to parse message\r\n"));
    assert_fresh_envelope(&s);
}

#[test]
fn end_of_file_ends_the_body() {
    let mut p = proxy("outgoing", 60);
    let mut s = open(&mut p, "a@dom", &["x@other"]);
    assert_eq!(line(&mut p, &mut s, "Subject: hi\r\n"), Action::Read);
    assert_eq!(p.handle_at(&mut s, Event::Eof, 0), reply(REJECT));
    assert_fresh_envelope(&s);
    assert_eq!(p.handle_at(&mut s, Event::Eof, 0), Action::Close(None));
}

#[test]
fn body_lines_lose_the_full_stop_they_begin_with() {
    let mut p = proxy("outgoing", 60);
    let mut s = open(&mut p, "a@dom", &["x@other"]);
    for text in ["..two\r\n", ".one\r\n", "none.\r\n", "..\r\n", ". \r\n", ".\r", "\n", "."] {
        assert_eq!(line(&mut p, &mut s, text), Action::Read);
    }
    assert_eq!(s.data, b".two\r\none\r\nnone.\r\n.\r\n \r\n\r\n".to_vec());
    assert_eq!(s.phase, Phase::Data);
}

#[test]
fn a_lone_full_stop_with_a_bare_line_feed_ends_the_body() {
    let mut p = proxy("outgoing", 60);
    let mut s = open(&mut p, "a@dom", &["x@other"]);
    assert_eq!(line(&mut p, &mut s, "Subject: hi\n"), Action::Read);
    assert_eq!(line(&mut p, &mut s, ".\n"), reply(REJECT));
}

#[test]
fn commands_are_data_while_the_body_is_read() {
    let mut p = proxy("outgoing", 60);
    let mut s = open(&mut p, "a@dom", &["x@other"]);
    assert_eq!(line(&mut p, &mut s, "QUIT\r\n"), Action::Read);
    assert_eq!(s.data, b"QUIT\r\n".to_vec());
}

#[test]
fn data_starts_the_body_afresh() {
    let mut p = proxy("outgoing", 60);
    let mut s = open(&mut p, "a@dom", &["x@other"]);
    assert_eq!(line(&mut p, &mut s, "junk\r\n"), Action::Read);
    s.phase = Phase::Envelope;
    assert_eq!(line(&mut p, &mut s, "data\r\n"), reply("354 End data with <CR><LF>.<CR><LF>\r\n"));
    assert!(s.data.is_empty());
}

#[test]
fn ports_follow_the_mode() {
    let out = proxy("outgoing", 60);
    assert!(out.outgoing());
    assert_eq!(out.listen_port(), 10080);
    assert_eq!(out.reinject_port(), 10025);
    let inc = proxy("incoming", 60);
    assert!(!inc.outgoing());
    assert_eq!(inc.listen_port(), 10081);
    assert_eq!(inc.reinject_port(), 10026);
}

#[test]
fn modes() {
    assert!(is_valid_mode("incoming"));
    assert!(is_valid_mode("outgoing"));
    assert!(!is_valid_mode("Outgoing"));
    assert!(!is_valid_mode(""));
    assert!(!is_valid_mode("both"));
}

#[test]
fn verbs() {
    assert_eq!(classify_command("HELO"), Command::Helo);
    assert_eq!(classify_command("EHLO X"), Command::Helo);
    assert_eq!(classify_command("HELOX"), Command::Helo);
    assert_eq!(classify_command("MAIL FROM:<A@DOM>"), Command::MailFrom);
    assert_eq!(classify_command("MAIL FROM:"), Command::MailFrom);
    assert_eq!(classify_command("MAIL FROM"), Command::Unknown);
    assert_eq!(classify_command("RCPT TO:X"), Command::RcptTo);
    assert_eq!(classify_command("DATA"), Command::Data);
    assert_eq!(classify_command("DATA "), Command::Unknown);
    assert_eq!(classify_command("QUIT"), Command::Quit);
    assert_eq!(classify_command("RSET"), Command::Rset);
    assert_eq!(classify_command("NOOP"), Command::Noop);
    assert_eq!(classify_command("noop"), Command::Unknown);
    assert_eq!(classify_command(""), Command::Unknown);
}

#[test]
fn verbs_are_read_in_upper_case() {
    let mut p = proxy("incoming", 60);
    let mut s = Session::new();
    p.handle_at(&mut s, Event::Connected, 0);
    assert_eq!(line(&mut p, &mut s, "mail from:<a@dom>\r\n"), reply(OK));
    assert_eq!(line(&mut p, &mut s, "Rcpt To:<b@dom>\r\n"), reply(OK));
    assert_eq!(line(&mut p, &mut s, "Data\r\n"), reply("354 End data with <CR><LF>.<CR><LF>\r\n"));
}

#[test]
fn addresses() {
    assert_eq!(extract_addr("MAIL FROM:<a@dom>", "MAIL FROM:"), "a@dom");
    assert_eq!(extract_addr("MAIL FROM:<a@dom> SIZE=123 SMTPUTF8", "MAIL FROM:"), "a@dom");
    assert_eq!(extract_addr("MAIL FROM: <a@dom>", "MAIL FROM:"), "a@dom");
    assert_eq!(extract_addr("MAIL FROM:a@dom", "MAIL FROM:"), "a@dom");
    assert_eq!(extract_addr("mail from:<A@Dom>", "MAIL FROM:"), "A@Dom");
    assert_eq!(extract_addr("MAIL FROM:<>", "MAIL FROM:"), "");
    assert_eq!(extract_addr("MAIL FROM:", "MAIL FROM:"), "");
    assert_eq!(extract_addr("MAIL", "MAIL FROM:"), "");
    assert_eq!(extract_addr("MAIL FROM:<a b>", "MAIL FROM:"), "<a");
    assert_eq!(extract_addr("MAIL FROM:<a@dom", "MAIL FROM:"), "<a@dom");
    assert_eq!(extract_addr("MAIL FROM:a@dom>", "MAIL FROM:"), "a@dom>");
    assert_eq!(extract_addr("MAIL FROM:<<a@dom>>", "MAIL FROM:"), "<a@dom>");
    assert_eq!(extract_addr("MAIL FROM:<", "MAIL FROM:"), "<");
    assert_eq!(extract_addr("MAIL FROM:<a@dom>\tSIZE=1", "MAIL FROM:"), "<a@dom>\tSIZE=1");
    assert_eq!(extract_addr("RCPT TO:<x@other> NOTIFY=NEVER", "RCPT TO:"), "x@other");
    assert_eq!(extract_addr("RCPT TO:\u{a0}<x@other>\u{2003}", "RCPT TO:"), "x@other");
    assert_eq!(extract_addr("RCPT TO:<\u{fc}ser@dom>", "RCPT TO:"), "\u{fc}ser@dom");
}

#[test]
fn decimals() {
    assert_eq!(decimal_text(0), "0");
    assert_eq!(decimal_text(7), "7");
    assert_eq!(decimal_text(10), "10");
    assert_eq!(decimal_text(31457280), "31457280");
    assert_eq!(decimal_text(1000000007), "1000000007");
    assert_eq!(decimal_text(u64::MAX), "18446744073709551615");
}

#[test]
fn dot_stuffing() {
    assert_eq!(dot_stuff(b""), b"".to_vec());
    assert_eq!(dot_stuff(b"hello\r\n"), b"hello\r\n".to_vec());
    assert_eq!(dot_stuff(b"hello\n"), b"hello\r\n".to_vec());
    assert_eq!(dot_stuff(b"hello"), b"hello\r\n".to_vec());
    assert_eq!(dot_stuff(b".hidden\r\nx\r\n"), b"..hidden\r\nx\r\n".to_vec());
    assert_eq!(dot_stuff(b"a\r\n.\r\nb"), b"a\r\n..\r\nb\r\n".to_vec());
    assert_eq!(dot_stuff(b"a\n..\n"), b"a\r\n...\r\n".to_vec());
    assert_eq!(dot_stuff(b"\r\n"), b"\r\n".to_vec());
    assert_eq!(dot_stuff(b"\n\n"), b"\r\n\r\n".to_vec());
    assert_eq!(dot_stuff(b"a\rb\n"), b"a\rb\r\n".to_vec());
    assert_eq!(dot_stuff(b"a\r"), b"a\r\r\n".to_vec());
    assert_eq!(dot_stuff(b"a\r\r\n"), b"a\r\r\n".to_vec());
    assert_eq!(dot_stuff(b"a.b\r\n"), b"a.b\r\n".to_vec());
    assert_eq!(dot_stuff(b"."), b"..\r\n".to_vec());
    assert_eq!(dot_stuff(b"\xff\xfe\n.x"), b"\xff\xfe\r\n..x\r\n".to_vec());
}

#[test]
fn script_of_the_handing_on() {
    let rcpts = vec!["x@other".to_string(), "y@other".to_string()];
    let script = reinject_script("a@dom", &rcpts, b"Subject: hi\r\n\r\n.dot\r\n");
    let expected: Vec<Vec<u8>> = vec![
        b"HELO localhost\r\n".to_vec(),
        b"MAIL FROM:<a@dom>\r\n".to_vec(),
        b"RCPT TO:<x@other>\r\n".to_vec(),
        b"RCPT TO:<y@other>\r\n".to_vec(),
        b"DATA\r\n".to_vec(),
        b"Subject: hi\r\n\r\n..dot\r\n.\r\n".to_vec(),
        b"QUIT\r\n".to_vec(),
    ];
    assert_eq!(script, expected);
}

#[test]
fn script_without_recipients_and_body() {
    let script = reinject_script("", &[], b"");
    let expected: Vec<Vec<u8>> = vec![
        b"HELO localhost\r\n".to_vec(),
        b"MAIL FROM:<>\r\n".to_vec(),
        b"DATA\r\n".to_vec(),
        b".\r\n".to_vec(),
        b"QUIT\r\n".to_vec(),
    ];
    assert_eq!(script, expected);
}

fn cleartext() -> ParsedMessage {
    ParsedMessage {
        secure_join: None,
        auto_submitted: None,
        from_address: None,
        subject: Some("hi".to_string()),
        parts: vec![MimePart { content_type: None, body: PartBody::Text("hello".to_string()) }],
    }
}

fn session_with_body(mail_from: &str, rcpt_tos: &[&str]) -> Session {
    let mut s = Session::new();
    s.phase = Phase::Data;
    s.mail_from = mail_from.to_string();
    s.rcpt_tos = rcpt_tos.iter().map(|r| r.to_string()).collect();
    s.data = b"Subject: hi\r\n\r\nhello".to_vec();
    s
}

#[test]
fn verdict_on_a_body_that_is_no_message() {
    let p = proxy("outgoing", 60);
    let mut s = session_with_body("a@dom", &["x@other"]);
    assert_eq!(p.conclude(&mut s, None, &[]), reply("451 Failed to parse message\r\n"));
    assert_fresh_envelope(&s);
}

#[test]
fn verdict_on_a_rejected_message() {
    let p = proxy("outgoing", 60);
    let mut s = session_with_body("a@dom", &["x@other"]);
    assert_eq!(p.conclude(&mut s, Some(cleartext()), &[]), reply(REJECT));
    assert_fresh_envelope(&s);

    let mut with_from = cleartext();
    with_from.from_address = Some("eve@dom".to_string());
    let mut s = session_with_body("a@dom", &["x@other"]);
    assert_eq!(
        p.conclude(&mut s, Some(with_from), &[]),
        reply("500 Invalid FROM <eve@dom> for <a@dom>\r\n")
    );
    assert_fresh_envelope(&s);
}

#[test]
fn verdict_on_an_accepted_message() {
    let p = proxy("incoming", 60);
    let mut s = session_with_body("x@other", &["u@dom"]);
    assert_eq!(p.conclude(&mut s, Some(cleartext()), &["v@dom".to_string()]), Action::Reinject);
    assert_eq!(s.phase, Phase::Reinjecting);
    assert_eq!(s.mail_from, "x@other");
    assert_eq!(s.rcpt_tos, vec!["u@dom".to_string()]);
    assert_eq!(s.data, b"Subject: hi\r\n\r\nhello".to_vec());

    let mut s = session_with_body("x@other", &["u@dom"]);
    assert_eq!(p.conclude(&mut s, Some(cleartext()), &["u@dom".to_string()]), reply(REJECT));
}
