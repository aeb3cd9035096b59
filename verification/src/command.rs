//! Command lines: telling the verbs apart and taking the address out of
//! `MAIL FROM:` and `RCPT TO:` lines.

use crate::text::{
    chars_of, ends_with, find_first_char, first_index_of, has_prefix, has_suffix, same_chars,
    starts_with, string_of, trim, trimmed,
};
use vstd::prelude::*;
use vstd::slice::slice_subrange;

verus! {

/// The verbs that the server knows.
#[derive(Debug, Clone, Copy, PartialEq, Eq, Structural)]
pub enum Command {
    Helo,
    MailFrom,
    RcptTo,
    Data,
    Quit,
    Rset,
    Noop,
    Unknown,
}

/// The verb of a command line that was trimmed and put in upper case.
pub open spec fn command_of(upper: Seq<char>) -> Command {
    if starts_with(upper, "HELO"@) || starts_with(upper, "EHLO"@) {
        Command::Helo
    } else if starts_with(upper, "MAIL FROM:"@) {
        Command::MailFrom
    } else if starts_with(upper, "RCPT TO:"@) {
        Command::RcptTo
    } else if upper == "DATA"@ {
        Command::Data
    } else if upper == "QUIT"@ {
        Command::Quit
    } else if upper == "RSET"@ {
        Command::Rset
    } else if upper == "NOOP"@ {
        Command::Noop
    } else {
        Command::Unknown
    }
}

/// The verb of a command line that was trimmed and put in upper case.
pub fn classify_command(upper: &str) -> (c: Command)
    ensures
        c == command_of(upper@),
{
    let line = chars_of(upper);
    let line = line.as_slice();
    if has_prefix(line, chars_of("HELO").as_slice()) || has_prefix(
        line,
        chars_of("EHLO").as_slice(),
    ) {
        Command::Helo
    } else if has_prefix(line, chars_of("MAIL FROM:").as_slice()) {
        Command::MailFrom
    } else if has_prefix(line, chars_of("RCPT TO:").as_slice()) {
        Command::RcptTo
    } else if same_chars(line, chars_of("DATA").as_slice()) {
        Command::Data
    } else if same_chars(line, chars_of("QUIT").as_slice()) {
        Command::Quit
    } else if same_chars(line, chars_of("RSET").as_slice()) {
        Command::Rset
    } else if same_chars(line, chars_of("NOOP").as_slice()) {
        Command::Noop
    } else {
        Command::Unknown
    }
}

/// The address in a `MAIL FROM:` or `RCPT TO:` line: what follows the first
/// `prefix_len` characters is trimmed and cut at its first space, and one
/// pair of angle brackets around it is taken off.
pub open spec fn address_in(cmd: Seq<char>, prefix_len: nat) -> Seq<char> {
    let rest = trim(
        cmd.skip(
            if prefix_len <= cmd.len() {
                prefix_len as int
            } else {
                cmd.len() as int
            },
        ),
    );
    let token = match first_index_of(rest, ' ') {
        Some(i) => rest.take(i),
        None => rest,
    };
    if starts_with(token, seq!['<']) && ends_with(token, seq!['>']) {
        token.subrange(1, token.len() - 1)
    } else {
        token
    }
}

/// The address in the command line `cmd`, which opens with the verb
/// `prefix`. The address is returned as it was written, its case kept.
pub fn extract_addr(cmd: &str, prefix: &str) -> (addr: String)
    ensures
        addr@ == address_in(cmd@, prefix@.len()),
{
    let line = chars_of(cmd);
    let verb = chars_of(prefix);
    let skip = if verb.len() <= line.len() {
        verb.len()
    } else {
        line.len()
    };
    let rest = trimmed(slice_subrange(line.as_slice(), skip, line.len()));
    let token = match find_first_char(rest, ' ') {
        Some(i) => slice_subrange(rest, 0, i),
        None => rest,
    };
    let open: Vec<char> = vec!['<'];
    let close: Vec<char> = vec!['>'];
    assert(open@ =~= seq!['<']);
    assert(close@ =~= seq!['>']);
    if has_prefix(token, open.as_slice()) && has_suffix(token, close.as_slice()) {
        assert(token@[0] == '<' && token@[token@.len() - 1] == '>') by {
            assert(token@.subrange(0, 1)[0] == '<');
            assert(token@.subrange(token@.len() - 1, token@.len() as int)[0] == '>');
        }
        string_of(slice_subrange(token, 1, token.len() - 1))
    } else {
        string_of(token)
    }
}

} // verus!
