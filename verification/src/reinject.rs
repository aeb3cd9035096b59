//! Handing an accepted message on: dot-stuffing of the body, and the script
//! of the client session with the downstream MTA.

use crate::text::texts;
use vstd::prelude::*;
use vstd::string::{StrSliceExecFns, StringExecFns};

verus! {

/// The byte of a line feed.
pub const LF: u8 = 0x0A;

/// The byte of a carriage return.
pub const CR: u8 = 0x0D;

/// The byte of a full stop.
pub const DOT: u8 = 0x2E;

/// Index of the first line feed in `data` at or after `i`, or the length
/// of `data` where there is none.
pub open spec fn next_line_feed(data: Seq<u8>, i: int) -> int
    decreases data.len() - i,
{
    if i < 0 || i >= data.len() {
        data.len() as int
    } else if data[i] == LF {
        i
    } else {
        next_line_feed(data, i + 1)
    }
}

/// One line as it is sent on: a full stop is put before a line that begins
/// with one, and the line is closed with a carriage return and a line feed.
pub open spec fn stuffed_line(line: Seq<u8>) -> Seq<u8> {
    if line.len() > 0 && line[0] == DOT {
        seq![DOT] + line + seq![CR, LF]
    } else {
        line + seq![CR, LF]
    }
}

/// The lines of `data` from index `pos` on, each as it is sent on. A line
/// ends at a line feed, and a carriage return just before that line feed
/// belongs to the line ending; what follows the last line feed is a line
/// too, unless it is empty.
pub open spec fn stuffed_from(data: Seq<u8>, pos: int) -> Seq<u8>
    decreases data.len() - pos,
{
    if pos < 0 || pos >= data.len() {
        Seq::empty()
    } else {
        let end = next_line_feed(data, pos);
        if pos <= end < data.len() {
            let stop = if end > pos && data[end - 1] == CR {
                end - 1
            } else {
                end
            };
            stuffed_line(data.subrange(pos, stop)) + stuffed_from(data, end + 1)
        } else {
            stuffed_line(data.subrange(pos, data.len() as int))
        }
    }
}

/// The message body as it is sent on: dot-stuffed, every line closed with
/// a carriage return and a line feed.
pub open spec fn dot_stuffed(data: Seq<u8>) -> Seq<u8> {
    stuffed_from(data, 0)
}

/// Appends the bytes of `data` from `from` up to `to` to `out`.
pub(crate) fn append_range(out: &mut Vec<u8>, data: &[u8], from: usize, to: usize)
    requires
        from <= to <= data@.len(),
    ensures
        final(out)@ == old(out)@ + data@.subrange(from as int, to as int),
{
    let mut i = from;
    while i < to
        invariant
            from <= i <= to <= data@.len(),
            out@ == old(out)@ + data@.subrange(from as int, i as int),
        decreases to - i,
    {
        out.push(data[i]);
        i += 1;
        assert(out@ =~= old(out)@ + data@.subrange(from as int, i as int));
    }
    assert(out@ =~= old(out)@ + data@.subrange(from as int, to as int));
}

/// Index of the first line feed in `data` at or after `pos`, or the length
/// of `data` where there is none.
fn find_line_feed(data: &[u8], pos: usize) -> (end: usize)
    requires
        pos <= data@.len(),
    ensures
        end == next_line_feed(data@, pos as int),
        pos <= end <= data@.len(),
{
    let mut end = pos;
    while end < data.len() && data[end] != LF
        invariant
            pos <= end <= data@.len(),
            next_line_feed(data@, end as int) == next_line_feed(data@, pos as int),
        decreases data@.len() - end,
    {
        end += 1;
    }
    end
}

/// Appends the line of `data` from `from` up to `to`, as it is sent on, to
/// `out`.
fn append_stuffed_line(out: &mut Vec<u8>, data: &[u8], from: usize, to: usize)
    requires
        from <= to <= data@.len(),
    ensures
        final(out)@ == old(out)@ + stuffed_line(data@.subrange(from as int, to as int)),
{
    if from < to && data[from] == DOT {
        out.push(DOT);
    }
    append_range(out, data, from, to);
    out.push(CR);
    out.push(LF);
    assert(out@ =~= old(out)@ + stuffed_line(data@.subrange(from as int, to as int)));
}

/// Dot-stuffs a message body for sending: a full stop is put before every
/// line that begins with one, and every line is closed with a carriage
/// return and a line feed.
pub fn dot_stuff(data: &[u8]) -> (out: Vec<u8>)
    ensures
        out@ == dot_stuffed(data@),
{
    let mut out: Vec<u8> = Vec::new();
    let mut pos: usize = 0;
    assert(out@ + stuffed_from(data@, 0) =~= dot_stuffed(data@));
    while pos < data.len()
        invariant
            pos <= data@.len(),
            out@ + stuffed_from(data@, pos as int) == dot_stuffed(data@),
        decreases data@.len() - pos,
    {
        let end = find_line_feed(data, pos);
        let ghost before = out@;
        let ghost rest = stuffed_from(data@, pos as int);
        if end < data.len() {
            let stop = if end > pos && data[end - 1] == CR {
                end - 1
            } else {
                end
            };
            append_stuffed_line(&mut out, data, pos, stop);
            proof {
                let line = stuffed_line(data@.subrange(pos as int, stop as int));
                assert(rest == line + stuffed_from(data@, end + 1));
                assert(before + (line + stuffed_from(data@, end + 1)) =~= (before + line)
                    + stuffed_from(data@, end + 1));
            }
            pos = end + 1;
        } else {
            append_stuffed_line(&mut out, data, pos, end);
            proof {
                let line = stuffed_line(data@.subrange(pos as int, end as int));
                assert(rest == line);
                assert(stuffed_from(data@, end as int) =~= Seq::<u8>::empty());
                assert(before + line =~= (before + line) + Seq::<u8>::empty());
            }
            pos = end;
        }
    }
    assert(stuffed_from(data@, pos as int) =~= Seq::<u8>::empty());
    assert(out@ + Seq::<u8>::empty() =~= out@);
    out
}

/// The bytes of a client command line: the text followed by a carriage
/// return and a line feed.
pub open spec fn command_line(text: Seq<char>) -> Seq<u8> {
    vstd::utf8::encode_utf8(text) + seq![CR, LF]
}

/// The `RCPT TO` lines for the recipients from index `i` on.
pub open spec fn rcpt_lines(rcpt_tos: Seq<Seq<char>>, i: int) -> Seq<Seq<u8>>
    decreases rcpt_tos.len() - i,
{
    if i < 0 || i >= rcpt_tos.len() {
        Seq::empty()
    } else {
        seq![command_line("RCPT TO:<"@ + rcpt_tos[i] + ">"@)] + rcpt_lines(rcpt_tos, i + 1)
    }
}

/// What the client sends to hand a message on, piece by piece: `HELO`,
/// `MAIL FROM`, one `RCPT TO` for each recipient, `DATA`, the dot-stuffed
/// body closed by a lone full stop, and `QUIT`. The client reads the
/// greeting first, and one reply line after every piece but the last.
pub open spec fn reinject_script_of(
    mail_from: Seq<char>,
    rcpt_tos: Seq<Seq<char>>,
    data: Seq<u8>,
) -> Seq<Seq<u8>> {
    seq![command_line("HELO localhost"@), command_line("MAIL FROM:<"@ + mail_from + ">"@)]
        + rcpt_lines(rcpt_tos, 0) + seq![
        command_line("DATA"@),
        dot_stuffed(data) + seq![DOT, CR, LF],
        command_line("QUIT"@),
    ]
}

/// The bytes of the command line made of `head`, `arg` and `tail`.
fn client_line(head: &str, arg: &str, tail: &str) -> (line: Vec<u8>)
    ensures
        line@ == command_line(head@ + arg@ + tail@),
{
    let mut text = String::from_str(head);
    text.append(arg);
    text.append(tail);
    let mut line = text.as_str().as_bytes_vec();
    line.push(CR);
    line.push(LF);
    line
}

/// The script of the client session that hands a message on.
pub fn reinject_script(mail_from: &str, rcpt_tos: &[String], data: &[u8]) -> (script: Vec<Vec<u8>>)
    ensures
        script@.len() == rcpt_tos@.len() + 5,
        Seq::new(script@.len(), |i: int| script@[i]@) == reinject_script_of(
            mail_from@,
            texts(rcpt_tos@),
            data@,
        ),
{
    let mut script: Vec<Vec<u8>> = Vec::new();
    script.push(client_line("HELO localhost", "", ""));
    script.push(client_line("MAIL FROM:<", mail_from, ">"));
    assert("HELO localhost"@ + ""@ + ""@ =~= "HELO localhost"@) by {
        reveal_strlit("");
    }
    let ghost rcpts = texts(rcpt_tos@);
    let ghost head = seq![
        command_line("HELO localhost"@),
        command_line("MAIL FROM:<"@ + mail_from@ + ">"@),
    ];
    assert(Seq::new(script@.len(), |i: int| script@[i]@) =~= head);
    let mut i: usize = 0;
    while i < rcpt_tos.len()
        invariant
            i <= rcpt_tos@.len(),
            rcpts == texts(rcpt_tos@),
            script@.len() == i + 2,
            Seq::new(script@.len(), |k: int| script@[k]@) + rcpt_lines(rcpts, i as int) == head
                + rcpt_lines(rcpts, 0),
        decreases rcpt_tos@.len() - i,
    {
        let ghost before = Seq::new(script@.len(), |k: int| script@[k]@);
        let line = client_line("RCPT TO:<", rcpt_tos[i].as_str(), ">");
        script.push(line);
        proof {
            let now = Seq::new(script@.len(), |k: int| script@[k]@);
            assert(now =~= before + seq![line@]);
            assert(before + (seq![line@] + rcpt_lines(rcpts, i + 1)) =~= now + rcpt_lines(
                rcpts,
                i + 1,
            ));
        }
        i += 1;
    }
    let ghost before = Seq::new(script@.len(), |k: int| script@[k]@);
    assert(before =~= head + rcpt_lines(rcpts, 0)) by {
        assert(rcpt_lines(rcpts, i as int) =~= Seq::<Seq<u8>>::empty());
    }
    script.push(client_line("DATA", "", ""));
    let mut body = dot_stuff(data);
    body.push(DOT);
    body.push(CR);
    body.push(LF);
    assert(body@ =~= dot_stuffed(data@) + seq![DOT, CR, LF]);
    script.push(body);
    script.push(client_line("QUIT", "", ""));
    proof {
        reveal_strlit("");
        assert("DATA"@ + ""@ + ""@ =~= "DATA"@);
        assert("QUIT"@ + ""@ + ""@ =~= "QUIT"@);
        assert(Seq::new(script@.len(), |k: int| script@[k]@) =~= before + seq![
            command_line("DATA"@),
            dot_stuffed(data@) + seq![DOT, CR, LF],
            command_line("QUIT"@),
        ]);
    }
    script
}

} // verus!
