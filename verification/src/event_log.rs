//! The append-only event log: how a batch of serialised records becomes the
//! block of lines that is appended, and what the endpoint answers.

use vstd::prelude::*;
use vstd::string::*;
use crate::text::{decimal_digits, decimal_string};

verus! {

/// One record as it stands in the log: its text and a line feed.
pub open spec fn framed_line(line: Seq<char>) -> Seq<char> {
    line.push('\n')
}

/// The block appended for a batch: the framed lines of its records, in the
/// order given, with nothing between or around them.
pub open spec fn framed_batch(lines: Seq<Seq<char>>) -> Seq<char>
    decreases lines.len(),
{
    if lines.len() == 0 {
        Seq::empty()
    } else {
        framed_batch(lines.drop_last()) + framed_line(lines.last())
    }
}

/// The texts of a vector of strings.
pub open spec fn texts(lines: Seq<String>) -> Seq<Seq<char>> {
    Seq::new(lines.len(), |i: int| lines[i]@)
}

/// How often the line feed occurs in a text.
pub open spec fn line_feeds(s: Seq<char>) -> nat
    decreases s.len(),
{
    if s.len() == 0 {
        0
    } else {
        line_feeds(s.drop_last()) + if s.last() == '\n' {
            1nat
        } else {
            0nat
        }
    }
}

/// Whether a text holds no line feed, as compact JSON does.
pub open spec fn single_line(s: Seq<char>) -> bool {
    forall|i: int| 0 <= i < s.len() ==> s[i] != '\n'
}

/// The log after a block was appended to it: it only grows.
pub open spec fn appended(log: Seq<char>, lines: Seq<Seq<char>>) -> Seq<char> {
    log + framed_batch(lines)
}

/// The answer to a batch request whose records were logged.
pub open spec fn batch_confirmation_text(n: nat) -> Seq<char> {
    decimal_digits(n) + " events logged"@
}

/// The answer to a single-record request whose record was logged.
pub open spec fn single_confirmation_text() -> Seq<char> {
    "Event logged"@
}

/// The status answered where the log could not be written.
#[derive(Clone, Copy, Debug, PartialEq, Eq, Structural)]
pub enum StatusCode {
    InternalServerError,
}

impl StatusCode {
    /// The number of the status.
    pub fn as_u16(&self) -> (code: u16)
        ensures
            code == 500,
    {
        500
    }
}

/// Terminates one serialised record with a line feed.
pub fn frame_line(json: &str) -> (line: String)
    ensures
        line@ == framed_line(json@),
{
    proof {
        reveal_strlit("\n");
    }
    let line = String::from_str(json).concat("\n");
    assert(line@ =~= framed_line(json@));
    line
}

/// The block to append for a batch of serialised records: none for an empty
/// batch, which leaves the log untouched, else the records' framed lines in
/// the order given.
pub fn batch_payload(lines: &Vec<String>) -> (payload: Option<String>)
    ensures
        match payload {
            Some(p) => lines@.len() > 0 && p@ == framed_batch(texts(lines@)),
            None => lines@.len() == 0,
        },
{
    if lines.len() == 0 {
        return None;
    }
    let mut block = String::new();
    let mut i: usize = 0;
    assert(texts(lines@).take(0) =~= Seq::<Seq<char>>::empty());
    while i < lines.len()
        invariant
            0 <= i <= lines@.len(),
            block@ == framed_batch(texts(lines@).take(i as int)),
        decreases lines@.len() - i,
    {
        let line = frame_line(lines[i].as_str());
        block.append(line.as_str());
        proof {
            let all = texts(lines@);
            assert(all.take(i + 1).drop_last() =~= all.take(i as int));
            assert(all.take(i + 1).last() == lines@[i as int]@);
        }
        i = i + 1;
    }
    assert(texts(lines@).take(i as int) =~= texts(lines@));
    Some(block)
}

/// The endpoint's decision: a request with `count` records answers with the
/// confirmation where the log was written, and with the server error, and no
/// detail, where it was not.
pub fn handle_mouse_event(count: usize, written: bool) -> (response: Result<String, StatusCode>)
    ensures
        match response {
            Ok(body) => written && body@ == batch_confirmation_text(count as nat),
            Err(status) => !written && status == StatusCode::InternalServerError,
        },
{
    if written {
        Ok(decimal_string(count as u64).concat(" events logged"))
    } else {
        Err(StatusCode::InternalServerError)
    }
}

/// The decision of the single-record variant of the endpoint.
pub fn handle_single_mouse_event(written: bool) -> (response: Result<String, StatusCode>)
    ensures
        match response {
            Ok(body) => written && body@ == single_confirmation_text(),
            Err(status) => !written && status == StatusCode::InternalServerError,
        },
{
    if written {
        Ok(String::from_str("Event logged"))
    } else {
        Err(StatusCode::InternalServerError)
    }
}

/// The block of two batches in a row is the block of the first followed by
/// the block of the second: each batch's lines stand together.
pub proof fn lemma_framed_batch_concat(a: Seq<Seq<char>>, b: Seq<Seq<char>>)
    ensures
        framed_batch(a + b) == framed_batch(a) + framed_batch(b),
    decreases b.len(),
{
    if b.len() == 0 {
        assert(a + b =~= a);
        assert(framed_batch(a) + framed_batch(b) =~= framed_batch(a));
    } else {
        assert((a + b).drop_last() =~= a + b.drop_last());
        assert((a + b).last() == b.last());
        lemma_framed_batch_concat(a, b.drop_last());
        assert(framed_batch(a) + framed_batch(b.drop_last()) + framed_line(b.last()) =~= framed_batch(a)
            + (framed_batch(b.drop_last()) + framed_line(b.last())));
    }
}

/// Line feeds add up over concatenation.
pub proof fn lemma_line_feeds_concat(s: Seq<char>, t: Seq<char>)
    ensures
        line_feeds(s + t) == line_feeds(s) + line_feeds(t),
    decreases t.len(),
{
    if t.len() == 0 {
        assert(s + t =~= s);
    } else {
        assert((s + t).drop_last() =~= s + t.drop_last());
        lemma_line_feeds_concat(s, t.drop_last());
    }
}

/// A text without a line feed counts none.
pub proof fn lemma_single_line_no_feeds(s: Seq<char>)
    requires
        single_line(s),
    ensures
        line_feeds(s) == 0,
    decreases s.len(),
{
    if s.len() > 0 {
        lemma_single_line_no_feeds(s.drop_last());
    }
}

/// A batch of N single-line records is a block of exactly N lines.
pub proof fn lemma_framed_batch_line_count(lines: Seq<Seq<char>>)
    requires
        forall|i: int| 0 <= i < lines.len() ==> single_line(#[trigger] lines[i]),
    ensures
        line_feeds(framed_batch(lines)) == lines.len(),
    decreases lines.len(),
{
    if lines.len() > 0 {
        lemma_framed_batch_line_count(lines.drop_last());
        let last = lines.last();
        lemma_single_line_no_feeds(last);
        assert(framed_line(last).drop_last() =~= last);
        lemma_line_feeds_concat(framed_batch(lines.drop_last()), framed_line(last));
    }
}

/// Appending a batch of N single-line records adds exactly N lines to the
/// log and leaves what it held before in place.
pub proof fn lemma_append_adds_lines(log: Seq<char>, lines: Seq<Seq<char>>)
    requires
        forall|i: int| 0 <= i < lines.len() ==> single_line(#[trigger] lines[i]),
    ensures
        line_feeds(appended(log, lines)) == line_feeds(log) + lines.len(),
        appended(log, lines).subrange(0, log.len() as int) == log,
        appended(log, lines).len() >= log.len(),
{
    lemma_framed_batch_line_count(lines);
    lemma_line_feeds_concat(log, framed_batch(lines));
    assert(appended(log, lines).subrange(0, log.len() as int) =~= log);
}

/// Two appends, each made as a whole, leave the lines of each batch
/// together, whichever comes first.
pub proof fn lemma_appends_do_not_interleave(log: Seq<char>, a: Seq<Seq<char>>, b: Seq<Seq<char>>)
    ensures
        appended(appended(log, a), b) == log + framed_batch(a) + framed_batch(b),
        appended(appended(log, b), a) == log + framed_batch(b) + framed_batch(a),
        appended(appended(log, a), b) == appended(log, a + b),
{
    lemma_framed_batch_concat(a, b);
    assert(log + framed_batch(a) + framed_batch(b) =~= log + (framed_batch(a) + framed_batch(b)));
}

/// The place of the first line feed of a text, or the text's length where
/// it holds none.
pub open spec fn first_feed(s: Seq<char>) -> int
    decreases s.len(),
{
    if s.len() == 0 {
        0
    } else if s[0] == '\n' {
        0
    } else {
        1 + first_feed(s.drop_first())
    }
}

/// The lines that a reader finds in a block: the texts that end at each of
/// its line feeds, in order.
pub open spec fn lines_of(block: Seq<char>) -> Seq<Seq<char>>
    decreases block.len(),
{
    let i = first_feed(block);
    if 0 <= i < block.len() {
        seq![block.take(i)] + lines_of(block.skip(i + 1))
    } else {
        Seq::empty()
    }
}

/// A framed single-line record ends at the first line feed of whatever
/// block it starts.
pub proof fn lemma_first_feed_of_framed(line: Seq<char>, rest: Seq<char>)
    requires
        single_line(line),
    ensures
        first_feed(framed_line(line) + rest) == line.len(),
    decreases line.len(),
{
    let s = framed_line(line) + rest;
    if line.len() > 0 {
        assert(s[0] == line[0]);
        assert(s.drop_first() =~= framed_line(line.drop_first()) + rest);
        lemma_first_feed_of_framed(line.drop_first(), rest);
    } else {
        assert(s[0] == '\n');
    }
}

/// The block of a batch starts with the framed line of its first record.
pub proof fn lemma_framed_batch_front(lines: Seq<Seq<char>>)
    requires
        lines.len() > 0,
    ensures
        framed_batch(lines) == framed_line(lines[0]) + framed_batch(lines.drop_first()),
{
    let head = seq![lines[0]];
    assert(head + lines.drop_first() =~= lines);
    lemma_framed_batch_concat(head, lines.drop_first());
    assert(head.drop_last() =~= Seq::<Seq<char>>::empty());
    assert(framed_batch(Seq::<Seq<char>>::empty()) =~= Seq::<char>::empty());
    assert(head.last() == lines[0]);
    assert(framed_batch(head) =~= framed_line(lines[0]));
}

/// A reader of the block of a batch of single-line records finds exactly
/// the records' texts, in order.
pub proof fn lemma_lines_of_framed_batch(lines: Seq<Seq<char>>)
    requires
        forall|i: int| 0 <= i < lines.len() ==> single_line(#[trigger] lines[i]),
    ensures
        lines_of(framed_batch(lines)) == lines,
    decreases lines.len(),
{
    if lines.len() == 0 {
        assert(lines_of(framed_batch(lines)) =~= lines);
    } else {
        let first = lines[0];
        let tail = lines.drop_first();
        let rest = framed_batch(tail);
        let block = framed_line(first) + rest;
        lemma_framed_batch_front(lines);
        assert(single_line(first));
        lemma_first_feed_of_framed(first, rest);
        assert forall|i: int| 0 <= i < tail.len() implies single_line(#[trigger] tail[i]) by {
            assert(tail[i] == lines[i + 1]);
        }
        lemma_lines_of_framed_batch(tail);
        assert(block.take(first.len() as int) =~= first);
        assert(block.skip(first.len() as int + 1) =~= rest);
        assert(seq![first] + tail =~= lines);
    }
}

} // verus!
