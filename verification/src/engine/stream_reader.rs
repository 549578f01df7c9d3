//! The stream reader: splits what a child writes to one of its streams into
//! lines, and stamps each line for the log.
//!
//! A line ends at a line feed. The line feed is not part of the line, nor is
//! a carriage return that stands right before it; any other carriage return
//! stays. What follows the last line feed is a line of its own once the
//! stream has ended. A line that is not valid UTF-8 ends the reading: it and
//! everything after it is dropped.

use crate::clock::Timestamp;
use crate::engine::log_buffer::{LogLine, LogStream};
use crate::text::decode_utf8_text;
use vstd::prelude::*;
use vstd::utf8::{decode_utf8, valid_utf8};

verus! {

/// The byte that ends a line.
pub const LINE_FEED: u8 = 0x0A;

/// The byte that is dropped where it stands right before a line feed.
pub const CARRIAGE_RETURN: u8 = 0x0D;

/// What splitting a run of bytes gives: the complete lines, the bytes after
/// the last line feed, and whether an invalid line ended the reading.
pub struct Split {
    pub lines: Seq<Seq<char>>,
    pub rest: Seq<u8>,
    pub ended: bool,
}

/// The bytes of a line without the carriage return at their end, if there is
/// one.
pub open spec fn without_carriage_return(piece: Seq<u8>) -> Seq<u8> {
    if piece.len() > 0 && piece.last() == CARRIAGE_RETURN {
        piece.drop_last()
    } else {
        piece
    }
}

/// What splitting `bytes` from position `from` on gives, where the line that
/// is being read began at position `line_start`.
pub open spec fn split_from(bytes: Seq<u8>, from: int, line_start: int) -> Split
    decreases bytes.len() - from,
{
    if from < 0 || from >= bytes.len() {
        Split { lines: Seq::empty(), rest: bytes.subrange(line_start, bytes.len() as int), ended: false }
    } else if bytes[from] == LINE_FEED {
        let piece = without_carriage_return(bytes.subrange(line_start, from));
        if !valid_utf8(piece) {
            Split { lines: Seq::empty(), rest: Seq::empty(), ended: true }
        } else {
            let more = split_from(bytes, from + 1, from + 1);
            Split { lines: seq![decode_utf8(piece)] + more.lines, rest: more.rest, ended: more.ended }
        }
    } else {
        split_from(bytes, from + 1, line_start)
    }
}

/// What splitting `bytes` gives.
pub open spec fn split(bytes: Seq<u8>) -> Split {
    split_from(bytes, 0, 0)
}

/// The bytes of `bytes` from `line_start` up to `from` hold no line feed.
pub open spec fn no_line_feed(bytes: Seq<u8>, line_start: int, from: int) -> bool {
    forall|j: int| line_start <= j < from ==> #[trigger] bytes[j] != LINE_FEED
}

/// What comes of a split and of the split of what it left with more bytes
/// behind: the lines of both, and the rest and the end of the second; or the
/// first alone where it ended the reading.
pub open spec fn continued(first: Split, second: Split) -> Split {
    if first.ended {
        first
    } else {
        Split { lines: first.lines + second.lines, rest: second.rest, ended: second.ended }
    }
}

/// Splitting from a line start on gives what splitting the bytes from that
/// line start on, taken by themselves, gives.
proof fn lemma_split_shift(bytes: Seq<u8>, from: int, line_start: int)
    requires
        0 <= line_start <= from <= bytes.len(),
    ensures
        split_from(bytes, from, line_start) == split_from(bytes.skip(line_start), from - line_start, 0),
    decreases bytes.len() - from,
{
    let tail = bytes.skip(line_start);
    if from < bytes.len() {
        assert(tail[from - line_start] == bytes[from]);
        if bytes[from] == LINE_FEED {
            assert(bytes.subrange(line_start, from) =~= tail.subrange(0, from - line_start));
            lemma_split_shift(bytes, from + 1, from + 1);
            lemma_split_shift(tail, from + 1 - line_start, from + 1 - line_start);
            assert(tail.skip(from + 1 - line_start) =~= bytes.skip(from + 1));
        } else {
            lemma_split_shift(bytes, from + 1, line_start);
        }
    } else {
        assert(bytes.subrange(line_start, bytes.len() as int) =~= tail.subrange(0, tail.len() as int));
    }
}

/// Bytes without a line feed at the beginning of a line can be passed over.
proof fn lemma_split_skips(bytes: Seq<u8>, from: int, line_start: int)
    requires
        0 <= line_start <= from <= bytes.len(),
        no_line_feed(bytes, line_start, from),
    ensures
        split_from(bytes, line_start, line_start) == split_from(bytes, from, line_start),
    decreases from - line_start,
{
    if line_start < from {
        lemma_split_skips(bytes, from - 1, line_start);
        assert(bytes[from - 1] != LINE_FEED);
    }
}

proof fn lemma_split_continues(first: Seq<u8>, more: Seq<u8>, from: int, line_start: int)
    requires
        0 <= line_start <= from <= first.len(),
        no_line_feed(first, line_start, from),
    ensures
        split_from(first + more, from, line_start) == continued(
            split_from(first, from, line_start),
            split(split_from(first, from, line_start).rest + more),
        ),
    decreases first.len() - from,
{
    let all = first + more;
    let here = split_from(first, from, line_start);
    if from < first.len() {
        assert(all[from] == first[from]);
        if first[from] == LINE_FEED {
            assert(all.subrange(line_start, from) =~= first.subrange(line_start, from));
            let piece = without_carriage_return(first.subrange(line_start, from));
            if valid_utf8(piece) {
                lemma_split_continues(first, more, from + 1, from + 1);
                let rest_of_first = split_from(first, from + 1, from + 1);
                let second = split(rest_of_first.rest + more);
                assert(seq![decode_utf8(piece)] + (rest_of_first.lines + second.lines) =~= (seq![
                    decode_utf8(piece),
                ] + rest_of_first.lines) + second.lines);
            }
        } else {
            lemma_split_continues(first, more, from + 1, line_start);
        }
    } else {
        let kept = first.subrange(line_start, first.len() as int);
        assert(here.rest == kept);
        assert(all.skip(line_start) =~= kept + more);
        lemma_split_shift(all, from, line_start);
        assert forall|j: int| 0 <= j < from - line_start implies #[trigger] (kept + more)[j]
            != LINE_FEED by {
            assert((kept + more)[j] == first[line_start + j]);
        }
        lemma_split_skips(kept + more, from - line_start, 0);
        assert(Seq::<Seq<char>>::empty() + split(kept + more).lines =~= split(kept + more).lines);
    }
}

/// It makes no difference how a stream is cut into pieces: splitting bytes
/// and then, with more bytes behind what was left, splitting again gives what
/// splitting all the bytes at once gives.
pub proof fn lemma_cut_anywhere(first: Seq<u8>, more: Seq<u8>)
    ensures
        split(first + more) == continued(split(first), split(split(first).rest + more)),
{
    lemma_split_continues(first, more, 0, 0);
}

/// The line that the bytes left at the end of a stream make: none where
/// there are no bytes or where they are not valid UTF-8.
pub open spec fn last_line(rest: Seq<u8>) -> Seq<Seq<char>> {
    if rest.len() > 0 && valid_utf8(rest) {
        seq![decode_utf8(rest)]
    } else {
        Seq::empty()
    }
}

/// The texts of a list of log lines.
pub open spec fn texts_of(lines: Seq<LogLine>) -> Seq<Seq<char>> {
    Seq::new(lines.len(), |i: int| lines[i].line@)
}

/// Whether every line of a list bears the given stream tag and time stamp.
pub open spec fn all_stamped(lines: Seq<LogLine>, stream: LogStream, now: Timestamp) -> bool {
    forall|i: int|
        0 <= i < lines.len() ==> (#[trigger] lines[i]).stream == stream && lines[i].timestamp == now
}

/// A copy of the bytes of `buffer` from `from` up to `to`.
fn copy_range(buffer: &Vec<u8>, from: usize, to: usize) -> (piece: Vec<u8>)
    requires
        from <= to <= buffer.len(),
    ensures
        piece@ == buffer@.subrange(from as int, to as int),
{
    let mut piece: Vec<u8> = Vec::new();
    let mut i: usize = from;
    while i < to
        invariant
            from <= i <= to <= buffer.len(),
            piece@ == buffer@.subrange(from as int, i as int),
        decreases to - i,
    {
        piece.push(buffer[i]);
        i = i + 1;
    }
    piece
}

/// Reads one captured stream of one child.
pub struct StreamReader {
    /// Which stream of the child this reader reads.
    stream: LogStream,
    /// The bytes read since the last line feed.
    pending: Vec<u8>,
    /// Whether the reading has ended.
    ended: bool,
}

impl StreamReader {
    /// Which stream of the child the reader reads.
    pub closed spec fn stream(self) -> LogStream {
        self.stream
    }

    /// The bytes read since the last line feed.
    pub closed spec fn pending(self) -> Seq<u8> {
        self.pending@
    }

    /// Whether the reading has ended: the stream was finished, or a line
    /// that was not valid UTF-8 was met.
    pub closed spec fn ended(self) -> bool {
        self.ended
    }

    /// A reader for the given stream that has read nothing yet.
    pub fn new(stream: LogStream) -> (reader: Self)
        ensures
            reader.stream() == stream,
            reader.pending() == Seq::<u8>::empty(),
            !reader.ended(),
    {
        StreamReader { stream, pending: Vec::new(), ended: false }
    }

    /// Whether the reading has ended.
    pub fn has_ended(&self) -> (r: bool)
        ensures
            r == self.ended(),
    {
        self.ended
    }

    /// Takes bytes that were read from the stream just now. See `feed_at`.
    pub fn feed(&mut self, chunk: &[u8]) -> (lines: Vec<LogLine>)
        ensures
            final(self).stream() == old(self).stream(),
            old(self).ended() ==> lines@.len() == 0 && final(self).ended() && final(self).pending()
                == old(self).pending(),
            !old(self).ended() ==> {
                &&& texts_of(lines@) == split(old(self).pending() + chunk@).lines
                &&& final(self).pending() == split(old(self).pending() + chunk@).rest
                &&& final(self).ended() == split(old(self).pending() + chunk@).ended
            },
            exists|now: Timestamp| #[trigger] all_stamped(lines@, old(self).stream(), now),
    {
        let now = Timestamp::now();
        let lines = self.feed_at(chunk, now);
        assert(all_stamped(lines@, old(self).stream(), now));
        lines
    }

    /// Takes bytes that were read from the stream at the time `now`, and
    /// returns the lines that they complete, each stamped with `now` and
    /// with the stream of the reader.
    ///
    /// The bytes go behind those that are pending; what follows the last
    /// line feed stays pending. A reader that has ended takes nothing.
    pub fn feed_at(&mut self, chunk: &[u8], now: Timestamp) -> (lines: Vec<LogLine>)
        ensures
            final(self).stream() == old(self).stream(),
            old(self).ended() ==> lines@.len() == 0 && final(self).ended() && final(self).pending()
                == old(self).pending(),
            !old(self).ended() ==> {
                &&& texts_of(lines@) == split(old(self).pending() + chunk@).lines
                &&& final(self).pending() == split(old(self).pending() + chunk@).rest
                &&& final(self).ended() == split(old(self).pending() + chunk@).ended
            },
            all_stamped(lines@, old(self).stream(), now),
    {
        let mut lines: Vec<LogLine> = Vec::new();
        if self.ended {
            return lines;
        }
        self.pending.extend_from_slice(chunk);
        let ghost bytes = self.pending@;
        assert(bytes == old(self).pending() + chunk@);
        let mut line_start: usize = 0;
        let mut i: usize = 0;
        while i < self.pending.len()
            invariant
                bytes == self.pending@,
                bytes == old(self).pending() + chunk@,
                !old(self).ended(),
                line_start <= i <= bytes.len(),
                self.stream == old(self).stream,
                !self.ended,
                all_stamped(lines@, self.stream, now),
                split(bytes).lines == texts_of(lines@) + split_from(bytes, i as int, line_start as int).lines,
                split(bytes).rest == split_from(bytes, i as int, line_start as int).rest,
                split(bytes).ended == split_from(bytes, i as int, line_start as int).ended,
            decreases bytes.len() - i,
        {
            if self.pending[i] == LINE_FEED {
                let mut end: usize = i;
                if end > line_start && self.pending[end - 1] == CARRIAGE_RETURN {
                    end = end - 1;
                }
                let piece = copy_range(&self.pending, line_start, end);
                assert(piece@ =~= without_carriage_return(bytes.subrange(line_start as int, i as int)));
                match decode_utf8_text(piece) {
                    Some(text) => {
                        let ghost before = texts_of(lines@);
                        lines.push(LogLine { timestamp: now, stream: self.stream, line: text });
                        assert(texts_of(lines@) =~= before + seq![text@]);
                        assert(before + (seq![text@] + split_from(bytes, i + 1, i + 1).lines) =~= (before
                            + seq![text@]) + split_from(bytes, i + 1, i + 1).lines);
                    },
                    None => {
                        self.pending.clear();
                        self.ended = true;
                        assert(texts_of(lines@) + Seq::<Seq<char>>::empty() =~= texts_of(lines@));
                        return lines;
                    },
                }
                line_start = i + 1;
            }
            i = i + 1;
        }
        assert(texts_of(lines@) + Seq::<Seq<char>>::empty() =~= texts_of(lines@));
        let rest = self.pending.split_off(line_start);
        self.pending = rest;
        lines
    }

    /// Ends the reading just now, at the end of the stream. See `finish_at`.
    pub fn finish(&mut self) -> (lines: Vec<LogLine>)
        ensures
            final(self).stream() == old(self).stream(),
            final(self).ended(),
            final(self).pending() == Seq::<u8>::empty(),
            old(self).ended() ==> lines@.len() == 0,
            !old(self).ended() ==> texts_of(lines@) == last_line(old(self).pending()),
            exists|now: Timestamp| #[trigger] all_stamped(lines@, old(self).stream(), now),
    {
        let now = Timestamp::now();
        let lines = self.finish_at(now);
        assert(all_stamped(lines@, old(self).stream(), now));
        lines
    }

    /// Ends the reading at the end of the stream, at the time `now`: the
    /// bytes that are pending make a last line, if there are any and they
    /// are valid UTF-8.
    pub fn finish_at(&mut self, now: Timestamp) -> (lines: Vec<LogLine>)
        ensures
            final(self).stream() == old(self).stream(),
            final(self).ended(),
            final(self).pending() == Seq::<u8>::empty(),
            old(self).ended() ==> lines@.len() == 0,
            !old(self).ended() ==> texts_of(lines@) == last_line(old(self).pending()),
            all_stamped(lines@, old(self).stream(), now),
    {
        let mut lines: Vec<LogLine> = Vec::new();
        if !self.ended && self.pending.len() > 0 {
            let piece = copy_range(&self.pending, 0, self.pending.len());
            assert(piece@ =~= self.pending@);
            match decode_utf8_text(piece) {
                Some(text) => {
                    lines.push(LogLine { timestamp: now, stream: self.stream, line: text });
                    assert(texts_of(lines@) =~= seq![text@]);
                },
                None => {},
            }
        }
        proof {
            if !old(self).ended() {
                assert(texts_of(lines@) =~= last_line(old(self).pending()));
            }
        }
        self.pending.clear();
        self.ended = true;
        lines
    }
}

} // verus!
