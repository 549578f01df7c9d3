//! The bounded log store: a first-in, first-out buffer of captured lines
//! that drops its oldest line to make room for a new one.

use crate::clock::Timestamp;
use crate::text::{
    chars_of, contains_chars, is_substring, lemma_empty_occurs_everywhere,
    lemma_substring_transitive, lowercase_of, to_lowercase,
};
use std::collections::VecDeque;
use vstd::prelude::*;

verus! {

/// Maximum log lines to retain per process by default.
pub const DEFAULT_MAX_LINES: usize = 10_000;

/// Log stream type (stdout or stderr).
#[derive(Debug, Clone, Copy, PartialEq, Eq, Structural)]
pub enum LogStream {
    /// Standard output
    Stdout,
    /// Standard error
    Stderr,
}

/// Log line with timestamp and stream information.
#[derive(Debug)]
pub struct LogLine {
    /// UTC timestamp when log was received
    pub timestamp: Timestamp,
    /// Stream type (stdout or stderr)
    pub stream: LogStream,
    /// The actual log line content
    pub line: String,
}

impl Clone for LogLine {
    fn clone(&self) -> (copy: Self)
        ensures
            copy == *self,
    {
        LogLine { timestamp: self.timestamp, stream: self.stream, line: self.line.clone() }
    }
}

/// The last `n` items of `s`, or all of `s` where it holds no more than `n`.
pub open spec fn keep_last<T>(s: Seq<T>, n: nat) -> Seq<T> {
    if s.len() <= n {
        s
    } else {
        s.subrange(s.len() - n, s.len() as int)
    }
}

/// What `keep_last` keeps is the end of the sequence, and as much of it as
/// the limit allows.
pub proof fn lemma_keep_last_is_suffix<T>(s: Seq<T>, n: nat)
    ensures
        keep_last(s, n).len() == if s.len() <= n { s.len() } else { n },
        keep_last(s, n) == s.skip(s.len() - keep_last(s, n).len()),
        keep_last(s, n).is_suffix_of(s),
{
    let kept = keep_last(s, n);
    let dropped = s.take(s.len() - kept.len());
    assert(kept =~= s.skip(s.len() - kept.len()));
    assert(s =~= dropped + kept);
}

/// What a buffer of capacity `capacity` holds after the lines of `pushed`
/// were pushed onto `history` one after the other.
pub open spec fn after_pushes<T>(history: Seq<T>, pushed: Seq<T>, capacity: nat) -> Seq<T>
    decreases pushed.len(),
{
    if pushed.len() == 0 {
        history
    } else {
        keep_last(after_pushes(history, pushed.drop_last(), capacity).push(pushed.last()), capacity)
    }
}

/// Whatever is pushed onto a buffer that is within its capacity, and in
/// whatever number, the buffer stays within its capacity at every step; and
/// it holds the newest of all the lines, as many as the capacity allows.
pub proof fn lemma_pushes_stay_within_capacity<T>(history: Seq<T>, pushed: Seq<T>, capacity: nat)
    requires
        history.len() <= capacity,
    ensures
        after_pushes(history, pushed, capacity).len() <= capacity,
        after_pushes(history, pushed, capacity) == keep_last(history + pushed, capacity),
    decreases pushed.len(),
{
    if pushed.len() == 0 {
        assert(history + pushed =~= history);
    } else {
        lemma_pushes_stay_within_capacity(history, pushed.drop_last(), capacity);
        let before = history + pushed.drop_last();
        assert(before.push(pushed.last()) =~= history + pushed);
        assert(keep_last(keep_last(before, capacity).push(pushed.last()), capacity) =~= keep_last(
            before.push(pushed.last()),
            capacity,
        ));
    }
}

/// A buffer of capacity zero retains nothing, whatever is pushed.
pub proof fn lemma_capacity_zero_retains_nothing<T>(history: Seq<T>, line: T)
    ensures
        keep_last(history.push(line), 0).len() == 0,
{
}

/// Whether `line` matches the search text `query`: whether its text, in lower
/// case, contains the query in lower case.
pub open spec fn line_matches(line: LogLine, query: Seq<char>) -> bool {
    is_substring(lowercase_of(query), lowercase_of(line.line@))
}

/// Two queries that are alike in lower case match the same lines.
pub proof fn lemma_queries_alike_match_alike(line: LogLine, first: Seq<char>, second: Seq<char>)
    requires
        lowercase_of(first) == lowercase_of(second),
    ensures
        line_matches(line, first) == line_matches(line, second),
{
}

/// A query whose lower-case form occurs in that of another matches every
/// line that the other matches.
pub proof fn lemma_wider_query_matches_more(line: LogLine, wider: Seq<char>, narrower: Seq<char>)
    requires
        is_substring(lowercase_of(wider), lowercase_of(narrower)),
        line_matches(line, narrower),
    ensures
        line_matches(line, wider),
{
    lemma_substring_transitive(
        lowercase_of(wider),
        lowercase_of(narrower),
        lowercase_of(line.line@),
    );
}

/// A query whose lower-case form is empty matches every line.
pub proof fn lemma_empty_query_matches_all(line: LogLine, query: Seq<char>)
    requires
        lowercase_of(query).len() == 0,
    ensures
        line_matches(line, query),
{
    assert(lowercase_of(query) =~= Seq::<char>::empty());
    lemma_empty_occurs_everywhere(lowercase_of(line.line@));
}

/// Circular buffer for storing log lines.
///
/// Automatically drops oldest lines when capacity is reached.
pub struct LogBuffer {
    /// The retained lines, oldest first.
    lines: VecDeque<LogLine>,
    /// Maximum number of lines to retain
    max_lines: usize,
}

impl View for LogBuffer {
    type V = Seq<LogLine>;

    /// The retained lines in chronological order.
    closed spec fn view(&self) -> Seq<LogLine> {
        self.lines@
    }
}

impl LogBuffer {
    /// The buffer's invariant: it never holds more lines than its capacity.
    /// Every constructor establishes it and every method keeps it.
    pub closed spec fn wf(self) -> bool {
        self.lines@.len() <= self.max_lines
    }

    /// A well-formed buffer holds no more lines than its capacity.
    pub proof fn lemma_len_within_capacity(self)
        requires
            self.wf(),
        ensures
            self@.len() <= self.max_lines(),
    {
    }

    /// The maximum number of lines that the buffer retains.
    pub closed spec fn max_lines(self) -> nat {
        self.max_lines as nat
    }

    /// Creates a new log buffer with default capacity (10,000 lines).
    pub fn new() -> (buffer: Self)
        ensures
            buffer.wf(),
            buffer@ == Seq::<LogLine>::empty(),
            buffer.max_lines() == DEFAULT_MAX_LINES,
    {
        Self::with_capacity(DEFAULT_MAX_LINES)
    }

    /// Creates a new log buffer with specified capacity.
    pub fn with_capacity(max_lines: usize) -> (buffer: Self)
        ensures
            buffer.wf(),
            buffer@ == Seq::<LogLine>::empty(),
            buffer.max_lines() == max_lines,
    {
        LogBuffer { lines: VecDeque::new(), max_lines }
    }

    /// Pushes a new log line to the buffer.
    ///
    /// If buffer is at capacity, drops the oldest line (FIFO). A buffer of
    /// capacity zero retains nothing.
    pub fn push(&mut self, line: LogLine)
        requires
            old(self).wf(),
        ensures
            final(self).wf(),
            final(self)@ == keep_last(old(self)@.push(line), old(self).max_lines()),
            final(self).max_lines() == old(self).max_lines(),
            final(self)@.len() <= final(self).max_lines(),
    {
        if self.max_lines == 0 {
            assert(self@ =~= keep_last(old(self)@.push(line), 0));
            return ;
        }
        if self.lines.len() >= self.max_lines {
            self.lines.pop_front();
        }
        self.lines.push_back(line);
        assert(self@ =~= keep_last(old(self)@.push(line), old(self).max_lines()));
    }

    /// Returns all log lines as a vector (cloned), oldest first.
    pub fn get_all(&self) -> (lines: Vec<LogLine>)
        ensures
            lines@ == self@,
    {
        let mut out: Vec<LogLine> = Vec::new();
        let mut i: usize = 0;
        while i < self.lines.len()
            invariant
                i <= self.lines@.len(),
                out@ == self.lines@.take(i as int),
            decreases self.lines@.len() - i,
        {
            out.push(self.lines[i].clone());
            i = i + 1;
        }
        out
    }

    /// Returns last N log lines, oldest first.
    pub fn get_last_n(&self, n: usize) -> (lines: Vec<LogLine>)
        ensures
            lines@ == keep_last(self@, n as nat),
    {
        let len = self.lines.len();
        let first: usize = if len <= n {
            0
        } else {
            len - n
        };
        let mut out: Vec<LogLine> = Vec::new();
        let mut i: usize = first;
        while i < len
            invariant
                first <= i <= len,
                len == self.lines@.len(),
                out@ == self.lines@.subrange(first as int, i as int),
            decreases len - i,
        {
            out.push(self.lines[i].clone());
            i = i + 1;
        }
        assert(out@ =~= keep_last(self@, n as nat));
        out
    }

    /// Searches for lines containing the query string (case-insensitive).
    pub fn search(&self, query: &str) -> (lines: Vec<LogLine>)
        ensures
            lines@ == self@.filter(|line: LogLine| line_matches(line, query@)),
    {
        let query_lower = chars_of(to_lowercase(query).as_str());
        let ghost pred = |line: LogLine| line_matches(line, query@);
        let mut out: Vec<LogLine> = Vec::new();
        let mut i: usize = 0;
        proof {
            reveal(Seq::filter);
        }
        while i < self.lines.len()
            invariant
                i <= self.lines@.len(),
                query_lower@ == lowercase_of(query@),
                pred == |line: LogLine| line_matches(line, query@),
                out@ == self.lines@.take(i as int).filter(pred),
            decreases self.lines@.len() - i,
        {
            let line_lower = chars_of(to_lowercase(self.lines[i].line.as_str()).as_str());
            proof {
                reveal(Seq::filter);
                assert(self.lines@.take(i + 1).drop_last() =~= self.lines@.take(i as int));
            }
            if contains_chars(&line_lower, &query_lower) {
                out.push(self.lines[i].clone());
            }
            i = i + 1;
        }
        assert(self.lines@.take(i as int) =~= self.lines@);
        out
    }

    /// Filters logs by stream type.
    pub fn filter_by_stream(&self, stream: LogStream) -> (lines: Vec<LogLine>)
        ensures
            lines@ == self@.filter(|line: LogLine| line.stream == stream),
    {
        let ghost pred = |line: LogLine| line.stream == stream;
        let mut out: Vec<LogLine> = Vec::new();
        let mut i: usize = 0;
        proof {
            reveal(Seq::filter);
        }
        while i < self.lines.len()
            invariant
                i <= self.lines@.len(),
                pred == |line: LogLine| line.stream == stream,
                out@ == self.lines@.take(i as int).filter(pred),
            decreases self.lines@.len() - i,
        {
            proof {
                reveal(Seq::filter);
                assert(self.lines@.take(i + 1).drop_last() =~= self.lines@.take(i as int));
            }
            if self.lines[i].stream == stream {
                out.push(self.lines[i].clone());
            }
            i = i + 1;
        }
        assert(self.lines@.take(i as int) =~= self.lines@);
        out
    }

    /// Returns the number of lines currently stored.
    pub fn len(&self) -> (n: usize)
        requires
            self.wf(),
        ensures
            n == self@.len(),
            n <= self.max_lines(),
    {
        self.lines.len()
    }

    /// Returns true if buffer is empty.
    pub fn is_empty(&self) -> (r: bool)
        ensures
            r == (self@.len() == 0),
    {
        self.lines.len() == 0
    }

    /// Clears all log lines from the buffer.
    pub fn clear(&mut self)
        ensures
            final(self).wf(),
            final(self)@ == Seq::<LogLine>::empty(),
            final(self).max_lines() == old(self).max_lines(),
    {
        self.lines.clear();
    }

    /// Returns the maximum capacity of the buffer.
    pub fn capacity(&self) -> (n: usize)
        ensures
            n == self.max_lines(),
    {
        self.max_lines
    }
}

impl Default for LogBuffer {
    fn default() -> (buffer: Self)
        ensures
            buffer.wf(),
            buffer@ == Seq::<LogLine>::empty(),
            buffer.max_lines() == DEFAULT_MAX_LINES,
    {
        Self::new()
    }
}

} // verus!
