//! Reads what `lsof` and `netstat` print about the ports that are in use.
//!
//! Each line is matched against a pattern; what follows reads the fields that
//! the pattern picks out.

use crate::error::{Result, SentinelError, SentinelErrorView};
use crate::features::port_discovery::{
    parse_port_state, state_named, NetworkTraffic, PortInfo, PortState, Protocol,
};
use crate::text::{
    begins_with, chars_of, decimal_of_nat, is_blank, push_decimal, push_text, starts_with, str_eq,
    str_is_blank, text_between, uppercase_of,
};
use vstd::prelude::*;

verus! {

/// The groups that a pattern captures in a text: `None` where the pattern
/// does not match the text or is no pattern at all, else the text of each
/// group of the leftmost match, the whole match first, and `None` for a
/// group that took no part in the match.
pub uninterp spec fn capture_groups_of(pattern: Seq<char>, text: Seq<char>) -> Option<
    Seq<Option<Seq<char>>>,
>;

/// Matches `text` against `pattern` and hands out the groups of the leftmost
/// match.
///
/// Trusted: wraps `regex::Regex::new` and `Regex::captures`, and reads each
/// group through `Captures::iter` and `Match::as_str`. The result is a
/// function of the pattern and the text alone and is known here only by the
/// name `capture_groups_of`.
#[verifier::external_body]
pub(crate) fn capture_groups(pattern: &str, text: &str) -> (groups: Option<Vec<Option<String>>>)
    ensures
        groups.deep_view() == capture_groups_of(pattern@, text@),
{
    let re = regex::Regex::new(pattern).ok()?;
    let caps = re.captures(text)?;
    Some(caps.iter().map(|group| group.map(|m| m.as_str().to_owned())).collect())
}

/// The pattern of a line of `lsof -i -n -P` that describes a socket.
pub open spec fn lsof_pattern() -> Seq<char> {
    "(?m)^(\\S+)\\s+(\\d+)\\s+\\S+\\s+\\S+\\s+IPv[46]\\s+\\S+\\s+\\S+\\s+(TCP|UDP)\\s+([^:]+):(\\d+)(?:->([^:]+):(\\d+))?\\s+\\(([^)]+)\\)"@
}

/// The pattern of a line of `netstat -ano` that describes a socket.
pub open spec fn netstat_pattern() -> Seq<char> {
    "(?m)^\\s*(TCP|UDP)\\s+([^:]+):(\\d+)\\s+([^:]+):(\\d+)\\s+(\\S+)\\s+(\\d+)"@
}

/// The value of an ASCII digit.
pub open spec fn digit_value(c: char) -> nat {
    (c as nat - '0' as nat) as nat
}

/// Whether a text is a numeral: one or more ASCII digits.
pub open spec fn is_numeral(text: Seq<char>) -> bool {
    text.len() > 0 && forall|i: int| 0 <= i < text.len() ==> '0' <= #[trigger] text[i] <= '9'
}

/// The number that a numeral stands for.
pub open spec fn numeral_value(text: Seq<char>) -> nat
    decreases text.len(),
{
    if text.len() == 0 {
        0
    } else {
        numeral_value(text.drop_last()) * 10 + digit_value(text.last())
    }
}

/// The number that a text stands for, where it is a numeral for a number up
/// to `max`.
pub open spec fn number_up_to(text: Seq<char>, max: nat) -> Option<nat> {
    if is_numeral(text) && numeral_value(text) <= max {
        Some(numeral_value(text))
    } else {
        None
    }
}

/// Reads a numeral for a number up to `max`.
pub fn parse_number(text: &str, max: u64) -> (number: Option<u64>)
    ensures
        match number {
            Some(n) => number_up_to(text@, max as nat) == Some(n as nat),
            None => number_up_to(text@, max as nat) is None,
        },
{
    let chars = chars_of(text);
    if chars.len() == 0 {
        return None;
    }
    let mut value: u64 = 0;
    let mut i: usize = 0;
    while i < chars.len()
        invariant
            i <= chars.len(),
            chars@ == text@,
            forall|j: int| 0 <= j < i ==> '0' <= #[trigger] chars@[j] <= '9',
            value == numeral_value(chars@.take(i as int)),
            value <= max,
        decreases chars.len() - i,
    {
        let c = chars[i];
        if !('0' <= c && c <= '9') {
            return None;
        }
        let digit: u64 = (c as u32 - '0' as u32) as u64;
        proof {
            assert(chars@.take(i + 1).drop_last() =~= chars@.take(i as int));
            assert(chars@.take(i + 1).last() == c);
            assert(digit == digit_value(c));
            lemma_numeral_grows(chars@, i + 1, chars@.len() as int);
        }
        if digit > max || value > (max - digit) / 10 {
            assert(numeral_value(chars@.take(i + 1)) > max);
            assert(chars@.take(chars@.len() as int) =~= chars@);
            return None;
        }
        value = value * 10 + digit;
        i = i + 1;
    }
    assert(chars@.take(i as int) =~= chars@);
    Some(value)
}

/// A numeral stands for at least as much as any of its beginnings.
proof fn lemma_numeral_grows(text: Seq<char>, shorter: int, longer: int)
    requires
        0 <= shorter <= longer <= text.len(),
    ensures
        numeral_value(text.take(shorter)) <= numeral_value(text.take(longer)),
    decreases longer - shorter,
{
    if shorter < longer {
        lemma_numeral_grows(text, shorter, longer - 1);
        assert(text.take(longer).drop_last() =~= text.take(longer - 1));
    }
}

/// What a port entry holds, as plain values. Every entry that is read from
/// a line has no command line and no traffic counted.
pub struct PortEntry {
    pub port: u16,
    pub protocol: Protocol,
    pub process_name: Seq<char>,
    pub pid: u32,
    pub state: PortState,
    pub local_address: Seq<char>,
    pub remote_address: Option<Seq<char>>,
}

/// Whether `info` is the entry `entry`, fresh from a line.
pub open spec fn is_entry(info: PortInfo, entry: PortEntry) -> bool {
    &&& info.port == entry.port
    &&& info.protocol == entry.protocol
    &&& info.process_name@ == entry.process_name
    &&& info.pid == entry.pid
    &&& info.state == entry.state
    &&& info.local_address@ == entry.local_address
    &&& info.remote_address.deep_view() == entry.remote_address
    &&& info.command is None
    &&& info.traffic == (NetworkTraffic {
        bytes_sent: 0,
        bytes_received: 0,
        packets_sent: 0,
        packets_received: 0,
        connections: 0,
    })
}

/// What a line gives: nothing, an entry, or a fault.
pub enum LineReading {
    /// The line describes no socket.
    Skip,
    /// The line describes this socket.
    Entry(PortEntry),
    /// The line holds a number that cannot be read.
    Fault(SentinelErrorView),
}

/// Whether the result `r` of reading a line is what `reading` says.
pub open spec fn reads_as(r: Result<Option<PortInfo>>, reading: LineReading) -> bool {
    match reading {
        LineReading::Skip => r matches Ok(None),
        LineReading::Entry(entry) => r matches Ok(Some(info)) && is_entry(info, entry),
        LineReading::Fault(expected) => r matches Err(e) && e@ == expected,
    }
}

/// The fault of a pid that cannot be read.
pub open spec fn pid_fault() -> SentinelErrorView {
    SentinelErrorView::Other("Failed to parse PID"@)
}

/// The fault of a port number that cannot be read.
pub open spec fn port_fault() -> SentinelErrorView {
    SentinelErrorView::Other("Failed to parse port number"@)
}

/// The protocol that a name stands for.
pub open spec fn protocol_named(name: Seq<char>) -> Option<Protocol> {
    if name == "TCP"@ {
        Some(Protocol::TCP)
    } else if name == "UDP"@ {
        Some(Protocol::UDP)
    } else {
        None
    }
}

/// Whether the groups are those of a line of `lsof`: nine, of which only
/// the remote address and the remote port may be missing.
pub open spec fn lsof_groups_complete(groups: Seq<Option<Seq<char>>>) -> bool {
    &&& groups.len() == 9
    &&& groups[1] is Some
    &&& groups[2] is Some
    &&& groups[3] is Some
    &&& groups[4] is Some
    &&& groups[5] is Some
    &&& groups[8] is Some
    &&& groups[6] is Some ==> groups[7] is Some
}

/// What the groups of a line of `lsof` give: the process name, the pid, the
/// protocol, the local address with its port, the remote address with its
/// port where the socket is connected, and the state.
pub open spec fn lsof_reading(groups: Seq<Option<Seq<char>>>) -> LineReading {
    if !lsof_groups_complete(groups) {
        LineReading::Skip
    } else if number_up_to(groups[2]->0, u32::MAX as nat) is None {
        LineReading::Fault(pid_fault())
    } else if protocol_named(groups[3]->0) is None {
        LineReading::Skip
    } else if number_up_to(groups[5]->0, u16::MAX as nat) is None {
        LineReading::Fault(port_fault())
    } else {
        LineReading::Entry(
            PortEntry {
                port: number_up_to(groups[5]->0, u16::MAX as nat)->0 as u16,
                protocol: protocol_named(groups[3]->0)->0,
                process_name: groups[1]->0,
                pid: number_up_to(groups[2]->0, u32::MAX as nat)->0 as u32,
                state: state_named(uppercase_of(groups[8]->0)),
                local_address: groups[4]->0,
                remote_address: match groups[6] {
                    Some(address) => Some(address + ":"@ + groups[7]->0),
                    None => None,
                },
            },
        )
    }
}

/// Whether the groups are those of a line of `netstat`: eight, all there.
pub open spec fn netstat_groups_complete(groups: Seq<Option<Seq<char>>>) -> bool {
    &&& groups.len() == 8
    &&& forall|i: int| 1 <= i < 8 ==> (#[trigger] groups[i]) is Some
}

/// Whether a remote address stands for no peer.
pub open spec fn is_no_peer(address: Seq<char>) -> bool {
    address == "0.0.0.0"@ || address == "[::]"@
}

/// What the groups of a line of `netstat` give. The process is named after
/// its pid.
pub open spec fn netstat_reading(groups: Seq<Option<Seq<char>>>) -> LineReading {
    if !netstat_groups_complete(groups) {
        LineReading::Skip
    } else if protocol_named(groups[1]->0) is None {
        LineReading::Skip
    } else if number_up_to(groups[3]->0, u16::MAX as nat) is None {
        LineReading::Fault(port_fault())
    } else if number_up_to(groups[7]->0, u32::MAX as nat) is None {
        LineReading::Fault(pid_fault())
    } else {
        LineReading::Entry(
            PortEntry {
                port: number_up_to(groups[3]->0, u16::MAX as nat)->0 as u16,
                protocol: protocol_named(groups[1]->0)->0,
                process_name: "pid-"@ + decimal_of_nat(number_up_to(groups[7]->0, u32::MAX as nat)->0),
                pid: number_up_to(groups[7]->0, u32::MAX as nat)->0 as u32,
                state: state_named(uppercase_of(groups[6]->0)),
                local_address: groups[2]->0,
                remote_address: if is_no_peer(groups[4]->0) {
                    None
                } else {
                    Some(groups[4]->0 + ":"@ + groups[5]->0)
                },
            },
        )
    }
}

/// The group at position `i`, where it is there.
fn group<'a>(groups: &'a Vec<Option<String>>, i: usize) -> (text: Option<&'a str>)
    ensures
        match text {
            Some(t) => i < groups.len() && groups.deep_view()[i as int] == Some(t@),
            None => i >= groups.len() || groups.deep_view()[i as int] is None,
        },
{
    if i >= groups.len() {
        return None;
    }
    assert(groups.deep_view()[i as int] == groups@[i as int].deep_view());
    match &groups[i] {
        Some(text) => Some(text.as_str()),
        None => None,
    }
}

/// The protocol that a name stands for.
fn protocol_from(name: &str) -> (protocol: Option<Protocol>)
    ensures
        protocol == protocol_named(name@),
{
    if str_eq(name, "TCP") {
        Some(Protocol::TCP)
    } else if str_eq(name, "UDP") {
        Some(Protocol::UDP)
    } else {
        None
    }
}

/// An address and a port, joined by a colon.
fn endpoint(address: &str, port: &str) -> (text: String)
    ensures
        text@ == address@ + ":"@ + port@,
{
    let mut text = String::new();
    push_text(&mut text, address);
    push_text(&mut text, ":");
    push_text(&mut text, port);
    assert(text@ =~= address@ + ":"@ + port@);
    text
}

fn fault(message: &str) -> (e: SentinelError)
    ensures
        e@ == SentinelErrorView::Other(message@),
{
    SentinelError::Other(message.to_owned())
}

/// Reads the groups that the `lsof` pattern captured in a line.
pub fn port_from_lsof_groups(groups: &Vec<Option<String>>) -> (r: Result<Option<PortInfo>>)
    ensures
        reads_as(r, lsof_reading(groups.deep_view())),
{
    if groups.len() != 9 {
        return Ok(None);
    }
    let (name, pid_text, protocol_text, local, port_text, state_text) = match (
        group(groups, 1),
        group(groups, 2),
        group(groups, 3),
        group(groups, 4),
        group(groups, 5),
        group(groups, 8),
    ) {
        (Some(a), Some(b), Some(c), Some(d), Some(e), Some(f)) => (a, b, c, d, e, f),
        _ => {
            return Ok(None);
        },
    };
    let remote = match group(groups, 6) {
        Some(address) => match group(groups, 7) {
            Some(port) => Some((address, port)),
            None => {
                return Ok(None);
            },
        },
        None => None,
    };
    let pid = match parse_number(pid_text, 0xffff_ffff) {
        Some(pid) => pid as u32,
        None => {
            return Err(fault("Failed to parse PID"));
        },
    };
    let protocol = match protocol_from(protocol_text) {
        Some(protocol) => protocol,
        None => {
            return Ok(None);
        },
    };
    let port = match parse_number(port_text, 0xffff) {
        Some(port) => port as u16,
        None => {
            return Err(fault("Failed to parse port number"));
        },
    };
    let remote_address = match remote {
        Some((address, port)) => Some(endpoint(address, port)),
        None => None,
    };
    Ok(
        Some(
            PortInfo {
                port,
                protocol,
                process_name: name.to_owned(),
                pid,
                state: parse_port_state(state_text),
                local_address: local.to_owned(),
                remote_address,
                command: None,
                traffic: NetworkTraffic::default(),
            },
        ),
    )
}

/// Reads the groups that the `netstat` pattern captured in a line.
pub fn port_from_netstat_groups(groups: &Vec<Option<String>>) -> (r: Result<Option<PortInfo>>)
    ensures
        reads_as(r, netstat_reading(groups.deep_view())),
{
    if groups.len() != 8 {
        return Ok(None);
    }
    let (protocol_text, local, port_text, remote, remote_port, state_text, pid_text) = match (
        group(groups, 1),
        group(groups, 2),
        group(groups, 3),
        group(groups, 4),
        group(groups, 5),
        group(groups, 6),
        group(groups, 7),
    ) {
        (Some(a), Some(b), Some(c), Some(d), Some(e), Some(f), Some(g)) => (a, b, c, d, e, f, g),
        _ => {
            assert(!netstat_groups_complete(groups.deep_view()));
            return Ok(None);
        },
    };
    let protocol = match protocol_from(protocol_text) {
        Some(protocol) => protocol,
        None => {
            return Ok(None);
        },
    };
    let port = match parse_number(port_text, 0xffff) {
        Some(port) => port as u16,
        None => {
            return Err(fault("Failed to parse port number"));
        },
    };
    let remote_address = if str_eq(remote, "0.0.0.0") || str_eq(remote, "[::]") {
        None
    } else {
        Some(endpoint(remote, remote_port))
    };
    let pid = match parse_number(pid_text, 0xffff_ffff) {
        Some(pid) => pid as u32,
        None => {
            return Err(fault("Failed to parse PID"));
        },
    };
    let mut process_name = String::new();
    push_text(&mut process_name, "pid-");
    push_decimal(&mut process_name, pid as u64);
    assert(process_name@ =~= "pid-"@ + decimal_of_nat(pid as nat));
    Ok(
        Some(
            PortInfo {
                port,
                protocol,
                process_name,
                pid,
                state: parse_port_state(state_text),
                local_address: local.to_owned(),
                remote_address,
                command: None,
                traffic: NetworkTraffic::default(),
            },
        ),
    )
}

/// What a line of `lsof` gives: nothing for the header, for a blank line and
/// for a line that the pattern does not match.
pub open spec fn lsof_line_reading(line: Seq<char>) -> LineReading {
    if begins_with(line, "COMMAND"@) || is_blank(line) {
        LineReading::Skip
    } else {
        match capture_groups_of(lsof_pattern(), line) {
            Some(groups) => lsof_reading(groups),
            None => LineReading::Skip,
        }
    }
}

/// What a line of `netstat` gives: nothing for the headers, for a blank line
/// and for a line that the pattern does not match.
pub open spec fn netstat_line_reading(line: Seq<char>) -> LineReading {
    if begins_with(line, "Active"@) || begins_with(line, "Proto"@) || is_blank(line) {
        LineReading::Skip
    } else {
        match capture_groups_of(netstat_pattern(), line) {
            Some(groups) => netstat_reading(groups),
            None => LineReading::Skip,
        }
    }
}

/// Reads one line of the output of `lsof`.
pub fn parse_lsof_line(line: &str) -> (r: Result<Option<PortInfo>>)
    ensures
        reads_as(r, lsof_line_reading(line@)),
{
    if starts_with(line, "COMMAND") || str_is_blank(line) {
        return Ok(None);
    }
    match capture_groups(
        "(?m)^(\\S+)\\s+(\\d+)\\s+\\S+\\s+\\S+\\s+IPv[46]\\s+\\S+\\s+\\S+\\s+(TCP|UDP)\\s+([^:]+):(\\d+)(?:->([^:]+):(\\d+))?\\s+\\(([^)]+)\\)",
        line,
    ) {
        Some(groups) => port_from_lsof_groups(&groups),
        None => Ok(None),
    }
}

/// Reads one line of the output of `netstat`.
pub fn parse_netstat_line(line: &str) -> (r: Result<Option<PortInfo>>)
    ensures
        reads_as(r, netstat_line_reading(line@)),
{
    if starts_with(line, "Active") || starts_with(line, "Proto") || str_is_blank(line) {
        return Ok(None);
    }
    match capture_groups(
        "(?m)^\\s*(TCP|UDP)\\s+([^:]+):(\\d+)\\s+([^:]+):(\\d+)\\s+(\\S+)\\s+(\\d+)",
        line,
    ) {
        Some(groups) => port_from_netstat_groups(&groups),
        None => Ok(None),
    }
}

/// The lines of a text from position `from` on, where the line that is
/// being read began at position `line_start`. A line ends at a line feed;
/// the line feed is no part of it, nor is a carriage return right before the
/// line feed. What follows the last line feed is a line if it is not empty.
pub open spec fn lines_from(text: Seq<char>, from: int, line_start: int) -> Seq<Seq<char>>
    decreases text.len() - from,
{
    if from < 0 || from >= text.len() {
        if line_start < text.len() {
            seq![text.subrange(line_start, text.len() as int)]
        } else {
            Seq::empty()
        }
    } else if text[from] == '\n' {
        seq![without_return(text.subrange(line_start, from))] + lines_from(text, from + 1, from + 1)
    } else {
        lines_from(text, from + 1, line_start)
    }
}

/// A line without the carriage return at its end, if there is one.
pub open spec fn without_return(line: Seq<char>) -> Seq<char> {
    if line.len() > 0 && line.last() == '\r' {
        line.drop_last()
    } else {
        line
    }
}

/// The lines of a text.
pub open spec fn lines_of(text: Seq<char>) -> Seq<Seq<char>> {
    lines_from(text, 0, 0)
}

/// Splits a text into its lines.
pub fn split_lines(text: &str) -> (lines: Vec<String>)
    ensures
        lines.deep_view() == lines_of(text@),
{
    let chars = chars_of(text);
    let mut lines: Vec<String> = Vec::new();
    let mut line_start: usize = 0;
    let mut i: usize = 0;
    while i < chars.len()
        invariant
            chars@ == text@,
            line_start <= i <= chars.len(),
            lines.deep_view() + lines_from(chars@, i as int, line_start as int) == lines_of(chars@),
        decreases chars.len() - i,
    {
        if chars[i] == '\n' {
            let mut end: usize = i;
            if end > line_start && chars[end - 1] == '\r' {
                end = end - 1;
            }
            let ghost before = lines.deep_view();
            let line = text_between(&chars, line_start, end);
            assert(line@ =~= without_return(chars@.subrange(line_start as int, i as int)));
            lines.push(line);
            assert(lines.deep_view() =~= before + seq![line@]);
            assert(lines.deep_view() + lines_from(chars@, i + 1, i + 1) =~= before + lines_from(
                chars@,
                i as int,
                line_start as int,
            ));
            line_start = i + 1;
        }
        i = i + 1;
    }
    if line_start < chars.len() {
        let ghost before = lines.deep_view();
        let line = text_between(&chars, line_start, chars.len());
        lines.push(line);
        assert(lines.deep_view() =~= before + seq![line@]);
    } else {
        assert(lines.deep_view() + Seq::<Seq<char>>::empty() =~= lines.deep_view());
    }
    lines
}

/// Which command printed the output that is read.
#[derive(Debug, Clone, Copy, PartialEq, Eq, Structural)]
pub enum ScanOutput {
    Lsof,
    Netstat,
}

/// What a line of the output of the given command gives.
pub open spec fn line_reading(kind: ScanOutput, line: Seq<char>) -> LineReading {
    match kind {
        ScanOutput::Lsof => lsof_line_reading(line),
        ScanOutput::Netstat => netstat_line_reading(line),
    }
}

/// The fault of the first line from position `from` on that has one.
pub open spec fn first_fault(kind: ScanOutput, lines: Seq<Seq<char>>, from: int) -> Option<
    SentinelErrorView,
>
    decreases lines.len() - from,
{
    if from < 0 || from >= lines.len() {
        None
    } else {
        match line_reading(kind, lines[from]) {
            LineReading::Fault(fault) => Some(fault),
            _ => first_fault(kind, lines, from + 1),
        }
    }
}

/// The entries that the first `upto` lines give, in order.
pub open spec fn entries_of(kind: ScanOutput, lines: Seq<Seq<char>>, upto: int) -> Seq<PortEntry>
    decreases upto,
{
    if upto <= 0 || upto > lines.len() {
        Seq::empty()
    } else {
        match line_reading(kind, lines[upto - 1]) {
            LineReading::Entry(entry) => entries_of(kind, lines, upto - 1).push(entry),
            _ => entries_of(kind, lines, upto - 1),
        }
    }
}

/// Whether `ports` holds the entries `entries`, one for one.
pub open spec fn holds_entries(ports: Seq<PortInfo>, entries: Seq<PortEntry>) -> bool {
    &&& ports.len() == entries.len()
    &&& forall|i: int| 0 <= i < ports.len() ==> is_entry(#[trigger] ports[i], entries[i])
}

/// Whether `r` is what reading the output `text` of the given command
/// gives: the fault of the first line that has one, else the entries of all
/// lines in order.
pub open spec fn reads_output(r: Result<Vec<PortInfo>>, kind: ScanOutput, text: Seq<char>) -> bool {
    match first_fault(kind, lines_of(text), 0) {
        Some(fault) => r matches Err(e) && e@ == fault,
        None => r matches Ok(ports) && holds_entries(
            ports@,
            entries_of(kind, lines_of(text), lines_of(text).len() as int),
        ),
    }
}

/// Reads the output of the given command line by line.
pub fn parse_output(kind: ScanOutput, output: &str) -> (r: Result<Vec<PortInfo>>)
    ensures
        reads_output(r, kind, output@),
{
    let lines = split_lines(output);
    let ghost all = lines.deep_view();
    let mut ports: Vec<PortInfo> = Vec::new();
    let mut i: usize = 0;
    while i < lines.len()
        invariant
            i <= lines.len(),
            all == lines.deep_view(),
            all == lines_of(output@),
            first_fault(kind, all, i as int) == first_fault(kind, all, 0),
            holds_entries(ports@, entries_of(kind, all, i as int)),
        decreases lines.len() - i,
    {
        assert(all[i as int] == lines@[i as int]@);
        let read = match kind {
            ScanOutput::Lsof => parse_lsof_line(lines[i].as_str()),
            ScanOutput::Netstat => parse_netstat_line(lines[i].as_str()),
        };
        match read {
            Err(e) => {
                return Err(e);
            },
            Ok(Some(info)) => {
                ports.push(info);
            },
            Ok(None) => {},
        }
        i = i + 1;
    }
    Ok(ports)
}

/// Parse lsof output (macOS/Linux)
pub fn parse_lsof_output(output: &str) -> (r: Result<Vec<PortInfo>>)
    ensures
        reads_output(r, ScanOutput::Lsof, output@),
{
    parse_output(ScanOutput::Lsof, output)
}

/// Parse netstat output (Windows)
pub fn parse_netstat_output(output: &str) -> (r: Result<Vec<PortInfo>>)
    ensures
        reads_output(r, ScanOutput::Netstat, output@),
{
    parse_output(ScanOutput::Netstat, output)
}

} // verus!
