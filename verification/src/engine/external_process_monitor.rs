//! Processes that run outside the supervisor and whose logs it follows.

use crate::text::{
    chars_of, find_chars, find_whitespace, first_occurrence, text_between, whitespace_from,
};
use vstd::prelude::*;

verus! {

/// Where to get logs from for this process
#[derive(Debug, Clone)]
pub enum LogSource {
    /// Read from a log file
    File { path: String },
    /// Read from Docker container logs
    DockerLogs { container_id: String },
    /// Capture stdout/stderr using dtrace/dtruss (macOS)
    DTrace { pid: u32 },
    /// Cannot auto-detect - show instructions to user
    Manual { instructions: String },
}

/// Information about an attached external process
#[derive(Debug, Clone)]
pub struct ProcessAttachment {
    pub pid: u32,
    pub port: Option<u16>,
    pub name: String,
    pub command: String,
    pub log_source: LogSource,
}

/// The text from position `from` up to the next white space, or to the end.
pub open spec fn word_from(command: Seq<char>, from: int) -> Seq<char> {
    command.subrange(from, whitespace_from(command, from))
}

/// The log file that a command line names, if it names one: what follows
/// the first `--log-file=` up to the next white space; else what follows the
/// first `> ` up to the next white space, where white space follows at all.
pub open spec fn log_file_in(command: Seq<char>) -> Option<Seq<char>> {
    let flag = first_occurrence("--log-file="@, command);
    let redirect = first_occurrence("> "@, command);
    if flag >= 0 {
        Some(word_from(command, flag + "--log-file="@.len()))
    } else if redirect >= 0 && whitespace_from(command, redirect + "> "@.len()) < command.len() {
        Some(word_from(command, redirect + "> "@.len()))
    } else {
        None
    }
}

/// Extract log file path from command line arguments
pub fn extract_log_file_from_cmd(command: &str) -> (path: Option<String>)
    ensures
        path.deep_view() == log_file_in(command@),
{
    let chars = chars_of(command);
    let flag = chars_of("--log-file=");
    match find_chars(&chars, &flag) {
        Some(at) => {
            let from = at + flag.len();
            let end = find_whitespace(&chars, from);
            return Some(text_between(&chars, from, end));
        },
        None => {},
    }
    let redirect = chars_of("> ");
    match find_chars(&chars, &redirect) {
        Some(at) => {
            let from = at + redirect.len();
            let end = find_whitespace(&chars, from);
            if end < chars.len() {
                return Some(text_between(&chars, from, end));
            }
        },
        None => {},
    }
    None
}

} // verus!
