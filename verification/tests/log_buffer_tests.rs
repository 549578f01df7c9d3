use sentinel::clock::Timestamp;
use sentinel::engine::log_buffer::{LogBuffer, LogLine, LogStream, DEFAULT_MAX_LINES};

fn create_log_line(content: &str, stream: LogStream) -> LogLine {
    LogLine { timestamp: Timestamp { secs: 1_700_000_000, nanos: 0 }, stream, line: content.to_string() }
}

#[test]
fn log_buffer_test_buffer_creation() {
    let buffer = LogBuffer::new();
    assert_eq!(buffer.len(), 0);
    assert_eq!(buffer.capacity(), DEFAULT_MAX_LINES);
}

#[test]
fn log_buffer_test_push_and_get() {
    let mut buffer = LogBuffer::with_capacity(5);

    buffer.push(create_log_line("line 1", LogStream::Stdout));
    buffer.push(create_log_line("line 2", LogStream::Stderr));

    assert_eq!(buffer.len(), 2);

    let lines = buffer.get_all();
    assert_eq!(lines[0].line, "line 1");
    assert_eq!(lines[1].line, "line 2");
}

#[test]
fn test_circular_buffer_overflow() {
    let mut buffer = LogBuffer::with_capacity(3);

    for i in 0..5 {
        buffer.push(create_log_line(&format!("line {}", i), LogStream::Stdout));
    }

    // Should only keep last 3 lines (2, 3, 4)
    assert_eq!(buffer.len(), 3);

    let lines = buffer.get_all();
    assert_eq!(lines[0].line, "line 2");
    assert_eq!(lines[1].line, "line 3");
    assert_eq!(lines[2].line, "line 4");
}

#[test]
fn log_buffer_test_get_last_n() {
    let mut buffer = LogBuffer::with_capacity(10);

    for i in 0..5 {
        buffer.push(create_log_line(&format!("line {}", i), LogStream::Stdout));
    }

    let last_2 = buffer.get_last_n(2);
    assert_eq!(last_2.len(), 2);
    assert_eq!(last_2[0].line, "line 3");
    assert_eq!(last_2[1].line, "line 4");
}

#[test]
fn test_search() {
    let mut buffer = LogBuffer::new();

    buffer.push(create_log_line("Error: something went wrong", LogStream::Stderr));
    buffer.push(create_log_line("Info: operation successful", LogStream::Stdout));
    buffer.push(create_log_line("Error: another issue", LogStream::Stderr));

    let results = buffer.search("error");
    assert_eq!(results.len(), 2);
    assert!(results[0].line.contains("Error"));
}

#[test]
fn test_filter_by_stream() {
    let mut buffer = LogBuffer::new();

    buffer.push(create_log_line("stdout line 1", LogStream::Stdout));
    buffer.push(create_log_line("stderr line 1", LogStream::Stderr));
    buffer.push(create_log_line("stdout line 2", LogStream::Stdout));

    let stdout_logs = buffer.filter_by_stream(LogStream::Stdout);
    assert_eq!(stdout_logs.len(), 2);

    let stderr_logs = buffer.filter_by_stream(LogStream::Stderr);
    assert_eq!(stderr_logs.len(), 1);
}

#[test]
fn log_buffer_test_clear() {
    let mut buffer = LogBuffer::new();

    buffer.push(create_log_line("line 1", LogStream::Stdout));
    buffer.push(create_log_line("line 2", LogStream::Stdout));

    assert_eq!(buffer.len(), 2);

    buffer.clear();
    assert_eq!(buffer.len(), 0);
    assert!(buffer.is_empty());
}

#[test]
fn log_buffer_never_exceeds_its_capacity() {
    for capacity in 0..6usize {
        let mut buffer = LogBuffer::with_capacity(capacity);
        for i in 0..20 {
            buffer.push(create_log_line(&format!("line {}", i), LogStream::Stdout));
            assert!(buffer.len() <= capacity);
            assert_eq!(buffer.len(), std::cmp::min(i + 1, capacity));
        }
    }
}

#[test]
fn log_buffer_of_capacity_zero_retains_nothing() {
    let mut buffer = LogBuffer::with_capacity(0);
    buffer.push(create_log_line("first", LogStream::Stdout));
    assert_eq!(buffer.len(), 0);
    buffer.push(create_log_line("second", LogStream::Stderr));
    assert_eq!(buffer.len(), 0);
    assert!(buffer.is_empty());
    assert!(buffer.get_all().is_empty());
    assert!(buffer.get_last_n(3).is_empty());
    assert_eq!(buffer.capacity(), 0);
}

#[test]
fn log_buffer_get_last_n_is_a_suffix_of_get_all() {
    let mut buffer = LogBuffer::with_capacity(8);
    for i in 0..6 {
        buffer.push(create_log_line(&format!("line {}", i), LogStream::Stdout));
    }
    let all = buffer.get_all();
    for k in 0..10usize {
        let last = buffer.get_last_n(k);
        let expected = std::cmp::min(k, all.len());
        assert_eq!(last.len(), expected);
        for j in 0..expected {
            assert_eq!(last[j].line, all[all.len() - expected + j].line);
        }
    }
}

#[test]
fn log_buffer_search_ignores_letter_case_on_both_sides() {
    let mut buffer = LogBuffer::with_capacity(10);
    buffer.push(create_log_line("Error: boom", LogStream::Stdout));
    buffer.push(create_log_line("info: ok", LogStream::Stdout));
    buffer.push(create_log_line("an ERROR in capitals", LogStream::Stderr));

    let lower = buffer.search("error");
    assert_eq!(lower.len(), 2);
    assert_eq!(lower[0].line, "Error: boom");
    assert_eq!(lower[1].line, "an ERROR in capitals");

    let upper = buffer.search("ERROR");
    assert_eq!(upper.len(), 2);

    let none = buffer.search("warning");
    assert!(none.is_empty());

    // The empty text occurs in every line.
    assert_eq!(buffer.search("").len(), 3);
    // A query that is longer than a line cannot occur in it.
    assert_eq!(buffer.search("info: ok and more").len(), 0);
    // A match at the very end of a line.
    assert_eq!(buffer.search("OK").len(), 1);
}

#[test]
fn log_buffer_keeps_stream_and_timestamp_of_each_line() {
    let mut buffer = LogBuffer::with_capacity(2);
    buffer.push(LogLine {
        timestamp: Timestamp { secs: 5, nanos: 7 },
        stream: LogStream::Stderr,
        line: "x".to_string(),
    });
    let all = buffer.get_all();
    assert_eq!(all[0].timestamp, Timestamp { secs: 5, nanos: 7 });
    assert_eq!(all[0].stream, LogStream::Stderr);
    let default_buffer = LogBuffer::default();
    assert_eq!(default_buffer.capacity(), 10_000);
}

#[test]
fn log_buffer_search_with_wider_and_narrower_queries() {
    let mut buffer = LogBuffer::with_capacity(10);
    for text in ["Error: boom", "error again", "info: ok", "TERROR", ""] {
        buffer.push(create_log_line(text, LogStream::Stdout));
    }
    let texts = |lines: Vec<LogLine>| lines.into_iter().map(|l| l.line).collect::<Vec<String>>();
    let all = texts(buffer.get_all());
    // The empty query finds every line.
    assert_eq!(texts(buffer.search("")), all);
    // Upper and lower case of a query find the same lines.
    let query = "eRRor";
    let found = texts(buffer.search(query));
    assert_eq!(found, vec!["Error: boom", "error again", "TERROR"]);
    assert_eq!(texts(buffer.search(&query.to_ascii_uppercase())), found);
    assert_eq!(texts(buffer.search(&query.to_ascii_lowercase())), found);
    // A query that holds another finds no line that the other does not find.
    let narrower = texts(buffer.search("error:"));
    assert_eq!(narrower, vec!["Error: boom"]);
    assert!(narrower.iter().all(|line| found.contains(line)));
    // What is found stands in the order of the buffer.
    let mut rest = all.iter();
    assert!(found.iter().all(|line| rest.any(|other| other == line)));
}
