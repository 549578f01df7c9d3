use sentinel::error::SentinelError;
use sentinel::features::port_discovery::{PortState, Protocol};
use sentinel::features::port_parser::{
    parse_lsof_line, parse_lsof_output, parse_netstat_line, parse_netstat_output, parse_number,
    port_from_lsof_groups, port_from_netstat_groups, split_lines,
};
use sentinel::text::starts_with;

#[test]
fn test_parse_lsof_listen() {
    let output = "node    12345 user   20u  IPv4 0x123  0t0  TCP 127.0.0.1:3000 (LISTEN)";
    let result = parse_lsof_output(output).unwrap();

    assert_eq!(result.len(), 1);
    let port = &result[0];
    assert_eq!(port.port, 3000);
    assert_eq!(port.protocol, Protocol::TCP);
    assert_eq!(port.process_name, "node");
    assert_eq!(port.pid, 12345);
    assert_eq!(port.state, PortState::Listen);
    assert_eq!(port.local_address, "127.0.0.1");
    assert!(port.remote_address.is_none());
}

#[test]
fn test_parse_lsof_established() {
    let output = "postgres    5432 user   21u  IPv4 0x124  0t0  TCP 127.0.0.1:5432->192.168.1.5:54321 (ESTABLISHED)";
    let result = parse_lsof_output(output).unwrap();

    assert_eq!(result.len(), 1);
    let port = &result[0];
    assert_eq!(port.port, 5432);
    assert_eq!(port.protocol, Protocol::TCP);
    assert_eq!(port.process_name, "postgres");
    assert_eq!(port.pid, 5432);
    assert_eq!(port.state, PortState::Established);
    assert_eq!(port.remote_address, Some("192.168.1.5:54321".to_string()));
}

#[test]
fn test_parse_netstat_listen() {
    let output = "  TCP    127.0.0.1:3000         0.0.0.0:0              LISTENING       12345";
    let result = parse_netstat_output(output).unwrap();

    assert_eq!(result.len(), 1);
    let port = &result[0];
    assert_eq!(port.port, 3000);
    assert_eq!(port.protocol, Protocol::TCP);
    assert_eq!(port.pid, 12345);
    assert_eq!(port.state, PortState::Listen);
    assert!(port.remote_address.is_none());
}

#[test]
fn test_parse_netstat_established() {
    let output = "  TCP    127.0.0.1:5432         192.168.1.5:54321      ESTABLISHED     5432";
    let result = parse_netstat_output(output).unwrap();

    assert_eq!(result.len(), 1);
    let port = &result[0];
    assert_eq!(port.port, 5432);
    assert_eq!(port.state, PortState::Established);
    assert_eq!(port.remote_address, Some("192.168.1.5:54321".to_string()));
}

#[test]
fn test_parse_empty_output() {
    assert_eq!(parse_lsof_output("").unwrap().len(), 0);
    assert_eq!(parse_netstat_output("").unwrap().len(), 0);
}

#[test]
fn test_parse_header_lines() {
    let lsof_output = "COMMAND     PID   USER   FD   TYPE             DEVICE SIZE/OFF NODE NAME\nnode    12345 user   20u  IPv4 0x123  0t0  TCP 127.0.0.1:3000 (LISTEN)";
    let result = parse_lsof_output(lsof_output).unwrap();
    assert_eq!(result.len(), 1); // Header should be skipped

    let netstat_output = "Active Connections\n\n  Proto  Local Address          Foreign Address        State           PID\n  TCP    127.0.0.1:3000         0.0.0.0:0              LISTENING       12345";
    let result = parse_netstat_output(netstat_output).unwrap();
    assert_eq!(result.len(), 1); // Headers should be skipped
}

#[test]
fn test_parse_real_macos_lsof() {
    // Real macOS lsof format with 0t0 column
    let output = "COMMAND     PID  USER   FD   TYPE             DEVICE SIZE/OFF   NODE NAME
node      21379 gdsks   13u  IPv6 0x4862c84cb6baeae6      0t0    TCP *:3001 (LISTEN)
node      49053 gdsks   13u  IPv6 0x2aba2dd1c8c4085d      0t0    TCP *:3002 (LISTEN)";

    let result = parse_lsof_output(output).unwrap();
    println!("Parsed {} ports", result.len());
    for port in &result {
        println!("Port: {} PID: {} Process: {}", port.port, port.pid, port.process_name);
    }

    assert_eq!(result.len(), 2);
    assert_eq!(result[0].port, 3001);
    assert_eq!(result[0].pid, 21379);
    assert_eq!(result[1].port, 3002);
    assert_eq!(result[1].pid, 49053);
}

#[test]
fn port_lines_that_describe_no_socket_are_skipped() {
    assert!(parse_lsof_line("").unwrap().is_none());
    assert!(parse_lsof_line("   \t").unwrap().is_none());
    assert!(parse_lsof_line("COMMAND PID USER").unwrap().is_none());
    assert!(parse_lsof_line("node 12345 user cwd DIR 1,4 640 2 /home").unwrap().is_none());
    assert!(parse_netstat_line("Active Connections").unwrap().is_none());
    assert!(parse_netstat_line("  ICMP   127.0.0.1:1  0.0.0.0:0  X  1").unwrap().is_none());
    let udp = parse_lsof_line("dns 53 root 5u IPv4 0x1 0t0 UDP 10.0.0.1:53 (idle)").unwrap().unwrap();
    assert_eq!(udp.protocol, Protocol::UDP);
    assert_eq!(udp.state, PortState::Unknown);
    assert_eq!(udp.local_address, "10.0.0.1");
    assert!(udp.command.is_none());
    assert_eq!(udp.traffic.connections, 0);
    let named = parse_netstat_line("UDP 10.0.0.2:5353 0.0.0.0:0 close_wait 77").unwrap().unwrap();
    assert_eq!(named.process_name, "pid-77");
    assert_eq!(named.state, PortState::CloseWait);
    assert_eq!(named.local_address, "10.0.0.2");
    assert!(named.remote_address.is_none());
    // An address with colons of its own is not matched by the pattern.
    assert!(parse_netstat_line("UDP [::1]:5353 [::]:0 close_wait 77").unwrap().is_none());
}

#[test]
fn port_numbers_that_do_not_fit_are_faults() {
    match parse_lsof_output("node 99999999999 user 20u IPv4 0x1 0t0 TCP 127.0.0.1:3000 (LISTEN)") {
        Err(SentinelError::Other(text)) => assert_eq!(text, "Failed to parse PID"),
        other => panic!("unexpected result: {:?}", other),
    }
    match parse_lsof_output("node 1 user 20u IPv4 0x1 0t0 TCP 127.0.0.1:70000 (LISTEN)") {
        Err(SentinelError::Other(text)) => assert_eq!(text, "Failed to parse port number"),
        other => panic!("unexpected result: {:?}", other),
    }
    match parse_netstat_output("TCP 1.2.3.4:65536 0.0.0.0:0 LISTENING 99999999999") {
        Err(SentinelError::Other(text)) => assert_eq!(text, "Failed to parse port number"),
        other => panic!("unexpected result: {:?}", other),
    }
    match parse_netstat_output("TCP 1.2.3.4:80 0.0.0.0:0 LISTENING 4294967296") {
        Err(SentinelError::Other(text)) => assert_eq!(text, "Failed to parse PID"),
        other => panic!("unexpected result: {:?}", other),
    }
    // The first fault ends the reading, also where good lines follow.
    let output = "node 1 u 20u IPv4 0x1 0t0 TCP 127.0.0.1:3000 (LISTEN)\nnode 2 u 20u IPv4 0x1 0t0 TCP 127.0.0.1:99999 (LISTEN)\nnode 3 u 20u IPv4 0x1 0t0 TCP 127.0.0.1:3001 (LISTEN)";
    assert!(parse_lsof_output(output).is_err());
    let ok = parse_netstat_output("TCP 1.2.3.4:65535 0.0.0.0:0 LISTENING 4294967295\r\n").unwrap();
    assert_eq!(ok[0].port, 65535);
    assert_eq!(ok[0].pid, 4294967295);
}

#[test]
fn port_groups_are_read_as_they_are_given() {
    let some = |s: &str| Some(s.to_string());
    let lsof = vec![
        some("whole"),
        some("node"),
        some("007"),
        some("TCP"),
        some("*"),
        some("80"),
        some("10.0.0.9"),
        some("443"),
        some("established"),
    ];
    let info = port_from_lsof_groups(&lsof).unwrap().unwrap();
    assert_eq!(info.pid, 7);
    assert_eq!(info.port, 80);
    assert_eq!(info.remote_address, Some("10.0.0.9:443".to_string()));
    assert_eq!(info.state, PortState::Established);

    let mut no_protocol = lsof.clone();
    no_protocol[3] = some("SCTP");
    assert!(port_from_lsof_groups(&no_protocol).unwrap().is_none());
    // A pid that cannot be read is reported before the protocol is looked at.
    no_protocol[2] = some("x");
    assert!(port_from_lsof_groups(&no_protocol).is_err());
    let mut missing = lsof.clone();
    missing[1] = None;
    assert!(port_from_lsof_groups(&missing).unwrap().is_none());
    assert!(port_from_lsof_groups(&lsof[..8].to_vec()).unwrap().is_none());
    assert!(port_from_lsof_groups(&vec![]).unwrap().is_none());

    let netstat = vec![
        some("whole"),
        some("UDP"),
        some("0.0.0.0"),
        some("53"),
        some("[::]"),
        some("0"),
        some("LISTENING"),
        some("4"),
    ];
    let info = port_from_netstat_groups(&netstat).unwrap().unwrap();
    assert_eq!(info.process_name, "pid-4");
    assert_eq!(info.protocol, Protocol::UDP);
    assert!(info.remote_address.is_none());
    let mut bad_pid = netstat.clone();
    bad_pid[7] = some("-4");
    assert!(port_from_netstat_groups(&bad_pid).is_err());
    assert!(port_from_netstat_groups(&lsof).unwrap().is_none());
}

#[test]
fn numerals_and_lines_are_read_exactly() {
    assert_eq!(parse_number("0", 10), Some(0));
    assert_eq!(parse_number("10", 10), Some(10));
    assert_eq!(parse_number("11", 10), None);
    assert_eq!(parse_number("00011", 11), Some(11));
    assert_eq!(parse_number("", 10), None);
    assert_eq!(parse_number("+1", 10), None);
    assert_eq!(parse_number("1 ", 10), None);
    assert_eq!(parse_number("\u{0661}", 10), None);
    assert_eq!(parse_number("7", 3), None);
    assert_eq!(parse_number("18446744073709551615", u64::MAX), Some(u64::MAX));
    assert_eq!(parse_number("18446744073709551616", u64::MAX), None);
    assert_eq!(parse_number("99999999999999999999999", u64::MAX), None);

    assert!(starts_with("COMMAND PID", "COMMAND"));
    assert!(!starts_with(" COMMAND", "COMMAND"));
    assert!(!starts_with("COM", "COMMAND"));
    assert!(starts_with("anything", ""));

    assert!(split_lines("").is_empty());
    assert_eq!(split_lines("a"), vec!["a".to_string()]);
    assert_eq!(split_lines("a\n"), vec!["a".to_string()]);
    assert_eq!(split_lines("a\r\nb\rc\n\nd\r"), vec!["a", "b\rc", "", "d\r"]);
    assert_eq!(split_lines("\n"), vec!["".to_string()]);
    let sample = "one\r\ntwo\n\r\nthree\r";
    let expected: Vec<String> = sample.lines().map(|l| l.to_string()).collect();
    assert_eq!(split_lines(sample), expected);
}
