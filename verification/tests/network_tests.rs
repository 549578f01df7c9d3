use chrono::Utc;
use sentinel::clock::Timestamp;
use sentinel::display::format_uptime;
use sentinel::features::network_monitor::{
    classify_interface, CircularBuffer, NetworkSnapshot, ProtocolStats,
};

fn create_test_snapshot(offset_seconds: i64) -> NetworkSnapshot {
    let at = Utc::now() + chrono::Duration::seconds(offset_seconds);
    NetworkSnapshot {
        timestamp: Timestamp { secs: at.timestamp(), nanos: at.timestamp_subsec_nanos() },
        total_bytes_sent: 1000,
        total_bytes_received: 2000,
        total_packets_sent: 10,
        total_packets_received: 20,
        processes: vec![],
        protocol_stats: ProtocolStats::default(),
    }
}

fn snapshot_at(secs: i64, nanos: u32) -> NetworkSnapshot {
    NetworkSnapshot {
        timestamp: Timestamp { secs, nanos },
        total_bytes_sent: secs as u64,
        total_bytes_received: 0,
        total_packets_sent: 0,
        total_packets_received: 0,
        processes: vec![],
        protocol_stats: ProtocolStats::default(),
    }
}

#[test]
fn buffer_test_buffer_creation() {
    let buffer = CircularBuffer::new(100);
    assert_eq!(buffer.capacity(), 100);
    assert_eq!(buffer.len(), 0);
    assert!(buffer.is_empty());
}

#[test]
fn test_buffer_push() {
    let mut buffer = CircularBuffer::new(5);

    buffer.push(create_test_snapshot(0));
    assert_eq!(buffer.len(), 1);

    buffer.push(create_test_snapshot(0));
    assert_eq!(buffer.len(), 2);
}

#[test]
fn buffer_test_buffer_overflow() {
    let mut buffer = CircularBuffer::new(3);

    buffer.push(create_test_snapshot(-3));
    buffer.push(create_test_snapshot(-2));
    buffer.push(create_test_snapshot(-1));
    assert_eq!(buffer.len(), 3);

    // Adding 4th element should remove oldest
    buffer.push(create_test_snapshot(0));
    assert_eq!(buffer.len(), 3);

    // Latest snapshot should be the most recent
    let latest = buffer.get_latest().unwrap();
    assert!(latest.timestamp > buffer.get_all()[0].timestamp);
}

#[test]
fn test_get_last_seconds() {
    let mut buffer = CircularBuffer::new(10);

    // Add snapshots from 5 seconds ago to now
    buffer.push(create_test_snapshot(-5));
    buffer.push(create_test_snapshot(-3));
    buffer.push(create_test_snapshot(-1));
    buffer.push(create_test_snapshot(0));

    // Get last 2 seconds
    let recent = buffer.get_last_seconds(2);
    assert!(recent.len() >= 2); // Should have at least 2 recent entries
}

#[test]
fn test_buffer_clear() {
    let mut buffer = CircularBuffer::new(5);

    buffer.push(create_test_snapshot(0));
    buffer.push(create_test_snapshot(0));
    assert_eq!(buffer.len(), 2);

    buffer.clear();
    assert_eq!(buffer.len(), 0);
    assert!(buffer.is_empty());
}

#[test]
fn test_get_latest_empty() {
    let buffer = CircularBuffer::new(5);
    assert!(buffer.get_latest().is_none());
}

#[test]
fn test_get_all() {
    let mut buffer = CircularBuffer::new(5);

    buffer.push(create_test_snapshot(-2));
    buffer.push(create_test_snapshot(-1));
    buffer.push(create_test_snapshot(0));

    let all = buffer.get_all();
    assert_eq!(all.len(), 3);

    // Should be in chronological order (oldest first)
    assert!(all[0].timestamp < all[1].timestamp);
    assert!(all[1].timestamp < all[2].timestamp);
}

#[test]
fn network_history_takes_what_lies_after_the_cutoff() {
    let mut buffer = CircularBuffer::new(10);
    buffer.push(snapshot_at(95, 0));
    buffer.push(snapshot_at(98, 500));
    buffer.push(snapshot_at(98, 501));
    buffer.push(snapshot_at(100, 0));
    let now = Timestamp { secs: 100, nanos: 500 };
    let recent = buffer.get_last_seconds_at(2, now);
    let sent: Vec<u64> = recent.iter().map(|s| s.total_bytes_sent).collect();
    assert_eq!(sent, vec![98, 100]);
    assert_eq!(recent[0].timestamp, Timestamp { secs: 98, nanos: 501 });
    assert_eq!(buffer.get_last_seconds_at(0, now).len(), 0);
    assert_eq!(buffer.get_last_seconds_at(u64::MAX, now).len(), 4);
    assert_eq!(buffer.get_last_seconds_at(5, now).len(), 3);
    assert_eq!(buffer.get_last_seconds_at(6, now).len(), 4);
    let far = Timestamp { secs: i64::MIN, nanos: 0 };
    assert_eq!(buffer.get_last_seconds_at(0, far).len(), 4);

    let mut small = CircularBuffer::new(0);
    small.push(snapshot_at(1, 0));
    small.push(snapshot_at(2, 0));
    assert_eq!(small.len(), 1);
    assert_eq!(small.get_latest().unwrap().timestamp.secs, 2);
    assert_eq!(small.capacity(), 0);
}

#[test]
fn interfaces_are_classed_by_the_beginning_of_their_names() {
    assert_eq!(classify_interface("lo0"), "Loopback");
    assert_eq!(classify_interface("en0"), "Ethernet");
    assert_eq!(classify_interface("eth1"), "Ethernet");
    assert_eq!(classify_interface("wlan0"), "Wi-Fi");
    assert_eq!(classify_interface("wifi"), "Wi-Fi");
    assert_eq!(classify_interface("utun3"), "VPN Tunnel");
    assert_eq!(classify_interface("tun0"), "VPN Tunnel");
    assert_eq!(classify_interface("awdl0"), "Apple Wireless Direct Link");
    assert_eq!(classify_interface("anpi1"), "Apple Network Provider Interface");
    assert_eq!(classify_interface("gif0"), "Generic Tunnel Interface");
    assert_eq!(classify_interface("bridge100"), "Network Bridge");
    assert_eq!(classify_interface("docker0"), "Unknown");
    assert_eq!(classify_interface(""), "Unknown");
    // A name that begins with "en" is an Ethernet interface whatever follows.
    assert_eq!(classify_interface("enterprise"), "Ethernet");
    assert_eq!(classify_interface("Lo0"), "Unknown");
}

#[test]
fn uptime_is_shown_by_its_two_largest_units() {
    assert_eq!(format_uptime(0), "0s");
    assert_eq!(format_uptime(59), "59s");
    assert_eq!(format_uptime(60), "1m 0s");
    assert_eq!(format_uptime(125), "2m 5s");
    assert_eq!(format_uptime(3599), "59m 59s");
    assert_eq!(format_uptime(3600), "1h 0m");
    assert_eq!(format_uptime(3 * 3600 + 25 * 60 + 7), "3h 25m");
    assert_eq!(format_uptime(86399), "23h 59m");
    assert_eq!(format_uptime(86400), "1d 0h");
    assert_eq!(format_uptime(2 * 86400 + 5 * 3600 + 59), "2d 5h");
    assert_eq!(format_uptime(i64::MAX), "106751991167300d 15h");
    assert_eq!(format_uptime(-5), "-5s");
    assert_eq!(format_uptime(-125), "-5s");
    assert_eq!(format_uptime(-120), "0s");
    assert_eq!(format_uptime(i64::MIN), "-8s");
}
