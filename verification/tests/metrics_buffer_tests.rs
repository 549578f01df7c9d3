use chrono::Utc;
use sentinel::clock::Timestamp;
use sentinel::engine::metrics_buffer::MetricsBuffer;

#[test]
fn metrics_buffer_test_buffer_creation() {
    let buffer = MetricsBuffer::<f64>::new(10);
    assert_eq!(buffer.len(), 0);
    assert_eq!(buffer.capacity(), 10);
    assert!(buffer.is_empty());
}

#[test]
fn metrics_buffer_test_push_and_get() {
    let mut buffer = MetricsBuffer::new(5);
    buffer.push(1.0);
    buffer.push(2.0);
    buffer.push(3.0);

    assert_eq!(buffer.len(), 3);
    assert!(!buffer.is_empty());

    let all = buffer.get_all();
    assert_eq!(all.len(), 3);
    assert_eq!(all[0].value, 1.0);
    assert_eq!(all[2].value, 3.0);
}

#[test]
fn test_circular_overflow() {
    let mut buffer = MetricsBuffer::new(3);
    buffer.push(1);
    buffer.push(2);
    buffer.push(3);
    buffer.push(4); // Should drop 1
    buffer.push(5); // Should drop 2

    assert_eq!(buffer.len(), 3);
    let all = buffer.get_all();
    assert_eq!(all[0].value, 3);
    assert_eq!(all[1].value, 4);
    assert_eq!(all[2].value, 5);
}

#[test]
fn metrics_buffer_test_get_last_n() {
    let mut buffer = MetricsBuffer::new(10);
    for i in 0..5 {
        buffer.push(i);
    }

    let last_3 = buffer.get_last_n(3);
    assert_eq!(last_3.len(), 3);
    assert_eq!(last_3[0].value, 4); // Most recent
    assert_eq!(last_3[1].value, 3);
    assert_eq!(last_3[2].value, 2);
}

#[test]
fn test_get_last_n_more_than_available() {
    let mut buffer = MetricsBuffer::new(10);
    buffer.push(1);
    buffer.push(2);

    let last_10 = buffer.get_last_n(10);
    assert_eq!(last_10.len(), 2); // Only 2 available
}

#[test]
fn metrics_buffer_test_clear() {
    let mut buffer = MetricsBuffer::new(5);
    buffer.push(1);
    buffer.push(2);
    assert_eq!(buffer.len(), 2);

    buffer.clear();
    assert_eq!(buffer.len(), 0);
    assert!(buffer.is_empty());
}

#[test]
fn metrics_buffer_test_default() {
    let buffer = MetricsBuffer::<i32>::default();
    assert_eq!(buffer.capacity(), 60);
    assert_eq!(buffer.len(), 0);
}

#[test]
fn test_timestamps_are_set() {
    let mut buffer = MetricsBuffer::new(3);
    let before = Utc::now();
    buffer.push(42);
    let after = Utc::now();

    let all = buffer.get_all();
    let before = Timestamp { secs: before.timestamp(), nanos: before.timestamp_subsec_nanos() };
    let after = Timestamp { secs: after.timestamp(), nanos: after.timestamp_subsec_nanos() };
    assert!(before.le(&all[0].timestamp));
    assert!(all[0].timestamp.le(&after));
}

#[test]
fn metrics_buffer_get_range_includes_both_ends() {
    let mut buffer = MetricsBuffer::new(10);
    for i in 0..5i64 {
        buffer.push_at(i, Timestamp { secs: 100 + i, nanos: 0 });
    }
    let range = buffer.get_range(Timestamp { secs: 101, nanos: 0 }, Timestamp { secs: 103, nanos: 0 });
    assert_eq!(range.len(), 3);
    assert_eq!(range[0].value, 1);
    assert_eq!(range[2].value, 3);

    let none = buffer.get_range(Timestamp { secs: 103, nanos: 1 }, Timestamp { secs: 103, nanos: 999 });
    assert!(none.is_empty());

    let backwards = buffer.get_range(Timestamp { secs: 104, nanos: 0 }, Timestamp { secs: 100, nanos: 0 });
    assert!(backwards.is_empty());
}

#[test]
fn metrics_buffer_orders_timestamps_by_seconds_then_nanoseconds() {
    let early = Timestamp { secs: 10, nanos: 999_999_999 };
    let late = Timestamp { secs: 11, nanos: 0 };
    assert!(early.le(&late));
    assert!(!late.le(&early));
    assert!(early.le(&early));
    assert!(Timestamp { secs: -1, nanos: 5 }.le(&Timestamp { secs: 0, nanos: 0 }));
    assert!(Timestamp { secs: 3, nanos: 4 }.le(&Timestamp { secs: 3, nanos: 5 }));
    assert!(!Timestamp { secs: 3, nanos: 6 }.le(&Timestamp { secs: 3, nanos: 5 }));
}

#[test]
fn metrics_buffer_of_capacity_zero_keeps_the_newest_sample() {
    let mut buffer = MetricsBuffer::new(0);
    buffer.push_at(1u64, Timestamp { secs: 1, nanos: 0 });
    assert_eq!(buffer.len(), 1);
    buffer.push_at(2u64, Timestamp { secs: 2, nanos: 0 });
    assert_eq!(buffer.len(), 1);
    assert_eq!(buffer.get_all()[0].value, 2);
    assert_eq!(buffer.get_all()[0].timestamp, Timestamp { secs: 2, nanos: 0 });
}
