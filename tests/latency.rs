use touchpad_core::latency::{RealtimeLatencyTracker, DEFAULT_WINDOW};

#[test]
fn latency_with_clock_offset() {
    let mut t = RealtimeLatencyTracker::new(DEFAULT_WINDOW);
    t.set_clock_offset(100);
    let d = t.record_packet(1, 1000, 1_200_000).unwrap();
    assert_eq!(d.current_latency_us, 300_000);
    assert_eq!(d.avg_latency_us, 300_000);
    assert_eq!(d.min_latency_us, 300_000);
    assert_eq!(d.max_latency_us, 300_000);
    assert_eq!(d.total_packets, 1);
    assert_eq!(d.seq, 1);
}

#[test]
fn negative_latency_gives_none_but_counts() {
    let mut t = RealtimeLatencyTracker::new(10);
    assert!(t.record_packet(1, 2000, 1_000_000).is_none());
    let s = t.get_current_stats();
    assert_eq!(s.total_packets, 1);
    assert_eq!(s.current_latency_us, 0);
    assert_eq!(s.seq, 1);
    assert!(t.record_packet(2, 1000, 1_000_000).is_some());
}

#[test]
fn loss_is_the_sum_of_gaps() {
    let mut t = RealtimeLatencyTracker::new(10);
    for s in [5u32, 6, 9, 10, 15] {
        t.record_packet(s, 0, 1000);
    }
    let d = t.get_current_stats();
    // gaps: 7, 8 and 11..=14
    assert_eq!(d.lost_packets, 6);
    assert_eq!(d.total_packets, 5);
    assert_eq!(d.packet_loss_milli_percent, 120_000);
    assert_eq!(d.seq, 15);
}

#[test]
fn window_evicts_oldest() {
    let mut t = RealtimeLatencyTracker::new(2);
    t.record_packet(1, 0, 100);
    t.record_packet(2, 0, 200);
    let d = t.record_packet(3, 0, 600).unwrap();
    assert_eq!(d.avg_latency_us, 400);
    assert_eq!(d.min_latency_us, 100);
    assert_eq!(d.max_latency_us, 600);
}

#[test]
fn reset_clears_counters_but_keeps_offset() {
    let mut t = RealtimeLatencyTracker::new(5);
    t.set_clock_offset(1);
    t.record_packet(3, 0, 5000);
    t.reset();
    let s = t.get_current_stats();
    assert_eq!(s.total_packets, 0);
    assert_eq!(s.lost_packets, 0);
    assert_eq!(s.min_latency_us, 0);
    assert_eq!(s.avg_latency_us, 0);
    // offset of 1 ms still applies
    assert_eq!(t.record_packet(1, 0, 0).unwrap().current_latency_us, 1000);
}
