use p2p_transfer::window::{AckResult, InFlightChunk, SlidingWindow, WindowConfig};

fn chunk(i: u32, sent_at_ms: u64) -> InFlightChunk {
    InFlightChunk { chunk_index: i, sent_at_ms, retry_count: 0, data: vec![], uncompressed_size: 0, checksum: 0 }
}

fn now_ms() -> u64 {
    std::time::SystemTime::now().duration_since(std::time::UNIX_EPOCH).unwrap().as_millis() as u64
}

#[test]
fn test_window_can_send() {
    let config = WindowConfig { max_window_size: 4, ..Default::default() };
    let mut window = SlidingWindow::new(config, [1u8; 16], 0, 10);

    assert!(window.can_send());
    assert_eq!(window.next_chunk_to_send(), Some(0));

    for i in 0..4 {
        window.mark_sent(chunk(i, now_ms()));
    }

    assert!(!window.can_send());
    assert_eq!(window.next_chunk_to_send(), None);
}

#[test]
fn test_window_process_ack() {
    let config = WindowConfig::default();
    let mut window = SlidingWindow::new(config, [2u8; 16], 0, 10);

    for i in 0..3 {
        window.mark_sent(chunk(i, now_ms()));
    }

    assert_eq!(window.process_ack(0), AckResult::Success);
    assert_eq!(window.next_expected_ack(), 1);

    assert_eq!(window.process_ack(2), AckResult::Success);
    assert_eq!(window.next_expected_ack(), 1);

    assert_eq!(window.process_ack(1), AckResult::Success);
    assert_eq!(window.next_expected_ack(), 3);
}

#[test]
fn test_window_completion() {
    let config = WindowConfig::default();
    let mut window = SlidingWindow::new(config, [3u8; 16], 0, 3);

    assert!(!window.is_complete());

    for i in 0..3 {
        window.mark_sent(chunk(i, now_ms()));
        window.process_ack(i);
    }

    assert!(window.is_complete());
    assert_eq!(window.acked_count(), 3);
}

#[test]
fn test_window_timeout() {
    let config = WindowConfig { ack_timeout_ms: 10, ..Default::default() };
    let mut window = SlidingWindow::new(config, [4u8; 16], 0, 10);

    let c = InFlightChunk {
        chunk_index: 0,
        sent_at_ms: now_ms() - 20,
        retry_count: 0,
        data: vec![1, 2, 3],
        uncompressed_size: 3,
        checksum: 123,
    };
    window.mark_sent(c);

    let timed_out = window.check_timeouts();
    assert_eq!(timed_out.len(), 1);
    assert_eq!(timed_out[0].chunk_index, 0);
    assert_eq!(timed_out[0].retry_count, 1);
}

#[test]
fn duplicate_ack_changes_nothing() {
    let mut window = SlidingWindow::new(WindowConfig::default(), [5u8; 16], 0, 4);
    window.mark_sent(chunk(0, 0));
    assert_eq!(window.process_ack(0), AckResult::Success);
    assert_eq!(window.process_ack(0), AckResult::Duplicate);
    assert_eq!(window.acked_count(), 1);
    assert_eq!(window.in_flight_count(), 0);
}

#[test]
fn window_defaults_and_resend_replaces_entry() {
    let d = WindowConfig::default();
    assert_eq!(d.max_window_size, 16);
    assert_eq!(d.ack_timeout_ms, 10_000);
    assert_eq!(d.max_retries, 3);
    let mut window = SlidingWindow::new(d, [6u8; 16], 0, 5);
    window.mark_sent(chunk(0, 0));
    window.mark_sent(chunk(0, 5));
    assert_eq!(window.in_flight_count(), 1);
    assert_eq!(window.next_to_send(), 1);
}

#[test]
fn retries_beyond_budget_are_dropped() {
    let config = WindowConfig { max_window_size: 4, ack_timeout_ms: 10, max_retries: 1 };
    let mut window = SlidingWindow::new(config, [7u8; 16], 0, 4);
    let mut c = chunk(2, 100);
    c.retry_count = 1;
    window.mark_sent(c);
    window.mark_sent(chunk(3, 100));
    let due = window.check_timeouts_at(200);
    assert_eq!(due.len(), 1);
    assert_eq!(due[0].chunk_index, 3);
    assert_eq!(window.in_flight_count(), 0);
    let mut w2 = SlidingWindow::new(config, [7u8; 16], 0, 4);
    let mut failed = chunk(1, 0);
    failed.retry_count = 2;
    w2.mark_sent(failed);
    assert_eq!(w2.get_failed_chunks(), vec![1]);
}

#[test]
fn window_completes_once_every_chunk_is_acked() {
    let mut window = SlidingWindow::new(WindowConfig::default(), [7u8; 16], 0, 3);
    for i in 0..3 {
        window.mark_sent(chunk(i, now_ms()));
    }
    assert_eq!(window.process_ack(2), AckResult::Success);
    assert_eq!(window.process_ack(0), AckResult::Success);
    assert!(!window.is_complete());
    assert_eq!(window.process_ack(2), AckResult::Duplicate);
    assert!(!window.is_complete());
    assert_eq!(window.process_ack(1), AckResult::Success);
    assert!(window.is_complete());
    assert_eq!(window.next_expected_ack(), 3);
}

#[test]
fn acks_past_the_last_chunk_do_not_complete_a_window() {
    let mut window = SlidingWindow::new(WindowConfig::default(), [8u8; 16], 0, 1);
    assert_eq!(window.process_ack(5), AckResult::OutOfRange);
    assert!(!window.is_complete());
    assert_eq!(window.acked_count(), 0);
    assert_eq!(window.process_ack(0), AckResult::Success);
    assert!(window.is_complete());
}
