use slipstream::lifecycle::ClientFlags;
use slipstream::reconnect::{
    next_reconnect_delay, on_connection_closed, reconnect_sleep_chunk, CloseDecision,
    ReconnectBackoff, RECONNECT_SLEEP_MAX_MS, RECONNECT_SLEEP_MIN_MS,
};

#[test]
fn backoff_doubles_to_cap() {
    let mut b = ReconnectBackoff::new();
    let mut seen = Vec::new();
    for _ in 0..7 {
        seen.push(b.delay_ms);
        b.after_sleep();
    }
    assert_eq!(seen, vec![250, 500, 1000, 2000, 4000, 5000, 5000]);
    b.on_ready();
    assert_eq!(b.delay_ms, RECONNECT_SLEEP_MIN_MS);
    assert_eq!(next_reconnect_delay(u64::MAX), RECONNECT_SLEEP_MAX_MS);
}

#[test]
fn backoff_sleeps_in_short_chunks() {
    let mut remaining = 250;
    let mut chunks = Vec::new();
    while remaining > 0 {
        let c = reconnect_sleep_chunk(remaining);
        chunks.push(c);
        remaining -= c;
    }
    assert_eq!(chunks, vec![100, 100, 50]);
}

#[test]
fn gives_up_after_repeated_unready_closes() {
    let mut flags = ClientFlags::new();
    for _ in 0..4 {
        assert_eq!(on_connection_closed(&mut flags, false), CloseDecision::Reconnect);
    }
    assert_eq!(on_connection_closed(&mut flags, false), CloseDecision::GiveUp);
    let mut fresh = ClientFlags::new();
    assert_eq!(on_connection_closed(&mut fresh, true), CloseDecision::Reconnect);
    assert_eq!(fresh.consecutive_failures, 0);
}
