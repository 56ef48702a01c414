use slipstream::lifecycle::{
    exceeded_max_failures, record_connection_failure, reset_quic_ready, should_shutdown,
    signal_listener_ready, signal_quic_ready, validate_start_request, ClientFlags,
    MAX_CONSECUTIVE_FAILURES, START_INVALID_DOMAIN, START_INVALID_RESOLVERS, START_LISTEN_FAILED,
    START_OK,
};

#[test]
fn test_state_flags() {
    let mut flags = ClientFlags::new();
    assert!(!flags.running);
    assert!(!flags.listener_ready);
    assert!(!flags.quic_ready);

    flags.set_running();
    signal_listener_ready(&mut flags);
    signal_quic_ready(&mut flags);

    assert!(flags.running);
    assert!(flags.listener_ready);
    assert!(flags.quic_ready);

    reset_quic_ready(&mut flags);
    assert!(!flags.quic_ready);
}

#[test]
fn test_failure_tracking() {
    let mut flags = ClientFlags::new();
    flags.consecutive_failures = 0;

    assert!(!exceeded_max_failures(&flags));

    for _ in 0..MAX_CONSECUTIVE_FAILURES {
        record_connection_failure(&mut flags);
    }

    assert!(exceeded_max_failures(&flags));
}

#[test]
fn quic_ready_clears_failure_run() {
    let mut flags = ClientFlags::new();
    record_connection_failure(&mut flags);
    record_connection_failure(&mut flags);
    assert_eq!(flags.consecutive_failures, 2);
    signal_quic_ready(&mut flags);
    assert_eq!(flags.consecutive_failures, 0);
}

#[test]
fn failure_count_saturates() {
    let mut flags = ClientFlags::new();
    flags.consecutive_failures = u32::MAX;
    record_connection_failure(&mut flags);
    assert_eq!(flags.consecutive_failures, u32::MAX);
}

#[test]
fn start_is_refused_while_running() {
    let mut flags = ClientFlags::new();
    assert!(flags.begin_start());
    assert!(!flags.thread_done);
    flags.set_running();
    assert!(!flags.begin_start());
    assert!(flags.running);
}

#[test]
fn start_clears_previous_shutdown() {
    let mut flags = ClientFlags::new();
    flags.request_stop();
    assert!(should_shutdown(&flags));
    flags.finish_stop(false);
    assert!(should_shutdown(&flags));
    assert!(flags.begin_start());
    assert!(!should_shutdown(&flags));
}

#[test]
fn stop_after_exit_clears_shutdown() {
    let mut flags = ClientFlags::new();
    flags.set_running();
    signal_listener_ready(&mut flags);
    flags.request_stop();
    flags.finish_stop(true);
    assert!(!flags.shutdown_requested);
    assert!(!flags.running);
    assert!(!flags.listener_ready);
}

#[test]
fn thread_finish_clears_flags() {
    let mut flags = ClientFlags::new();
    assert!(flags.begin_start());
    flags.set_running();
    signal_quic_ready(&mut flags);
    flags.mark_thread_finished();
    assert!(!flags.is_client_running());
    assert!(!flags.is_quic_ready());
    assert!(flags.thread_done);
}

#[test]
fn start_request_codes() {
    assert_eq!(validate_start_request("", 2), START_INVALID_DOMAIN);
    assert_eq!(validate_start_request("", 0), START_INVALID_DOMAIN);
    assert_eq!(validate_start_request("t.example.com", 0), START_INVALID_RESOLVERS);
    assert_eq!(validate_start_request("t.example.com", 1), START_OK);
    assert_eq!(START_INVALID_DOMAIN, -1);
    assert_eq!(START_INVALID_RESOLVERS, -2);
}

#[test]
fn listener_wait_outcomes() {
    let mut flags = ClientFlags::new();
    assert_eq!(flags.listener_wait_step(0), Some(START_LISTEN_FAILED));
    assert_eq!(START_LISTEN_FAILED, -11);
    flags.set_running();
    assert_eq!(flags.listener_wait_step(3), None);
    assert_eq!(flags.listener_wait_step(50), Some(START_OK));
    signal_listener_ready(&mut flags);
    assert_eq!(flags.listener_wait_step(0), Some(START_OK));
}
