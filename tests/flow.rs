use slipstream::flow::{
    advance_consumed, conn_reserve_bytes, handle_stream_receive, handle_write_drained,
    promote_stream, record_peer_fin, reserve_target_offset, target_offset, FlowControlState,
    ReceiveOutcome, StreamReceiveConfig, CONN_RESERVE_BYTES, MAX_QUEUED_BYTES,
};

fn single() -> StreamReceiveConfig {
    StreamReceiveConfig::new(false, conn_reserve_bytes())
}

#[test]
fn reserve_target_formula() {
    assert_eq!(reserve_target_offset(1000, 300, None, 100), 900);
    assert_eq!(reserve_target_offset(1000, 300, None, 500), 700);
    assert_eq!(reserve_target_offset(1000, 300, Some(800), 500), 700);
    assert_eq!(reserve_target_offset(1000, 300, Some(600), 500), 600);
    assert_eq!(reserve_target_offset(100, 300, None, 500), 0);
    assert_eq!(reserve_target_offset(1000, 300, None, 0), 1000);
}

#[test]
fn multi_stream_config_reserves_nothing() {
    let cfg = StreamReceiveConfig::new(true, 12345);
    assert_eq!(cfg.reserve_bytes, 0);
    let mut flow = FlowControlState::new();
    flow.rx_bytes = 50;
    flow.queued_bytes = 20;
    assert_eq!(target_offset(&flow, cfg), 50);
    assert_eq!(target_offset(&flow, single()), 30);
}

#[test]
fn receive_buffers_within_ceiling() {
    let mut flow = FlowControlState::new();
    let out = handle_stream_receive(&mut flow, 10, StreamReceiveConfig::new(true, 0));
    assert_eq!(out, ReceiveOutcome::Buffered { consume_to: Some(10) });
    assert_eq!(flow.rx_bytes, 10);
    assert_eq!(flow.queued_bytes, 10);
    assert_eq!(flow.consumed_offset, 10);
}

#[test]
fn overflow_stops_exactly_once() {
    let mut flow = FlowControlState::new();
    let out = handle_stream_receive(&mut flow, MAX_QUEUED_BYTES, single());
    assert!(matches!(out, ReceiveOutcome::Buffered { .. }));
    assert_eq!(flow.queued_bytes, MAX_QUEUED_BYTES);
    let out = handle_stream_receive(&mut flow, 1, single());
    assert_eq!(
        out,
        ReceiveOutcome::Overflow { stop_sending: true, consume_to: Some(MAX_QUEUED_BYTES + 1) }
    );
    assert!(flow.discarding);
    assert!(flow.stop_sending_sent);
    let out = handle_stream_receive(&mut flow, 5, single());
    assert_eq!(out, ReceiveOutcome::Discarded { consume_to: Some(MAX_QUEUED_BYTES + 6) });
    assert_eq!(flow.queued_bytes, MAX_QUEUED_BYTES);
    assert_eq!(handle_write_drained(&mut flow, 100, single()), None);
}

#[test]
fn consume_never_moves_back() {
    let mut flow = FlowControlState::new();
    assert_eq!(advance_consumed(&mut flow, 0), None);
    flow.rx_bytes = 10;
    assert_eq!(advance_consumed(&mut flow, 8), Some(8));
    assert_eq!(advance_consumed(&mut flow, 5), None);
    assert_eq!(flow.consumed_offset, 8);
}

#[test]
fn promotion_releases_reservation() {
    let mut flow = FlowControlState::new();
    let out = handle_stream_receive(&mut flow, 400, single());
    assert_eq!(out, ReceiveOutcome::Buffered { consume_to: None });
    assert_eq!(handle_write_drained(&mut flow, 400, single()), Some(400));
    let mut other = FlowControlState::new();
    handle_stream_receive(&mut other, 400, single());
    assert_eq!(promote_stream(&mut other), Some(400));
    assert_eq!(promote_stream(&mut other), None);
    assert!(CONN_RESERVE_BYTES > 400);
}

#[test]
fn fin_offset_recorded_once() {
    let mut flow = FlowControlState::new();
    handle_stream_receive(&mut flow, 7, single());
    record_peer_fin(&mut flow);
    assert_eq!(flow.fin_offset, Some(7));
    flow.rx_bytes = 9;
    record_peer_fin(&mut flow);
    assert_eq!(flow.fin_offset, Some(7));
}
