use slipstream::acceptor::AcceptorLimiter;
use slipstream::client::{
    check_stream_invariants, fail_stream, handle_new_stream, handle_peer_reset,
    handle_stream_chunk_sent, handle_stream_closed, handle_stream_data,
    handle_stream_write_drained, mark_source_closed, wants_fin, ClientAction, ClientInvariant,
    coalesce_step, ClientState, ClientStream, ClientStreamMetrics, ErrorCode, WriterDecision,
    WriterInput, PathEvent, StreamRecvState, StreamSendState,
};
use slipstream::flow::{CONN_RESERVE_BYTES, MAX_QUEUED_BYTES};

fn state_with_stream(stream_id: u64, stream: ClientStream) -> ClientState {
    let mut state = ClientState::new(AcceptorLimiter::new(0));
    state.streams.insert(stream_id, stream);
    state
}

#[test]
fn add_to_stream_fin_failure_removes_stream() {
    let mut state = state_with_stream(4, ClientStream::new());
    let actions = handle_stream_closed(&mut state, 4, -1);
    assert!(
        !state.streams.contains(4),
        "stream state should be removed when add_to_stream(fin) fails"
    );
    assert_eq!(actions, vec![ClientAction::Abort { stream_id: 4, code: ErrorCode::Internal }]);
}

#[test]
fn remote_fin_keeps_local_read_open() {
    let mut state = state_with_stream(4, ClientStream::new());

    let actions = handle_stream_data(&mut state, 4, true, 0);

    let stream = state
        .streams
        .get(4)
        .expect("stream should remain after remote fin");
    assert_eq!(stream.recv_state, StreamRecvState::FinReceived);
    assert_eq!(stream.send_state, StreamSendState::Open);
    assert!(
        stream.has_data_rx,
        "local TCP read side should stay open after remote fin"
    );
    assert!(
        matches!(actions.first(), Some(ClientAction::DeliverFin { stream_id: 4 })),
        "expected a TCP fin to be enqueued"
    );
}

#[test]
fn stream_removal_requires_both_halves_closed() {
    let mut state = state_with_stream(4, ClientStream::new());

    handle_stream_data(&mut state, 4, true, 0);
    assert!(
        state.streams.contains(4),
        "stream should remain when only recv side is closed"
    );

    let mut stream = *state.streams.get(4).unwrap();
    stream.send_state = StreamSendState::FinQueued;
    state.streams.insert(4, stream);
    handle_stream_write_drained(&mut state, 4, 0);
    assert!(
        !state.streams.contains(4),
        "stream should be removed once both halves are closed"
    );
}

#[test]
fn local_fin_does_not_remove_until_recv_fin() {
    let mut stream = ClientStream::new();
    stream.has_data_rx = false;
    stream.send_state = StreamSendState::FinQueued;
    let mut state = state_with_stream(4, stream);

    handle_stream_write_drained(&mut state, 4, 0);

    assert!(
        state.streams.contains(4),
        "stream should remain when only send side is closed"
    );
}

#[test]
fn mark_active_stream_failure_removes_stream() {
    let mut acceptor = AcceptorLimiter::new(1);
    let reservation = acceptor.try_reserve().unwrap();
    let mut state = ClientState::new(acceptor);

    let outcome = handle_new_stream(&mut state, reservation, 4, 0x400 + 36);

    assert!(
        state.streams.len() == 0,
        "stream state should be removed when mark_active_stream fails"
    );
    assert!(!outcome.accepted);
    assert_eq!(state.acceptor.used, 0);
}

#[test]
fn data_for_unknown_stream_is_cancelled() {
    let mut state = ClientState::new(AcceptorLimiter::new(0));
    let actions = handle_stream_data(&mut state, 8, false, 10);
    assert_eq!(actions, vec![ClientAction::Abort { stream_id: 8, code: ErrorCode::FileCancel }]);
}

#[test]
fn single_stream_holds_back_reserve() {
    let mut state = state_with_stream(0, ClientStream::new());
    let n = CONN_RESERVE_BYTES + 100;
    let actions = handle_stream_data(&mut state, 0, false, n);
    // Everything is still queued, so only what exceeds the reserve is released.
    assert_eq!(
        actions,
        vec![
            ClientAction::Deliver { stream_id: 0, len: n },
            ClientAction::Consume { stream_id: 0, offset: 100 },
        ]
    );
    let drained = handle_stream_write_drained(&mut state, 0, n);
    assert_eq!(drained, vec![ClientAction::Consume { stream_id: 0, offset: n }]);
    assert_eq!(state.streams.get(0).unwrap().flow.queued_bytes, 0);
}

#[test]
fn overflow_latches_discarding_and_stops_once() {
    let mut state = state_with_stream(0, ClientStream::new());
    let first = handle_stream_data(&mut state, 0, false, MAX_QUEUED_BYTES + 1);
    assert_eq!(
        first,
        vec![
            ClientAction::DropSink { stream_id: 0 },
            ClientAction::StopSending { stream_id: 0 },
            ClientAction::Consume { stream_id: 0, offset: MAX_QUEUED_BYTES + 1 },
        ]
    );
    let stream = *state.streams.get(0).unwrap();
    assert!(stream.flow.discarding);
    assert_eq!(stream.flow.queued_bytes, 0);

    let second = handle_stream_data(&mut state, 0, false, 10);
    assert_eq!(second, vec![ClientAction::Consume { stream_id: 0, offset: MAX_QUEUED_BYTES + 11 }]);
    assert_eq!(state.streams.get(0).unwrap().flow.queued_bytes, 0);

    let fin = handle_stream_data(&mut state, 0, true, 0);
    assert!(fin.is_empty());
    assert!(!state.streams.contains(0));
}

#[test]
fn second_stream_promotes_first() {
    let mut acceptor = AcceptorLimiter::new(2);
    let r1 = acceptor.try_reserve().unwrap();
    let r2 = acceptor.try_reserve().unwrap();
    let mut state = ClientState::new(acceptor);
    let first = handle_new_stream(&mut state, r1, 0, 0);
    assert!(first.accepted);
    assert!(first.actions.is_empty());
    handle_stream_data(&mut state, 0, false, 500);
    // Single-stream mode keeps the reserve: nothing released yet.
    assert_eq!(state.streams.get(0).unwrap().flow.consumed_offset, 0);

    let second = handle_new_stream(&mut state, r2, 4, 0);
    assert!(second.accepted);
    assert!(state.multi_stream_mode);
    assert_eq!(second.actions, vec![ClientAction::Consume { stream_id: 0, offset: 500 }]);
    assert_eq!(state.streams.len(), 2);
}

#[test]
fn stale_reservation_drops_socket() {
    let mut acceptor = AcceptorLimiter::new(1);
    let reservation = acceptor.try_reserve().unwrap();
    let mut state = ClientState::new(acceptor);
    let closed = state.reset_for_reconnect();
    assert!(closed.is_empty());
    let outcome = handle_new_stream(&mut state, reservation, 0, 0);
    assert!(!outcome.accepted);
    assert!(outcome.actions.is_empty());
    assert_eq!(state.streams.len(), 0);
}

#[test]
fn reset_for_reconnect_closes_every_stream() {
    let mut state = state_with_stream(0, ClientStream::new());
    state.streams.insert(4, ClientStream::new());
    state.on_ready();
    state.push_path_event(PathEvent::Available(1));
    let closed = state.reset_for_reconnect();
    assert_eq!(
        closed,
        vec![ClientAction::CloseLocal { stream_id: 0 }, ClientAction::CloseLocal { stream_id: 4 }]
    );
    assert_eq!(state.streams_len(), 0);
    assert!(!state.is_ready());
    assert_eq!(state.acceptor.generation, 1);
    assert!(state.take_path_events().is_empty());
}

#[test]
fn source_close_then_fin_finishes_after_peer_fin() {
    let mut state = state_with_stream(4, ClientStream::new());
    mark_source_closed(&mut state, 4);
    assert_eq!(state.streams.get(4).unwrap().send_state, StreamSendState::Closing);
    assert!(check_stream_invariants(&state, 4).is_empty());
    assert!(wants_fin(&state, 4));
    assert!(handle_stream_closed(&mut state, 4, 0).is_empty());
    assert!(!wants_fin(&state, 4));
    assert!(state.streams.contains(4));
    handle_stream_data(&mut state, 4, true, 0);
    assert!(!state.streams.contains(4));
}

#[test]
fn invariant_violations_are_reported() {
    let mut stream = ClientStream::new();
    stream.send_state = StreamSendState::Closing;
    stream.recv_state = StreamRecvState::FinReceived;
    let state = state_with_stream(4, stream);
    assert_eq!(
        check_stream_invariants(&state, 4),
        vec![ClientInvariant::SendClosedWithSource, ClientInvariant::FinWithoutOffset]
    );
}

#[test]
fn chunk_sent_accounts_bytes() {
    let mut state = state_with_stream(4, ClientStream::new());
    assert!(handle_stream_chunk_sent(&mut state, 4, 30, 0, 77).is_empty());
    assert_eq!(state.streams.get(4).unwrap().tx_bytes, 30);
    assert_eq!(state.debug_snapshot(), (30, 77));
    let failed = handle_stream_chunk_sent(&mut state, 4, 5, -1, 78);
    assert_eq!(failed, vec![ClientAction::Abort { stream_id: 4, code: ErrorCode::Internal }]);
    assert!(!state.streams.contains(4));
}

#[test]
fn peer_reset_and_local_failure() {
    let mut state = state_with_stream(4, ClientStream::new());
    state.streams.insert(8, ClientStream::new());
    assert_eq!(
        handle_peer_reset(&mut state, 4),
        vec![ClientAction::ResetStream { stream_id: 4, code: ErrorCode::FileCancel }]
    );
    assert_eq!(
        fail_stream(&mut state, 8),
        vec![ClientAction::Abort { stream_id: 8, code: ErrorCode::Internal }]
    );
    assert_eq!(state.streams.len(), 0);
}

#[test]
fn acceptor_limit_saturates_and_reports_once() {
    let mut state = ClientState::new(AcceptorLimiter::new(0));
    assert!(!state.update_acceptor_limit(0));
    assert!(state.update_acceptor_limit(8));
    assert!(!state.update_acceptor_limit(9));
    assert_eq!(state.acceptor.max, 9);
    state.update_acceptor_limit(u64::MAX);
    assert_eq!(state.acceptor.max as u64, u64::MAX.min(usize::MAX as u64));
}

#[test]
fn debug_metrics_count_streams() {
    let mut state = state_with_stream(0, ClientStream::new());
    state.streams.insert(4, ClientStream::new());
    handle_stream_data(&mut state, 0, true, 10);
    handle_stream_data(&mut state, 4, false, MAX_QUEUED_BYTES + 1);
    assert_eq!(
        state.stream_debug_metrics(),
        ClientStreamMetrics {
            streams_with_rx_queued: 1,
            queued_bytes_total: 10,
            streams_with_recv_fin: 1,
            streams_with_send_fin: 0,
            streams_discarding: 1,
            streams_with_unconsumed_rx: 1,
        }
    );
}

#[test]
fn writer_batches_bytes_in_order() {
    let mut batch = b"ab".to_vec();
    assert_eq!(coalesce_step(&mut batch, WriterInput::Data(b"cd".to_vec()), 10), WriterDecision::Continue);
    assert_eq!(coalesce_step(&mut batch, WriterInput::Data(b"efghijk".to_vec()), 10), WriterDecision::Flush);
    assert_eq!(batch, b"abcdefghijk".to_vec());
    assert_eq!(coalesce_step(&mut batch, WriterInput::Empty, 100), WriterDecision::Flush);
    assert_eq!(coalesce_step(&mut batch, WriterInput::Fin, 100), WriterDecision::FlushAndShutdown);
    assert_eq!(coalesce_step(&mut batch, WriterInput::Closed, 100), WriterDecision::FlushAndShutdown);
    assert_eq!(batch, b"abcdefghijk".to_vec());
}

#[test]
fn backlog_summaries_list_held_streams() {
    let mut state = state_with_stream(0, ClientStream::new());
    state.streams.insert(4, ClientStream::new());
    state.streams.insert(8, ClientStream::new());
    assert!(state.stream_backlog_summaries(8).is_empty());
    handle_stream_data(&mut state, 4, false, 10);
    handle_stream_data(&mut state, 8, true, 0);
    let all = state.stream_backlog_summaries(8);
    assert_eq!(all.iter().map(|s| s.stream_id).collect::<Vec<_>>(), vec![4, 8]);
    assert_eq!(all[0].stream.flow.queued_bytes, 10);
    assert_eq!(state.stream_backlog_summaries(1).len(), 1);
    assert_eq!(state.stream_backlog_summaries(0).len(), 1);
}
