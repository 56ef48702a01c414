use slipstream::client::ErrorCode;
use slipstream::flow::MAX_QUEUED_BYTES;
use slipstream::server::{
    fail_stream, handle_peer_reset, handle_stream_connected, handle_stream_data,
    handle_stream_readable, handle_stream_write_drained, handle_target_closed, needs_target_read,
    check_stream_invariants, prepare_to_send, remove_connection_streams, stream_debug_metrics,
    stream_send_backlog_summaries, CommandCounts, ServerInvariant, CommandKind, SendReply,
    ServerAction, ServerConnection, ServerStream, ServerStreamMetrics, TargetRead,
};

fn conn_with_stream(stream_id: u64, send_pending: bool) -> ServerConnection {
    let mut conn = ServerConnection::new();
    let mut stream = ServerStream::new();
    stream.send_pending_attached = send_pending;
    conn.streams.insert(stream_id, stream);
    conn
}

fn written(actions: &[ServerAction]) -> Vec<u8> {
    let mut out = Vec::new();
    for action in actions {
        if let ServerAction::Write { data, .. } = action {
            out.extend_from_slice(data);
        }
    }
    out
}

#[test]
fn mark_active_stream_failure_should_remove_stream() {
    let mut conn = conn_with_stream(4, true);

    handle_target_closed(&mut conn, 4, 0x400 + 36);

    assert!(
        !conn.streams.contains(4),
        "stream state should be removed when mark_active_stream fails"
    );
}

#[test]
fn mark_active_stream_readable_failure_should_not_leave_send_pending_stuck() {
    let mut conn = conn_with_stream(4, true);

    let actions = handle_stream_readable(&mut conn, 4, 0x400 + 36);

    assert!(
        !conn.streams.contains(4),
        "stream state should be removed when mark_active_stream fails"
    );
    assert!(
        matches!(actions.first(), Some(ServerAction::Shutdown { stream_id: 4 })),
        "send_pending should be dropped when the stream is removed"
    );
}

#[test]
fn first_bytes_dial_target_and_buffer_in_order() {
    let mut conn = ServerConnection::new();
    let first = handle_stream_data(&mut conn, 0, false, b"HEL");
    assert!(matches!(first.first(), Some(ServerAction::Connect { stream_id: 0 })));
    let second = handle_stream_data(&mut conn, 0, true, b"LO");
    assert!(written(&second).is_empty());
    let stream = conn.streams.get(0).unwrap();
    assert_eq!(stream.pending_data.len(), 2);
    assert!(stream.pending_fin);

    let flushed = handle_stream_connected(&mut conn, 0);
    assert_eq!(written(&flushed), b"HELLO".to_vec());
    assert!(matches!(flushed.last(), Some(ServerAction::WriteFin { stream_id: 0 })));
    let stream = conn.streams.get(0).unwrap();
    assert!(stream.fin_enqueued);
    assert!(!stream.pending_fin);
    assert!(stream.pending_data.is_empty());

    let later = handle_stream_data(&mut conn, 0, false, b"!");
    assert_eq!(written(&later), b"!".to_vec());
}

#[test]
fn second_stream_switches_connection_mode() {
    let mut conn = ServerConnection::new();
    handle_stream_data(&mut conn, 0, false, b"abc");
    assert!(!conn.multi_stream);
    let actions = handle_stream_data(&mut conn, 4, false, b"d");
    assert!(conn.multi_stream);
    assert!(matches!(actions.first(), Some(ServerAction::Connect { stream_id: 4 })));
    assert_eq!(conn.streams_len(), 2);
}

#[test]
fn server_overflow_drops_target() {
    let mut conn = conn_with_stream(0, false);
    handle_stream_data(&mut conn, 0, false, b"x");
    let big = vec![0u8; (MAX_QUEUED_BYTES + 1) as usize];
    let actions = handle_stream_data(&mut conn, 0, false, &big);
    assert!(matches!(actions.first(), Some(ServerAction::DropTarget { stream_id: 0 })));
    assert!(matches!(actions.get(1), Some(ServerAction::StopSending { stream_id: 0 })));
    let stream = conn.streams.get(0).unwrap();
    assert!(stream.flow.discarding);
    assert!(stream.pending_data.is_empty());
    let connected = handle_stream_connected(&mut conn, 0);
    assert!(matches!(connected.as_slice(), [ServerAction::DropTarget { stream_id: 0 }]));
    let fin = handle_stream_data(&mut conn, 0, true, b"");
    assert!(matches!(fin.last(), Some(ServerAction::Shutdown { stream_id: 0 })));
    assert!(!conn.streams.contains(0));
}

#[test]
fn send_path_uses_stash_then_reader_then_fin() {
    let mut conn = ServerConnection::new();
    handle_stream_data(&mut conn, 0, false, b"");
    handle_stream_connected(&mut conn, 0);
    assert!(needs_target_read(&conn, 0));

    let d = prepare_to_send(&mut conn, 0, 3, true, false, TargetRead::Data(b"abcdef".to_vec()));
    match d.reply {
        SendReply::Data { data } => assert_eq!(data, b"abc".to_vec()),
        other => panic!("unexpected reply {:?}", other),
    }
    assert!(!needs_target_read(&conn, 0));
    let d = prepare_to_send(&mut conn, 0, 10, true, false, TargetRead::Empty);
    match d.reply {
        SendReply::Data { data } => assert_eq!(data, b"def".to_vec()),
        other => panic!("unexpected reply {:?}", other),
    }
    assert_eq!(conn.streams.get(0).unwrap().tx_bytes, 6);

    let idle = prepare_to_send(&mut conn, 0, 0, false, true, TargetRead::Empty);
    assert!(matches!(idle.reply, SendReply::Idle { still_active: false }));
    assert!(idle.clear_pending_flag);

    let fin = prepare_to_send(&mut conn, 0, 10, true, true, TargetRead::Disconnected);
    assert!(matches!(fin.reply, SendReply::Fin));
    assert!(fin.removed);
    assert!(!conn.streams.contains(0));
}

#[test]
fn target_close_owes_fin() {
    let mut conn = conn_with_stream(4, true);
    assert!(handle_target_closed(&mut conn, 4, 0).is_empty());
    let stream = conn.streams.get(4).unwrap();
    assert!(stream.target_fin_pending);
    assert!(stream.close_after_flush);
    let idle = prepare_to_send(&mut conn, 4, 0, false, true, TargetRead::Empty);
    assert!(matches!(idle.reply, SendReply::Idle { still_active: true }));
    let fin = prepare_to_send(&mut conn, 4, 100, false, true, TargetRead::Empty);
    assert!(matches!(fin.reply, SendReply::Fin));
    assert!(fin.removed);
}

#[test]
fn server_drain_releases_offsets() {
    let mut conn = ServerConnection::new();
    handle_stream_data(&mut conn, 0, false, &vec![1u8; 100]);
    handle_stream_connected(&mut conn, 0);
    let actions = handle_stream_write_drained(&mut conn, 0, 100);
    assert!(matches!(actions.as_slice(), [ServerAction::Consume { stream_id: 0, offset: 100 }]));
}

#[test]
fn server_failures_and_resets() {
    let mut conn = conn_with_stream(4, false);
    conn.streams.insert(8, ServerStream::new());
    let reset = handle_peer_reset(&mut conn, 4);
    assert!(matches!(
        reset.as_slice(),
        [ServerAction::Shutdown { stream_id: 4 }, ServerAction::ResetStream { stream_id: 4, code: ErrorCode::FileCancel }]
    ));
    let failed = fail_stream(&mut conn, 8);
    assert!(matches!(
        failed.as_slice(),
        [ServerAction::Shutdown { stream_id: 8 }, ServerAction::Abort { stream_id: 8, code: ErrorCode::Internal }]
    ));
    assert!(fail_stream(&mut conn, 8).is_empty());
}

#[test]
fn closing_connection_shuts_every_stream() {
    let mut conn = conn_with_stream(0, false);
    conn.streams.insert(4, ServerStream::new());
    let actions = remove_connection_streams(&mut conn);
    assert!(matches!(
        actions.as_slice(),
        [ServerAction::Shutdown { stream_id: 0 }, ServerAction::Shutdown { stream_id: 4 }]
    ));
    assert_eq!(conn.streams_len(), 0);
}

#[test]
fn command_counts_total_and_reset() {
    let mut counts = CommandCounts::new();
    counts.bump(CommandKind::StreamConnected);
    counts.bump(CommandKind::StreamWriteDrained);
    counts.bump(CommandKind::StreamWriteDrained);
    assert_eq!(counts.total(), 3);
    assert_eq!(counts.stream_write_drained, 2);
    counts.stream_closed = u64::MAX;
    assert_eq!(counts.total(), u64::MAX);
    counts.reset();
    assert_eq!(counts.total(), 0);
}

#[test]
fn send_backlog_detection() {
    let mut conn = ServerConnection::new();
    handle_stream_data(&mut conn, 0, false, b"abc");
    handle_stream_connected(&mut conn, 0);
    let quiet = stream_debug_metrics(&conn, &vec![]);
    assert!(!quiet.has_send_backlog());
    let flagged = stream_debug_metrics(&conn, &vec![0]);
    assert_eq!(flagged.streams_with_send_pending, 1);
    assert!(flagged.has_send_backlog());
    handle_target_closed(&mut conn, 0, 0);
    let fin = stream_debug_metrics(&conn, &vec![]);
    assert_eq!(fin.streams_with_target_fin_pending, 1);
    assert!(fin.has_send_backlog());
    let stash = ServerStreamMetrics { streams_with_target_fin_pending: 0, streams_with_send_stash: 1, ..fin };
    assert!(stash.has_send_backlog());
}

#[test]
fn debug_metrics_count_buffered_streams() {
    let mut conn = ServerConnection::new();
    handle_stream_data(&mut conn, 0, false, b"abc");
    handle_stream_data(&mut conn, 0, true, b"de");
    handle_stream_data(&mut conn, 4, false, b"xyz");
    handle_stream_connected(&mut conn, 4);
    let m = stream_debug_metrics(&conn, &vec![4]);
    assert_eq!(m.streams_total, 2);
    assert!(m.multi_stream);
    assert_eq!(m.streams_with_write_tx, 1);
    assert_eq!(m.streams_with_data_rx, 1);
    assert_eq!(m.streams_with_pending_data, 1);
    assert_eq!(m.pending_chunks_total, 2);
    assert_eq!(m.pending_bytes_total, 5);
    assert_eq!(m.queued_bytes_total, 8);
    assert_eq!(m.streams_with_pending_fin, 1);
    assert_eq!(m.streams_with_fin_enqueued, 0);
    assert_eq!(m.streams_with_send_pending, 1);
    assert_eq!(m.streams_discarding, 0);
}

#[test]
fn fin_and_pending_fin_never_both_set() {
    let mut conn = ServerConnection::new();
    handle_stream_data(&mut conn, 0, true, b"a");
    let s = conn.streams.get(0).unwrap();
    assert!(s.pending_fin && !s.fin_enqueued);
    handle_stream_connected(&mut conn, 0);
    let s = conn.streams.get(0).unwrap();
    assert!(s.fin_enqueued && !s.pending_fin);
    let again = handle_stream_data(&mut conn, 0, true, b"");
    assert!(again.iter().all(|a| !matches!(a, ServerAction::WriteFin { .. })));
}

#[test]
fn prepare_to_send_counts_sent_bytes() {
    let mut conn = ServerConnection::new();
    handle_stream_data(&mut conn, 0, false, b"");
    handle_stream_connected(&mut conn, 0);
    prepare_to_send(&mut conn, 0, 4, false, false, TargetRead::Data(b"0123456789".to_vec()));
    assert_eq!(conn.streams.get(0).unwrap().tx_bytes, 4);
    prepare_to_send(&mut conn, 0, 4, false, false, TargetRead::Empty);
    assert_eq!(conn.streams.get(0).unwrap().tx_bytes, 8);
}

#[test]
fn writer_flag_mismatch_is_reported() {
    let conn = conn_with_stream(4, true);
    assert_eq!(check_stream_invariants(&conn, 4), vec![ServerInvariant::WriterFlagMismatch]);
    let fine = conn_with_stream(4, false);
    assert!(check_stream_invariants(&fine, 4).is_empty());
    assert!(check_stream_invariants(&fine, 8).is_empty());
}

#[test]
fn send_backlog_summaries_list_streams_with_sends() {
    let mut conn = ServerConnection::new();
    handle_stream_data(&mut conn, 0, false, b"a");
    handle_stream_data(&mut conn, 4, false, b"b");
    handle_stream_connected(&mut conn, 0);
    handle_stream_connected(&mut conn, 4);
    assert!(stream_send_backlog_summaries(&conn, &vec![], 8).is_empty());
    handle_target_closed(&mut conn, 4, 0);
    let listed = stream_send_backlog_summaries(&conn, &vec![0], 8);
    assert_eq!(listed.len(), 2);
    assert_eq!(listed[0].stream_id, 0);
    assert!(listed[0].send_pending);
    assert_eq!(listed[1].stream_id, 4);
    assert!(listed[1].target_fin_pending && listed[1].close_after_flush);
    assert_eq!(stream_send_backlog_summaries(&conn, &vec![0], 1).len(), 1);
}
