//! Client-side stream engine: the table of streams carried for local TCP
//! connections and the decisions taken on each event of a stream.
//!
//! Every handler updates the table and returns, in order, the effects that the
//! event loop must perform (writes toward the local socket, offsets to
//! release, streams to abort). When an effect fails, the loop reports it with
//! [`fail_stream`], which aborts and forgets the stream.

use crate::acceptor::{release_state, reset_state, AcceptorLimiter, AcceptorReservation};
use crate::flow::{
    advance_of, conn_reserve_bytes, drain_state, fin_state, handle_stream_receive,
    handle_write_drained, promote_state, promote_stream, promote_target, receive_outcome,
    receive_state, record_peer_fin, sat_sub, target_spec, FlowControlState, ReceiveOutcome,
    StreamReceiveConfig, CONN_RESERVE_BYTES,
};
use crate::table::StreamTable;
use vstd::prelude::*;

verus! {

/// Application error codes used when streams are torn down.
#[derive(Clone, Copy, Debug, PartialEq, Eq, Structural)]
pub enum ErrorCode {
    /// Echoed on a peer reset or for data on an unknown stream.
    FileCancel,
    /// Used on a local failure.
    Internal,
}

/// Send half of a stream: open while the local source is attached, closing
/// once it has drained, and closed when the fin is queued to the peer.
#[derive(Clone, Copy, Debug, PartialEq, Eq, Structural)]
pub enum StreamSendState {
    Open,
    Closing,
    FinQueued,
}

/// Receive half of a stream.
#[derive(Clone, Copy, Debug, PartialEq, Eq, Structural)]
pub enum StreamRecvState {
    Open,
    FinReceived,
}

impl StreamSendState {
    pub fn is_closed(self) -> (r: bool)
        ensures
            r == (self == StreamSendState::FinQueued),
    {
        matches!(self, StreamSendState::FinQueued)
    }

    pub fn can_queue_fin(self) -> (r: bool)
        ensures
            r == (self == StreamSendState::Open || self == StreamSendState::Closing),
    {
        matches!(self, StreamSendState::Open | StreamSendState::Closing)
    }
}

impl StreamRecvState {
    pub fn is_closed(self) -> (r: bool)
        ensures
            r == (self == StreamRecvState::FinReceived),
    {
        matches!(self, StreamRecvState::FinReceived)
    }
}

/// One stream carried for a local TCP connection.
#[derive(Clone, Copy, Debug, PartialEq, Eq, Structural)]
pub struct ClientStream {
    pub tx_bytes: u64,
    pub recv_state: StreamRecvState,
    pub send_state: StreamSendState,
    pub flow: FlowControlState,
    /// The local socket's read side still feeds the stream.
    pub has_data_rx: bool,
}

impl ClientStream {
    /// A stream just accepted: both halves open, nothing transferred.
    pub fn new() -> (r: ClientStream)
        ensures
            r == (ClientStream {
                tx_bytes: 0,
                recv_state: StreamRecvState::Open,
                send_state: StreamSendState::Open,
                flow: FlowControlState {
                    rx_bytes: 0,
                    consumed_offset: 0,
                    queued_bytes: 0,
                    fin_offset: None,
                    discarding: false,
                    stop_sending_sent: false,
                },
                has_data_rx: true,
            }),
            r.flow.wf(),
    {
        ClientStream {
            tx_bytes: 0,
            recv_state: StreamRecvState::Open,
            send_state: StreamSendState::Open,
            flow: FlowControlState::new(),
            has_data_rx: true,
        }
    }
}

/// An effect the event loop performs on behalf of the engine.
#[derive(Clone, Copy, Debug, PartialEq, Eq, Structural)]
pub enum ClientAction {
    /// Hand the `len` bytes just received to the stream's local socket.
    Deliver { stream_id: u64, len: u64 },
    /// Shut down the write side of the stream's local socket.
    DeliverFin { stream_id: u64 },
    /// Detach the local socket writer; later bytes are dropped.
    DropSink { stream_id: u64 },
    /// Ask the peer to stop sending on the stream.
    StopSending { stream_id: u64 },
    /// Tell the QUIC layer it may release the stream up to `offset`.
    Consume { stream_id: u64, offset: u64 },
    /// Abort both directions of the stream.
    Abort { stream_id: u64, code: ErrorCode },
    /// Reset the stream toward the peer.
    ResetStream { stream_id: u64, code: ErrorCode },
    /// Stop the stream's local reader and close its writer.
    CloseLocal { stream_id: u64 },
}

/// A path notification surfaced by the QUIC layer.
#[derive(Clone, Copy, Debug, PartialEq, Eq, Structural)]
pub enum PathEvent {
    Available(u64),
    Deleted(u64),
}

/// A stream invariant found broken by [`check_stream_invariants`].
#[derive(Clone, Copy, Debug, PartialEq, Eq, Structural)]
pub enum ClientInvariant {
    /// The send half is no longer open but the local source is still attached.
    SendClosedWithSource,
    /// The send half is open but the local source is gone.
    SendOpenWithoutSource,
    /// The peer's fin was seen but its offset was not recorded.
    FinWithoutOffset,
}

/// What became of a locally accepted connection.
#[derive(Debug)]
pub struct NewStreamOutcome {
    /// The connection now has a stream; when false the socket is dropped.
    pub accepted: bool,
    pub actions: Vec<ClientAction>,
}

/// State of the client engine for the current connection.
pub struct ClientState {
    pub ready: bool,
    pub closing: bool,
    pub streams: StreamTable<ClientStream>,
    pub multi_stream_mode: bool,
    pub path_events: Vec<PathEvent>,
    pub acceptor: AcceptorLimiter,
    pub debug_enqueued_bytes: u64,
    pub debug_last_enqueue_at: u64,
    pub acceptor_limit_logged: bool,
}

pub open spec fn consume_seq(stream_id: u64, c: Option<u64>) -> Seq<ClientAction> {
    match c {
        Some(offset) => seq![ClientAction::Consume { stream_id, offset }],
        None => Seq::empty(),
    }
}

/// The effects of a receive outcome, in order.
pub open spec fn receive_actions(stream_id: u64, len: u64, out: ReceiveOutcome) -> Seq<ClientAction> {
    match out {
        ReceiveOutcome::Buffered { consume_to } => (if len > 0 {
            seq![ClientAction::Deliver { stream_id, len }]
        } else {
            Seq::empty()
        }) + consume_seq(stream_id, consume_to),
        ReceiveOutcome::Overflow { stop_sending, consume_to } => seq![ClientAction::DropSink { stream_id }] + (if stop_sending {
            seq![ClientAction::StopSending { stream_id }]
        } else {
            Seq::empty()
        }) + consume_seq(stream_id, consume_to),
        ReceiveOutcome::Discarded { consume_to } => consume_seq(stream_id, consume_to),
    }
}

/// Whether both halves are closed and nothing is left toward the local socket.
pub open spec fn finished(s: ClientStream) -> bool {
    &&& s.recv_state == StreamRecvState::FinReceived
    &&& s.send_state == StreamSendState::FinQueued
    &&& s.flow.queued_bytes == 0
}

/// The stream after bytes (and possibly the peer's fin) arrived, assuming
/// every effect succeeds.
pub open spec fn data_stream(s: ClientStream, len: u64, fin: bool, cfg: StreamReceiveConfig) -> ClientStream {
    let f1 = receive_state(s.flow, len, cfg);
    if fin && !f1.discarding {
        ClientStream { flow: fin_state(f1), recv_state: StreamRecvState::FinReceived, ..s }
    } else {
        ClientStream { flow: f1, ..s }
    }
}

/// Whether that event removes the stream: a discarding stream goes on the
/// peer's fin, any other once it is finished.
pub open spec fn data_removes(s: ClientStream, len: u64, fin: bool, cfg: StreamReceiveConfig) -> bool {
    let s2 = data_stream(s, len, fin, cfg);
    if s2.flow.discarding { fin } else { finished(s2) }
}

pub open spec fn data_actions(stream_id: u64, s: ClientStream, len: u64, fin: bool, cfg: StreamReceiveConfig) -> Seq<ClientAction> {
    let acts = receive_actions(stream_id, len, receive_outcome(s.flow, len, cfg));
    let f1 = receive_state(s.flow, len, cfg);
    if fin && !f1.discarding && s.recv_state == StreamRecvState::Open {
        acts.push(ClientAction::DeliverFin { stream_id })
    } else {
        acts
    }
}

impl ClientState {
    /// A fresh engine whose acceptor holds `acceptor`.
    pub fn new(acceptor: AcceptorLimiter) -> (r: ClientState)
        ensures
            r.wf(),
            !r.ready,
            !r.closing,
            r.streams@ =~= Map::<u64, ClientStream>::empty(),
            !r.multi_stream_mode,
            r.path_events@.len() == 0,
            r.acceptor == acceptor,
            r.debug_enqueued_bytes == 0,
            r.debug_last_enqueue_at == 0,
            !r.acceptor_limit_logged,
    {
        ClientState {
            ready: false,
            closing: false,
            streams: StreamTable::new(),
            multi_stream_mode: false,
            path_events: Vec::new(),
            acceptor,
            debug_enqueued_bytes: 0,
            debug_last_enqueue_at: 0,
            acceptor_limit_logged: false,
        }
    }

    /// The table is well formed and every stream's accounting holds.
    pub open spec fn wf(&self) -> bool {
        &&& self.streams.wf()
        &&& forall|k: u64| #[trigger] self.streams@.contains_key(k) ==> self.streams@[k].flow.wf()
    }

    /// The release configuration of the current mode.
    pub open spec fn cfg(&self) -> StreamReceiveConfig {
        StreamReceiveConfig {
            multi_stream: self.multi_stream_mode,
            reserve_bytes: if self.multi_stream_mode { 0 } else { CONN_RESERVE_BYTES },
        }
    }

    pub fn is_ready(&self) -> (r: bool)
        ensures
            r == self.ready,
    {
        self.ready
    }

    pub fn is_closing(&self) -> (r: bool)
        ensures
            r == self.closing,
    {
        self.closing
    }

    pub fn streams_len(&self) -> (r: usize)
        ensures
            r == self.streams.size(),
    {
        self.streams.len()
    }

    /// Totals of enqueued bytes and the time of the last enqueue.
    pub fn debug_snapshot(&self) -> (r: (u64, u64))
        ensures
            r == (self.debug_enqueued_bytes, self.debug_last_enqueue_at),
    {
        (self.debug_enqueued_bytes, self.debug_last_enqueue_at)
    }

    fn receive_config(&self) -> (r: StreamReceiveConfig)
        ensures
            r == self.cfg(),
    {
        StreamReceiveConfig::new(self.multi_stream_mode, conn_reserve_bytes())
    }

    /// The connection became ready.
    pub fn on_ready(&mut self)
        ensures
            final(self).ready,
            final(self).streams == old(self).streams,
            final(self).multi_stream_mode == old(self).multi_stream_mode,
            final(self).acceptor == old(self).acceptor,
            final(self).closing == old(self).closing,
    {
        self.ready = true;
    }

    /// The connection is closing (close, application close or stateless reset).
    pub fn on_close(&mut self)
        ensures
            final(self).closing,
            final(self).streams == old(self).streams,
            final(self).ready == old(self).ready,
            final(self).acceptor == old(self).acceptor,
            final(self).multi_stream_mode == old(self).multi_stream_mode,
    {
        self.closing = true;
    }

    /// Queues a path event for the loop.
    pub fn push_path_event(&mut self, event: PathEvent)
        ensures
            final(self).path_events@ == old(self).path_events@.push(event),
            final(self).streams == old(self).streams,
            final(self).acceptor == old(self).acceptor,
            final(self).multi_stream_mode == old(self).multi_stream_mode,
    {
        self.path_events.push(event);
    }

    /// Hands over the queued path events, leaving none.
    pub fn take_path_events(&mut self) -> (r: Vec<PathEvent>)
        ensures
            r@ == old(self).path_events@,
            final(self).path_events@.len() == 0,
            final(self).streams == old(self).streams,
            final(self).acceptor == old(self).acceptor,
            final(self).multi_stream_mode == old(self).multi_stream_mode,
    {
        let mut taken: Vec<PathEvent> = Vec::new();
        std::mem::swap(&mut taken, &mut self.path_events);
        taken
    }

    /// Stores the peer's stream limit in the acceptor (a limit beyond `usize`
    /// saturates) and says whether it is the first non-zero one to report.
    pub fn update_acceptor_limit(&mut self, max_streams: u64) -> (report: bool)
        ensures
            final(self).acceptor.max as int == if max_streams > usize::MAX { usize::MAX as int } else { max_streams as int },
            final(self).acceptor.used == old(self).acceptor.used,
            final(self).acceptor.generation == old(self).acceptor.generation,
            report == (!old(self).acceptor_limit_logged && final(self).acceptor.max > 0),
            final(self).acceptor_limit_logged == (old(self).acceptor_limit_logged || report),
            final(self).streams == old(self).streams,
            final(self).multi_stream_mode == old(self).multi_stream_mode,
            final(self).ready == old(self).ready,
            final(self).closing == old(self).closing,
    {
        let limit: usize = if max_streams > usize::MAX as u64 { usize::MAX } else { max_streams as usize };
        self.acceptor.set_max(limit);
        if !self.acceptor_limit_logged && limit > 0 {
            self.acceptor_limit_logged = true;
            return true;
        }
        false
    }
}

} // verus!

verus! {

pub open spec fn promote_consume(f: FlowControlState) -> Option<u64> {
    if f.discarding { None } else { advance_of(f, promote_target(f)) }
}

pub open spec fn promoted(s: ClientStream) -> ClientStream {
    ClientStream { flow: promote_state(s.flow), ..s }
}

/// The releases announced when the streams listed in `keys` are promoted.
pub open spec fn promote_actions(keys: Seq<u64>, m: Map<u64, ClientStream>) -> Seq<ClientAction>
    decreases keys.len(),
{
    if keys.len() == 0 {
        Seq::empty()
    } else {
        promote_actions(keys.drop_last(), m) + consume_seq(keys.last(), promote_consume(m[keys.last()].flow))
    }
}

pub open spec fn close_local_actions(keys: Seq<u64>) -> Seq<ClientAction> {
    keys.map_values(|k: u64| ClientAction::CloseLocal { stream_id: k })
}

fn push_consume(actions: &mut Vec<ClientAction>, stream_id: u64, c: Option<u64>)
    ensures
        final(actions)@ == old(actions)@ + consume_seq(stream_id, c),
{
    match c {
        Some(offset) => {
            actions.push(ClientAction::Consume { stream_id, offset });
            assert(final(actions)@ =~= old(actions)@ + consume_seq(stream_id, c));
        },
        None => {
            assert(old(actions)@ + consume_seq(stream_id, c) =~= old(actions)@);
        },
    }
}

fn push_receive_actions(actions: &mut Vec<ClientAction>, stream_id: u64, len: u64, out: ReceiveOutcome)
    ensures
        final(actions)@ == old(actions)@ + receive_actions(stream_id, len, out),
{
    match out {
        ReceiveOutcome::Buffered { consume_to } => {
            if len > 0 {
                actions.push(ClientAction::Deliver { stream_id, len });
            }
            push_consume(actions, stream_id, consume_to);
            assert(final(actions)@ =~= old(actions)@ + receive_actions(stream_id, len, out));
        },
        ReceiveOutcome::Overflow { stop_sending, consume_to } => {
            actions.push(ClientAction::DropSink { stream_id });
            if stop_sending {
                actions.push(ClientAction::StopSending { stream_id });
            }
            push_consume(actions, stream_id, consume_to);
            assert(final(actions)@ =~= old(actions)@ + receive_actions(stream_id, len, out));
        },
        ReceiveOutcome::Discarded { consume_to } => {
            push_consume(actions, stream_id, consume_to);
        },
    }
}

/// Bytes (and possibly the peer's fin) arrived on a stream.
///
/// Data for an unknown stream aborts it. Otherwise the bytes go through the
/// flow-control engine; a fin records the fin offset and closes the receive
/// half, unless the stream discards, in which case the fin removes it. A
/// stream whose halves are both closed with nothing queued is removed.
pub fn handle_stream_data(state: &mut ClientState, stream_id: u64, fin: bool, len: u64) -> (r: Vec<ClientAction>)
    requires
        old(state).wf(),
    ensures
        final(state).wf(),
        final(state).multi_stream_mode == old(state).multi_stream_mode,
        final(state).acceptor == old(state).acceptor,
        final(state).ready == old(state).ready,
        final(state).closing == old(state).closing,
        !old(state).streams@.contains_key(stream_id) ==> {
            &&& final(state).streams@ == old(state).streams@
            &&& r@ == seq![ClientAction::Abort { stream_id, code: ErrorCode::FileCancel }]
        },
        old(state).streams@.contains_key(stream_id) ==> {
            let s = old(state).streams@[stream_id];
            let cfg = old(state).cfg();
            if s.flow.rx_bytes + len > u64::MAX {
                &&& final(state).streams@ == old(state).streams@.remove(stream_id)
                &&& r@ == seq![ClientAction::Abort { stream_id, code: ErrorCode::Internal }]
            } else {
                &&& r@ == data_actions(stream_id, s, len, fin, cfg)
                &&& data_removes(s, len, fin, cfg) ==> final(state).streams@ == old(state).streams@.remove(stream_id)
                &&& !data_removes(s, len, fin, cfg) ==> final(state).streams@ == old(state).streams@.insert(
                    stream_id,
                    data_stream(s, len, fin, cfg),
                )
            }
        },
{
    let cfg = state.receive_config();
    let mut s = match state.streams.get(stream_id) {
        Some(v) => *v,
        None => {
            return vec![ClientAction::Abort { stream_id, code: ErrorCode::FileCancel }];
        },
    };
    if s.flow.rx_bytes > u64::MAX - len {
        state.streams.remove(stream_id);
        return vec![ClientAction::Abort { stream_id, code: ErrorCode::Internal }];
    }
    let ghost s0 = s;
    let out = handle_stream_receive(&mut s.flow, len, cfg);
    let mut actions: Vec<ClientAction> = Vec::new();
    push_receive_actions(&mut actions, stream_id, len, out);
    assert(actions@ =~= receive_actions(stream_id, len, out));
    if fin && !s.flow.discarding {
        record_peer_fin(&mut s.flow);
        if !s.recv_state.is_closed() {
            actions.push(ClientAction::DeliverFin { stream_id });
        }
        s.recv_state = StreamRecvState::FinReceived;
    }
    assert(s == data_stream(s0, len, fin, cfg));
    let remove = if s.flow.discarding {
        fin
    } else {
        s.recv_state.is_closed() && s.send_state.is_closed() && s.flow.queued_bytes == 0
    };
    if remove {
        state.streams.remove(stream_id);
    } else {
        state.streams.insert(stream_id, s);
    }
    actions
}

/// Whether the stream exists and may still queue its fin toward the peer.
pub fn wants_fin(state: &ClientState, stream_id: u64) -> (r: bool)
    requires
        state.wf(),
    ensures
        r == (state.streams@.contains_key(stream_id) && (state.streams@[stream_id].send_state
            == StreamSendState::Open || state.streams@[stream_id].send_state == StreamSendState::Closing)),
{
    match state.streams.get(stream_id) {
        Some(s) => s.send_state.can_queue_fin(),
        None => false,
    }
}

/// The local source of a stream was drained and the fin was handed to the
/// QUIC layer, which answered `add_ret`. A negative answer aborts the stream;
/// otherwise the send half is closed and a finished stream is removed.
/// A stream that cannot queue its fin is left alone.
pub fn handle_stream_closed(state: &mut ClientState, stream_id: u64, add_ret: i32) -> (r: Vec<ClientAction>)
    requires
        old(state).wf(),
    ensures
        final(state).wf(),
        final(state).multi_stream_mode == old(state).multi_stream_mode,
        final(state).acceptor == old(state).acceptor,
        final(state).ready == old(state).ready,
        final(state).closing == old(state).closing,
        !wants_fin_spec(*old(state), stream_id) ==> final(state).streams@ == old(state).streams@ && r@.len() == 0,
        wants_fin_spec(*old(state), stream_id) && add_ret < 0 ==> {
            &&& final(state).streams@ == old(state).streams@.remove(stream_id)
            &&& r@ == seq![ClientAction::Abort { stream_id, code: ErrorCode::Internal }]
        },
        wants_fin_spec(*old(state), stream_id) && add_ret >= 0 ==> {
            let s2 = ClientStream { send_state: StreamSendState::FinQueued, ..old(state).streams@[stream_id] };
            &&& r@.len() == 0
            &&& finished(s2) ==> final(state).streams@ == old(state).streams@.remove(stream_id)
            &&& !finished(s2) ==> final(state).streams@ == old(state).streams@.insert(stream_id, s2)
        },
{
    if !wants_fin(state, stream_id) {
        return Vec::new();
    }
    if add_ret < 0 {
        state.streams.remove(stream_id);
        return vec![ClientAction::Abort { stream_id, code: ErrorCode::Internal }];
    }
    let mut s = *state.streams.get(stream_id).unwrap();
    s.send_state = StreamSendState::FinQueued;
    if s.recv_state.is_closed() && s.flow.queued_bytes == 0 {
        state.streams.remove(stream_id);
    } else {
        state.streams.insert(stream_id, s);
    }
    Vec::new()
}

pub open spec fn wants_fin_spec(state: ClientState, stream_id: u64) -> bool {
    state.streams@.contains_key(stream_id) && (state.streams@[stream_id].send_state == StreamSendState::Open
        || state.streams@[stream_id].send_state == StreamSendState::Closing)
}

/// The local socket writer reports `bytes` written out. A discarding stream is
/// left alone; otherwise the queue shrinks, any newly releasable offset is
/// released, and a finished stream is removed.
pub fn handle_stream_write_drained(state: &mut ClientState, stream_id: u64, bytes: u64) -> (r: Vec<ClientAction>)
    requires
        old(state).wf(),
    ensures
        final(state).wf(),
        final(state).multi_stream_mode == old(state).multi_stream_mode,
        final(state).acceptor == old(state).acceptor,
        final(state).ready == old(state).ready,
        final(state).closing == old(state).closing,
        !old(state).streams@.contains_key(stream_id) || old(state).streams@[stream_id].flow.discarding ==> {
            &&& final(state).streams@ == old(state).streams@
            &&& r@.len() == 0
        },
        old(state).streams@.contains_key(stream_id) && !old(state).streams@[stream_id].flow.discarding ==> {
            let s = old(state).streams@[stream_id];
            let s2 = ClientStream { flow: drain_state(s.flow, bytes, old(state).cfg()), ..s };
            let g = FlowControlState { queued_bytes: sat_sub(s.flow.queued_bytes, bytes), ..s.flow };
            &&& r@ == consume_seq(stream_id, advance_of(g, target_spec(g, old(state).cfg())))
            &&& finished(s2) ==> final(state).streams@ == old(state).streams@.remove(stream_id)
            &&& !finished(s2) ==> final(state).streams@ == old(state).streams@.insert(stream_id, s2)
        },
{
    let cfg = state.receive_config();
    let mut s = match state.streams.get(stream_id) {
        Some(v) => *v,
        None => {
            return Vec::new();
        },
    };
    if s.flow.discarding {
        return Vec::new();
    }
    let c = handle_write_drained(&mut s.flow, bytes, cfg);
    let mut actions: Vec<ClientAction> = Vec::new();
    push_consume(&mut actions, stream_id, c);
    if s.recv_state.is_closed() && s.send_state.is_closed() && s.flow.queued_bytes == 0 {
        state.streams.remove(stream_id);
    } else {
        state.streams.insert(stream_id, s);
    }
    actions
}

/// A chunk read from the local socket was handed to the QUIC layer, which
/// answered `add_ret`. A negative answer aborts the stream; otherwise the
/// sent and enqueued totals grow by `len` (saturating) and `now` is noted.
pub fn handle_stream_chunk_sent(state: &mut ClientState, stream_id: u64, len: u64, add_ret: i32, now: u64) -> (r: Vec<ClientAction>)
    requires
        old(state).wf(),
    ensures
        final(state).wf(),
        final(state).multi_stream_mode == old(state).multi_stream_mode,
        final(state).acceptor == old(state).acceptor,
        final(state).ready == old(state).ready,
        final(state).closing == old(state).closing,
        add_ret < 0 ==> {
            &&& final(state).streams@ == old(state).streams@.remove(stream_id)
            &&& r@ == seq![ClientAction::Abort { stream_id, code: ErrorCode::Internal }]
        },
        add_ret >= 0 ==> r@.len() == 0,
        add_ret >= 0 && !old(state).streams@.contains_key(stream_id) ==> final(state).streams@ == old(state).streams@,
        add_ret >= 0 && old(state).streams@.contains_key(stream_id) ==> {
            let s = old(state).streams@[stream_id];
            &&& final(state).streams@ == old(state).streams@.insert(
                stream_id,
                ClientStream { tx_bytes: if s.tx_bytes + len > u64::MAX { u64::MAX } else { (s.tx_bytes + len) as u64 }, ..s },
            )
            &&& final(state).debug_last_enqueue_at == now
            &&& final(state).debug_enqueued_bytes as int == if old(state).debug_enqueued_bytes + len > u64::MAX {
                u64::MAX as int
            } else {
                old(state).debug_enqueued_bytes + len
            }
        },
{
    if add_ret < 0 {
        state.streams.remove(stream_id);
        return vec![ClientAction::Abort { stream_id, code: ErrorCode::Internal }];
    }
    match state.streams.get(stream_id) {
        Some(v) => {
            let mut s = *v;
            s.tx_bytes = s.tx_bytes.saturating_add(len);
            state.streams.insert(stream_id, s);
            state.debug_enqueued_bytes = state.debug_enqueued_bytes.saturating_add(len);
            state.debug_last_enqueue_at = now;
        },
        None => {},
    }
    Vec::new()
}

/// A local read or write failed, or an effect on the stream failed: the
/// stream is forgotten and aborted in both directions.
pub fn fail_stream(state: &mut ClientState, stream_id: u64) -> (r: Vec<ClientAction>)
    requires
        old(state).wf(),
    ensures
        final(state).wf(),
        final(state).streams@ == old(state).streams@.remove(stream_id),
        final(state).multi_stream_mode == old(state).multi_stream_mode,
        final(state).acceptor == old(state).acceptor,
        final(state).ready == old(state).ready,
        final(state).closing == old(state).closing,
        r@ == seq![ClientAction::Abort { stream_id, code: ErrorCode::Internal }],
{
    state.streams.remove(stream_id);
    vec![ClientAction::Abort { stream_id, code: ErrorCode::Internal }]
}

/// The peer reset the stream or asked us to stop sending: the stream is
/// forgotten and the reset is echoed.
pub fn handle_peer_reset(state: &mut ClientState, stream_id: u64) -> (r: Vec<ClientAction>)
    requires
        old(state).wf(),
    ensures
        final(state).wf(),
        final(state).streams@ == old(state).streams@.remove(stream_id),
        final(state).multi_stream_mode == old(state).multi_stream_mode,
        final(state).acceptor == old(state).acceptor,
        final(state).ready == old(state).ready,
        final(state).closing == old(state).closing,
        r@ == seq![ClientAction::ResetStream { stream_id, code: ErrorCode::FileCancel }],
{
    state.streams.remove(stream_id);
    vec![ClientAction::ResetStream { stream_id, code: ErrorCode::FileCancel }]
}

/// The local source of the stream reached its end: it detaches and an open
/// send half starts closing.
pub fn mark_source_closed(state: &mut ClientState, stream_id: u64)
    requires
        old(state).wf(),
    ensures
        final(state).wf(),
        final(state).multi_stream_mode == old(state).multi_stream_mode,
        final(state).acceptor == old(state).acceptor,
        final(state).ready == old(state).ready,
        final(state).closing == old(state).closing,
        !old(state).streams@.contains_key(stream_id) ==> final(state).streams@ == old(state).streams@,
        old(state).streams@.contains_key(stream_id) ==> {
            let s = old(state).streams@[stream_id];
            final(state).streams@ == old(state).streams@.insert(
                stream_id,
                ClientStream {
                    has_data_rx: false,
                    send_state: if s.send_state == StreamSendState::Open { StreamSendState::Closing } else { s.send_state },
                    ..s
                },
            )
        },
{
    match state.streams.get(stream_id) {
        Some(v) => {
            let mut s = *v;
            s.has_data_rx = false;
            if matches!(s.send_state, StreamSendState::Open) {
                s.send_state = StreamSendState::Closing;
            }
            state.streams.insert(stream_id, s);
        },
        None => {},
    }
}

/// Broken invariants of one stream, in a fixed order; none for an unknown stream.
pub fn check_stream_invariants(state: &ClientState, stream_id: u64) -> (r: Vec<ClientInvariant>)
    requires
        state.wf(),
    ensures
        !state.streams@.contains_key(stream_id) ==> r@.len() == 0,
        state.streams@.contains_key(stream_id) ==> {
            let s = state.streams@[stream_id];
            r@ == (if s.send_state != StreamSendState::Open && s.has_data_rx {
                seq![ClientInvariant::SendClosedWithSource]
            } else {
                Seq::empty()
            }) + (if s.send_state == StreamSendState::Open && !s.has_data_rx {
                seq![ClientInvariant::SendOpenWithoutSource]
            } else {
                Seq::empty()
            }) + (if s.recv_state == StreamRecvState::FinReceived && s.flow.fin_offset is None {
                seq![ClientInvariant::FinWithoutOffset]
            } else {
                Seq::empty()
            })
        },
{
    let mut out: Vec<ClientInvariant> = Vec::new();
    let s = match state.streams.get(stream_id) {
        Some(v) => *v,
        None => {
            return out;
        },
    };
    let send_open = matches!(s.send_state, StreamSendState::Open);
    if !send_open && s.has_data_rx {
        out.push(ClientInvariant::SendClosedWithSource);
    }
    if send_open && !s.has_data_rx {
        out.push(ClientInvariant::SendOpenWithoutSource);
    }
    if s.recv_state.is_closed() && s.flow.fin_offset.is_none() {
        out.push(ClientInvariant::FinWithoutOffset);
    }
    assert(out@ =~= (if s.send_state != StreamSendState::Open && s.has_data_rx {
        seq![ClientInvariant::SendClosedWithSource]
    } else {
        Seq::empty()
    }) + (if s.send_state == StreamSendState::Open && !s.has_data_rx {
        seq![ClientInvariant::SendOpenWithoutSource]
    } else {
        Seq::empty()
    }) + (if s.recv_state == StreamRecvState::FinReceived && s.flow.fin_offset is None {
        seq![ClientInvariant::FinWithoutOffset]
    } else {
        Seq::empty()
    }));
    out
}

} // verus!

verus! {

impl ClientState {
    /// Re-announces every stream's release point with the per-stream formula,
    /// in table order.
    pub fn promote_streams(&mut self) -> (r: Vec<ClientAction>)
        requires
            old(self).wf(),
        ensures
            final(self).wf(),
            final(self).streams.keys_seq() == old(self).streams.keys_seq(),
            forall|k: u64| #[trigger] final(self).streams@.contains_key(k) == old(self).streams@.contains_key(k),
            forall|k: u64| #[trigger] old(self).streams@.contains_key(k) ==> final(self).streams@[k] == promoted(old(self).streams@[k]),
            r@ == promote_actions(old(self).streams.keys_seq(), old(self).streams@),
            final(self).multi_stream_mode == old(self).multi_stream_mode,
            final(self).acceptor == old(self).acceptor,
            final(self).ready == old(self).ready,
            final(self).closing == old(self).closing,
    {
        let ghost m0 = self.streams@;
        let ghost keys = self.streams.keys_seq();
        proof {
            self.streams.lemma_keys();
        }
        let mut actions: Vec<ClientAction> = Vec::new();
        let n = self.streams.len();
        let mut i: usize = 0;
        while i < n
            invariant
                n == keys.len(),
                i <= n,
                self.wf(),
                self.streams.keys_seq() == keys,
                self.multi_stream_mode == old(self).multi_stream_mode,
                self.acceptor == old(self).acceptor,
                self.ready == old(self).ready,
                self.closing == old(self).closing,
                forall|j: int| 0 <= j < n ==> m0.contains_key(#[trigger] keys[j]),
                forall|a: int, b: int| 0 <= a < n && 0 <= b < n && a != b ==> keys[a] != keys[b],
                forall|k: u64| #[trigger] self.streams@.contains_key(k) == m0.contains_key(k),
                forall|j: int| 0 <= j < i ==> self.streams@[#[trigger] keys[j]] == promoted(m0[keys[j]]),
                forall|j: int| i <= j < n ==> self.streams@[#[trigger] keys[j]] == m0[keys[j]],
                actions@ == promote_actions(keys.take(i as int), m0),
            decreases n - i,
        {
            let k = self.streams.key_at(i);
            let mut s = *self.streams.get(k).unwrap();
            let c = promote_stream(&mut s.flow);
            self.streams.insert(k, s);
            push_consume(&mut actions, k, c);
            assert(keys.take(i as int + 1).drop_last() =~= keys.take(i as int));
            i = i + 1;
        }
        assert(keys.take(n as int) =~= keys);
        proof {
            assert forall|k: u64| #[trigger] old(self).streams@.contains_key(k) implies self.streams@[k] == promoted(m0[k]) by {
                let j = choose|j: int| 0 <= j < n && keys[j] == k;
                assert(self.streams@[keys[j]] == promoted(m0[keys[j]]));
            }
        }
        actions
    }

    /// Tears down every stream before a reconnect and starts a new acceptor
    /// generation. Returns the local sockets to close, in table order.
    pub fn reset_for_reconnect(&mut self) -> (r: Vec<ClientAction>)
        requires
            old(self).acceptor.generation < u64::MAX,
        ensures
            final(self).wf(),
            r@ == close_local_actions(old(self).streams.keys_seq()),
            final(self).streams@ =~= Map::<u64, ClientStream>::empty(),
            !final(self).ready,
            !final(self).closing,
            !final(self).multi_stream_mode,
            final(self).path_events@.len() == 0,
            final(self).acceptor == reset_state(old(self).acceptor),
            final(self).debug_enqueued_bytes == 0,
            final(self).debug_last_enqueue_at == 0,
            !final(self).acceptor_limit_logged,
    {
        let keys = self.streams.keys();
        let mut actions: Vec<ClientAction> = Vec::new();
        let mut i: usize = 0;
        while i < keys.len()
            invariant
                i <= keys@.len(),
                actions@ == close_local_actions(keys@.take(i as int)),
            decreases keys@.len() - i,
        {
            actions.push(ClientAction::CloseLocal { stream_id: keys[i] });
            i = i + 1;
            assert(actions@ =~= close_local_actions(keys@.take(i as int)));
        }
        assert(keys@.take(keys@.len() as int) =~= keys@);
        self.streams.clear();
        self.ready = false;
        self.closing = false;
        self.multi_stream_mode = false;
        self.path_events.clear();
        self.acceptor.reset();
        self.debug_enqueued_bytes = 0;
        self.debug_last_enqueue_at = 0;
        self.acceptor_limit_logged = false;
        actions
    }
}

/// A locally accepted connection arrives with its acceptor reservation, the
/// id the QUIC layer will give its stream, and the answer `mark_ret` of
/// activating that stream.
///
/// A stale reservation drops the connection. A failed activation aborts the
/// stream and gives the slot back. Otherwise the reservation is committed and
/// the stream is created; the second live stream on a connection switches it
/// to per-stream release and promotes every stream.
pub fn handle_new_stream(state: &mut ClientState, reservation: AcceptorReservation, stream_id: u64, mark_ret: i32) -> (r: NewStreamOutcome)
    requires
        old(state).wf(),
        !reservation.committed,
    ensures
        final(state).wf(),
        final(state).ready == old(state).ready,
        final(state).closing == old(state).closing,
        !reservation.fresh_in(old(state).acceptor) ==> {
            &&& !r.accepted
            &&& r.actions@.len() == 0
            &&& final(state).streams@ == old(state).streams@
            &&& final(state).acceptor == old(state).acceptor
            &&& final(state).multi_stream_mode == old(state).multi_stream_mode
        },
        reservation.fresh_in(old(state).acceptor) && mark_ret != 0 ==> {
            &&& !r.accepted
            &&& r.actions@ == seq![ClientAction::Abort { stream_id, code: ErrorCode::Internal }]
            &&& final(state).streams@ == old(state).streams@
            &&& final(state).acceptor == release_state(old(state).acceptor, reservation.generation)
            &&& final(state).multi_stream_mode == old(state).multi_stream_mode
        },
        reservation.fresh_in(old(state).acceptor) && mark_ret == 0 ==> {
            let inserted = old(state).streams@.insert(stream_id, ClientStream::new_spec());
            let promote = !old(state).multi_stream_mode && inserted.dom().len() > 1;
            &&& r.accepted
            &&& final(state).acceptor == old(state).acceptor
            &&& final(state).multi_stream_mode == (old(state).multi_stream_mode || promote)
            &&& forall|k: u64| #[trigger] final(state).streams@.contains_key(k) == inserted.contains_key(k)
            &&& forall|k: u64| #[trigger] inserted.contains_key(k) ==> final(state).streams@[k] == if promote {
                promoted(inserted[k])
            } else {
                inserted[k]
            }
            &&& !promote ==> r.actions@.len() == 0
            &&& promote ==> r.actions@ == promote_actions(
                if old(state).streams@.contains_key(stream_id) {
                    old(state).streams.keys_seq()
                } else {
                    old(state).streams.keys_seq().push(stream_id)
                },
                inserted,
            )
        },
{
    if !reservation.is_fresh(&state.acceptor) {
        reservation.finish(&mut state.acceptor);
        return NewStreamOutcome { accepted: false, actions: Vec::new() };
    }
    if mark_ret != 0 {
        reservation.finish(&mut state.acceptor);
        return NewStreamOutcome {
            accepted: false,
            actions: vec![ClientAction::Abort { stream_id, code: ErrorCode::Internal }],
        };
    }
    let mut reservation = reservation;
    if !reservation.commit(&state.acceptor) {
        reservation.finish(&mut state.acceptor);
        return NewStreamOutcome {
            accepted: false,
            actions: vec![ClientAction::Abort { stream_id, code: ErrorCode::Internal }],
        };
    }
    state.streams.insert(stream_id, ClientStream::new());
    proof {
        state.streams.lemma_keys();
        lemma_size_is_dom_len(state);
    }
    let mut actions: Vec<ClientAction> = Vec::new();
    if !state.multi_stream_mode && state.streams.len() > 1 {
        state.multi_stream_mode = true;
        actions = state.promote_streams();
    }
    NewStreamOutcome { accepted: true, actions }
}

impl ClientStream {
    pub open spec fn new_spec() -> ClientStream {
        ClientStream {
            tx_bytes: 0,
            recv_state: StreamRecvState::Open,
            send_state: StreamSendState::Open,
            flow: FlowControlState {
                rx_bytes: 0,
                consumed_offset: 0,
                queued_bytes: 0,
                fin_offset: None,
                discarding: false,
                stop_sending_sent: false,
            },
            has_data_rx: true,
        }
    }
}

proof fn lemma_size_is_dom_len(state: &ClientState)
    requires
        state.streams.wf(),
    ensures
        state.streams@.dom().finite(),
        state.streams@.dom().len() == state.streams.size(),
{
    state.streams.lemma_keys();
    let keys = state.streams.keys_seq();
    assert(keys.to_set() =~= state.streams@.dom()) by {
        assert forall|k: u64| keys.to_set().contains(k) implies state.streams@.dom().contains(k) by {
            let j = choose|j: int| 0 <= j < keys.len() && keys[j] == k;
            assert(state.streams@.contains_key(keys[j]));
        }
    }
    assert(keys.no_duplicates());
    keys.unique_seq_to_set();
}

} // verus!

verus! {

/// Counts describing the receive side of the client's streams.
#[derive(Clone, Copy, Debug, PartialEq, Eq, Structural)]
pub struct ClientStreamMetrics {
    pub streams_with_rx_queued: usize,
    pub queued_bytes_total: u64,
    pub streams_with_recv_fin: usize,
    pub streams_with_send_fin: usize,
    pub streams_discarding: usize,
    pub streams_with_unconsumed_rx: usize,
}

/// The stream conditions that [`ClientState::stream_debug_metrics`] counts.
pub enum StreamCondition {
    RxQueued,
    RecvFin,
    SendFin,
    Discarding,
    UnconsumedRx,
}

pub open spec fn holds(c: StreamCondition, s: ClientStream) -> bool {
    match c {
        StreamCondition::RxQueued => s.flow.queued_bytes > 0,
        StreamCondition::RecvFin => s.recv_state == StreamRecvState::FinReceived,
        StreamCondition::SendFin => s.send_state == StreamSendState::FinQueued,
        StreamCondition::Discarding => s.flow.discarding,
        StreamCondition::UnconsumedRx => s.flow.rx_bytes > s.flow.consumed_offset,
    }
}

/// How many of the listed streams satisfy `c`.
pub open spec fn count_streams(keys: Seq<u64>, m: Map<u64, ClientStream>, c: StreamCondition) -> nat
    decreases keys.len(),
{
    if keys.len() == 0 {
        0
    } else {
        count_streams(keys.drop_last(), m, c) + if holds(c, m[keys.last()]) { 1nat } else { 0nat }
    }
}

/// Bytes queued over the listed streams.
pub open spec fn queued_total(keys: Seq<u64>, m: Map<u64, ClientStream>) -> nat
    decreases keys.len(),
{
    if keys.len() == 0 {
        0
    } else {
        queued_total(keys.drop_last(), m) + m[keys.last()].flow.queued_bytes as nat
    }
}

proof fn lemma_count_le(keys: Seq<u64>, m: Map<u64, ClientStream>, c: StreamCondition)
    ensures
        count_streams(keys, m, c) <= keys.len(),
    decreases keys.len(),
{
    if keys.len() > 0 {
        lemma_count_le(keys.drop_last(), m, c);
    }
}

impl ClientState {
    /// Counts over every stream: those with bytes queued toward the local
    /// socket and their total (stopping at `u64::MAX`), those whose peer sent
    /// its fin, those that queued their own fin, those discarding, and those
    /// with received bytes not yet released.
    pub fn stream_debug_metrics(&self) -> (r: ClientStreamMetrics)
        requires
            self.wf(),
        ensures
            ({
                let keys = self.streams.keys_seq();
                let m = self.streams@;
                &&& r.streams_with_rx_queued == count_streams(keys, m, StreamCondition::RxQueued)
                &&& r.queued_bytes_total as int == if queued_total(keys, m) > u64::MAX { u64::MAX as int } else { queued_total(keys, m) as int }
                &&& r.streams_with_recv_fin == count_streams(keys, m, StreamCondition::RecvFin)
                &&& r.streams_with_send_fin == count_streams(keys, m, StreamCondition::SendFin)
                &&& r.streams_discarding == count_streams(keys, m, StreamCondition::Discarding)
                &&& r.streams_with_unconsumed_rx == count_streams(keys, m, StreamCondition::UnconsumedRx)
            }),
    {
        let ghost keys = self.streams.keys_seq();
        let ghost m = self.streams@;
        proof {
            self.streams.lemma_keys();
        }
        let mut r = ClientStreamMetrics {
            streams_with_rx_queued: 0,
            queued_bytes_total: 0,
            streams_with_recv_fin: 0,
            streams_with_send_fin: 0,
            streams_discarding: 0,
            streams_with_unconsumed_rx: 0,
        };
        let n = self.streams.len();
        let mut i: usize = 0;
        while i < n
            invariant
                n == keys.len(),
                i <= n,
                keys == self.streams.keys_seq(),
                m == self.streams@,
                self.wf(),
                forall|j: int| 0 <= j < n ==> m.contains_key(#[trigger] keys[j]),
                r.streams_with_rx_queued == count_streams(keys.take(i as int), m, StreamCondition::RxQueued),
                r.queued_bytes_total as int == if queued_total(keys.take(i as int), m) > u64::MAX {
                    u64::MAX as int
                } else {
                    queued_total(keys.take(i as int), m) as int
                },
                r.streams_with_recv_fin == count_streams(keys.take(i as int), m, StreamCondition::RecvFin),
                r.streams_with_send_fin == count_streams(keys.take(i as int), m, StreamCondition::SendFin),
                r.streams_discarding == count_streams(keys.take(i as int), m, StreamCondition::Discarding),
                r.streams_with_unconsumed_rx == count_streams(keys.take(i as int), m, StreamCondition::UnconsumedRx),
            decreases n - i,
        {
            let k = self.streams.key_at(i);
            let s = *self.streams.get(k).unwrap();
            proof {
                let t0 = keys.take(i as int);
                assert(keys.take(i as int + 1).drop_last() =~= t0);
                assert(keys.take(i as int + 1).last() == k);
                lemma_count_le(t0, m, StreamCondition::RxQueued);
                lemma_count_le(t0, m, StreamCondition::RecvFin);
                lemma_count_le(t0, m, StreamCondition::SendFin);
                lemma_count_le(t0, m, StreamCondition::Discarding);
                lemma_count_le(t0, m, StreamCondition::UnconsumedRx);
            }
            r.queued_bytes_total = r.queued_bytes_total.saturating_add(s.flow.queued_bytes);
            if s.flow.queued_bytes > 0 {
                r.streams_with_rx_queued = r.streams_with_rx_queued + 1;
            }
            if s.recv_state.is_closed() {
                r.streams_with_recv_fin = r.streams_with_recv_fin + 1;
            }
            if s.send_state.is_closed() {
                r.streams_with_send_fin = r.streams_with_send_fin + 1;
            }
            if s.flow.discarding {
                r.streams_discarding = r.streams_discarding + 1;
            }
            if s.flow.rx_bytes > s.flow.consumed_offset {
                r.streams_with_unconsumed_rx = r.streams_with_unconsumed_rx + 1;
            }
            i = i + 1;
        }
        assert(keys.take(n as int) =~= keys);
        r
    }
}

} // verus!

verus! {

/// On the data path a stream that does not discard leaves the table exactly
/// when its receive half has seen the fin, its send half has queued its fin,
/// and nothing is queued toward the local socket; a discarding stream leaves
/// it on the peer's fin.
pub proof fn lemma_half_close_completeness(s: ClientStream, len: u64, fin: bool, cfg: StreamReceiveConfig)
    ensures
        !receive_state(s.flow, len, cfg).discarding ==> (data_removes(s, len, fin, cfg) <==> {
            let s2 = data_stream(s, len, fin, cfg);
            &&& s2.recv_state == StreamRecvState::FinReceived
            &&& s2.send_state == StreamSendState::FinQueued
            &&& s2.flow.queued_bytes == 0
        }),
        receive_state(s.flow, len, cfg).discarding ==> data_removes(s, len, fin, cfg) == fin,
{
}

} // verus!

verus! {

/// What the local socket writer took from its channel.
pub enum WriterInput {
    Data(Vec<u8>),
    Fin,
    /// Nothing is queued right now.
    Empty,
    /// The engine dropped the channel.
    Closed,
}

/// What the local socket writer does next with its batch.
#[derive(Clone, Copy, Debug, PartialEq, Eq, Structural)]
pub enum WriterDecision {
    /// Keep taking queued messages into the batch.
    Continue,
    /// Write the batch out.
    Flush,
    /// Write the batch out, then shut the socket's write side.
    FlushAndShutdown,
}

/// One step of batching writes toward the local socket: queued bytes are
/// appended to the batch in the order they came, until the batch reaches
/// `coalesce_max` bytes, the queue is empty, or a fin (or a closed channel)
/// ends the stream.
pub fn coalesce_step(batch: &mut Vec<u8>, input: WriterInput, coalesce_max: usize) -> (r: WriterDecision)
    ensures
        match input {
            WriterInput::Data(more) => {
                &&& final(batch)@ == old(batch)@ + more@
                &&& r == if final(batch)@.len() >= coalesce_max { WriterDecision::Flush } else { WriterDecision::Continue }
            },
            WriterInput::Fin | WriterInput::Closed => final(batch)@ == old(batch)@ && r == WriterDecision::FlushAndShutdown,
            WriterInput::Empty => final(batch)@ == old(batch)@ && r == WriterDecision::Flush,
        },
{
    match input {
        WriterInput::Data(more) => {
            let mut more = more;
            batch.append(&mut more);
            if batch.len() >= coalesce_max {
                WriterDecision::Flush
            } else {
                WriterDecision::Continue
            }
        },
        WriterInput::Fin | WriterInput::Closed => WriterDecision::FlushAndShutdown,
        WriterInput::Empty => WriterDecision::Flush,
    }
}

} // verus!

verus! {

/// A stream that still holds something back, as reported on a stall.
#[derive(Clone, Copy, Debug, PartialEq, Eq, Structural)]
pub struct ClientBacklogSummary {
    pub stream_id: u64,
    pub stream: ClientStream,
}

/// Whether a stream holds something back: bytes queued or not yet released,
/// a half no longer open, or the overflow latch.
pub open spec fn has_backlog(s: ClientStream) -> bool {
    s.flow.queued_bytes > 0 || s.recv_state != StreamRecvState::Open || s.send_state != StreamSendState::Open
        || s.flow.discarding || s.flow.rx_bytes > s.flow.consumed_offset
}

/// The listed streams that hold something back, in order.
pub open spec fn backlog_of(keys: Seq<u64>, m: Map<u64, ClientStream>) -> Seq<ClientBacklogSummary>
    decreases keys.len(),
{
    if keys.len() == 0 {
        Seq::empty()
    } else {
        let k = keys.last();
        backlog_of(keys.drop_last(), m) + if has_backlog(m[k]) {
            seq![ClientBacklogSummary { stream_id: k, stream: m[k] }]
        } else {
            Seq::empty()
        }
    }
}

proof fn lemma_backlog_prefix(keys: Seq<u64>, m: Map<u64, ClientStream>, i: int, j: int)
    requires
        0 <= i <= j <= keys.len(),
    ensures
        backlog_of(keys.take(i), m).len() <= backlog_of(keys.take(j), m).len(),
        backlog_of(keys.take(j), m).take(backlog_of(keys.take(i), m).len() as int) == backlog_of(keys.take(i), m),
    decreases j - i,
{
    if i < j {
        lemma_backlog_prefix(keys, m, i, j - 1);
        assert(keys.take(j).drop_last() =~= keys.take(j - 1));
        let a = backlog_of(keys.take(i), m);
        let b = backlog_of(keys.take(j - 1), m);
        let c = backlog_of(keys.take(j), m);
        assert(c.take(b.len() as int) =~= b);
        assert(c.take(a.len() as int) =~= b.take(a.len() as int));
    } else {
        let a = backlog_of(keys.take(i), m);
        assert(a.take(a.len() as int) =~= a);
    }
}

impl ClientState {
    /// The streams that hold something back, in table order, at most `limit`
    /// of them (at least one is reported when any exists).
    pub fn stream_backlog_summaries(&self, limit: usize) -> (r: Vec<ClientBacklogSummary>)
        requires
            self.wf(),
        ensures
            ({
                let all = backlog_of(self.streams.keys_seq(), self.streams@);
                let cap: int = if limit == 0 { 1 } else { limit as int };
                r@ == all.take(if all.len() < cap { all.len() as int } else { cap })
            }),
    {
        let ghost keys = self.streams.keys_seq();
        let ghost m = self.streams@;
        let ghost cap: int = if limit == 0 { 1 } else { limit as int };
        proof {
            self.streams.lemma_keys();
        }
        let mut out: Vec<ClientBacklogSummary> = Vec::new();
        let n = self.streams.len();
        let mut i: usize = 0;
        assert(keys.take(0) =~= Seq::<u64>::empty());
        while i < n
            invariant
                n == keys.len(),
                i <= n,
                keys == self.streams.keys_seq(),
                m == self.streams@,
                self.wf(),
                forall|j: int| 0 <= j < n ==> m.contains_key(#[trigger] keys[j]),
                out@ == backlog_of(keys.take(i as int), m),
                cap == if limit == 0 { 1 } else { limit as int },
                out@.len() < cap,
            decreases n - i,
        {
            let k = self.streams.key_at(i);
            let s = *self.streams.get(k).unwrap();
            proof {
                assert(keys.take(i as int + 1).drop_last() =~= keys.take(i as int));
                assert(keys.take(i as int + 1).last() == k);
            }
            let held = s.flow.queued_bytes > 0 || !matches!(s.recv_state, StreamRecvState::Open)
                || !matches!(s.send_state, StreamSendState::Open) || s.flow.discarding
                || s.flow.rx_bytes > s.flow.consumed_offset;
            if held {
                out.push(ClientBacklogSummary { stream_id: k, stream: s });
            }
            assert(out@ =~= backlog_of(keys.take(i as int + 1), m));
            i = i + 1;
            if held && out.len() >= limit {
                proof {
                    lemma_backlog_prefix(keys, m, i as int, n as int);
                    assert(keys.take(n as int) =~= keys);
                }
                return out;
            }
        }
        assert(keys.take(n as int) =~= keys);
        out
    }
}

} // verus!
