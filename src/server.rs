//! Server-side stream engine for one QUIC connection: streams are created on
//! their first bytes, buffer what arrives until the target connection is
//! attached, and then relay in order.

use crate::client::ErrorCode;
use crate::flow::{
    advance_of, conn_reserve_bytes, drain_state, fin_state, handle_stream_receive,
    handle_write_drained, promote_state, promote_stream, promote_target, receive_outcome, receive_state,
    record_peer_fin, sat_sub, target_spec, FlowControlState, ReceiveOutcome, StreamReceiveConfig,
    CONN_RESERVE_BYTES,
};
use crate::table::StreamTable;
use vstd::prelude::*;

verus! {

/// One stream relayed toward the target.
pub struct ServerStream {
    /// The target writer is attached.
    pub writer_attached: bool,
    /// The target reader is attached.
    pub data_rx_attached: bool,
    /// The flag through which the target reader signals pending sends is attached.
    pub send_pending_attached: bool,
    /// Bytes read from the target that did not fit the last send window.
    pub send_stash: Vec<u8>,
    pub tx_bytes: u64,
    /// A fin toward the peer is owed once the stash is flushed.
    pub target_fin_pending: bool,
    /// The stream goes away once that fin is sent.
    pub close_after_flush: bool,
    /// Chunks received before the target writer was attached, oldest first.
    pub pending_data: Vec<Vec<u8>>,
    /// The peer's fin arrived before it could be handed to the target.
    pub pending_fin: bool,
    /// The peer's fin was handed to the target.
    pub fin_enqueued: bool,
    pub flow: FlowControlState,
    /// Every byte accepted for the target, in arrival order.
    pub received: Ghost<Seq<u8>>,
    /// Every byte handed to the target writer, in order.
    pub written: Ghost<Seq<u8>>,
}

/// The streams of one QUIC connection.
pub struct ServerConnection {
    pub streams: StreamTable<ServerStream>,
    /// The connection has hosted more than one stream at once.
    pub multi_stream: bool,
}

/// An effect the server loop performs on behalf of the engine.
#[derive(Debug)]
pub enum ServerAction {
    /// Dial the target for a new stream.
    Connect { stream_id: u64 },
    /// Hand bytes to the target writer.
    Write { stream_id: u64, data: Vec<u8> },
    /// Shut down the target writer.
    WriteFin { stream_id: u64 },
    /// Detach the target and signal its tasks to shut down.
    DropTarget { stream_id: u64 },
    /// Ask the peer to stop sending.
    StopSending { stream_id: u64 },
    /// Tell the QUIC layer it may release the stream up to `offset`.
    Consume { stream_id: u64, offset: u64 },
    /// Signal the stream's tasks to shut down; the stream is gone.
    Shutdown { stream_id: u64 },
    /// Abort both directions of the stream.
    Abort { stream_id: u64, code: ErrorCode },
    /// Reset the stream toward the peer.
    ResetStream { stream_id: u64, code: ErrorCode },
}

/// What an action does, with the bytes of a write as a sequence.
pub enum ActionView {
    Connect { stream_id: u64 },
    Write { stream_id: u64, data: Seq<u8> },
    WriteFin { stream_id: u64 },
    DropTarget { stream_id: u64 },
    StopSending { stream_id: u64 },
    Consume { stream_id: u64, offset: u64 },
    Shutdown { stream_id: u64 },
    Abort { stream_id: u64, code: ErrorCode },
    ResetStream { stream_id: u64, code: ErrorCode },
}

impl View for ServerAction {
    type V = ActionView;

    open spec fn view(&self) -> ActionView {
        match *self {
            ServerAction::Connect { stream_id } => ActionView::Connect { stream_id },
            ServerAction::Write { stream_id, data } => ActionView::Write { stream_id, data: data@ },
            ServerAction::WriteFin { stream_id } => ActionView::WriteFin { stream_id },
            ServerAction::DropTarget { stream_id } => ActionView::DropTarget { stream_id },
            ServerAction::StopSending { stream_id } => ActionView::StopSending { stream_id },
            ServerAction::Consume { stream_id, offset } => ActionView::Consume { stream_id, offset },
            ServerAction::Shutdown { stream_id } => ActionView::Shutdown { stream_id },
            ServerAction::Abort { stream_id, code } => ActionView::Abort { stream_id, code },
            ServerAction::ResetStream { stream_id, code } => ActionView::ResetStream { stream_id, code },
        }
    }
}

/// The views of a sequence of actions.
pub open spec fn views(acts: Seq<ServerAction>) -> Seq<ActionView> {
    acts.map_values(|a: ServerAction| a@)
}

/// Receive accounting of a stream on which nothing has arrived.
pub open spec fn fresh_flow() -> FlowControlState {
    FlowControlState {
        rx_bytes: 0,
        consumed_offset: 0,
        queued_bytes: 0,
        fin_offset: None,
        discarding: false,
        stop_sending_sent: false,
    }
}

pub open spec fn consume_views(stream_id: u64, c: Option<u64>) -> Seq<ActionView> {
    match c {
        Some(offset) => seq![ActionView::Consume { stream_id, offset }],
        None => Seq::empty(),
    }
}

/// Whether a stream with accounting `f` stays after `data` (and possibly a
/// fin) arrived: the received total fits, and a fin does not meet a
/// discarding stream.
pub open spec fn stream_kept(f: FlowControlState, data: Seq<u8>, fin: bool, cfg: StreamReceiveConfig) -> bool {
    &&& f.rx_bytes + data.len() <= u64::MAX
    &&& !(fin && receive_state(f, data.len() as u64, cfg).discarding)
}

/// The effects, in order, of `data` (and possibly a fin) arriving on a stream
/// with accounting `f`, whose target writer is `attached`, whose fin was
/// already handed on when `fin_enqueued`, and whose buffer is empty when
/// `pending_empty`.
pub open spec fn stream_effects(
    stream_id: u64,
    f: FlowControlState,
    attached: bool,
    fin_enqueued: bool,
    pending_empty: bool,
    data: Seq<u8>,
    fin: bool,
    cfg: StreamReceiveConfig,
) -> Seq<ActionView> {
    let len = data.len() as u64;
    if f.rx_bytes + data.len() > u64::MAX {
        seq![ActionView::Shutdown { stream_id }, ActionView::Abort { stream_id, code: ErrorCode::Internal }]
    } else {
        let out = receive_outcome(f, len, cfg);
        let f1 = receive_state(f, len, cfg);
        let recv = match out {
            ReceiveOutcome::Buffered { consume_to } => (if data.len() > 0 && attached {
                seq![ActionView::Write { stream_id, data }]
            } else {
                Seq::empty()
            }) + consume_views(stream_id, consume_to),
            ReceiveOutcome::Overflow { stop_sending, consume_to } => seq![ActionView::DropTarget { stream_id }] + (if stop_sending {
                seq![ActionView::StopSending { stream_id }]
            } else {
                Seq::empty()
            }) + consume_views(stream_id, consume_to),
            ReceiveOutcome::Discarded { consume_to } => consume_views(stream_id, consume_to),
        };
        let attached_after = attached && !(out is Overflow);
        let pending_empty_after = if out is Overflow {
            true
        } else if out is Buffered && data.len() > 0 && !attached {
            false
        } else {
            pending_empty
        };
        let fin_part = if !fin {
            Seq::empty()
        } else if f1.discarding {
            seq![ActionView::Shutdown { stream_id }]
        } else if !fin_enqueued && attached_after && pending_empty_after {
            seq![ActionView::WriteFin { stream_id }]
        } else {
            Seq::empty()
        };
        recv + fin_part
    }
}

/// How a kept stream `s2` relates to the stream `s0` it was before `data`
/// (and possibly a fin) arrived.
pub open spec fn stream_after(s0: ServerStream, s2: ServerStream, data: Seq<u8>, fin: bool, cfg: StreamReceiveConfig) -> bool {
    let len = data.len() as u64;
    let out = receive_outcome(s0.flow, len, cfg);
    let f1 = receive_state(s0.flow, len, cfg);
    let to_pending = out is Buffered && data.len() > 0 && !s0.writer_attached;
    &&& s2.flow == if fin { fin_state(f1) } else { f1 }
    &&& out is Overflow ==> target_dropped(s2) && s2.tx_bytes == s0.tx_bytes
    &&& !(out is Overflow) ==> {
        &&& s2.writer_attached == s0.writer_attached
        &&& s2.data_rx_attached == s0.data_rx_attached
        &&& s2.send_pending_attached == s0.send_pending_attached
        &&& s2.send_stash == s0.send_stash
        &&& s2.target_fin_pending == s0.target_fin_pending
        &&& s2.close_after_flush == s0.close_after_flush
        &&& s2.tx_bytes == s0.tx_bytes
    }
    &&& to_pending ==> {
        &&& s2.pending_data@.len() == s0.pending_data@.len() + 1
        &&& s2.pending_data@.take(s0.pending_data@.len() as int) == s0.pending_data@
        &&& s2.pending_data@.last()@ == data
    }
    &&& !(out is Overflow) && !to_pending ==> s2.pending_data@ == s0.pending_data@
    &&& !(out is Overflow) && !fin ==> s2.fin_enqueued == s0.fin_enqueued && s2.pending_fin == s0.pending_fin
    &&& !(out is Overflow) && fin && s0.fin_enqueued ==> s2.fin_enqueued && s2.pending_fin == s0.pending_fin
    &&& !(out is Overflow) && fin && !s0.fin_enqueued ==> {
        &&& s2.fin_enqueued == (s2.writer_attached && s2.pending_data@.len() == 0)
        &&& s2.pending_fin == !s2.fin_enqueued
    }
    &&& out is Buffered ==> s2.received@ == s0.received@ + data
    &&& out is Buffered && s0.writer_attached ==> s2.written@ == s0.written@ + data
    &&& !(out is Buffered && s0.writer_attached) ==> s2.written@ == s0.written@
    &&& !(out is Buffered) ==> s2.received@ == s0.received@
}

pub open spec fn chunks_of(v: Seq<Vec<u8>>) -> Seq<Seq<u8>> {
    v.map_values(|c: Vec<u8>| c@)
}

/// The bytes written by a sequence of actions, in order.
pub open spec fn written_by(acts: Seq<ServerAction>) -> Seq<u8>
    decreases acts.len(),
{
    if acts.len() == 0 {
        Seq::empty()
    } else {
        written_by(acts.drop_last()) + match acts.last() {
            ServerAction::Write { data, .. } => data@,
            _ => Seq::empty(),
        }
    }
}

impl ServerStream {
    /// Bytes buffered before the target writer attached, in order.
    pub open spec fn pending_bytes(&self) -> Seq<u8> {
        chunks_of(self.pending_data@).flatten()
    }

    /// Relay order: what was written followed by what waits is exactly what
    /// was accepted, and nothing waits once the writer is attached.
    pub open spec fn ordered(&self) -> bool {
        &&& !self.flow.discarding ==> self.written@ + self.pending_bytes() == self.received@
        &&& self.writer_attached ==> self.pending_data@.len() == 0
    }

    pub open spec fn wf(&self) -> bool {
        &&& self.flow.wf()
        &&& self.ordered()
        &&& self.close_after_flush ==> self.target_fin_pending
        &&& !(self.pending_fin && self.fin_enqueued)
    }

    /// A stream as created by its first bytes.
    pub open spec fn is_fresh(&self) -> bool {
        &&& !self.writer_attached
        &&& !self.data_rx_attached
        &&& !self.send_pending_attached
        &&& self.send_stash@.len() == 0
        &&& self.tx_bytes == 0
        &&& !self.target_fin_pending
        &&& !self.close_after_flush
        &&& self.pending_data@.len() == 0
        &&& !self.pending_fin
        &&& !self.fin_enqueued
        &&& self.flow == fresh_flow()
        &&& self.received@.len() == 0
        &&& self.written@.len() == 0
    }

    /// A stream created by its first bytes: nothing attached yet.
    pub fn new() -> (r: ServerStream)
        ensures
            r.wf(),
            r.is_fresh(),
            !r.writer_attached,
            !r.data_rx_attached,
            !r.send_pending_attached,
            r.send_stash@.len() == 0,
            r.tx_bytes == 0,
            !r.target_fin_pending,
            !r.close_after_flush,
            r.pending_data@.len() == 0,
            !r.pending_fin,
            !r.fin_enqueued,
            r.flow == (FlowControlState {
                rx_bytes: 0,
                consumed_offset: 0,
                queued_bytes: 0,
                fin_offset: None,
                discarding: false,
                stop_sending_sent: false,
            }),
            r.received@.len() == 0,
            r.written@.len() == 0,
    {
        let r = ServerStream {
            writer_attached: false,
            data_rx_attached: false,
            send_pending_attached: false,
            send_stash: Vec::new(),
            tx_bytes: 0,
            target_fin_pending: false,
            close_after_flush: false,
            pending_data: Vec::new(),
            pending_fin: false,
            fin_enqueued: false,
            flow: FlowControlState::new(),
            received: Ghost(Seq::empty()),
            written: Ghost(Seq::empty()),
        };
        assert(chunks_of(r.pending_data@) =~= Seq::<Seq<u8>>::empty());
        assert(r.written@ + r.pending_bytes() =~= r.received@);
        r
    }
}

impl ServerConnection {
    /// A connection with no streams yet.
    pub fn new() -> (r: ServerConnection)
        ensures
            r.wf(),
            r.streams@ =~= Map::<u64, ServerStream>::empty(),
            !r.multi_stream,
    {
        ServerConnection { streams: StreamTable::new(), multi_stream: false }
    }

    pub open spec fn wf(&self) -> bool {
        &&& self.streams.wf()
        &&& forall|k: u64| #[trigger] self.streams@.contains_key(k) ==> self.streams@[k].wf()
    }

    /// The release configuration of the current mode.
    pub open spec fn cfg(&self) -> StreamReceiveConfig {
        StreamReceiveConfig {
            multi_stream: self.multi_stream,
            reserve_bytes: if self.multi_stream { 0 } else { CONN_RESERVE_BYTES },
        }
    }

    fn receive_config(&self) -> (r: StreamReceiveConfig)
        ensures
            r == self.cfg(),
    {
        StreamReceiveConfig::new(self.multi_stream, conn_reserve_bytes())
    }

    pub fn streams_len(&self) -> (r: usize)
        ensures
            r == self.streams.size(),
    {
        self.streams.len()
    }

    /// Switches the connection to per-stream release when it hosts more than
    /// one stream; says whether it switched just now.
    pub fn mark_multi_stream(&mut self) -> (r: bool)
        requires
            old(self).wf(),
        ensures
            final(self).wf(),
            final(self).streams == old(self).streams,
            r == (!old(self).multi_stream && old(self).streams.size() > 1),
            final(self).multi_stream == (old(self).multi_stream || r),
    {
        if self.multi_stream {
            return false;
        }
        if self.streams.len() > 1 {
            self.multi_stream = true;
            true
        } else {
            false
        }
    }
}

proof fn lemma_pending_push(s: Seq<Vec<u8>>, c: Vec<u8>)
    ensures
        chunks_of(s.push(c)).flatten() == chunks_of(s).flatten() + c@,
{
    assert(chunks_of(s.push(c)) =~= chunks_of(s).push(c@));
    chunks_of(s).lemma_flatten_push(c@);
}

proof fn lemma_pending_front(s: Seq<Vec<u8>>)
    requires
        s.len() > 0,
    ensures
        chunks_of(s).flatten() == s[0]@ + chunks_of(s.subrange(1, s.len() as int)).flatten(),
{
    assert(chunks_of(s).drop_first() =~= chunks_of(s.subrange(1, s.len() as int)));
}

proof fn lemma_written_push(acts: Seq<ServerAction>, a: ServerAction)
    ensures
        written_by(acts.push(a)) == written_by(acts) + match a {
            ServerAction::Write { data, .. } => data@,
            _ => Seq::empty(),
        },
{
    assert(acts.push(a).drop_last() =~= acts);
}

} // verus!

verus! {

pub open spec fn consume_actions(stream_id: u64, c: Option<u64>) -> Seq<ServerAction> {
    match c {
        Some(offset) => seq![ServerAction::Consume { stream_id, offset }],
        None => Seq::empty(),
    }
}

pub open spec fn promote_consume(f: FlowControlState) -> Option<u64> {
    if f.discarding { None } else { advance_of(f, promote_target(f)) }
}

pub open spec fn promoted(s: ServerStream) -> ServerStream {
    ServerStream { flow: promote_state(s.flow), ..s }
}

/// The releases announced when the streams listed in `keys` are promoted.
pub open spec fn promote_actions(keys: Seq<u64>, m: Map<u64, ServerStream>) -> Seq<ServerAction>
    decreases keys.len(),
{
    if keys.len() == 0 {
        Seq::empty()
    } else {
        promote_actions(keys.drop_last(), m) + consume_actions(keys.last(), promote_consume(m[keys.last()].flow))
    }
}

/// The stream after its target was dropped on overflow.
pub open spec fn target_dropped(s: ServerStream) -> bool {
    &&& s.pending_data@.len() == 0
    &&& !s.pending_fin
    &&& !s.fin_enqueued
    &&& !s.writer_attached
    &&& !s.data_rx_attached
    &&& !s.send_pending_attached
    &&& s.send_stash@.len() == 0
    &&& !s.target_fin_pending
    &&& !s.close_after_flush
}

fn push_consume(actions: &mut Vec<ServerAction>, stream_id: u64, c: Option<u64>)
    ensures
        final(actions)@ == old(actions)@ + consume_actions(stream_id, c),
        written_by(final(actions)@) == written_by(old(actions)@),
{
    match c {
        Some(offset) => {
            proof {
                lemma_written_push(actions@, ServerAction::Consume { stream_id, offset });
            }
            actions.push(ServerAction::Consume { stream_id, offset });
            assert(final(actions)@ =~= old(actions)@ + consume_actions(stream_id, c));
        },
        None => {
            assert(old(actions)@ + consume_actions(stream_id, c) =~= old(actions)@);
        },
    }
}

fn push_plain(actions: &mut Vec<ServerAction>, a: ServerAction)
    requires
        !(a is Write),
    ensures
        final(actions)@ == old(actions)@.push(a),
        written_by(final(actions)@) == written_by(old(actions)@),
{
    proof {
        lemma_written_push(actions@, a);
    }
    actions.push(a);
}

fn drop_target(s: &mut ServerStream)
    ensures
        target_dropped(*final(s)),
        final(s).flow == old(s).flow,
        final(s).tx_bytes == old(s).tx_bytes,
        final(s).received == old(s).received,
        final(s).written == old(s).written,
{
    s.pending_data = Vec::new();
    s.pending_fin = false;
    s.fin_enqueued = false;
    s.writer_attached = false;
    s.data_rx_attached = false;
    s.send_pending_attached = false;
    s.send_stash = Vec::new();
    s.target_fin_pending = false;
    s.close_after_flush = false;
}

impl ServerConnection {
    /// Re-announces every stream's release point with the per-stream formula.
    pub fn promote_streams(&mut self) -> (r: Vec<ServerAction>)
        requires
            old(self).wf(),
        ensures
            final(self).wf(),
            final(self).multi_stream == old(self).multi_stream,
            forall|k: u64| #[trigger] final(self).streams@.contains_key(k) == old(self).streams@.contains_key(k),
            forall|k: u64| #[trigger] old(self).streams@.contains_key(k) ==> final(self).streams@[k] == promoted(old(self).streams@[k]),
            r@ == promote_actions(old(self).streams.keys_seq(), old(self).streams@),
            written_by(r@) == Seq::<u8>::empty(),
    {
        let ghost m0 = self.streams@;
        proof {
            self.streams.lemma_keys();
        }
        let keys = self.streams.keys();
        let mut actions: Vec<ServerAction> = Vec::new();
        let mut i: usize = 0;
        while i < keys.len()
            invariant
                i <= keys@.len(),
                keys@ == old(self).streams.keys_seq(),
                self.wf(),
                self.multi_stream == old(self).multi_stream,
                forall|j: int| 0 <= j < keys@.len() ==> m0.contains_key(#[trigger] keys@[j]),
                forall|a: int, b: int| 0 <= a < keys@.len() && 0 <= b < keys@.len() && a != b ==> keys@[a] != keys@[b],
                forall|k: u64| #[trigger] self.streams@.contains_key(k) == m0.contains_key(k),
                forall|j: int| 0 <= j < i ==> self.streams@[#[trigger] keys@[j]] == promoted(m0[keys@[j]]),
                forall|j: int| i <= j < keys@.len() ==> self.streams@[#[trigger] keys@[j]] == m0[keys@[j]],
                actions@ == promote_actions(keys@.take(i as int), m0),
                written_by(actions@) == Seq::<u8>::empty(),
            decreases keys@.len() - i,
        {
            let k = keys[i];
            let mut s = self.streams.remove(k).unwrap();
            let c = promote_stream(&mut s.flow);
            self.streams.insert(k, s);
            push_consume(&mut actions, k, c);
            assert(keys@.take(i as int + 1).drop_last() =~= keys@.take(i as int));
            i = i + 1;
        }
        assert(keys@.take(keys@.len() as int) =~= keys@);
        proof {
            assert forall|k: u64| #[trigger] old(self).streams@.contains_key(k) implies self.streams@[k] == promoted(m0[k]) by {
                let j = choose|j: int| 0 <= j < keys@.len() && keys@[j] == k;
                assert(self.streams@[keys@[j]] == promoted(m0[keys@[j]]));
            }
        }
        actions
    }
}

/// Bytes (and possibly the peer's fin) arrived on a stream of the connection.
///
/// A stream is created, and its target dialled, on its first bytes. The second
/// stream switches the connection to per-stream release. Bytes go to the
/// target writer once attached and are buffered in order until then; on
/// overflow the target is dropped. A fin is handed on once everything before
/// it is, or remembered; on a discarding stream the fin removes the stream.
pub fn handle_stream_data(conn: &mut ServerConnection, stream_id: u64, fin: bool, data: &[u8]) -> (r: Vec<ServerAction>)
    requires
        old(conn).wf(),
    ensures
        final(conn).wf(),
        ({
            let m0 = old(conn).streams@;
            let existed = m0.contains_key(stream_id);
            let size_after = old(conn).streams.size() + if existed { 0nat } else { 1nat };
            let switched = !old(conn).multi_stream && size_after > 1;
            let start = if switched { promoted(m0[stream_id]) } else { m0[stream_id] };
            let start_flow = if existed { start.flow } else { fresh_flow() };
            let cfg = final(conn).cfg();
            &&& final(conn).multi_stream == (old(conn).multi_stream || switched)
            &&& forall|k: u64| k != stream_id && #[trigger] m0.contains_key(k) ==> final(conn).streams@[k] == if switched {
                promoted(m0[k])
            } else {
                m0[k]
            }
            &&& views(r@) == (if existed { Seq::empty() } else { seq![ActionView::Connect { stream_id }] }) + (if switched {
                views(promote_actions(old(conn).streams.keys_seq(), m0))
            } else {
                Seq::empty()
            }) + stream_effects(
                stream_id,
                start_flow,
                existed && start.writer_attached,
                existed && start.fin_enqueued,
                !existed || start.pending_data@.len() == 0,
                data@,
                fin,
                cfg,
            )
            &&& final(conn).streams@.contains_key(stream_id) == stream_kept(start_flow, data@, fin, cfg)
            &&& existed && final(conn).streams@.contains_key(stream_id) ==> stream_after(
                start,
                final(conn).streams@[stream_id],
                data@,
                fin,
                cfg,
            )
            &&& !existed && final(conn).streams@.contains_key(stream_id) ==> exists|s0: ServerStream|
                s0.is_fresh() && #[trigger] stream_after(s0, final(conn).streams@[stream_id], data@, fin, cfg)
        }),
        !old(conn).streams@.contains_key(stream_id) ==> r@.len() > 0 && r@[0] == (ServerAction::Connect { stream_id }),
        forall|k: u64| k != stream_id ==> #[trigger] final(conn).streams@.contains_key(k) == old(conn).streams@.contains_key(k),
        final(conn).streams@.contains_key(stream_id) ==> {
            let s = final(conn).streams@[stream_id];
            &&& !s.flow.discarding ==> s.written@ + s.pending_bytes() == s.received@
        },
        old(conn).streams@.contains_key(stream_id) && final(conn).streams@.contains_key(stream_id) ==> {
            let s0 = old(conn).streams@[stream_id];
            let s = final(conn).streams@[stream_id];
            &&& s.written@ == s0.written@ + written_by(r@)
            &&& s.received@ == s0.received@ || (s.received@ == s0.received@ + data@ && !s.flow.discarding)
            &&& s.flow.rx_bytes == s0.flow.rx_bytes + data@.len()
            &&& s.flow.consumed_offset >= s0.flow.consumed_offset
            &&& !s0.flow.discarding && !overflows_after(s0.flow, data@.len()) ==> s.received@ == s0.received@ + data@
            &&& !s0.flow.discarding && overflows_after(s0.flow, data@.len()) ==> s.flow.discarding && target_dropped(s)
            &&& fin ==> s.flow.fin_offset is Some && !s.flow.discarding
            &&& fin && !s0.fin_enqueued ==> (s.fin_enqueued <==> (s.writer_attached && s.pending_data@.len() == 0))
            &&& fin && !s0.fin_enqueued ==> (s.pending_fin <==> !s.fin_enqueued)
        },
        old(conn).streams@.contains_key(stream_id) && fin && old(conn).streams@[stream_id].flow.discarding
            ==> !final(conn).streams@.contains_key(stream_id),
        !old(conn).streams@.contains_key(stream_id) && data@.len() <= crate::flow::MAX_QUEUED_BYTES ==> {
            let s = final(conn).streams@[stream_id];
            &&& final(conn).streams@.contains_key(stream_id)
            &&& !s.flow.discarding
            &&& !s.writer_attached && !s.data_rx_attached && !s.send_pending_attached
            &&& s.send_stash@.len() == 0 && !s.target_fin_pending && !s.close_after_flush
            &&& s.tx_bytes == 0
            &&& s.received@ == data@
            &&& s.written@.len() == 0
            &&& s.flow.rx_bytes == data@.len()
            &&& s.flow.queued_bytes == data@.len()
            &&& fin ==> s.pending_fin && !s.fin_enqueued && s.flow.fin_offset == Some(data@.len() as u64)
        },
        old(conn).streams@.contains_key(stream_id) && !old(conn).streams@[stream_id].flow.discarding
            && !overflows_after(old(conn).streams@[stream_id].flow, data@.len())
            && old(conn).streams@[stream_id].flow.rx_bytes + data@.len() <= u64::MAX
            ==> final(conn).streams@.contains_key(stream_id),
{
    let mut actions: Vec<ServerAction> = Vec::new();
    let ghost m0 = conn.streams@;
    let ghost keys0 = conn.streams.keys_seq();
    if !conn.streams.contains(stream_id) {
        conn.streams.insert(stream_id, ServerStream::new());
        push_plain(&mut actions, ServerAction::Connect { stream_id });
    }
    let ghost mid_keys = conn.streams.keys_seq();
    let ghost prefix = views(actions@);
    assert(prefix =~= (if m0.contains_key(stream_id) { Seq::empty() } else { seq![ActionView::Connect { stream_id }] }));
    assert(written_by(actions@) == Seq::<u8>::empty()) by {
        if actions@.len() > 0 {
            lemma_written_push(Seq::empty(), ServerAction::Connect { stream_id });
            assert(actions@ =~= Seq::<ServerAction>::empty().push(ServerAction::Connect { stream_id }));
        }
    }
    let ghost mid = conn.streams@;
    assert(forall|k: u64| k != stream_id && #[trigger] old(conn).streams@.contains_key(k) ==> mid.contains_key(k)
        && mid[k] == old(conn).streams@[k]);
    let switched = conn.mark_multi_stream();
    if switched {
        let ghost mid2 = conn.streams@;
        let mut promoted_actions = conn.promote_streams();
        proof {
            lemma_written_append(actions@, promoted_actions@);
            lemma_views_append(actions@, promoted_actions@);
            if !m0.contains_key(stream_id) {
                assert(mid_keys == keys0.push(stream_id));
                assert(mid_keys.drop_last() =~= keys0);
                old(conn).streams.lemma_keys();
                assert forall|i: int| 0 <= i < keys0.len() implies mid2[#[trigger] keys0[i]].flow == m0[keys0[i]].flow by {
                    assert(m0.contains_key(keys0[i]));
                    assert(keys0[i] != stream_id);
                }
                lemma_promote_actions_agree(keys0, mid2, m0);
                assert(promote_consume(mid2[stream_id].flow) is None);
                assert(promote_actions(mid_keys, mid2) =~= promote_actions(keys0, m0));
            } else {
                assert(mid2 == m0);
            }
        }
        actions.append(&mut promoted_actions);
    }
    let ghost prefix2 = views(actions@);
    assert(forall|k: u64| k != stream_id && #[trigger] old(conn).streams@.contains_key(k) ==> conn.streams@[k]
        == old(conn).streams@[k] || (conn.multi_stream && !old(conn).multi_stream
        && conn.streams@[k] == promoted(old(conn).streams@[k])));
    let cfg = conn.receive_config();
    let mut s = conn.streams.remove(stream_id).unwrap();
    let ghost start = s;
    let (keep, mut stream_actions) = stream_receive(&mut s, stream_id, fin, data, cfg);
    proof {
        lemma_written_append(actions@, stream_actions@);
        lemma_views_append(actions@, stream_actions@);
        if !m0.contains_key(stream_id) && keep {
            assert(start.is_fresh());
            assert(stream_after(start, s, data@, fin, cfg));
        }
    }
    actions.append(&mut stream_actions);
    if keep {
        conn.streams.insert(stream_id, s);
    }
    proof {
        let existed = m0.contains_key(stream_id);
        let size_after = old(conn).streams.size() + if existed { 0nat } else { 1nat };
        let sw = !old(conn).multi_stream && size_after > 1;
        assert(sw == switched);
        assert(conn.multi_stream == (old(conn).multi_stream || sw));
        let st = if sw { promoted(m0[stream_id]) } else { m0[stream_id] };
        assert(existed ==> st == start);
        let start_flow = if existed { st.flow } else { fresh_flow() };
        assert(start_flow == start.flow);
        assert(conn.streams@.contains_key(stream_id) == stream_kept(start_flow, data@, fin, conn.cfg()));
        assert(views(actions@) == prefix + (if sw { views(promote_actions(keys0, m0)) } else { Seq::empty() }) + stream_effects(
                stream_id, start_flow, existed && st.writer_attached, existed && st.fin_enqueued,
                !existed || st.pending_data@.len() == 0, data@, fin, conn.cfg()));
    }
    actions
}

/// The part of [`handle_stream_data`] that concerns the stream itself; says
/// whether the stream stays.
fn stream_receive(s: &mut ServerStream, stream_id: u64, fin: bool, data: &[u8], cfg: StreamReceiveConfig) -> (r: (bool, Vec<ServerAction>))
    requires
        old(s).wf(),
    ensures
        r.0 ==> final(s).wf(),
        r.0 ==> {
            let s0 = *old(s);
            let s = *final(s);
            &&& s.written@ == s0.written@ + written_by(r.1@)
            &&& s.received@ == s0.received@ || (s.received@ == s0.received@ + data@ && !s.flow.discarding)
            &&& s.flow.rx_bytes == s0.flow.rx_bytes + data@.len()
            &&& s.flow.consumed_offset >= s0.flow.consumed_offset
            &&& !s0.flow.discarding && !overflows_after(s0.flow, data@.len()) ==> s.received@ == s0.received@ + data@
            &&& !s0.flow.discarding && overflows_after(s0.flow, data@.len()) ==> s.flow.discarding && target_dropped(s)
            &&& fin ==> s.flow.fin_offset is Some && !s.flow.discarding
            &&& fin && !s0.fin_enqueued ==> (s.fin_enqueued <==> (s.writer_attached && s.pending_data@.len() == 0))
            &&& fin && !s0.fin_enqueued ==> (s.pending_fin <==> !s.fin_enqueued)
        },
        fin && old(s).flow.discarding ==> !r.0,
        !old(s).flow.discarding && !overflows_after(old(s).flow, data@.len())
            && old(s).flow.rx_bytes + data@.len() <= u64::MAX ==> r.0,
        r.0 ==> final(s).flow == if fin {
            fin_state(receive_state(old(s).flow, data@.len() as u64, cfg))
        } else {
            receive_state(old(s).flow, data@.len() as u64, cfg)
        },
        r.0 && !old(s).writer_attached ==> final(s).written@ == old(s).written@,
        views(r.1@) == stream_effects(
            stream_id,
            old(s).flow,
            old(s).writer_attached,
            old(s).fin_enqueued,
            old(s).pending_data@.len() == 0,
            data@,
            fin,
            cfg,
        ),
        r.0 == stream_kept(old(s).flow, data@, fin, cfg),
        r.0 ==> stream_after(*old(s), *final(s), data@, fin, cfg),
        r.0 && !final(s).flow.discarding ==> final(s).writer_attached == old(s).writer_attached
            && final(s).tx_bytes == old(s).tx_bytes && final(s).send_stash == old(s).send_stash
            && final(s).target_fin_pending == old(s).target_fin_pending
            && final(s).close_after_flush == old(s).close_after_flush
            && final(s).data_rx_attached == old(s).data_rx_attached
            && final(s).send_pending_attached == old(s).send_pending_attached,
{
    let mut actions: Vec<ServerAction> = Vec::new();
    assert(written_by(actions@) =~= Seq::<u8>::empty());
    let ghost s0 = *s;
    let len = data.len() as u64;
    if s.flow.rx_bytes > u64::MAX - len {
        push_plain(&mut actions, ServerAction::Shutdown { stream_id });
        push_plain(&mut actions, ServerAction::Abort { stream_id, code: ErrorCode::Internal });
        return (false, actions);
    }
    let out = handle_stream_receive(&mut s.flow, len, cfg);
    match out {
        ReceiveOutcome::Buffered { consume_to } => {
            if len > 0 {
                let chunk = vstd::slice::slice_to_vec(data);
                proof {
                    s.received@ = s.received@ + data@;
                }
                if s.writer_attached {
                    proof {
                        s.written@ = s.written@ + data@;
                        lemma_written_push(actions@, ServerAction::Write { stream_id, data: chunk });
                        assert(chunks_of(s.pending_data@) =~= Seq::<Seq<u8>>::empty());
                        assert(s.written@ + s.pending_bytes() =~= s.received@);
                    }
                    actions.push(ServerAction::Write { stream_id, data: chunk });
                } else {
                    proof {
                        lemma_pending_push(s.pending_data@, chunk);
                        assert(s0.written@ + (s0.pending_bytes() + data@) =~= s0.received@ + data@);
                    }
                    s.pending_data.push(chunk);
                    assert(s.pending_data@.take(s0.pending_data@.len() as int) =~= s0.pending_data@);
                }
            } else {
                assert(s.received@ + data@ =~= s.received@);
            }
            push_consume(&mut actions, stream_id, consume_to);
        },
        ReceiveOutcome::Overflow { stop_sending, consume_to } => {
            drop_target(s);
            push_plain(&mut actions, ServerAction::DropTarget { stream_id });
            if stop_sending {
                push_plain(&mut actions, ServerAction::StopSending { stream_id });
            }
            push_consume(&mut actions, stream_id, consume_to);
        },
        ReceiveOutcome::Discarded { consume_to } => {
            push_consume(&mut actions, stream_id, consume_to);
        },
    }
    if fin {
        if s.flow.discarding {
            push_plain(&mut actions, ServerAction::Shutdown { stream_id });
            return (false, actions);
        }
        record_peer_fin(&mut s.flow);
        if !s.fin_enqueued {
            if s.writer_attached && s.pending_data.len() == 0 {
                push_plain(&mut actions, ServerAction::WriteFin { stream_id });
                s.fin_enqueued = true;
                s.pending_fin = false;
            } else {
                s.pending_fin = true;
            }
        }
    }
    (true, actions)
}

proof fn lemma_views_append(a: Seq<ServerAction>, b: Seq<ServerAction>)
    ensures
        views(a + b) == views(a) + views(b),
{
    assert(views(a + b) =~= views(a) + views(b));
}

proof fn lemma_promote_actions_agree(keys: Seq<u64>, m1: Map<u64, ServerStream>, m2: Map<u64, ServerStream>)
    requires
        forall|i: int| 0 <= i < keys.len() ==> m1[#[trigger] keys[i]].flow == m2[keys[i]].flow,
    ensures
        promote_actions(keys, m1) == promote_actions(keys, m2),
    decreases keys.len(),
{
    if keys.len() > 0 {
        let d = keys.drop_last();
        assert forall|i: int| 0 <= i < d.len() implies m1[#[trigger] d[i]].flow == m2[d[i]].flow by {
            assert(d[i] == keys[i]);
        }
        lemma_promote_actions_agree(d, m1, m2);
        assert(m1[keys[keys.len() - 1]].flow == m2[keys[keys.len() - 1]].flow);
    }
}

pub open spec fn overflows_after(f: FlowControlState, n: nat) -> bool {
    f.queued_bytes + n > crate::flow::MAX_QUEUED_BYTES
}

proof fn lemma_written_append(a: Seq<ServerAction>, b: Seq<ServerAction>)
    ensures
        written_by(a + b) == written_by(a) + written_by(b),
    decreases b.len(),
{
    if b.len() == 0 {
        assert(a + b =~= a);
        assert(written_by(a) + written_by(b) =~= written_by(a));
    } else {
        lemma_written_append(a, b.drop_last());
        assert((a + b).drop_last() =~= a + b.drop_last());
        assert((a + b).last() == b.last());
        assert(written_by(a) + written_by(b.drop_last()) + match b.last() {
            ServerAction::Write { data, .. } => data@,
            _ => Seq::empty(),
        } =~= written_by(a) + (written_by(b.drop_last()) + match b.last() {
            ServerAction::Write { data, .. } => data@,
            _ => Seq::empty(),
        }));
    }
}

} // verus!

verus! {

/// What the target reader handed over when asked for the next chunk.
#[derive(Debug)]
pub enum TargetRead {
    Data(Vec<u8>),
    Empty,
    Disconnected,
}

/// How to answer the QUIC layer's request for stream data.
#[derive(Debug)]
pub enum SendReply {
    /// Nothing to send now; `still_active` keeps the stream scheduled.
    Idle { still_active: bool },
    /// Send these bytes and stay scheduled.
    Data { data: Vec<u8> },
    /// Send the fin.
    Fin,
}

/// The answer to a send request together with its side effects.
#[derive(Debug)]
pub struct SendDecision {
    pub reply: SendReply,
    /// Clear the target reader's pending-send flag.
    pub clear_pending_flag: bool,
    /// The stream was removed after its last fin.
    pub removed: bool,
    /// A zero-length request found the pending flag set with nothing to send.
    pub suspicious_idle: bool,
}

impl ServerStream {
    pub open spec fn has_stash(&self) -> bool {
        self.send_stash@.len() > 0
    }
}

/// The target connection of a stream is up. A discarding stream only drops
/// what it buffered and tells the target to shut down. Otherwise the target
/// is attached, everything buffered is written to it in arrival order, and a
/// fin that arrived meanwhile follows. An unknown stream is ignored.
pub fn handle_stream_connected(conn: &mut ServerConnection, stream_id: u64) -> (r: Vec<ServerAction>)
    requires
        old(conn).wf(),
    ensures
        final(conn).wf(),
        final(conn).multi_stream == old(conn).multi_stream,
        forall|k: u64| #[trigger] final(conn).streams@.contains_key(k) == old(conn).streams@.contains_key(k),
        forall|k: u64| k != stream_id && #[trigger] old(conn).streams@.contains_key(k) ==> final(conn).streams@[k] == old(conn).streams@[k],
        !old(conn).streams@.contains_key(stream_id) ==> r@.len() == 0,
        old(conn).streams@.contains_key(stream_id) && old(conn).streams@[stream_id].flow.discarding ==> {
            let s = final(conn).streams@[stream_id];
            &&& r@ == seq![ServerAction::DropTarget { stream_id }]
            &&& s.pending_data@.len() == 0 && !s.pending_fin && !s.fin_enqueued
            &&& !s.writer_attached
        },
        old(conn).streams@.contains_key(stream_id) && !old(conn).streams@[stream_id].flow.discarding ==> {
            let s0 = old(conn).streams@[stream_id];
            let s = final(conn).streams@[stream_id];
            &&& s.writer_attached && s.data_rx_attached && s.send_pending_attached
            &&& s.pending_data@.len() == 0
            &&& s.send_stash == s0.send_stash && s.tx_bytes == s0.tx_bytes
            &&& s.target_fin_pending == s0.target_fin_pending && s.close_after_flush == s0.close_after_flush
            &&& written_by(r@) == s0.pending_bytes()
            &&& views(r@) == chunk_writes(stream_id, s0.pending_data@) + (if s0.pending_fin && !s0.fin_enqueued {
                seq![ActionView::WriteFin { stream_id }]
            } else {
                Seq::empty()
            })
            &&& s.written@ == s0.received@
            &&& s.received@ == s0.received@
            &&& s.flow == s0.flow
            &&& (s0.pending_fin && !s0.fin_enqueued) ==> r@.last() == (ServerAction::WriteFin { stream_id }) && s.fin_enqueued && !s.pending_fin
            &&& !(s0.pending_fin && !s0.fin_enqueued) ==> s.fin_enqueued == s0.fin_enqueued && s.pending_fin == s0.pending_fin
        },
{
    let mut actions: Vec<ServerAction> = Vec::new();
    let mut s = match conn.streams.remove(stream_id) {
        Some(v) => v,
        None => {
            return actions;
        },
    };
    if s.flow.discarding {
        s.pending_data = Vec::new();
        s.pending_fin = false;
        s.fin_enqueued = false;
        s.writer_attached = false;
        conn.streams.insert(stream_id, s);
        actions.push(ServerAction::DropTarget { stream_id });
        return actions;
    }
    let ghost s0 = s;
    s.writer_attached = true;
    s.data_rx_attached = true;
    s.send_pending_attached = true;
    let mut chunks: Vec<Vec<u8>> = Vec::new();
    std::mem::swap(&mut chunks, &mut s.pending_data);
    assert(chunks_of(s.pending_data@) =~= Seq::<Seq<u8>>::empty());
    assert(written_by(actions@) =~= Seq::<u8>::empty());
    while chunks.len() > 0
        invariant
            s.written@ + written_by(actions@) + chunks_of(chunks@).flatten() == s0.written@ + s0.pending_bytes(),
            s.written@ == s0.written@,
            written_by(actions@) + chunks_of(chunks@).flatten() == s0.pending_bytes(),
            forall|i: int| 0 <= i < actions@.len() ==> (#[trigger] actions@[i]) is Write,
            actions@.len() <= s0.pending_data@.len(),
            chunks@ == s0.pending_data@.subrange(actions@.len() as int, s0.pending_data@.len() as int),
            views(actions@) == chunk_writes(stream_id, s0.pending_data@.take(actions@.len() as int)),
        decreases chunks@.len(),
    {
        proof {
            lemma_pending_front(chunks@);
        }
        let ghost k = actions@.len();
        let ghost prev = chunks@;
        let chunk = chunks.remove(0);
        proof {
            lemma_written_push(actions@, ServerAction::Write { stream_id, data: chunk });
            assert(chunk == prev[0]);
            assert(prev[0] == s0.pending_data@[k as int]);
            assert(chunk_writes(stream_id, s0.pending_data@.take(k as int + 1)) =~= chunk_writes(
                stream_id,
                s0.pending_data@.take(k as int),
            ).push(ActionView::Write { stream_id, data: chunk@ }));
        }
        let ghost va = views(actions@);
        actions.push(ServerAction::Write { stream_id, data: chunk });
        assert(views(actions@) =~= va.push(ActionView::Write { stream_id, data: chunk@ }));
        assert(chunks@ =~= s0.pending_data@.subrange(actions@.len() as int, s0.pending_data@.len() as int));
        assert(views(actions@) =~= chunk_writes(stream_id, s0.pending_data@.take(actions@.len() as int)));
        assert(written_by(actions@) + chunks_of(chunks@).flatten() =~= s0.pending_bytes());
        assert(s.written@ + written_by(actions@) + chunks_of(chunks@).flatten() =~= s0.written@ + s0.pending_bytes());
    }
    assert(chunks_of(chunks@) =~= Seq::<Seq<u8>>::empty());
    assert(written_by(actions@) =~= s0.pending_bytes());
    assert(s0.pending_data@.take(actions@.len() as int) =~= s0.pending_data@);
    proof {
        s.written@ = s.written@ + written_by(actions@);
        assert(s.written@ + s.pending_bytes() =~= s.received@);
    }
    if s.pending_fin && !s.fin_enqueued {
        push_plain(&mut actions, ServerAction::WriteFin { stream_id });
        s.fin_enqueued = true;
        s.pending_fin = false;
    }
    assert(views(actions@) =~= chunk_writes(stream_id, s0.pending_data@) + (if s0.pending_fin && !s0.fin_enqueued {
        seq![ActionView::WriteFin { stream_id }]
    } else {
        Seq::empty()
    }));
    conn.streams.insert(stream_id, s);
    actions
}

/// One write per chunk, in order.
pub open spec fn chunk_writes(stream_id: u64, chunks: Seq<Vec<u8>>) -> Seq<ActionView> {
    chunks.map_values(|c: Vec<u8>| ActionView::Write { stream_id, data: c@ })
}

/// A failure on the stream (target connect, read or write error, or a failed
/// effect): the stream is shut down and aborted if it existed.
pub fn fail_stream(conn: &mut ServerConnection, stream_id: u64) -> (r: Vec<ServerAction>)
    requires
        old(conn).wf(),
    ensures
        final(conn).wf(),
        final(conn).multi_stream == old(conn).multi_stream,
        final(conn).streams@ == old(conn).streams@.remove(stream_id),
        old(conn).streams@.contains_key(stream_id) ==> r@ == seq![
            ServerAction::Shutdown { stream_id },
            ServerAction::Abort { stream_id, code: ErrorCode::Internal },
        ],
        !old(conn).streams@.contains_key(stream_id) ==> r@.len() == 0,
{
    let mut actions: Vec<ServerAction> = Vec::new();
    if conn.streams.remove(stream_id).is_some() {
        actions.push(ServerAction::Shutdown { stream_id });
        actions.push(ServerAction::Abort { stream_id, code: ErrorCode::Internal });
    }
    actions
}

/// The target closed its side. The stream owes the peer a fin and goes away
/// once it is sent; `mark_ret` is the answer of rescheduling the stream, and a
/// failure there removes it.
pub fn handle_target_closed(conn: &mut ServerConnection, stream_id: u64, mark_ret: i32) -> (r: Vec<ServerAction>)
    requires
        old(conn).wf(),
    ensures
        final(conn).wf(),
        final(conn).multi_stream == old(conn).multi_stream,
        !old(conn).streams@.contains_key(stream_id) ==> final(conn).streams@ == old(conn).streams@ && r@.len() == 0,
        old(conn).streams@.contains_key(stream_id) && mark_ret != 0 ==> {
            &&& final(conn).streams@ == old(conn).streams@.remove(stream_id)
            &&& r@ == seq![
                ServerAction::Shutdown { stream_id },
                ServerAction::Abort { stream_id, code: ErrorCode::Internal },
            ]
        },
        old(conn).streams@.contains_key(stream_id) && mark_ret == 0 ==> {
            &&& r@.len() == 0
            &&& final(conn).streams@ == old(conn).streams@.insert(
                stream_id,
                ServerStream { target_fin_pending: true, close_after_flush: true, ..old(conn).streams@[stream_id] },
            )
        },
{
    let mut s = match conn.streams.remove(stream_id) {
        Some(v) => v,
        None => {
            return Vec::new();
        },
    };
    if mark_ret != 0 {
        return vec![
            ServerAction::Shutdown { stream_id },
            ServerAction::Abort { stream_id, code: ErrorCode::Internal },
        ];
    }
    s.target_fin_pending = true;
    s.close_after_flush = true;
    conn.streams.insert(stream_id, s);
    Vec::new()
}

/// The target has data for the stream; `mark_ret` is the answer of
/// scheduling it, and a failure there removes the stream.
pub fn handle_stream_readable(conn: &mut ServerConnection, stream_id: u64, mark_ret: i32) -> (r: Vec<ServerAction>)
    requires
        old(conn).wf(),
    ensures
        final(conn).wf(),
        final(conn).multi_stream == old(conn).multi_stream,
        mark_ret == 0 ==> final(conn).streams@ == old(conn).streams@ && r@.len() == 0,
        mark_ret != 0 ==> final(conn).streams@ == old(conn).streams@.remove(stream_id),
        mark_ret != 0 && old(conn).streams@.contains_key(stream_id) ==> r@ == seq![
            ServerAction::Shutdown { stream_id },
            ServerAction::Abort { stream_id, code: ErrorCode::Internal },
        ],
        mark_ret != 0 && !old(conn).streams@.contains_key(stream_id) ==> r@.len() == 0,
{
    if mark_ret == 0 {
        return Vec::new();
    }
    fail_stream(conn, stream_id)
}

/// The target writer reports `bytes` written out; any newly releasable
/// offset is released. A discarding or unknown stream is left alone.
pub fn handle_stream_write_drained(conn: &mut ServerConnection, stream_id: u64, bytes: u64) -> (r: Vec<ServerAction>)
    requires
        old(conn).wf(),
    ensures
        final(conn).wf(),
        final(conn).multi_stream == old(conn).multi_stream,
        !old(conn).streams@.contains_key(stream_id) || old(conn).streams@[stream_id].flow.discarding ==> {
            &&& final(conn).streams@ == old(conn).streams@
            &&& r@.len() == 0
        },
        old(conn).streams@.contains_key(stream_id) && !old(conn).streams@[stream_id].flow.discarding ==> {
            let s = old(conn).streams@[stream_id];
            let g = FlowControlState { queued_bytes: sat_sub(s.flow.queued_bytes, bytes), ..s.flow };
            &&& r@ == consume_actions(stream_id, advance_of(g, target_spec(g, old(conn).cfg())))
            &&& final(conn).streams@ == old(conn).streams@.insert(
                stream_id,
                ServerStream { flow: drain_state(s.flow, bytes, old(conn).cfg()), ..s },
            )
        },
{
    let cfg = conn.receive_config();
    let mut actions: Vec<ServerAction> = Vec::new();
    let discarding = match conn.streams.get(stream_id) {
        Some(s) => s.flow.discarding,
        None => {
            return actions;
        },
    };
    if discarding {
        return actions;
    }
    let mut s = conn.streams.remove(stream_id).unwrap();
    let c = handle_write_drained(&mut s.flow, bytes, cfg);
    conn.streams.insert(stream_id, s);
    push_consume(&mut actions, stream_id, c);
    actions
}

/// The peer reset the stream or asked us to stop sending: the stream is shut
/// down if it existed, and the reset is echoed.
pub fn handle_peer_reset(conn: &mut ServerConnection, stream_id: u64) -> (r: Vec<ServerAction>)
    requires
        old(conn).wf(),
    ensures
        final(conn).wf(),
        final(conn).multi_stream == old(conn).multi_stream,
        final(conn).streams@ == old(conn).streams@.remove(stream_id),
        old(conn).streams@.contains_key(stream_id) ==> r@ == seq![
            ServerAction::Shutdown { stream_id },
            ServerAction::ResetStream { stream_id, code: ErrorCode::FileCancel },
        ],
        !old(conn).streams@.contains_key(stream_id) ==> r@ == seq![
            ServerAction::ResetStream { stream_id, code: ErrorCode::FileCancel },
        ],
{
    let mut actions: Vec<ServerAction> = Vec::new();
    if conn.streams.remove(stream_id).is_some() {
        actions.push(ServerAction::Shutdown { stream_id });
    }
    actions.push(ServerAction::ResetStream { stream_id, code: ErrorCode::FileCancel });
    actions
}

/// The connection closed: every stream is shut down, in table order.
pub fn remove_connection_streams(conn: &mut ServerConnection) -> (r: Vec<ServerAction>)
    requires
        old(conn).wf(),
    ensures
        final(conn).wf(),
        final(conn).streams@ =~= Map::<u64, ServerStream>::empty(),
        !final(conn).multi_stream,
        r@.len() == old(conn).streams.size(),
        forall|i: int| 0 <= i < r@.len() ==> #[trigger] r@[i] == (ServerAction::Shutdown { stream_id: old(conn).streams.keys_seq()[i] }),
{
    let keys = conn.streams.keys();
    let mut actions: Vec<ServerAction> = Vec::new();
    let mut i: usize = 0;
    while i < keys.len()
        invariant
            i <= keys@.len(),
            actions@.len() == i,
            forall|j: int| 0 <= j < i ==> #[trigger] actions@[j] == (ServerAction::Shutdown { stream_id: keys@[j] }),
        decreases keys@.len() - i,
    {
        actions.push(ServerAction::Shutdown { stream_id: keys[i] });
        i = i + 1;
    }
    conn.streams.clear();
    conn.multi_stream = false;
    actions
}

} // verus!

verus! {

/// Whether answering a send request on the stream needs the next chunk from
/// the target reader: nothing is stashed and the reader is attached.
pub fn needs_target_read(conn: &ServerConnection, stream_id: u64) -> (r: bool)
    requires
        conn.wf(),
    ensures
        r == (conn.streams@.contains_key(stream_id) && !conn.streams@[stream_id].has_stash()
            && conn.streams@[stream_id].data_rx_attached),
{
    match conn.streams.get(stream_id) {
        Some(s) => s.send_stash.len() == 0 && s.data_rx_attached,
        None => false,
    }
}

/// Splits `data` at the send window: the part that fits and the remainder.
fn split_at_window(data: Vec<u8>, window: usize) -> (r: (Vec<u8>, Vec<u8>))
    ensures
        window < data@.len() ==> r.0@ == data@.subrange(0, window as int) && r.1@ == data@.subrange(
            window as int,
            data@.len() as int,
        ),
        window >= data@.len() ==> r.0@ == data@ && r.1@.len() == 0,
{
    let mut data = data;
    if data.len() > window {
        let rest = data.split_off(window);
        (data, rest)
    } else {
        (data, Vec::new())
    }
}

/// Answers the QUIC layer's request for up to `window` bytes of the stream.
///
/// `pending_flag` is the target reader's pending-send flag, `rx_empty` whether
/// its channel holds nothing, and `read` the chunk taken from it when
/// [`needs_target_read`] asked for one. A zero window only says whether the
/// stream still has something to send. Otherwise stashed bytes go first, then
/// the reader's chunk, each cut at the window with the rest stashed. A reader
/// that went away owes the peer a fin. With nothing to send, an owed fin is
/// sent, and a stream closing after it is removed.
pub fn prepare_to_send(
    conn: &mut ServerConnection,
    stream_id: u64,
    window: usize,
    pending_flag: bool,
    rx_empty: bool,
    read: TargetRead,
) -> (r: SendDecision)
    requires
        old(conn).wf(),
    ensures
        final(conn).wf(),
        final(conn).multi_stream == old(conn).multi_stream,
        forall|k: u64| k != stream_id ==> #[trigger] final(conn).streams@.contains_key(k) == old(conn).streams@.contains_key(k),
        forall|k: u64| k != stream_id && #[trigger] old(conn).streams@.contains_key(k) ==> final(conn).streams@[k] == old(conn).streams@[k],
        !old(conn).streams@.contains_key(stream_id) ==> {
            &&& final(conn).streams@ == old(conn).streams@
            &&& r.reply is Idle && !r.reply->still_active && !r.clear_pending_flag && !r.removed
        },
        old(conn).streams@.contains_key(stream_id) && window == 0 ==> {
            let s = old(conn).streams@[stream_id];
            let still = pending_flag || s.has_stash() || s.target_fin_pending;
            &&& final(conn).streams@ == old(conn).streams@
            &&& r.reply is Idle && r.reply->still_active == still
            &&& r.clear_pending_flag == (!still && s.send_pending_attached)
            &&& r.suspicious_idle == (pending_flag && !s.has_stash() && !s.target_fin_pending && rx_empty)
            &&& !r.removed
        },
        old(conn).streams@.contains_key(stream_id) && window > 0 && old(conn).streams@[stream_id].has_stash() ==> {
            let s = old(conn).streams@[stream_id];
            let n = if window < s.send_stash@.len() { window as int } else { s.send_stash@.len() as int };
            let s2 = final(conn).streams@[stream_id];
            &&& final(conn).streams@.contains_key(stream_id)
            &&& r.reply is Data && r.reply->data@ == s.send_stash@.subrange(0, n)
            &&& s2.send_stash@ == s.send_stash@.subrange(n, s.send_stash@.len() as int)
            &&& s2.tx_bytes as int == if s.tx_bytes + n > u64::MAX { u64::MAX as int } else { s.tx_bytes + n }
            &&& !r.removed && !r.clear_pending_flag
        },
        old(conn).streams@.contains_key(stream_id) && window > 0 && !old(conn).streams@[stream_id].has_stash()
            && old(conn).streams@[stream_id].data_rx_attached && read is Data ==> {
            let v = read->Data_0@;
            let n = if window < v.len() { window as int } else { v.len() as int };
            let s2 = final(conn).streams@[stream_id];
            &&& final(conn).streams@.contains_key(stream_id)
            &&& r.reply is Data && r.reply->data@ == v.subrange(0, n)
            &&& s2.send_stash@ == v.subrange(n, v.len() as int)
            &&& s2.tx_bytes as int == if old(conn).streams@[stream_id].tx_bytes + n > u64::MAX {
                u64::MAX as int
            } else {
                old(conn).streams@[stream_id].tx_bytes + n
            }
            &&& !r.removed && !r.clear_pending_flag
        },
        old(conn).streams@.contains_key(stream_id) && window > 0 && r.reply is Fin ==> {
            let s = old(conn).streams@[stream_id];
            &&& r.clear_pending_flag
            &&& r.removed == (s.close_after_flush || (s.data_rx_attached && read is Disconnected))
            &&& r.removed ==> !final(conn).streams@.contains_key(stream_id)
            &&& !r.removed ==> final(conn).streams@.contains_key(stream_id) && !final(conn).streams@[stream_id].target_fin_pending
        },
        old(conn).streams@.contains_key(stream_id) && window > 0 && !old(conn).streams@[stream_id].has_stash() ==> {
            let s = old(conn).streams@[stream_id];
            let fresh_data = s.data_rx_attached && read is Data;
            let owes_fin = s.target_fin_pending || (s.data_rx_attached && read is Disconnected);
            &&& !fresh_data && owes_fin ==> r.reply is Fin
            &&& !fresh_data && !owes_fin ==> r.reply is Idle && !r.reply->still_active && r.clear_pending_flag && !r.removed
        },
{
    let mut s = match conn.streams.remove(stream_id) {
        Some(v) => v,
        None => {
            return SendDecision { reply: SendReply::Idle { still_active: false }, clear_pending_flag: false, removed: false, suspicious_idle: false };
        },
    };
    let has_stash = s.send_stash.len() > 0;
    if window == 0 {
        let suspicious_idle = pending_flag && !has_stash && !s.target_fin_pending && rx_empty;
        let still_active = pending_flag || has_stash || s.target_fin_pending;
        let clear_pending_flag = !still_active && s.send_pending_attached;
        conn.streams.insert(stream_id, s);
        return SendDecision { reply: SendReply::Idle { still_active }, clear_pending_flag, removed: false, suspicious_idle };
    }
    let mut send_data: Option<Vec<u8>> = None;
    if has_stash {
        let mut stash: Vec<u8> = Vec::new();
        std::mem::swap(&mut stash, &mut s.send_stash);
        let (head, rest) = split_at_window(stash, window);
        s.send_stash = rest;
        send_data = Some(head);
    } else if s.data_rx_attached {
        match read {
            TargetRead::Data(v) => {
                let (head, rest) = split_at_window(v, window);
                s.send_stash = rest;
                send_data = Some(head);
            },
            TargetRead::Empty => {},
            TargetRead::Disconnected => {
                s.data_rx_attached = false;
                s.target_fin_pending = true;
                s.close_after_flush = true;
            },
        }
    }
    match send_data {
        Some(data) => {
            s.tx_bytes = s.tx_bytes.saturating_add(data.len() as u64);
            conn.streams.insert(stream_id, s);
            SendDecision { reply: SendReply::Data { data }, clear_pending_flag: false, removed: false, suspicious_idle: false }
        },
        None => {
            if s.target_fin_pending {
                s.target_fin_pending = false;
                let removed = s.close_after_flush;
                if !removed {
                    conn.streams.insert(stream_id, s);
                }
                SendDecision { reply: SendReply::Fin, clear_pending_flag: true, removed, suspicious_idle: false }
            } else {
                conn.streams.insert(stream_id, s);
                SendDecision { reply: SendReply::Idle { still_active: false }, clear_pending_flag: true, removed: false, suspicious_idle: false }
            }
        },
    }
}

} // verus!

verus! {

/// Kinds of commands the server loop receives from stream tasks.
#[derive(Clone, Copy, Debug, PartialEq, Eq, Structural)]
pub enum CommandKind {
    StreamConnected,
    StreamConnectError,
    StreamClosed,
    StreamReadable,
    StreamReadError,
    StreamWriteError,
    StreamWriteDrained,
}

/// Commands seen since the last report, by kind.
#[derive(Clone, Copy, Debug, PartialEq, Eq, Structural)]
pub struct CommandCounts {
    pub stream_connected: u64,
    pub stream_connect_error: u64,
    pub stream_closed: u64,
    pub stream_readable: u64,
    pub stream_read_error: u64,
    pub stream_write_error: u64,
    pub stream_write_drained: u64,
}

pub open spec fn bumped(c: u64) -> u64 {
    if c == u64::MAX { c } else { (c + 1) as u64 }
}

impl CommandCounts {
    /// No command seen.
    pub fn new() -> (r: CommandCounts)
        ensures
            r.total_spec() == 0,
            r == (CommandCounts {
                stream_connected: 0,
                stream_connect_error: 0,
                stream_closed: 0,
                stream_readable: 0,
                stream_read_error: 0,
                stream_write_error: 0,
                stream_write_drained: 0,
            }),
    {
        CommandCounts {
            stream_connected: 0,
            stream_connect_error: 0,
            stream_closed: 0,
            stream_readable: 0,
            stream_read_error: 0,
            stream_write_error: 0,
            stream_write_drained: 0,
        }
    }

    pub open spec fn total_spec(&self) -> int {
        self.stream_connected + self.stream_connect_error + self.stream_closed + self.stream_readable
            + self.stream_read_error + self.stream_write_error + self.stream_write_drained
    }

    /// Counts one command of the given kind (a count stops at `u64::MAX`).
    pub fn bump(&mut self, kind: CommandKind)
        ensures
            *final(self) == match kind {
                CommandKind::StreamConnected => CommandCounts { stream_connected: bumped(old(self).stream_connected), ..*old(self) },
                CommandKind::StreamConnectError => CommandCounts { stream_connect_error: bumped(old(self).stream_connect_error), ..*old(self) },
                CommandKind::StreamClosed => CommandCounts { stream_closed: bumped(old(self).stream_closed), ..*old(self) },
                CommandKind::StreamReadable => CommandCounts { stream_readable: bumped(old(self).stream_readable), ..*old(self) },
                CommandKind::StreamReadError => CommandCounts { stream_read_error: bumped(old(self).stream_read_error), ..*old(self) },
                CommandKind::StreamWriteError => CommandCounts { stream_write_error: bumped(old(self).stream_write_error), ..*old(self) },
                CommandKind::StreamWriteDrained => CommandCounts { stream_write_drained: bumped(old(self).stream_write_drained), ..*old(self) },
            },
    {
        match kind {
            CommandKind::StreamConnected => self.stream_connected = self.stream_connected.saturating_add(1),
            CommandKind::StreamConnectError => self.stream_connect_error = self.stream_connect_error.saturating_add(1),
            CommandKind::StreamClosed => self.stream_closed = self.stream_closed.saturating_add(1),
            CommandKind::StreamReadable => self.stream_readable = self.stream_readable.saturating_add(1),
            CommandKind::StreamReadError => self.stream_read_error = self.stream_read_error.saturating_add(1),
            CommandKind::StreamWriteError => self.stream_write_error = self.stream_write_error.saturating_add(1),
            CommandKind::StreamWriteDrained => self.stream_write_drained = self.stream_write_drained.saturating_add(1),
        }
    }

    /// Commands of every kind together, stopping at `u64::MAX`.
    pub fn total(&self) -> (r: u64)
        ensures
            r as int == if self.total_spec() > u64::MAX { u64::MAX as int } else { self.total_spec() },
    {
        let sum: u128 = self.stream_connected as u128 + self.stream_connect_error as u128 + self.stream_closed as u128
            + self.stream_readable as u128 + self.stream_read_error as u128 + self.stream_write_error as u128
            + self.stream_write_drained as u128;
        if sum > u64::MAX as u128 {
            u64::MAX
        } else {
            sum as u64
        }
    }

    /// Forgets every count.
    pub fn reset(&mut self)
        ensures
            *final(self) == CommandCounts::new_spec(),
    {
        *self = CommandCounts::new();
    }

    pub open spec fn new_spec() -> CommandCounts {
        CommandCounts {
            stream_connected: 0,
            stream_connect_error: 0,
            stream_closed: 0,
            stream_readable: 0,
            stream_read_error: 0,
            stream_write_error: 0,
            stream_write_drained: 0,
        }
    }
}

/// Counts describing the streams of a connection.
#[derive(Clone, Copy, Debug, PartialEq, Eq, Structural)]
pub struct ServerStreamMetrics {
    pub streams_total: usize,
    pub streams_with_write_tx: usize,
    pub streams_with_data_rx: usize,
    pub streams_with_pending_data: usize,
    pub pending_chunks_total: u64,
    pub pending_bytes_total: u64,
    pub queued_bytes_total: u64,
    pub streams_with_pending_fin: usize,
    pub streams_with_fin_enqueued: usize,
    pub streams_with_target_fin_pending: usize,
    pub streams_with_send_pending: usize,
    pub streams_with_send_stash: usize,
    pub send_stash_bytes_total: u64,
    pub streams_discarding: usize,
    pub streams_close_after_flush: usize,
    pub multi_stream: bool,
}

impl ServerStreamMetrics {
    /// Whether any stream still has something to send toward the peer.
    pub fn has_send_backlog(&self) -> (r: bool)
        ensures
            r == (self.streams_with_send_pending > 0 || self.streams_with_send_stash > 0
                || self.streams_with_target_fin_pending > 0),
    {
        self.streams_with_send_pending > 0 || self.streams_with_send_stash > 0
            || self.streams_with_target_fin_pending > 0
    }
}

} // verus!

verus! {

/// Bytes reach the target in the order they came from the peer: for every
/// stream of a well-formed connection that is not discarding, what was
/// written to the target followed by what still waits for it is exactly what
/// was received, and once the target writer is attached nothing waits.
pub proof fn lemma_relay_order(conn: &ServerConnection, stream_id: u64)
    requires
        conn.wf(),
        conn.streams@.contains_key(stream_id),
        !conn.streams@[stream_id].flow.discarding,
    ensures
        conn.streams@[stream_id].written@ + conn.streams@[stream_id].pending_bytes() == conn.streams@[stream_id].received@,
        conn.streams@[stream_id].writer_attached ==> conn.streams@[stream_id].written@ == conn.streams@[stream_id].received@,
{
    let s = conn.streams@[stream_id];
    assert(s.wf());
    if s.writer_attached {
        assert(chunks_of(s.pending_data@) =~= Seq::<Seq<u8>>::empty());
        assert(s.written@ + s.pending_bytes() =~= s.written@);
    }
}

} // verus!

verus! {

/// The stream conditions that [`stream_debug_metrics`] counts.
pub enum StreamCondition {
    WriteTx,
    DataRx,
    PendingData,
    PendingFin,
    FinEnqueued,
    TargetFinPending,
    SendStash,
    Discarding,
    CloseAfterFlush,
}

/// The stream quantities that [`stream_debug_metrics`] sums.
pub enum StreamQuantity {
    PendingChunks,
    PendingBytes,
    QueuedBytes,
    StashBytes,
}

pub open spec fn holds(c: StreamCondition, s: ServerStream) -> bool {
    match c {
        StreamCondition::WriteTx => s.writer_attached,
        StreamCondition::DataRx => s.data_rx_attached,
        StreamCondition::PendingData => s.pending_data@.len() > 0,
        StreamCondition::PendingFin => s.pending_fin,
        StreamCondition::FinEnqueued => s.fin_enqueued,
        StreamCondition::TargetFinPending => s.target_fin_pending,
        StreamCondition::SendStash => s.send_stash@.len() > 0,
        StreamCondition::Discarding => s.flow.discarding,
        StreamCondition::CloseAfterFlush => s.close_after_flush,
    }
}

pub open spec fn amount(q: StreamQuantity, s: ServerStream) -> nat {
    match q {
        StreamQuantity::PendingChunks => s.pending_data@.len(),
        StreamQuantity::PendingBytes => s.pending_bytes().len(),
        StreamQuantity::QueuedBytes => s.flow.queued_bytes as nat,
        StreamQuantity::StashBytes => s.send_stash@.len(),
    }
}

/// How many of the listed streams satisfy `c`.
pub open spec fn count_streams(keys: Seq<u64>, m: Map<u64, ServerStream>, c: StreamCondition) -> nat
    decreases keys.len(),
{
    if keys.len() == 0 {
        0
    } else {
        count_streams(keys.drop_last(), m, c) + if holds(c, m[keys.last()]) { 1nat } else { 0nat }
    }
}

/// How many of the listed streams have a pending-send flag attached and set.
pub open spec fn count_send_pending(keys: Seq<u64>, m: Map<u64, ServerStream>, flagged: Seq<u64>) -> nat
    decreases keys.len(),
{
    if keys.len() == 0 {
        0
    } else {
        count_send_pending(keys.drop_last(), m, flagged) + if m[keys.last()].send_pending_attached
            && flagged.contains(keys.last()) {
            1nat
        } else {
            0nat
        }
    }
}

/// The sum of `q` over the listed streams.
pub open spec fn sum_streams(keys: Seq<u64>, m: Map<u64, ServerStream>, q: StreamQuantity) -> nat
    decreases keys.len(),
{
    if keys.len() == 0 {
        0
    } else {
        sum_streams(keys.drop_last(), m, q) + amount(q, m[keys.last()])
    }
}

pub open spec fn capped(n: nat) -> int {
    if n > u64::MAX { u64::MAX as int } else { n as int }
}

proof fn lemma_count_le(keys: Seq<u64>, m: Map<u64, ServerStream>, c: StreamCondition, flagged: Seq<u64>)
    ensures
        count_streams(keys, m, c) <= keys.len(),
        count_send_pending(keys, m, flagged) <= keys.len(),
    decreases keys.len(),
{
    if keys.len() > 0 {
        lemma_count_le(keys.drop_last(), m, c, flagged);
    }
}

/// Bytes buffered in `chunks`.
fn chunk_bytes(chunks: &Vec<Vec<u8>>) -> (r: u64)
    ensures
        r as int == capped(chunks_of(chunks@).flatten().len()),
{
    let mut total: u64 = 0;
    let mut j: usize = 0;
    while j < chunks.len()
        invariant
            j <= chunks@.len(),
            total as int == capped(chunks_of(chunks@.take(j as int)).flatten().len()),
        decreases chunks@.len() - j,
    {
        proof {
            assert(chunks_of(chunks@.take(j as int + 1)) =~= chunks_of(chunks@.take(j as int)).push(chunks@[j as int]@));
            chunks_of(chunks@.take(j as int)).lemma_flatten_push(chunks@[j as int]@);
        }
        total = total.saturating_add(chunks[j].len() as u64);
        j = j + 1;
    }
    assert(chunks@.take(j as int) =~= chunks@);
    total
}

fn vec_has(v: &Vec<u64>, k: u64) -> (r: bool)
    ensures
        r == v@.contains(k),
{
    let mut i: usize = 0;
    while i < v.len()
        invariant
            i <= v@.len(),
            forall|j: int| 0 <= j < i ==> v@[j] != k,
        decreases v@.len() - i,
    {
        if v[i] == k {
            return true;
        }
        i = i + 1;
    }
    false
}

pub open spec fn bump_if(c: usize, b: bool) -> usize {
    if b { (c + 1) as usize } else { c }
}

pub open spec fn add_capped(total: u64, n: nat) -> u64 {
    capped(total as nat + n) as u64
}

/// Adds one stream to the counts.
#[verifier::rlimit(80)]
fn tally(r: &mut ServerStreamMetrics, s: &ServerStream, flagged: bool)
    requires
        old(r).streams_total < usize::MAX,
        old(r).streams_with_write_tx < usize::MAX,
        old(r).streams_with_data_rx < usize::MAX,
        old(r).streams_with_pending_data < usize::MAX,
        old(r).streams_with_pending_fin < usize::MAX,
        old(r).streams_with_fin_enqueued < usize::MAX,
        old(r).streams_with_target_fin_pending < usize::MAX,
        old(r).streams_with_send_stash < usize::MAX,
        old(r).streams_discarding < usize::MAX,
        old(r).streams_close_after_flush < usize::MAX,
        old(r).streams_with_send_pending < usize::MAX,
    ensures
        final(r).multi_stream == old(r).multi_stream,
        final(r).streams_total == old(r).streams_total + 1,
        final(r).streams_with_write_tx == bump_if(old(r).streams_with_write_tx, holds(StreamCondition::WriteTx, *s)),
        final(r).streams_with_data_rx == bump_if(old(r).streams_with_data_rx, holds(StreamCondition::DataRx, *s)),
        final(r).streams_with_pending_data == bump_if(old(r).streams_with_pending_data, holds(StreamCondition::PendingData, *s)),
        final(r).streams_with_pending_fin == bump_if(old(r).streams_with_pending_fin, holds(StreamCondition::PendingFin, *s)),
        final(r).streams_with_fin_enqueued == bump_if(old(r).streams_with_fin_enqueued, holds(StreamCondition::FinEnqueued, *s)),
        final(r).streams_with_target_fin_pending == bump_if(old(r).streams_with_target_fin_pending, holds(StreamCondition::TargetFinPending, *s)),
        final(r).streams_with_send_stash == bump_if(old(r).streams_with_send_stash, holds(StreamCondition::SendStash, *s)),
        final(r).streams_discarding == bump_if(old(r).streams_discarding, holds(StreamCondition::Discarding, *s)),
        final(r).streams_close_after_flush == bump_if(old(r).streams_close_after_flush, holds(StreamCondition::CloseAfterFlush, *s)),
        final(r).streams_with_send_pending == bump_if(old(r).streams_with_send_pending, flagged),
        final(r).pending_chunks_total == add_capped(old(r).pending_chunks_total, amount(StreamQuantity::PendingChunks, *s)),
        final(r).pending_bytes_total == add_capped(old(r).pending_bytes_total, amount(StreamQuantity::PendingBytes, *s)),
        final(r).queued_bytes_total == add_capped(old(r).queued_bytes_total, amount(StreamQuantity::QueuedBytes, *s)),
        final(r).send_stash_bytes_total == add_capped(old(r).send_stash_bytes_total, amount(StreamQuantity::StashBytes, *s)),
{
    r.streams_total = r.streams_total + 1;
    if s.writer_attached {
        r.streams_with_write_tx = r.streams_with_write_tx + 1;
    }
    if s.data_rx_attached {
        r.streams_with_data_rx = r.streams_with_data_rx + 1;
    }
    if s.pending_data.len() > 0 {
        r.streams_with_pending_data = r.streams_with_pending_data + 1;
    }
    if s.pending_fin {
        r.streams_with_pending_fin = r.streams_with_pending_fin + 1;
    }
    if s.fin_enqueued {
        r.streams_with_fin_enqueued = r.streams_with_fin_enqueued + 1;
    }
    if s.target_fin_pending {
        r.streams_with_target_fin_pending = r.streams_with_target_fin_pending + 1;
    }
    if s.send_stash.len() > 0 {
        r.streams_with_send_stash = r.streams_with_send_stash + 1;
    }
    if s.flow.discarding {
        r.streams_discarding = r.streams_discarding + 1;
    }
    if s.close_after_flush {
        r.streams_close_after_flush = r.streams_close_after_flush + 1;
    }
    if flagged {
        r.streams_with_send_pending = r.streams_with_send_pending + 1;
    }
    r.pending_chunks_total = r.pending_chunks_total.saturating_add(s.pending_data.len() as u64);
    r.queued_bytes_total = r.queued_bytes_total.saturating_add(s.flow.queued_bytes);
    r.send_stash_bytes_total = r.send_stash_bytes_total.saturating_add(s.send_stash.len() as u64);
    let bytes = chunk_bytes(&s.pending_data);
    r.pending_bytes_total = r.pending_bytes_total.saturating_add(bytes);
}

/// Counts over the streams of a connection; `flagged` lists the streams
/// whose target reader has set its pending-send flag. Totals stop at
/// `u64::MAX`.
pub fn stream_debug_metrics(conn: &ServerConnection, flagged: &Vec<u64>) -> (r: ServerStreamMetrics)
    requires
        conn.wf(),
    ensures
        ({
            let keys = conn.streams.keys_seq();
            let m = conn.streams@;
            &&& r.streams_total == keys.len()
            &&& r.multi_stream == conn.multi_stream
            &&& r.streams_with_write_tx == count_streams(keys, m, StreamCondition::WriteTx)
            &&& r.streams_with_data_rx == count_streams(keys, m, StreamCondition::DataRx)
            &&& r.streams_with_pending_data == count_streams(keys, m, StreamCondition::PendingData)
            &&& r.streams_with_pending_fin == count_streams(keys, m, StreamCondition::PendingFin)
            &&& r.streams_with_fin_enqueued == count_streams(keys, m, StreamCondition::FinEnqueued)
            &&& r.streams_with_target_fin_pending == count_streams(keys, m, StreamCondition::TargetFinPending)
            &&& r.streams_with_send_stash == count_streams(keys, m, StreamCondition::SendStash)
            &&& r.streams_discarding == count_streams(keys, m, StreamCondition::Discarding)
            &&& r.streams_close_after_flush == count_streams(keys, m, StreamCondition::CloseAfterFlush)
            &&& r.streams_with_send_pending == count_send_pending(keys, m, flagged@)
            &&& r.pending_chunks_total as int == capped(sum_streams(keys, m, StreamQuantity::PendingChunks))
            &&& r.pending_bytes_total as int == capped(sum_streams(keys, m, StreamQuantity::PendingBytes))
            &&& r.queued_bytes_total as int == capped(sum_streams(keys, m, StreamQuantity::QueuedBytes))
            &&& r.send_stash_bytes_total as int == capped(sum_streams(keys, m, StreamQuantity::StashBytes))
        }),
{
    let ghost keys = conn.streams.keys_seq();
    let ghost m = conn.streams@;
    proof {
        conn.streams.lemma_keys();
    }
    let mut r = ServerStreamMetrics {
        streams_total: 0,
        streams_with_write_tx: 0,
        streams_with_data_rx: 0,
        streams_with_pending_data: 0,
        pending_chunks_total: 0,
        pending_bytes_total: 0,
        queued_bytes_total: 0,
        streams_with_pending_fin: 0,
        streams_with_fin_enqueued: 0,
        streams_with_target_fin_pending: 0,
        streams_with_send_pending: 0,
        streams_with_send_stash: 0,
        send_stash_bytes_total: 0,
        streams_discarding: 0,
        streams_close_after_flush: 0,
        multi_stream: conn.multi_stream,
    };
    let n = conn.streams.len();
    let mut i: usize = 0;
    while i < n
        invariant
            n == keys.len(),
            i <= n,
            keys == conn.streams.keys_seq(),
            m == conn.streams@,
            conn.wf(),
            forall|j: int| 0 <= j < n ==> m.contains_key(#[trigger] keys[j]),
            r.multi_stream == conn.multi_stream,
            r.streams_total == i,
            r.streams_with_write_tx == count_streams(keys.take(i as int), m, StreamCondition::WriteTx),
            r.streams_with_data_rx == count_streams(keys.take(i as int), m, StreamCondition::DataRx),
            r.streams_with_pending_data == count_streams(keys.take(i as int), m, StreamCondition::PendingData),
            r.streams_with_pending_fin == count_streams(keys.take(i as int), m, StreamCondition::PendingFin),
            r.streams_with_fin_enqueued == count_streams(keys.take(i as int), m, StreamCondition::FinEnqueued),
            r.streams_with_target_fin_pending == count_streams(keys.take(i as int), m, StreamCondition::TargetFinPending),
            r.streams_with_send_stash == count_streams(keys.take(i as int), m, StreamCondition::SendStash),
            r.streams_discarding == count_streams(keys.take(i as int), m, StreamCondition::Discarding),
            r.streams_close_after_flush == count_streams(keys.take(i as int), m, StreamCondition::CloseAfterFlush),
            r.streams_with_send_pending == count_send_pending(keys.take(i as int), m, flagged@),
            r.pending_chunks_total as int == capped(sum_streams(keys.take(i as int), m, StreamQuantity::PendingChunks)),
            r.pending_bytes_total as int == capped(sum_streams(keys.take(i as int), m, StreamQuantity::PendingBytes)),
            r.queued_bytes_total as int == capped(sum_streams(keys.take(i as int), m, StreamQuantity::QueuedBytes)),
            r.send_stash_bytes_total as int == capped(sum_streams(keys.take(i as int), m, StreamQuantity::StashBytes)),
        decreases n - i,
    {
        let k = conn.streams.key_at(i);
        let s = conn.streams.get(k).unwrap();
        proof {
            let t0 = keys.take(i as int);
            assert(keys.take(i as int + 1).drop_last() =~= t0);
            assert(keys.take(i as int + 1).last() == k);
            lemma_count_le(t0, m, StreamCondition::WriteTx, flagged@);
            lemma_count_le(t0, m, StreamCondition::DataRx, flagged@);
            lemma_count_le(t0, m, StreamCondition::PendingData, flagged@);
            lemma_count_le(t0, m, StreamCondition::PendingFin, flagged@);
            lemma_count_le(t0, m, StreamCondition::FinEnqueued, flagged@);
            lemma_count_le(t0, m, StreamCondition::TargetFinPending, flagged@);
            lemma_count_le(t0, m, StreamCondition::SendStash, flagged@);
            lemma_count_le(t0, m, StreamCondition::Discarding, flagged@);
            lemma_count_le(t0, m, StreamCondition::CloseAfterFlush, flagged@);
        }
        let hit = s.send_pending_attached && vec_has(flagged, k);
        tally(&mut r, s, hit);
        i = i + 1;
    }
    assert(keys.take(n as int) =~= keys);
    r
}

} // verus!

verus! {

/// A stream invariant found broken by [`check_stream_invariants`].
#[derive(Clone, Copy, Debug, PartialEq, Eq, Structural)]
pub enum ServerInvariant {
    /// Exactly one of the target writer and the pending-send flag is attached.
    WriterFlagMismatch,
}

/// Broken invariants of one stream; none for an unknown stream. The fin
/// invariants (`close_after_flush` only with a fin owed, never a fin both
/// remembered and handed on) are part of [`ServerStream::wf`] and hold of every
/// stream of a well-formed connection.
pub fn check_stream_invariants(conn: &ServerConnection, stream_id: u64) -> (r: Vec<ServerInvariant>)
    requires
        conn.wf(),
    ensures
        !conn.streams@.contains_key(stream_id) ==> r@.len() == 0,
        conn.streams@.contains_key(stream_id) ==> r@ == if conn.streams@[stream_id].writer_attached
            != conn.streams@[stream_id].send_pending_attached {
            seq![ServerInvariant::WriterFlagMismatch]
        } else {
            Seq::<ServerInvariant>::empty()
        },
{
    let mut out: Vec<ServerInvariant> = Vec::new();
    let s = match conn.streams.get(stream_id) {
        Some(v) => v,
        None => {
            return out;
        },
    };
    if s.writer_attached != s.send_pending_attached {
        out.push(ServerInvariant::WriterFlagMismatch);
    }
    assert(out@ =~= if s.writer_attached != s.send_pending_attached {
        seq![ServerInvariant::WriterFlagMismatch]
    } else {
        Seq::<ServerInvariant>::empty()
    });
    out
}

} // verus!

verus! {

/// A stream that still has something to send toward the peer.
#[derive(Clone, Copy, Debug, PartialEq, Eq, Structural)]
pub struct BacklogStreamSummary {
    pub stream_id: u64,
    pub send_pending: bool,
    pub send_stash_bytes: usize,
    pub target_fin_pending: bool,
    pub close_after_flush: bool,
    pub pending_fin: bool,
    pub fin_enqueued: bool,
    pub queued_bytes: u64,
    pub pending_chunks: usize,
}

pub open spec fn summary_of(k: u64, s: ServerStream, flagged: Seq<u64>) -> BacklogStreamSummary {
    BacklogStreamSummary {
        stream_id: k,
        send_pending: s.send_pending_attached && flagged.contains(k),
        send_stash_bytes: s.send_stash@.len() as usize,
        target_fin_pending: s.target_fin_pending,
        close_after_flush: s.close_after_flush,
        pending_fin: s.pending_fin,
        fin_enqueued: s.fin_enqueued,
        queued_bytes: s.flow.queued_bytes,
        pending_chunks: s.pending_data@.len() as usize,
    }
}

pub open spec fn send_backlog(b: BacklogStreamSummary) -> bool {
    b.send_pending || b.send_stash_bytes > 0 || b.target_fin_pending
}

/// The listed streams with a send backlog, in order.
pub open spec fn send_backlog_of(keys: Seq<u64>, m: Map<u64, ServerStream>, flagged: Seq<u64>) -> Seq<BacklogStreamSummary>
    decreases keys.len(),
{
    if keys.len() == 0 {
        Seq::empty()
    } else {
        let b = summary_of(keys.last(), m[keys.last()], flagged);
        send_backlog_of(keys.drop_last(), m, flagged) + if send_backlog(b) { seq![b] } else { Seq::empty() }
    }
}

proof fn lemma_send_backlog_prefix(keys: Seq<u64>, m: Map<u64, ServerStream>, flagged: Seq<u64>, i: int, j: int)
    requires
        0 <= i <= j <= keys.len(),
    ensures
        send_backlog_of(keys.take(i), m, flagged).len() <= send_backlog_of(keys.take(j), m, flagged).len(),
        send_backlog_of(keys.take(j), m, flagged).take(send_backlog_of(keys.take(i), m, flagged).len() as int)
            == send_backlog_of(keys.take(i), m, flagged),
    decreases j - i,
{
    if i < j {
        lemma_send_backlog_prefix(keys, m, flagged, i, j - 1);
        assert(keys.take(j).drop_last() =~= keys.take(j - 1));
        let a = send_backlog_of(keys.take(i), m, flagged);
        let b = send_backlog_of(keys.take(j - 1), m, flagged);
        let c = send_backlog_of(keys.take(j), m, flagged);
        assert(c.take(b.len() as int) =~= b);
        assert(c.take(a.len() as int) =~= b.take(a.len() as int));
    } else {
        let a = send_backlog_of(keys.take(i), m, flagged);
        assert(a.take(a.len() as int) =~= a);
    }
}

/// The streams of a connection that still have something to send, in table
/// order, at most `limit` of them (at least one is reported when any exists);
/// `flagged` lists the streams whose target reader has set its pending-send flag.
pub fn stream_send_backlog_summaries(conn: &ServerConnection, flagged: &Vec<u64>, limit: usize) -> (r: Vec<BacklogStreamSummary>)
    requires
        conn.wf(),
    ensures
        ({
            let all = send_backlog_of(conn.streams.keys_seq(), conn.streams@, flagged@);
            let cap: int = if limit == 0 { 1 } else { limit as int };
            r@ == all.take(if all.len() < cap { all.len() as int } else { cap })
        }),
{
    let ghost keys = conn.streams.keys_seq();
    let ghost m = conn.streams@;
    let ghost cap: int = if limit == 0 { 1 } else { limit as int };
    proof {
        conn.streams.lemma_keys();
    }
    let mut out: Vec<BacklogStreamSummary> = Vec::new();
    let n = conn.streams.len();
    let mut i: usize = 0;
    assert(keys.take(0) =~= Seq::<u64>::empty());
    while i < n
        invariant
            n == keys.len(),
            i <= n,
            keys == conn.streams.keys_seq(),
            m == conn.streams@,
            conn.wf(),
            forall|j: int| 0 <= j < n ==> m.contains_key(#[trigger] keys[j]),
            out@ == send_backlog_of(keys.take(i as int), m, flagged@),
            cap == if limit == 0 { 1 } else { limit as int },
            out@.len() < cap,
        decreases n - i,
    {
        let k = conn.streams.key_at(i);
        let s = conn.streams.get(k).unwrap();
        proof {
            assert(keys.take(i as int + 1).drop_last() =~= keys.take(i as int));
            assert(keys.take(i as int + 1).last() == k);
        }
        let b = BacklogStreamSummary {
            stream_id: k,
            send_pending: s.send_pending_attached && vec_has(flagged, k),
            send_stash_bytes: s.send_stash.len(),
            target_fin_pending: s.target_fin_pending,
            close_after_flush: s.close_after_flush,
            pending_fin: s.pending_fin,
            fin_enqueued: s.fin_enqueued,
            queued_bytes: s.flow.queued_bytes,
            pending_chunks: s.pending_data.len(),
        };
        let held = b.send_pending || b.send_stash_bytes > 0 || b.target_fin_pending;
        if held {
            out.push(b);
        }
        assert(out@ =~= send_backlog_of(keys.take(i as int + 1), m, flagged@));
        i = i + 1;
        if held && out.len() >= limit {
            proof {
                lemma_send_backlog_prefix(keys, m, flagged@, i as int, n as int);
                assert(keys.take(n as int) =~= keys);
            }
            return out;
        }
    }
    assert(keys.take(n as int) =~= keys);
    out
}

} // verus!
