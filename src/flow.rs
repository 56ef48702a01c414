//! Per-stream receive flow control: queueing toward the local sink, the
//! overflow latch, and the offsets released to the peer.

use vstd::prelude::*;

verus! {

/// Ceiling on the bytes buffered toward the local sink of one stream.
pub const MAX_QUEUED_BYTES: u64 = 2 * 1024 * 1024;

/// Connection-level window held back while a connection hosts a single stream.
pub const CONN_RESERVE_BYTES: u64 = 1024 * 1024;

/// The connection-level reservation used in single-stream mode.
pub fn conn_reserve_bytes() -> (r: u64)
    ensures
        r == CONN_RESERVE_BYTES,
{
    CONN_RESERVE_BYTES
}

/// Receive-side accounting of one stream.
#[derive(Clone, Copy, Debug, PartialEq, Eq, Structural)]
pub struct FlowControlState {
    /// Total bytes received from the peer.
    pub rx_bytes: u64,
    /// Offset the peer has been allowed to release.
    pub consumed_offset: u64,
    /// Bytes currently buffered toward the local sink.
    pub queued_bytes: u64,
    /// Offset at which the peer's fin arrived, once it has.
    pub fin_offset: Option<u64>,
    /// Overflow latch: further bytes are counted but not buffered.
    pub discarding: bool,
    /// The peer has been asked to stop sending.
    pub stop_sending_sent: bool,
}

/// How a stream releases offsets to its peer.
#[derive(Clone, Copy, Debug, PartialEq, Eq, Structural)]
pub struct StreamReceiveConfig {
    pub multi_stream: bool,
    pub reserve_bytes: u64,
}

/// What the caller must do after bytes arrived on a stream, in this order.
#[derive(Clone, Copy, Debug, PartialEq, Eq, Structural)]
pub enum ReceiveOutcome {
    /// Hand the bytes to the local sink, then release `consume_to` if any.
    Buffered { consume_to: Option<u64> },
    /// The queue would exceed its ceiling: drop the local sink, ask the peer
    /// to stop when `stop_sending` holds, then release `consume_to` if any.
    Overflow { stop_sending: bool, consume_to: Option<u64> },
    /// The stream already discards: release `consume_to` if any.
    Discarded { consume_to: Option<u64> },
}

impl StreamReceiveConfig {
    /// A configuration for the given mode; multi-stream mode reserves nothing.
    pub fn new(multi_stream: bool, reserve_bytes: u64) -> (r: StreamReceiveConfig)
        ensures
            r.multi_stream == multi_stream,
            r.reserve_bytes == if multi_stream { 0 } else { reserve_bytes },
    {
        StreamReceiveConfig { multi_stream, reserve_bytes: if multi_stream { 0 } else { reserve_bytes } }
    }
}

impl ReceiveOutcome {
    pub open spec fn sends_stop(self) -> bool {
        match self {
            ReceiveOutcome::Overflow { stop_sending, .. } => stop_sending,
            _ => false,
        }
    }
}

pub open spec fn sat_sub(a: u64, b: u64) -> u64 {
    if a >= b { (a - b) as u64 } else { 0 }
}

pub open spec fn max_u64(a: u64, b: u64) -> u64 {
    if a >= b { a } else { b }
}

/// Single-stream release target: everything not queued, but never holding back
/// more than the reservation, and never beyond the fin.
pub open spec fn reserve_target_spec(rx: u64, queued: u64, fin: Option<u64>, reserve: u64) -> u64 {
    let base = max_u64(sat_sub(rx, queued), sat_sub(rx, reserve));
    match fin {
        Some(f) => if f < base { f } else { base },
        None => base,
    }
}

/// The offset a stream may release under `cfg`; in multi-stream mode nothing
/// is reserved, so everything received (up to the fin) is released.
pub open spec fn target_spec(f: FlowControlState, cfg: StreamReceiveConfig) -> u64 {
    reserve_target_spec(f.rx_bytes, f.queued_bytes, f.fin_offset, cfg.reserve_bytes)
}

/// The release target of the per-stream formula.
pub open spec fn promote_target(f: FlowControlState) -> u64 {
    reserve_target_spec(f.rx_bytes, f.queued_bytes, f.fin_offset, 0)
}

/// Raises the consumed offset to `target` when that is an advance.
pub open spec fn advanced(f: FlowControlState, target: u64) -> FlowControlState {
    if target > f.consumed_offset {
        FlowControlState { consumed_offset: target, ..f }
    } else {
        f
    }
}

pub open spec fn advance_of(f: FlowControlState, target: u64) -> Option<u64> {
    if target > f.consumed_offset { Some(target) } else { None }
}

/// Whether `n` more bytes would push the queue over its ceiling.
pub open spec fn overflows(f: FlowControlState, n: u64) -> bool {
    f.queued_bytes + n > MAX_QUEUED_BYTES
}

/// State after `n` bytes arrived.
pub open spec fn receive_state(f: FlowControlState, n: u64, cfg: StreamReceiveConfig) -> FlowControlState {
    let rx = (f.rx_bytes + n) as u64;
    if f.discarding {
        advanced(FlowControlState { rx_bytes: rx, ..f }, rx)
    } else if overflows(f, n) {
        advanced(FlowControlState { rx_bytes: rx, discarding: true, stop_sending_sent: true, ..f }, rx)
    } else {
        let g = FlowControlState { rx_bytes: rx, queued_bytes: (f.queued_bytes + n) as u64, ..f };
        advanced(g, target_spec(g, cfg))
    }
}

/// What the caller is told to do after `n` bytes arrived.
pub open spec fn receive_outcome(f: FlowControlState, n: u64, cfg: StreamReceiveConfig) -> ReceiveOutcome {
    let rx = (f.rx_bytes + n) as u64;
    if f.discarding {
        ReceiveOutcome::Discarded { consume_to: advance_of(f, rx) }
    } else if overflows(f, n) {
        ReceiveOutcome::Overflow { stop_sending: !f.stop_sending_sent, consume_to: advance_of(f, rx) }
    } else {
        let g = FlowControlState { rx_bytes: rx, queued_bytes: (f.queued_bytes + n) as u64, ..f };
        ReceiveOutcome::Buffered { consume_to: advance_of(g, target_spec(g, cfg)) }
    }
}

/// State after the local sink reports `bytes` written out.
pub open spec fn drain_state(f: FlowControlState, bytes: u64, cfg: StreamReceiveConfig) -> FlowControlState {
    if f.discarding {
        f
    } else {
        let g = FlowControlState { queued_bytes: sat_sub(f.queued_bytes, bytes), ..f };
        advanced(g, target_spec(g, cfg))
    }
}

/// State after the connection switched to per-stream release.
pub open spec fn promote_state(f: FlowControlState) -> FlowControlState {
    if f.discarding {
        f
    } else {
        advanced(f, promote_target(f))
    }
}

/// State after the peer's fin arrived.
pub open spec fn fin_state(f: FlowControlState) -> FlowControlState {
    match f.fin_offset {
        Some(_) => f,
        None => FlowControlState { fin_offset: Some(f.rx_bytes), ..f },
    }
}

impl FlowControlState {
    /// A stream on which nothing has arrived yet.
    pub fn new() -> (r: FlowControlState)
        ensures
            r == (FlowControlState {
                rx_bytes: 0,
                consumed_offset: 0,
                queued_bytes: 0,
                fin_offset: None,
                discarding: false,
                stop_sending_sent: false,
            }),
            r.wf(),
    {
        FlowControlState {
            rx_bytes: 0,
            consumed_offset: 0,
            queued_bytes: 0,
            fin_offset: None,
            discarding: false,
            stop_sending_sent: false,
        }
    }

    /// The accounting invariants of a stream.
    pub open spec fn wf(&self) -> bool {
        &&& self.consumed_offset <= self.rx_bytes
        &&& self.queued_bytes <= self.rx_bytes
        &&& self.queued_bytes <= MAX_QUEUED_BYTES
        &&& self.discarding == self.stop_sending_sent
    }
}

/// The single-stream release target: `max(rx - queued, rx - reserve)`, clamped
/// to the fin offset when there is one (differences stop at zero).
pub fn reserve_target_offset(rx_bytes: u64, queued_bytes: u64, fin_offset: Option<u64>, reserve_bytes: u64) -> (r: u64)
    ensures
        r == reserve_target_spec(rx_bytes, queued_bytes, fin_offset, reserve_bytes),
        r <= rx_bytes,
{
    let unqueued = rx_bytes.saturating_sub(queued_bytes);
    let unreserved = rx_bytes.saturating_sub(reserve_bytes);
    let base = if unqueued >= unreserved { unqueued } else { unreserved };
    match fin_offset {
        Some(f) => if f < base { f } else { base },
        None => base,
    }
}

/// The offset the stream may release under `cfg`.
pub fn target_offset(flow: &FlowControlState, cfg: StreamReceiveConfig) -> (r: u64)
    ensures
        r == target_spec(*flow, cfg),
        r <= flow.rx_bytes,
{
    reserve_target_offset(flow.rx_bytes, flow.queued_bytes, flow.fin_offset, cfg.reserve_bytes)
}

/// Raises the consumed offset to `target` when that is an advance and returns
/// the offset to announce; a lower or equal target is ignored.
pub fn advance_consumed(flow: &mut FlowControlState, target: u64) -> (r: Option<u64>)
    ensures
        *final(flow) == advanced(*old(flow), target),
        r == advance_of(*old(flow), target),
{
    if target > flow.consumed_offset {
        flow.consumed_offset = target;
        Some(target)
    } else {
        None
    }
}

/// Accounts `n` bytes that arrived from the peer and says what to do with them.
/// Bytes are buffered while the queue stays within `MAX_QUEUED_BYTES`; the
/// first excess latches `discarding` and asks the peer to stop exactly once.
/// A discarding stream releases everything it receives.
pub fn handle_stream_receive(flow: &mut FlowControlState, n: u64, cfg: StreamReceiveConfig) -> (r: ReceiveOutcome)
    requires
        old(flow).wf(),
        old(flow).rx_bytes + n <= u64::MAX,
    ensures
        *final(flow) == receive_state(*old(flow), n, cfg),
        r == receive_outcome(*old(flow), n, cfg),
        final(flow).wf(),
        final(flow).consumed_offset >= old(flow).consumed_offset,
        final(flow).rx_bytes == old(flow).rx_bytes + n,
{
    let rx = flow.rx_bytes + n;
    if flow.discarding {
        flow.rx_bytes = rx;
        let consume_to = advance_consumed(flow, rx);
        return ReceiveOutcome::Discarded { consume_to };
    }
    if flow.queued_bytes + n > MAX_QUEUED_BYTES {
        let stop_sending = !flow.stop_sending_sent;
        flow.rx_bytes = rx;
        flow.discarding = true;
        flow.stop_sending_sent = true;
        let consume_to = advance_consumed(flow, rx);
        return ReceiveOutcome::Overflow { stop_sending, consume_to };
    }
    flow.rx_bytes = rx;
    flow.queued_bytes = flow.queued_bytes + n;
    let target = target_offset(flow, cfg);
    let consume_to = advance_consumed(flow, target);
    ReceiveOutcome::Buffered { consume_to }
}

/// Accounts `bytes` written out by the local sink and returns the offset to
/// release, if any. A discarding stream is left as it is.
pub fn handle_write_drained(flow: &mut FlowControlState, bytes: u64, cfg: StreamReceiveConfig) -> (r: Option<u64>)
    requires
        old(flow).wf(),
    ensures
        *final(flow) == drain_state(*old(flow), bytes, cfg),
        old(flow).discarding ==> r is None,
        !old(flow).discarding ==> r == advance_of(
            FlowControlState { queued_bytes: sat_sub(old(flow).queued_bytes, bytes), ..*old(flow) },
            target_spec(FlowControlState { queued_bytes: sat_sub(old(flow).queued_bytes, bytes), ..*old(flow) }, cfg),
        ),
        final(flow).wf(),
        final(flow).consumed_offset >= old(flow).consumed_offset,
{
    if flow.discarding {
        return None;
    }
    flow.queued_bytes = flow.queued_bytes.saturating_sub(bytes);
    let target = target_offset(flow, cfg);
    advance_consumed(flow, target)
}

/// Re-announces the stream's release point with the per-stream formula (no
/// reservation) when the connection leaves single-stream mode.
pub fn promote_stream(flow: &mut FlowControlState) -> (r: Option<u64>)
    requires
        old(flow).wf(),
    ensures
        *final(flow) == promote_state(*old(flow)),
        old(flow).discarding ==> r is None,
        !old(flow).discarding ==> r == advance_of(*old(flow), promote_target(*old(flow))),
        final(flow).wf(),
        final(flow).consumed_offset >= old(flow).consumed_offset,
{
    if flow.discarding {
        return None;
    }
    let target = reserve_target_offset(flow.rx_bytes, flow.queued_bytes, flow.fin_offset, 0);
    advance_consumed(flow, target)
}

/// Records the peer's fin at the current receive offset, once.
pub fn record_peer_fin(flow: &mut FlowControlState)
    requires
        old(flow).wf(),
    ensures
        *final(flow) == fin_state(*old(flow)),
        final(flow).wf(),
        final(flow).fin_offset is Some,
{
    if flow.fin_offset.is_none() {
        flow.fin_offset = Some(flow.rx_bytes);
    }
}

} // verus!

verus! {

/// One thing that can happen to a stream's receive accounting.
#[derive(Clone, Copy, Debug, PartialEq, Eq, Structural)]
pub enum FlowEvent {
    Receive { n: u64, cfg: StreamReceiveConfig },
    Drain { bytes: u64, cfg: StreamReceiveConfig },
    Promote,
    Fin,
}

pub open spec fn flow_step(f: FlowControlState, e: FlowEvent) -> FlowControlState {
    match e {
        FlowEvent::Receive { n, cfg } => receive_state(f, n, cfg),
        FlowEvent::Drain { bytes, cfg } => drain_state(f, bytes, cfg),
        FlowEvent::Promote => promote_state(f),
        FlowEvent::Fin => fin_state(f),
    }
}

/// Whether the event makes the engine ask the peer to stop sending.
pub open spec fn step_sends_stop(f: FlowControlState, e: FlowEvent) -> bool {
    match e {
        FlowEvent::Receive { n, cfg } => receive_outcome(f, n, cfg).sends_stop(),
        _ => false,
    }
}

/// Whether the event can be applied without the receive offset overflowing.
pub open spec fn step_fits(f: FlowControlState, e: FlowEvent) -> bool {
    match e {
        FlowEvent::Receive { n, .. } => f.rx_bytes + n <= u64::MAX,
        _ => true,
    }
}

/// The state after a sequence of events.
pub open spec fn run_flow(f: FlowControlState, evs: Seq<FlowEvent>) -> FlowControlState
    decreases evs.len(),
{
    if evs.len() == 0 {
        f
    } else {
        flow_step(run_flow(f, evs.drop_last()), evs.last())
    }
}

/// Whether every event of the sequence fits.
pub open spec fn run_fits(f: FlowControlState, evs: Seq<FlowEvent>) -> bool
    decreases evs.len(),
{
    if evs.len() == 0 {
        true
    } else {
        run_fits(f, evs.drop_last()) && step_fits(run_flow(f, evs.drop_last()), evs.last())
    }
}

/// How many stop-sending requests a sequence of events emits.
pub open spec fn stops_sent(f: FlowControlState, evs: Seq<FlowEvent>) -> nat
    decreases evs.len(),
{
    if evs.len() == 0 {
        0
    } else {
        stops_sent(f, evs.drop_last()) + if step_sends_stop(run_flow(f, evs.drop_last()), evs.last()) {
            1nat
        } else {
            0nat
        }
    }
}

proof fn lemma_step_wf(f: FlowControlState, e: FlowEvent)
    requires
        f.wf(),
        step_fits(f, e),
    ensures
        flow_step(f, e).wf(),
        flow_step(f, e).consumed_offset >= f.consumed_offset,
        !f.discarding && !f.stop_sending_sent ==> step_sends_stop(f, e) == flow_step(f, e).discarding,
        f.discarding ==> flow_step(f, e).discarding,
        step_sends_stop(f, e) ==> !f.stop_sending_sent,
        flow_step(f, e).stop_sending_sent == (f.stop_sending_sent || step_sends_stop(f, e)),
{
}

/// The released offset never moves back and never passes what was received;
/// the queue toward the local sink never exceeds `MAX_QUEUED_BYTES`.
pub proof fn lemma_consume_monotone(f: FlowControlState, evs: Seq<FlowEvent>, i: int, j: int)
    requires
        f.wf(),
        run_fits(f, evs),
        0 <= i <= j <= evs.len(),
    ensures
        run_flow(f, evs.take(i)).consumed_offset <= run_flow(f, evs.take(j)).consumed_offset,
        run_flow(f, evs.take(j)).consumed_offset <= run_flow(f, evs.take(j)).rx_bytes,
        run_flow(f, evs.take(j)).queued_bytes <= MAX_QUEUED_BYTES,
    decreases j - i,
{
    lemma_run_wf(f, evs, j);
    if i < j {
        lemma_consume_monotone(f, evs, i, j - 1);
        lemma_run_wf(f, evs, j - 1);
        lemma_run_fits_prefix(f, evs, j);
        assert(evs.take(j).drop_last() =~= evs.take(j - 1));
        lemma_step_wf(run_flow(f, evs.take(j - 1)), evs[j - 1]);
    }
}

proof fn lemma_run_fits_prefix(f: FlowControlState, evs: Seq<FlowEvent>, k: int)
    requires
        run_fits(f, evs),
        0 <= k <= evs.len(),
    ensures
        run_fits(f, evs.take(k)),
    decreases evs.len(),
{
    if k < evs.len() {
        lemma_run_fits_prefix(f, evs.drop_last(), k);
        assert(evs.drop_last().take(k) =~= evs.take(k));
    } else {
        assert(evs.take(k) =~= evs);
    }
}

proof fn lemma_run_wf(f: FlowControlState, evs: Seq<FlowEvent>, k: int)
    requires
        f.wf(),
        run_fits(f, evs),
        0 <= k <= evs.len(),
    ensures
        run_flow(f, evs.take(k)).wf(),
    decreases k,
{
    if k > 0 {
        lemma_run_wf(f, evs, k - 1);
        lemma_run_fits_prefix(f, evs, k);
        assert(evs.take(k).drop_last() =~= evs.take(k - 1));
        lemma_step_wf(run_flow(f, evs.take(k - 1)), evs[k - 1]);
    } else {
        assert(evs.take(0) =~= Seq::<FlowEvent>::empty());
    }
}

/// Starting from a stream that never overflowed, a sequence of events asks the
/// peer to stop sending at most once, and exactly once if the stream ends up
/// discarding; the queue stays within `MAX_QUEUED_BYTES` throughout.
pub proof fn lemma_stop_sending_once(f: FlowControlState, evs: Seq<FlowEvent>)
    requires
        f.wf(),
        !f.discarding,
        !f.stop_sending_sent,
        run_fits(f, evs),
    ensures
        stops_sent(f, evs) == if run_flow(f, evs).discarding { 1nat } else { 0nat },
        stops_sent(f, evs) <= 1,
        run_flow(f, evs).discarding == run_flow(f, evs).stop_sending_sent,
        run_flow(f, evs).queued_bytes <= MAX_QUEUED_BYTES,
    decreases evs.len(),
{
    if evs.len() > 0 {
        let prev = evs.drop_last();
        lemma_stop_sending_once(f, prev);
        lemma_run_wf(f, evs, evs.len() - 1);
        assert(evs.take(evs.len() - 1) =~= prev);
        lemma_step_wf(run_flow(f, prev), evs.last());
    }
}

} // verus!
