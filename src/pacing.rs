//! Poll pacing: how many empty poll queries each resolver gets per tick, the
//! demand floor set by replies, idle throttling, and the loop's sleep.

use vstd::prelude::*;

verus! {

/// Without streams for this long the client counts as idle.
pub const IDLE_THRESHOLD_US: u64 = 2_000_000;

/// Longest sleep while work is pending.
pub const DNS_POLL_SLICE_US: u64 = 50_000;

/// Longest sleep without work, short enough to notice a stop request in time.
pub const MAX_SLEEP_US: u64 = 2_000_000;

/// Cap passed to the QUIC layer when asking for its next wake-up.
pub const DNS_WAKE_DELAY_MAX_US: i64 = 10_000_000;

/// How a resolver treats queries.
#[derive(Clone, Copy, Debug, PartialEq, Eq, Structural)]
pub enum ResolverMode {
    /// Keeps per-query state; only a demand counter is tracked.
    Recursive,
    /// Answers from the tunnel server directly; poll ids are tracked.
    Authoritative,
}

/// Path quality figures of one resolver path, already converted to polls.
#[derive(Clone, Copy, Debug, PartialEq, Eq, Structural)]
pub struct PollInputs {
    /// Target number of polls in flight.
    pub pacing_target: u64,
    /// Estimated packets in flight.
    pub inflight_packets: u64,
    pub has_ready_stream: bool,
    pub flow_blocked: bool,
    /// Most polls the path may send in one tick.
    pub burst_max: u64,
}

/// Idle tracking shared by the resolvers of a connection.
#[derive(Clone, Copy, Debug, PartialEq, Eq, Structural)]
pub struct PollScheduler {
    /// Zero turns idle throttling off.
    pub idle_poll_interval_us: u64,
    pub last_active_at: u64,
    pub last_idle_poll_at: u64,
}

pub open spec fn sat_sub(a: u64, b: u64) -> u64 {
    if a >= b { (a - b) as u64 } else { 0 }
}

pub open spec fn min_u64(a: u64, b: u64) -> u64 {
    if a <= b { a } else { b }
}

pub open spec fn max_u64(a: u64, b: u64) -> u64 {
    if a >= b { a } else { b }
}

/// Target polls in flight for a congestion window: whole datagrams in it.
pub fn cwnd_target_polls(cwnd: u64, mtu: u64) -> (r: u64)
    requires
        mtu > 0,
    ensures
        r == cwnd / mtu,
{
    cwnd / mtu
}

/// Packets in flight for the bytes in transit, rounded up.
pub fn inflight_packet_estimate(bytes_in_transit: u64, mtu: u64) -> (r: u64)
    requires
        mtu > 0,
    ensures
        r as int == (bytes_in_transit as int + mtu as int - 1) / (mtu as int),
{
    let q = bytes_in_transit / mtu;
    let rem = bytes_in_transit % mtu;
    proof {
        vstd::arithmetic::div_mod::lemma_fundamental_div_mod(bytes_in_transit as int, mtu as int);
        lemma_round_up(bytes_in_transit as int, mtu as int, q as int, rem as int);
    }
    if rem == 0 { q } else { q + 1 }
}

proof fn lemma_round_up(b: int, m: int, q: int, rem: int)
    requires
        m > 0,
        0 <= rem < m,
        b == m * q + rem,
        q >= 0,
        b <= u64::MAX,
    ensures
        rem != 0 ==> q + 1 <= u64::MAX,
        rem == 0 ==> (b + m - 1) / m == q,
        rem != 0 ==> (b + m - 1) / m == q + 1,
{
    if rem == 0 {
        assert((q * m + m - 1) / m == q) by (nonlinear_arith)
            requires m > 0, q >= 0;
    } else {
        assert(q + 1 <= u64::MAX) by (nonlinear_arith)
            requires m > 1, q >= 0, m * q + rem <= u64::MAX, rem > 0;
        assert((q * m + rem + m - 1) / m == q + 1) by (nonlinear_arith)
            requires m > 0, q >= 0, 0 < rem < m;
    }
}

/// Polls wanted by pacing: the target not yet in flight.
pub fn pacing_deficit(target: u64, inflight: u64) -> (r: u64)
    ensures
        r == sat_sub(target, inflight),
{
    target.saturating_sub(inflight)
}

/// The QUIC layer's wake-up delay; a negative one means now.
pub fn wake_delay_us(delay: i64) -> (r: u64)
    ensures
        delay < 0 ==> r == 0,
        delay >= 0 ==> r == delay,
{
    if delay < 0 { 0 } else { delay as u64 }
}

/// How long the loop may sleep: within a 50 ms slice while work is pending,
/// else up to 2 s; never zero.
pub fn sleep_timeout_us(delay_us: u64, has_work: bool) -> (r: u64)
    ensures
        has_work ==> r == if delay_us < 1 { 1 } else if delay_us > DNS_POLL_SLICE_US { DNS_POLL_SLICE_US } else { delay_us },
        !has_work ==> r == if delay_us < 1 { 1 } else if delay_us > MAX_SLEEP_US { MAX_SLEEP_US } else { delay_us },
        1 <= r <= MAX_SLEEP_US,
{
    let d = if delay_us < 1 { 1 } else { delay_us };
    if has_work {
        if d > DNS_POLL_SLICE_US { DNS_POLL_SLICE_US } else { d }
    } else {
        if d > MAX_SLEEP_US { MAX_SLEEP_US } else { d }
    }
}

/// The next rolling 16-bit DNS id.
pub fn next_dns_id(id: u16) -> (r: u16)
    ensures
        r == if id == u16::MAX { 0 } else { (id + 1) as u16 },
{
    id.wrapping_add(1)
}

pub open spec fn idle_spec(s: PollScheduler, now: u64) -> bool {
    s.idle_poll_interval_us > 0 && sat_sub(now, s.last_active_at) >= IDLE_THRESHOLD_US
}

/// Polls an authoritative resolver sends this tick: the pacing deficit
/// (none while a ready stream is not flow blocked), raised to the demand
/// floor, limited to one per idle interval when idle, and capped by the burst.
pub open spec fn auth_polls_spec(s: PollScheduler, pending: u64, i: PollInputs, now: u64) -> u64 {
    let deficit = if i.has_ready_stream && !i.flow_blocked { 0 } else { sat_sub(i.pacing_target, i.inflight_packets) };
    let wanted = max_u64(deficit, pending);
    let gated = if idle_spec(s, now) && wanted > 0 {
        if sat_sub(now, s.last_idle_poll_at) < s.idle_poll_interval_us { 0 } else { 1 }
    } else {
        wanted
    };
    min_u64(gated, i.burst_max)
}

/// The scheduler after such a tick: an idle tick that polls is remembered.
pub open spec fn auth_after_spec(s: PollScheduler, pending: u64, i: PollInputs, now: u64) -> PollScheduler {
    if idle_spec(s, now) && auth_polls_spec(s, pending, i, now) > 0 {
        PollScheduler { last_idle_poll_at: now, ..s }
    } else {
        s
    }
}

impl PollScheduler {
    /// A scheduler for a new connection.
    pub fn new(idle_poll_interval_ms: u64) -> (r: PollScheduler)
        ensures
            r.idle_poll_interval_us as int == if idle_poll_interval_ms * 1000 > u64::MAX {
                u64::MAX as int
            } else {
                idle_poll_interval_ms * 1000
            },
            r.last_active_at == 0,
            r.last_idle_poll_at == 0,
    {
        let interval: u64 = if idle_poll_interval_ms > u64::MAX / 1000 { u64::MAX } else { idle_poll_interval_ms * 1000 };
        PollScheduler { idle_poll_interval_us: interval, last_active_at: 0, last_idle_poll_at: 0 }
    }

    /// Notes the number of streams at `now`; any stream counts as activity.
    pub fn observe_streams(&mut self, now: u64, streams: usize)
        ensures
            *final(self) == if streams > 0 { PollScheduler { last_active_at: now, ..*old(self) } } else { *old(self) },
    {
        if streams > 0 {
            self.last_active_at = now;
        }
    }

    /// Whether the client has been without streams for the idle threshold
    /// (never when idle throttling is off).
    pub fn is_idle(&self, now: u64) -> (r: bool)
        ensures
            r == idle_spec(*self, now),
    {
        self.idle_poll_interval_us > 0 && now.saturating_sub(self.last_active_at) >= IDLE_THRESHOLD_US
    }

    /// Polls for an authoritative resolver this tick. Its demand counter is
    /// spent; an idle tick that polls is remembered as the last idle poll.
    pub fn authoritative_polls(&mut self, pending_polls: &mut u64, inputs: PollInputs, now: u64) -> (r: u64)
        ensures
            r == auth_polls_spec(*old(self), *old(pending_polls), inputs, now),
            *final(self) == auth_after_spec(*old(self), *old(pending_polls), inputs, now),
            *final(pending_polls) == 0,
            r <= inputs.burst_max,
    {
        let mut deficit = inputs.pacing_target.saturating_sub(inputs.inflight_packets);
        if inputs.has_ready_stream && !inputs.flow_blocked {
            deficit = 0;
        }
        let demand = *pending_polls;
        *pending_polls = 0;
        let mut wanted = if deficit >= demand { deficit } else { demand };
        let idle = self.is_idle(now);
        if idle && wanted > 0 {
            if now.saturating_sub(self.last_idle_poll_at) < self.idle_poll_interval_us {
                wanted = 0;
            } else {
                wanted = 1;
            }
        }
        let to_send = if wanted <= inputs.burst_max { wanted } else { inputs.burst_max };
        if idle && to_send > 0 {
            self.last_idle_poll_at = now;
        }
        to_send
    }

    /// Whether a resolver keeps the loop on its short sleep: it wants polls
    /// (an idle authoritative one only once its idle interval has passed), or
    /// it has polls in flight while the client is not idle.
    pub fn resolver_has_work(&self, mode: ResolverMode, wanted_polls: u64, inflight_nonempty: bool, now: u64) -> (r: bool)
        ensures
            r == ((wanted_polls > 0 && (!(idle_spec(*self, now) && mode == ResolverMode::Authoritative)
                || sat_sub(now, self.last_idle_poll_at) >= self.idle_poll_interval_us))
                || (mode == ResolverMode::Authoritative && inflight_nonempty && !idle_spec(*self, now))),
    {
        let idle = self.is_idle(now);
        let authoritative = matches!(mode, ResolverMode::Authoritative);
        let mut has_work = false;
        if wanted_polls > 0 {
            if idle && authoritative {
                if now.saturating_sub(self.last_idle_poll_at) >= self.idle_poll_interval_us {
                    has_work = true;
                }
            } else {
                has_work = true;
            }
        }
        if authoritative && inflight_nonempty && !idle {
            has_work = true;
        }
        has_work
    }
}

/// Polls a recursive resolver sends this tick: its demand, capped by the burst.
pub fn recursive_poll_budget(pending_polls: u64, burst_max: u64) -> (r: u64)
    ensures
        r == min_u64(pending_polls, burst_max),
{
    if pending_polls <= burst_max { pending_polls } else { burst_max }
}

/// The demand left after a recursive resolver was given `budget` polls of
/// which `unsent` could not be sent.
pub fn settle_recursive_polls(pending_polls: u64, budget: u64, unsent: u64) -> (r: u64)
    requires
        budget <= pending_polls,
        unsent <= budget,
    ensures
        r == pending_polls - budget + unsent,
{
    pending_polls - budget + unsent
}

} // verus!

verus! {

/// A poll query still awaiting its answer.
#[derive(Clone, Copy, Debug, PartialEq, Eq, Structural)]
pub struct InflightPoll {
    pub id: u16,
    pub expires_at: u64,
}

/// Poll bookkeeping of one resolver path.
pub struct ResolverPolls {
    pub mode: ResolverMode,
    /// Polls owed because replies said more data was waiting.
    pub pending_polls: u64,
    /// Poll ids in flight (authoritative paths only).
    pub inflight: Vec<InflightPoll>,
    /// The path was added to the QUIC connection.
    pub added: bool,
}

pub open spec fn bumped(c: u64) -> u64 {
    if c == u64::MAX { c } else { (c + 1) as u64 }
}

pub open spec fn tracks(polls: Seq<InflightPoll>, id: u16) -> bool {
    exists|i: int| 0 <= i < polls.len() && (#[trigger] polls[i]).id == id
}

/// Whether a reply with this id belongs to the path: any reply on a recursive
/// path, a reply to a live poll on an authoritative one.
pub open spec fn reply_accepted(mode: ResolverMode, polls: Seq<InflightPoll>, id: u16) -> bool {
    mode == ResolverMode::Recursive || tracks(polls, id)
}

/// The demand after a reply: one more poll owed when the reply belongs to the
/// path and says the server has more queued.
pub open spec fn reply_pending(pending: u64, accepted: bool, more_pending: bool) -> u64 {
    if accepted && more_pending { bumped(pending) } else { pending }
}

impl ResolverPolls {
    /// A path with nothing owed and nothing in flight.
    pub fn new(mode: ResolverMode) -> (r: ResolverPolls)
        ensures
            r.mode == mode,
            r.pending_polls == 0,
            r.inflight@.len() == 0,
            !r.added,
    {
        ResolverPolls { mode, pending_polls: 0, inflight: Vec::new(), added: false }
    }

    /// Records a poll sent with `id` that expires at `expires_at`.
    pub fn record_poll(&mut self, id: u16, expires_at: u64)
        ensures
            final(self).inflight@ == old(self).inflight@.push(InflightPoll { id, expires_at }),
            final(self).mode == old(self).mode,
            final(self).pending_polls == old(self).pending_polls,
            final(self).added == old(self).added,
    {
        self.inflight.push(InflightPoll { id, expires_at });
    }

    /// Forgets the polls whose deadline has passed at `now`; their answers
    /// will not be awaited.
    pub fn expire_inflight_polls(&mut self, now: u64)
        ensures
            forall|p: InflightPoll| final(self).inflight@.contains(p) <==> (old(self).inflight@.contains(p) && p.expires_at > now),
            final(self).mode == old(self).mode,
            final(self).pending_polls == old(self).pending_polls,
            final(self).added == old(self).added,
    {
        let mut kept: Vec<InflightPoll> = Vec::new();
        let mut i: usize = 0;
        while i < self.inflight.len()
            invariant
                i <= self.inflight@.len(),
                self.inflight@ == old(self).inflight@,
                forall|p: InflightPoll| kept@.contains(p) <==> (self.inflight@.take(i as int).contains(p) && p.expires_at > now),
            decreases self.inflight@.len() - i,
        {
            let p = self.inflight[i];
            let ghost kept0 = kept@;
            if p.expires_at > now {
                kept.push(p);
            }
            proof {
                assert(self.inflight@.take(i as int + 1) =~= self.inflight@.take(i as int).push(p));
                lemma_filter_step(self.inflight@.take(i as int), p, kept0, |q: InflightPoll| q.expires_at > now);
            }
            i = i + 1;
        }
        assert(self.inflight@.take(i as int) =~= self.inflight@);
        self.inflight = kept;
    }

    /// Handles a reply carrying `id`; says whether it belongs to the path. An
    /// authoritative path stops waiting for that id. A reply that belongs and
    /// says more is queued raises the demand by one.
    pub fn on_reply(&mut self, id: u16, more_pending: bool) -> (accepted: bool)
        ensures
            accepted == reply_accepted(old(self).mode, old(self).inflight@, id),
            final(self).pending_polls == reply_pending(old(self).pending_polls, accepted, more_pending),
            final(self).mode == old(self).mode,
            final(self).added == old(self).added,
            !tracks(final(self).inflight@, id),
            forall|p: InflightPoll| #[trigger] final(self).inflight@.contains(p) <==> (old(self).inflight@.contains(p) && p.id != id),
    {
        let mut kept: Vec<InflightPoll> = Vec::new();
        let mut live = false;
        let mut i: usize = 0;
        while i < self.inflight.len()
            invariant
                i <= self.inflight@.len(),
                self.inflight@ == old(self).inflight@,
                self.mode == old(self).mode,
                self.pending_polls == old(self).pending_polls,
                self.added == old(self).added,
                live == tracks(self.inflight@.take(i as int), id),
                forall|p: InflightPoll| #[trigger] kept@.contains(p) <==> (self.inflight@.take(i as int).contains(p) && p.id != id),
                forall|j: int| 0 <= j < kept@.len() ==> (#[trigger] kept@[j]).id != id,
            decreases self.inflight@.len() - i,
        {
            let p = self.inflight[i];
            let ghost kept0 = kept@;
            if p.id == id {
                live = true;
            } else {
                kept.push(p);
            }
            proof {
                let t0 = self.inflight@.take(i as int);
                let t1 = self.inflight@.take(i as int + 1);
                assert(t1 =~= t0.push(p));
                assert(live == tracks(t1, id)) by {
                    if tracks(t1, id) && !tracks(t0, id) {
                        let j = choose|j: int| 0 <= j < t1.len() && (#[trigger] t1[j]).id == id;
                        if j < i {
                            assert(t0[j] == t1[j]);
                        }
                    }
                    if tracks(t0, id) {
                        let j = choose|j: int| 0 <= j < t0.len() && (#[trigger] t0[j]).id == id;
                        assert(t1[j] == t0[j]);
                    }
                    if p.id == id {
                        assert(t1[i as int] == p);
                    }
                }
                lemma_filter_step(t0, p, kept0, |q: InflightPoll| q.id != id);
            }
            i = i + 1;
        }
        assert(self.inflight@.take(i as int) =~= self.inflight@);
        self.inflight = kept;
        proof {
            if tracks(self.inflight@, id) {
                let j = choose|j: int| 0 <= j < self.inflight@.len() && (#[trigger] self.inflight@[j]).id == id;
                assert(kept@[j].id != id);
            }
        }
        let accepted = matches!(self.mode, ResolverMode::Recursive) || live;
        if accepted && more_pending {
            self.pending_polls = self.pending_polls.saturating_add(1);
        }
        accepted
    }

    /// The connection is flow blocked with a ready stream: an added recursive
    /// path owes at least one poll so that replies keep pulling data.
    pub fn on_flow_blocked(&mut self)
        ensures
            final(self).pending_polls == if old(self).mode == ResolverMode::Recursive && old(self).added {
                max_u64(old(self).pending_polls, 1)
            } else {
                old(self).pending_polls
            },
            final(self).inflight@ == old(self).inflight@,
            final(self).mode == old(self).mode,
            final(self).added == old(self).added,
    {
        if matches!(self.mode, ResolverMode::Recursive) && self.added && self.pending_polls < 1 {
            self.pending_polls = 1;
        }
    }
}

proof fn lemma_filter_step(t0: Seq<InflightPoll>, p: InflightPoll, kept0: Seq<InflightPoll>, keep: spec_fn(InflightPoll) -> bool)
    requires
        forall|q: InflightPoll| kept0.contains(q) <==> (t0.contains(q) && keep(q)),
    ensures
        forall|q: InflightPoll| (if keep(p) { kept0.push(p) } else { kept0 }).contains(q) <==> (t0.push(p).contains(q) && keep(q)),
{
    let k = if keep(p) { kept0.push(p) } else { kept0 };
    let t1 = t0.push(p);
    assert forall|q: InflightPoll| k.contains(q) <==> (t1.contains(q) && keep(q)) by {
        if k.contains(q) {
            let j = choose|j: int| 0 <= j < k.len() && k[j] == q;
            if j < kept0.len() {
                assert(kept0[j] == q);
                assert(kept0.contains(q));
                let m = choose|m: int| 0 <= m < t0.len() && t0[m] == q;
                assert(t1[m] == q);
            } else {
                assert(q == p);
                assert(t1[t0.len() as int] == p);
            }
        }
        if t1.contains(q) && keep(q) {
            let j = choose|j: int| 0 <= j < t1.len() && t1[j] == q;
            if j < t0.len() {
                assert(t0[j] == q);
                assert(t0.contains(q));
                let m = choose|m: int| 0 <= m < kept0.len() && kept0[m] == q;
                assert(k[m] == q);
            } else {
                assert(q == p);
                assert(k[k.len() - 1] == p);
            }
        }
    }
}

/// A reply saying the server has more queued makes the next tick poll that
/// resolver at least once: a recursive path always (given a burst of at least
/// one), an authoritative path whenever the client is not idle.
pub proof fn lemma_demand_floor(
    mode: ResolverMode,
    polls: Seq<InflightPoll>,
    pending: u64,
    id: u16,
    s: PollScheduler,
    i: PollInputs,
    now: u64,
)
    requires
        reply_accepted(mode, polls, id),
        i.burst_max >= 1,
        mode == ResolverMode::Authoritative ==> !idle_spec(s, now),
    ensures
        reply_pending(pending, true, true) >= 1,
        mode == ResolverMode::Recursive ==> min_u64(reply_pending(pending, true, true), i.burst_max) >= 1,
        mode == ResolverMode::Authoritative ==> auth_polls_spec(s, reply_pending(pending, true, true), i, now) >= 1,
{
}

/// Once idle, an authoritative resolver polls at most once per tick, and after
/// an idle tick that polled, no poll follows until the idle interval has passed.
pub proof fn lemma_idle_throttle(
    s: PollScheduler,
    pending1: u64,
    i1: PollInputs,
    t1: u64,
    pending2: u64,
    i2: PollInputs,
    t2: u64,
)
    requires
        idle_spec(s, t1),
        auth_polls_spec(s, pending1, i1, t1) > 0,
        idle_spec(auth_after_spec(s, pending1, i1, t1), t2),
        t1 <= t2,
        t2 - t1 < s.idle_poll_interval_us,
    ensures
        auth_polls_spec(s, pending1, i1, t1) == 1,
        auth_after_spec(s, pending1, i1, t1).last_idle_poll_at == t1,
        auth_polls_spec(auth_after_spec(s, pending1, i1, t1), pending2, i2, t2) == 0,
{
}

} // verus!

verus! {

/// One resolver's figures for a tick of the client loop.
#[derive(Clone, Copy, Debug, PartialEq, Eq, Structural)]
pub struct ResolverTick {
    pub mode: ResolverMode,
    /// The resolver's path is still known to the QUIC layer.
    pub active: bool,
    pub pending_polls: u64,
    /// Authoritative polls are in flight.
    pub inflight_nonempty: bool,
    pub inputs: PollInputs,
}

/// Polls a resolver wants when the loop decides how long to sleep: the pacing
/// deficit raised to the demand floor (authoritative), or the demand (recursive).
pub open spec fn wanted_for_sleep(t: ResolverTick) -> u64 {
    match t.mode {
        ResolverMode::Authoritative => max_u64(sat_sub(t.inputs.pacing_target, t.inputs.inflight_packets), t.pending_polls),
        ResolverMode::Recursive => t.pending_polls,
    }
}

pub open spec fn work_spec(s: PollScheduler, t: ResolverTick, now: u64) -> bool {
    t.active && ((wanted_for_sleep(t) > 0 && (!(idle_spec(s, now) && t.mode == ResolverMode::Authoritative)
        || sat_sub(now, s.last_idle_poll_at) >= s.idle_poll_interval_us))
        || (t.mode == ResolverMode::Authoritative && t.inflight_nonempty && !idle_spec(s, now)))
}

pub open spec fn sleep_spec(delay_us: u64, has_work: bool) -> u64 {
    let d = if delay_us < 1 { 1 } else { delay_us };
    if has_work {
        min_u64(d, DNS_POLL_SLICE_US)
    } else {
        min_u64(d, MAX_SLEEP_US)
    }
}

/// How long the loop sleeps this tick: the short slice when any stream is
/// open or any active resolver has work, the long cap otherwise.
pub fn plan_sleep(sched: &PollScheduler, ticks: &Vec<ResolverTick>, streams: usize, now: u64, delay_us: u64) -> (r: u64)
    ensures
        r == sleep_spec(
            delay_us,
            streams > 0 || exists|i: int| 0 <= i < ticks@.len() && work_spec(*sched, #[trigger] ticks@[i], now),
        ),
{
    let mut has_work = streams > 0;
    let mut i: usize = 0;
    while i < ticks.len()
        invariant
            i <= ticks@.len(),
            has_work == (streams > 0 || exists|j: int| 0 <= j < i && work_spec(*sched, #[trigger] ticks@[j], now)),
        decreases ticks@.len() - i,
    {
        let t = ticks[i];
        if t.active {
            let wanted = match t.mode {
                ResolverMode::Authoritative => {
                    let d = pacing_deficit(t.inputs.pacing_target, t.inputs.inflight_packets);
                    if d >= t.pending_polls { d } else { t.pending_polls }
                },
                ResolverMode::Recursive => t.pending_polls,
            };
            if sched.resolver_has_work(t.mode, wanted, t.inflight_nonempty, now) {
                has_work = true;
            }
        }
        assert(work_spec(*sched, ticks@[i as int], now) ==> has_work);
        i = i + 1;
    }
    sleep_timeout_us(delay_us, has_work)
}

/// Polls and demand left for one resolver after a tick.
pub open spec fn is_auth(t: ResolverTick) -> bool {
    t.active && t.mode == ResolverMode::Authoritative
}

/// Polls for every resolver this tick, in resolver order, with the demand
/// each keeps: an active authoritative resolver spends its demand, a recursive
/// one keeps it until its sends are settled, an inactive one sends nothing.
/// Authoritative resolvers share the idle throttle, so an idle tick sends at
/// most one authoritative poll in all, and none within the idle interval of
/// the last one.
pub fn plan_polls(sched: &mut PollScheduler, ticks: &Vec<ResolverTick>, now: u64) -> (r: Vec<(u64, u64)>)
    ensures
        r@.len() == ticks@.len(),
        forall|i: int| 0 <= i < ticks@.len() && !(#[trigger] ticks@[i]).active ==> r@[i] == (0u64, ticks@[i].pending_polls),
        forall|i: int| 0 <= i < ticks@.len() && (#[trigger] ticks@[i]).active && ticks@[i].mode == ResolverMode::Recursive
            ==> r@[i] == (min_u64(ticks@[i].pending_polls, ticks@[i].inputs.burst_max), ticks@[i].pending_polls),
        forall|i: int| 0 <= i < ticks@.len() && is_auth(#[trigger] ticks@[i]) ==> r@[i].1 == 0 && r@[i].0 <= ticks@[i].inputs.burst_max,
        forall|i: int| 0 <= i < ticks@.len() && is_auth(#[trigger] ticks@[i]) && !idle_spec(*old(sched), now) ==> r@[i].0
            == auth_polls_spec(*old(sched), ticks@[i].pending_polls, ticks@[i].inputs, now),
        forall|i: int| 0 <= i < ticks@.len() && (#[trigger] ticks@[i]).active && ticks@[i].inputs.burst_max >= 1
            && ticks@[i].pending_polls > 0 && (ticks@[i].mode == ResolverMode::Recursive || !idle_spec(*old(sched), now))
            ==> r@[i].0 >= 1,
        idle_spec(*old(sched), now) ==> forall|i: int, j: int| 0 <= i < j < ticks@.len() && is_auth(#[trigger] ticks@[i])
            && is_auth(#[trigger] ticks@[j]) ==> r@[i].0 == 0 || r@[j].0 == 0,
        idle_spec(*old(sched), now) ==> forall|i: int| 0 <= i < ticks@.len() && is_auth(#[trigger] ticks@[i]) ==> r@[i].0 <= 1,
        idle_spec(*old(sched), now) && sat_sub(now, old(sched).last_idle_poll_at) < old(sched).idle_poll_interval_us
            ==> forall|i: int| 0 <= i < ticks@.len() && is_auth(#[trigger] ticks@[i]) ==> r@[i].0 == 0,
        final(sched).idle_poll_interval_us == old(sched).idle_poll_interval_us,
        final(sched).last_active_at == old(sched).last_active_at,
{
    let ghost s0 = *sched;
    let mut out: Vec<(u64, u64)> = Vec::new();
    let mut i: usize = 0;
    while i < ticks.len()
        invariant
            i <= ticks@.len(),
            out@.len() == i,
            sched.idle_poll_interval_us == s0.idle_poll_interval_us,
            sched.last_active_at == s0.last_active_at,
            idle_spec(*sched, now) == idle_spec(s0, now),
            !idle_spec(s0, now) ==> *sched == s0,
            forall|j: int| 0 <= j < i && !(#[trigger] ticks@[j]).active ==> out@[j] == (0u64, ticks@[j].pending_polls),
            forall|j: int| 0 <= j < i && (#[trigger] ticks@[j]).active && ticks@[j].mode == ResolverMode::Recursive
                ==> out@[j] == (min_u64(ticks@[j].pending_polls, ticks@[j].inputs.burst_max), ticks@[j].pending_polls),
            forall|j: int| 0 <= j < i && is_auth(#[trigger] ticks@[j]) ==> out@[j].1 == 0 && out@[j].0 <= ticks@[j].inputs.burst_max,
            forall|j: int| 0 <= j < i && is_auth(#[trigger] ticks@[j]) && !idle_spec(s0, now) ==> out@[j].0
                == auth_polls_spec(s0, ticks@[j].pending_polls, ticks@[j].inputs, now),
            idle_spec(s0, now) ==> forall|j: int| 0 <= j < i && is_auth(#[trigger] ticks@[j]) && out@[j].0 > 0
                ==> sched.last_idle_poll_at == now && out@[j].0 == 1,
            idle_spec(s0, now) ==> forall|a: int, b: int| 0 <= a < b < i && is_auth(#[trigger] ticks@[a])
                && is_auth(#[trigger] ticks@[b]) ==> out@[a].0 == 0 || out@[b].0 == 0,
            idle_spec(s0, now) && sat_sub(now, s0.last_idle_poll_at) < s0.idle_poll_interval_us ==> *sched == s0
                && forall|j: int| 0 <= j < i && is_auth(#[trigger] ticks@[j]) ==> out@[j].0 == 0,
        decreases ticks@.len() - i,
    {
        let t = ticks[i];
        let ghost before = *sched;
        if !t.active {
            out.push((0, t.pending_polls));
        } else {
            match t.mode {
                ResolverMode::Recursive => {
                    let budget = recursive_poll_budget(t.pending_polls, t.inputs.burst_max);
                    out.push((budget, t.pending_polls));
                },
                ResolverMode::Authoritative => {
                    let mut pending = t.pending_polls;
                    let n = sched.authoritative_polls(&mut pending, t.inputs, now);
                    proof {
                        if idle_spec(s0, now) && before.last_idle_poll_at == now {
                            assert(sat_sub(now, before.last_idle_poll_at) == 0);
                        }
                    }
                    out.push((n, pending));
                },
            }
        }
        i = i + 1;
    }
    out
}

} // verus!
