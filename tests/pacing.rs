use slipstream::pacing::{
    cwnd_target_polls, inflight_packet_estimate, next_dns_id, pacing_deficit,
    plan_polls, plan_sleep, recursive_poll_budget, settle_recursive_polls, ResolverTick, sleep_timeout_us, wake_delay_us, PollInputs,
    PollScheduler, ResolverMode, ResolverPolls, DNS_POLL_SLICE_US, MAX_SLEEP_US,
};

fn inputs(target: u64, inflight: u64, burst: u64) -> PollInputs {
    PollInputs {
        pacing_target: target,
        inflight_packets: inflight,
        has_ready_stream: false,
        flow_blocked: false,
        burst_max: burst,
    }
}

#[test]
fn window_arithmetic() {
    assert_eq!(cwnd_target_polls(10_000, 1000), 10);
    assert_eq!(cwnd_target_polls(999, 1000), 0);
    assert_eq!(inflight_packet_estimate(0, 1000), 0);
    assert_eq!(inflight_packet_estimate(1, 1000), 1);
    assert_eq!(inflight_packet_estimate(2000, 1000), 2);
    assert_eq!(inflight_packet_estimate(2001, 1000), 3);
    assert_eq!(inflight_packet_estimate(u64::MAX, 1), u64::MAX);
    assert_eq!(pacing_deficit(5, 7), 0);
    assert_eq!(pacing_deficit(7, 5), 2);
}

#[test]
fn sleep_bounds() {
    assert_eq!(wake_delay_us(-5), 0);
    assert_eq!(wake_delay_us(30), 30);
    assert_eq!(sleep_timeout_us(0, true), 1);
    assert_eq!(sleep_timeout_us(10_000_000, true), DNS_POLL_SLICE_US);
    assert_eq!(sleep_timeout_us(10_000_000, false), MAX_SLEEP_US);
    assert_eq!(sleep_timeout_us(700, false), 700);
}

#[test]
fn dns_id_rolls_over() {
    assert_eq!(next_dns_id(1), 2);
    assert_eq!(next_dns_id(u16::MAX), 0);
}

#[test]
fn demand_floor_beats_pacing() {
    let mut sched = PollScheduler::new(1000);
    sched.observe_streams(5_000_000, 1);
    let mut pending = 3;
    let n = sched.authoritative_polls(&mut pending, inputs(4, 4, 16), 5_000_000);
    assert_eq!(n, 3);
    assert_eq!(pending, 0);
    let mut pending = 40;
    assert_eq!(sched.authoritative_polls(&mut pending, inputs(0, 0, 16), 5_000_000), 16);
}

#[test]
fn ready_stream_suppresses_pacing_polls() {
    let mut sched = PollScheduler::new(0);
    let mut pending = 0;
    let mut i = inputs(10, 2, 16);
    i.has_ready_stream = true;
    assert_eq!(sched.authoritative_polls(&mut pending, i, 1), 0);
    i.flow_blocked = true;
    assert_eq!(sched.authoritative_polls(&mut pending, i, 1), 8);
}

#[test]
fn idle_throttle_allows_one_poll_per_interval() {
    let mut sched = PollScheduler::new(1000);
    let now = 3_000_000;
    assert!(sched.is_idle(now));
    let mut pending = 5;
    assert_eq!(sched.authoritative_polls(&mut pending, inputs(10, 0, 16), now), 1);
    assert_eq!(sched.last_idle_poll_at, now);
    let mut pending = 5;
    assert_eq!(sched.authoritative_polls(&mut pending, inputs(10, 0, 16), now + 999_999), 0);
    let mut pending = 5;
    assert_eq!(sched.authoritative_polls(&mut pending, inputs(10, 0, 16), now + 1_000_000), 1);
}

#[test]
fn idle_throttle_off_without_interval() {
    let sched = PollScheduler::new(0);
    assert!(!sched.is_idle(u64::MAX));
}

#[test]
fn has_work_rules() {
    let mut sched = PollScheduler::new(1000);
    let now = 3_000_000;
    assert!(sched.resolver_has_work(ResolverMode::Recursive, 1, false, now));
    assert!(sched.resolver_has_work(ResolverMode::Authoritative, 1, false, now));
    sched.last_idle_poll_at = now - 10;
    assert!(!sched.resolver_has_work(ResolverMode::Authoritative, 1, true, now));
    sched.observe_streams(now, 2);
    assert!(sched.resolver_has_work(ResolverMode::Authoritative, 0, true, now));
    assert!(!sched.resolver_has_work(ResolverMode::Recursive, 0, true, now));
}

#[test]
fn recursive_budget_and_settle() {
    assert_eq!(recursive_poll_budget(3, 8), 3);
    assert_eq!(recursive_poll_budget(30, 8), 8);
    assert_eq!(settle_recursive_polls(30, 8, 2), 24);
    assert_eq!(settle_recursive_polls(3, 3, 0), 0);
}

#[test]
fn replies_raise_demand_and_clear_polls() {
    let mut r = ResolverPolls::new(ResolverMode::Authoritative);
    r.record_poll(7, 100);
    r.record_poll(9, 50);
    assert!(!r.on_reply(8, true));
    assert_eq!(r.pending_polls, 0);
    assert!(r.on_reply(7, true));
    assert_eq!(r.pending_polls, 1);
    assert_eq!(r.inflight.len(), 1);
    r.expire_inflight_polls(50);
    assert!(r.inflight.is_empty());

    let mut rec = ResolverPolls::new(ResolverMode::Recursive);
    assert!(rec.on_reply(1, true));
    assert!(rec.on_reply(2, false));
    assert_eq!(rec.pending_polls, 1);
    rec.on_flow_blocked();
    assert_eq!(rec.pending_polls, 1);
    rec.pending_polls = 0;
    rec.on_flow_blocked();
    assert_eq!(rec.pending_polls, 0);
    rec.added = true;
    rec.on_flow_blocked();
    assert_eq!(rec.pending_polls, 1);
}

fn tick(mode: ResolverMode, pending: u64, target: u64) -> ResolverTick {
    ResolverTick {
        mode,
        active: true,
        pending_polls: pending,
        inflight_nonempty: false,
        inputs: inputs(target, 0, 8),
    }
}

#[test]
fn tick_plan_per_resolver() {
    let mut sched = PollScheduler::new(1000);
    sched.observe_streams(10_000_000, 1);
    let mut inactive = tick(ResolverMode::Authoritative, 4, 4);
    inactive.active = false;
    let ticks = vec![
        tick(ResolverMode::Authoritative, 2, 5),
        tick(ResolverMode::Recursive, 20, 0),
        inactive,
    ];
    let plan = plan_polls(&mut sched, &ticks, 10_000_000);
    assert_eq!(plan, vec![(5, 0), (8, 20), (0, 4)]);
}

#[test]
fn idle_tick_sends_one_authoritative_poll_in_all() {
    let mut sched = PollScheduler::new(1000);
    let now = 5_000_000;
    let ticks = vec![
        tick(ResolverMode::Authoritative, 3, 0),
        tick(ResolverMode::Authoritative, 3, 0),
        tick(ResolverMode::Recursive, 3, 0),
    ];
    let plan = plan_polls(&mut sched, &ticks, now);
    assert_eq!(plan, vec![(1, 0), (0, 0), (3, 3)]);
    let again = plan_polls(&mut sched, &ticks, now + 10);
    assert_eq!(again[0].0 + again[1].0, 0);
}

#[test]
fn sleep_plan_follows_work() {
    let mut sched = PollScheduler::new(1000);
    let now = 5_000_000;
    let quiet = vec![tick(ResolverMode::Recursive, 0, 0)];
    assert_eq!(plan_sleep(&sched, &quiet, 0, now, 10_000_000), MAX_SLEEP_US);
    assert_eq!(plan_sleep(&sched, &quiet, 1, now, 10_000_000), DNS_POLL_SLICE_US);
    let demand = vec![tick(ResolverMode::Recursive, 1, 0)];
    assert_eq!(plan_sleep(&sched, &demand, 0, now, 10_000_000), DNS_POLL_SLICE_US);
    sched.last_idle_poll_at = now - 5;
    let idle_auth = vec![tick(ResolverMode::Authoritative, 1, 0)];
    assert_eq!(plan_sleep(&sched, &idle_auth, 0, now, 10_000_000), MAX_SLEEP_US);
}
