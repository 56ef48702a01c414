use slipstream::acceptor::{initial_acceptor_limit, initial_acceptor_limit_override, AcceptorLimiter};

#[test]
fn acceptor_unblocks_after_stream_limit_increase() {
    let mut limiter = AcceptorLimiter::new(1024);

    for _ in 0..1024 {
        let mut reservation = limiter.try_reserve().expect("reservation within credit");
        assert!(reservation.commit(&limiter), "reservation commit should succeed");
        reservation.finish(&mut limiter);
    }

    assert!(
        limiter.try_reserve().is_none(),
        "expected acceptor to block once stream credit is exhausted"
    );

    limiter.set_max(1025);

    let mut reservation = limiter
        .try_reserve()
        .expect("reservation should unblock after limit increase");
    assert!(
        reservation.commit(&limiter),
        "reservation should commit after limit increase"
    );
}

#[test]
fn acceptor_backpressure_blocks_new_connections() {
    let mut limiter = AcceptorLimiter::new(1);
    let first = limiter.try_reserve();
    assert!(first.is_some());
    assert!(
        limiter.try_reserve().is_none(),
        "expected acceptor backpressure to block additional accepts while at limit"
    );
}

#[test]
fn reset_makes_reservations_stale() {
    let mut limiter = AcceptorLimiter::new(4);
    let mut reservation = limiter.try_reserve().unwrap();
    assert_eq!(limiter.used, 1);
    limiter.reset();
    assert_eq!(limiter.used, 0);
    assert_eq!(limiter.max, 0);
    assert_eq!(limiter.generation(), 1);
    assert!(!reservation.is_fresh(&limiter));
    assert!(!reservation.commit(&limiter));
    reservation.finish(&mut limiter);
    assert_eq!(limiter.used, 0);
}

#[test]
fn released_reservation_returns_credit() {
    let mut limiter = AcceptorLimiter::new(1);
    let reservation = limiter.try_reserve().unwrap();
    assert!(limiter.try_reserve().is_none());
    reservation.finish(&mut limiter);
    assert_eq!(limiter.used, 0);
    assert!(limiter.try_reserve().is_some());
}

#[test]
fn stale_release_keeps_new_generation_usage() {
    let mut limiter = AcceptorLimiter::new(2);
    let old = limiter.try_reserve().unwrap();
    limiter.reset();
    limiter.set_max(2);
    let _fresh = limiter.try_reserve().unwrap();
    old.finish(&mut limiter);
    assert_eq!(limiter.used, 1);
}

#[test]
fn rollback_never_goes_below_zero() {
    let mut limiter = AcceptorLimiter::new(1);
    limiter.rollback_used();
    assert_eq!(limiter.used, 0);
}

#[test]
fn initial_limit_overrides() {
    assert_eq!(initial_acceptor_limit(None), 0);
    assert_eq!(initial_acceptor_limit(Some(0)), 0);
    assert_eq!(initial_acceptor_limit(Some(7)), 7);
    assert_eq!(initial_acceptor_limit_override(Some(0)), None);
    assert_eq!(initial_acceptor_limit_override(Some(3)), Some(3));
}
