//! Admission of local connections against the peer's stream credit.
//!
//! The limiter counts the streams opened on the current connection against
//! the peer's cumulative stream limit. A reconnect bumps the generation, which
//! turns every reservation taken before it stale.

use vstd::prelude::*;

verus! {

/// Credit and usage of the current connection.
#[derive(Clone, Copy, Debug, PartialEq, Eq, Structural)]
pub struct AcceptorLimiter {
    pub max: usize,
    pub used: usize,
    pub generation: u64,
}

/// A slot taken from the limiter, to be committed once the stream exists or
/// released otherwise.
#[derive(Clone, Copy, Debug, PartialEq, Eq, Structural)]
pub struct AcceptorReservation {
    pub generation: u64,
    pub committed: bool,
}

/// The limit a new limiter starts from when no override is given.
pub fn initial_acceptor_limit(limit_override: Option<usize>) -> (r: usize)
    ensures
        r == match limit_override {
            Some(l) => l,
            None => 0,
        },
{
    match initial_acceptor_limit_override(limit_override) {
        Some(l) => l,
        None => 0,
    }
}

/// An override of the initial limit; zero means none.
pub fn initial_acceptor_limit_override(configured: Option<usize>) -> (r: Option<usize>)
    ensures
        r == match configured {
            Some(l) => if l == 0 { None } else { Some(l) },
            None => None,
        },
{
    match configured {
        Some(l) => if l == 0 { None } else { Some(l) },
        None => None,
    }
}

pub open spec fn reserve_state(l: AcceptorLimiter) -> AcceptorLimiter {
    if l.used < l.max {
        AcceptorLimiter { used: (l.used + 1) as usize, ..l }
    } else {
        l
    }
}

pub open spec fn release_state(l: AcceptorLimiter, generation: u64) -> AcceptorLimiter {
    if generation == l.generation && l.used > 0 {
        AcceptorLimiter { used: (l.used - 1) as usize, ..l }
    } else {
        l
    }
}

pub open spec fn reset_state(l: AcceptorLimiter) -> AcceptorLimiter {
    AcceptorLimiter { max: 0, used: 0, generation: (l.generation + 1) as u64 }
}

impl AcceptorLimiter {
    /// A limiter for a fresh process, with `limit` streams of credit.
    pub fn new(limit: usize) -> (r: AcceptorLimiter)
        ensures
            r == (AcceptorLimiter { max: limit, used: 0, generation: 0 }),
    {
        AcceptorLimiter { max: limit, used: 0, generation: 0 }
    }

    /// Stores the peer's current stream limit.
    pub fn set_max(&mut self, limit: usize)
        ensures
            *final(self) == (AcceptorLimiter { max: limit, ..*old(self) }),
    {
        self.max = limit;
    }

    /// The current generation.
    pub fn generation(&self) -> (r: u64)
        ensures
            r == self.generation,
    {
        self.generation
    }

    /// Starts a new generation with no credit and nothing used; every
    /// reservation taken before becomes stale.
    pub fn reset(&mut self)
        requires
            old(self).generation < u64::MAX,
        ensures
            *final(self) == reset_state(*old(self)),
            final(self).used == 0,
            final(self).max == 0,
            final(self).generation == old(self).generation + 1,
    {
        self.generation = self.generation + 1;
        self.max = 0;
        self.used = 0;
    }

    /// Takes one slot when credit remains; `None` means the caller must wait
    /// for the limit to rise.
    pub fn try_reserve(&mut self) -> (r: Option<AcceptorReservation>)
        ensures
            *final(self) == reserve_state(*old(self)),
            r is Some <==> old(self).used < old(self).max,
            r is Some ==> r->Some_0 == (AcceptorReservation { generation: old(self).generation, committed: false }),
    {
        if self.used < self.max {
            self.used = self.used + 1;
            Some(AcceptorReservation { generation: self.generation, committed: false })
        } else {
            None
        }
    }

    /// Gives back a slot of the given generation; a stale one gives back nothing.
    pub fn release_reservation(&mut self, generation: u64)
        ensures
            *final(self) == release_state(*old(self), generation),
    {
        if generation != self.generation {
            return;
        }
        self.rollback_used();
    }

    /// Decrements the used count, never below zero.
    pub fn rollback_used(&mut self)
        ensures
            *final(self) == release_state(*old(self), old(self).generation),
    {
        if self.used > 0 {
            self.used = self.used - 1;
        }
    }
}

impl AcceptorReservation {
    pub open spec fn fresh_in(self, l: AcceptorLimiter) -> bool {
        self.generation == l.generation
    }

    /// Whether the reservation belongs to the limiter's current generation.
    pub fn is_fresh(&self, limiter: &AcceptorLimiter) -> (r: bool)
        ensures
            r == self.fresh_in(*limiter),
    {
        self.generation == limiter.generation
    }

    /// Commits the slot when it is still fresh; a stale reservation stays
    /// uncommitted.
    pub fn commit(&mut self, limiter: &AcceptorLimiter) -> (r: bool)
        ensures
            r == old(self).fresh_in(*limiter),
            final(self).generation == old(self).generation,
            final(self).committed == (old(self).committed || r),
    {
        if !self.is_fresh(limiter) {
            return false;
        }
        self.committed = true;
        true
    }

    /// Ends the reservation: an uncommitted one gives its slot back.
    pub fn finish(self, limiter: &mut AcceptorLimiter)
        ensures
            self.committed ==> *final(limiter) == *old(limiter),
            !self.committed ==> *final(limiter) == release_state(*old(limiter), self.generation),
    {
        if !self.committed {
            limiter.release_reservation(self.generation);
        }
    }
}

/// One operation on the limiter.
#[derive(Clone, Copy, Debug, PartialEq, Eq, Structural)]
pub enum AcceptorEvent {
    Reserve,
    Release { generation: u64 },
    SetMax { limit: usize },
    Reset,
}

pub open spec fn acceptor_step(l: AcceptorLimiter, e: AcceptorEvent) -> AcceptorLimiter {
    match e {
        AcceptorEvent::Reserve => reserve_state(l),
        AcceptorEvent::Release { generation } => release_state(l, generation),
        AcceptorEvent::SetMax { limit } => AcceptorLimiter { max: limit, ..l },
        AcceptorEvent::Reset => reset_state(l),
    }
}

/// The peer's credit only grows within a connection, and generations do not wrap.
pub open spec fn step_allowed(l: AcceptorLimiter, e: AcceptorEvent) -> bool {
    match e {
        AcceptorEvent::SetMax { limit } => limit >= l.max,
        AcceptorEvent::Reset => l.generation < u64::MAX,
        _ => true,
    }
}

pub open spec fn run_acceptor(l: AcceptorLimiter, evs: Seq<AcceptorEvent>) -> AcceptorLimiter
    decreases evs.len(),
{
    if evs.len() == 0 {
        l
    } else {
        acceptor_step(run_acceptor(l, evs.drop_last()), evs.last())
    }
}

pub open spec fn run_allowed(l: AcceptorLimiter, evs: Seq<AcceptorEvent>) -> bool
    decreases evs.len(),
{
    if evs.len() == 0 {
        true
    } else {
        run_allowed(l, evs.drop_last()) && step_allowed(run_acceptor(l, evs.drop_last()), evs.last())
    }
}

/// Streams admitted on a connection never outnumber the peer's credit: from a
/// limiter within its credit, any sequence of operations in which the credit
/// only grows (or is reset) keeps `used <= max`, and a reservation is granted
/// only while `used < max`.
pub proof fn lemma_credit_bound(l: AcceptorLimiter, evs: Seq<AcceptorEvent>)
    requires
        l.used <= l.max,
        run_allowed(l, evs),
    ensures
        run_acceptor(l, evs).used <= run_acceptor(l, evs).max,
        run_acceptor(l, evs).generation >= l.generation,
    decreases evs.len(),
{
    if evs.len() > 0 {
        lemma_credit_bound(l, evs.drop_last());
    }
}

/// After a reset nothing is used and no reservation taken before it, nor any
/// taken in an earlier generation, can commit, however many operations follow.
pub proof fn lemma_reset_invalidates(l: AcceptorLimiter, r: AcceptorReservation, evs: Seq<AcceptorEvent>)
    requires
        r.generation <= l.generation,
        l.generation < u64::MAX,
        run_allowed(reset_state(l), evs),
    ensures
        reset_state(l).used == 0,
        !r.fresh_in(reset_state(l)),
        !r.fresh_in(run_acceptor(reset_state(l), evs)),
    decreases evs.len(),
{
    if evs.len() > 0 {
        lemma_reset_invalidates(l, r, evs.drop_last());
        lemma_generation_grows(reset_state(l), evs);
    }
}

proof fn lemma_generation_grows(l: AcceptorLimiter, evs: Seq<AcceptorEvent>)
    requires
        run_allowed(l, evs),
    ensures
        run_acceptor(l, evs).generation >= l.generation,
    decreases evs.len(),
{
    if evs.len() > 0 {
        lemma_generation_grows(l, evs.drop_last());
    }
}

} // verus!
