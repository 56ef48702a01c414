//! Lifecycle flags shared between the host platform and the client loop.

use vstd::prelude::*;

verus! {

/// Consecutive unready connection closes after which the client gives up.
pub const MAX_CONSECUTIVE_FAILURES: u32 = 5;

/// Start succeeded (or the client was already running).
pub const START_OK: i32 = 0;

/// The tunnel domain was missing or empty.
pub const START_INVALID_DOMAIN: i32 = -1;

/// The resolver set was missing, empty or unreadable.
pub const START_INVALID_RESOLVERS: i32 = -2;

/// The bridge class could not be cached for callbacks.
pub const START_BRIDGE_UNAVAILABLE: i32 = -3;

/// The client thread could not be spawned.
pub const START_SPAWN_FAILED: i32 = -10;

/// The client stopped before its TCP listener became ready.
pub const START_LISTEN_FAILED: i32 = -11;

/// The client gave up after repeated connection failures.
pub const START_REPEATED_FAILURES: i32 = -12;

/// A panic was caught at the platform boundary.
pub const START_PANICKED: i32 = -100;

/// Number of 100 ms polls spent waiting for the listener after a start.
pub const LISTENER_WAIT_POLLS: u32 = 50;

/// The process-wide state of one client, as seen by the host platform.
#[derive(Clone, Copy, Debug, PartialEq, Eq, Structural)]
pub struct ClientFlags {
    pub running: bool,
    pub listener_ready: bool,
    pub quic_ready: bool,
    pub shutdown_requested: bool,
    pub thread_done: bool,
    pub consecutive_failures: u32,
}

impl ClientFlags {
    /// Flags of a process in which no client was ever started.
    pub fn new() -> (r: ClientFlags)
        ensures
            !r.running,
            !r.listener_ready,
            !r.quic_ready,
            !r.shutdown_requested,
            r.thread_done,
            r.consecutive_failures == 0,
    {
        ClientFlags {
            running: false,
            listener_ready: false,
            quic_ready: false,
            shutdown_requested: false,
            thread_done: true,
            consecutive_failures: 0,
        }
    }

    /// Whether the host reports the client as running.
    pub fn is_client_running(&self) -> (r: bool)
        ensures
            r == self.running,
    {
        self.running
    }

    /// Whether the host reports the QUIC connection as ready.
    pub fn is_quic_ready(&self) -> (r: bool)
        ensures
            r == self.quic_ready,
    {
        self.quic_ready
    }

    /// Marks the client as running.
    pub fn set_running(&mut self)
        ensures
            *final(self) == (ClientFlags { running: true, ..*old(self) }),
    {
        self.running = true;
    }

    /// Claims the flags for a new start. Returns false, changing nothing, when a
    /// client is already running; otherwise clears every per-run flag.
    pub fn begin_start(&mut self) -> (started: bool)
        ensures
            started == !old(self).running,
            !started ==> *final(self) == *old(self),
            started ==> *final(self) == (ClientFlags {
                running: false,
                listener_ready: false,
                quic_ready: false,
                shutdown_requested: false,
                thread_done: false,
                consecutive_failures: 0,
            }),
    {
        if self.running {
            return false;
        }
        self.shutdown_requested = false;
        self.listener_ready = false;
        self.quic_ready = false;
        self.thread_done = false;
        self.consecutive_failures = 0;
        true
    }

    /// Records that the client thread has finished, whatever its outcome.
    pub fn mark_thread_finished(&mut self)
        ensures
            *final(self) == (ClientFlags {
                running: false,
                listener_ready: false,
                quic_ready: false,
                thread_done: true,
                ..*old(self)
            }),
    {
        self.running = false;
        self.listener_ready = false;
        self.quic_ready = false;
        self.thread_done = true;
    }

    /// Asks the client loop to stop.
    pub fn request_stop(&mut self)
        ensures
            *final(self) == (ClientFlags { shutdown_requested: true, ..*old(self) }),
    {
        self.shutdown_requested = true;
    }

    /// Completes a stop. When the thread did not exit in time the shutdown
    /// request stays set, so that the abandoned thread still sees it.
    pub fn finish_stop(&mut self, thread_exited: bool)
        ensures
            *final(self) == (ClientFlags {
                running: false,
                listener_ready: false,
                quic_ready: false,
                shutdown_requested: if thread_exited { false } else { old(self).shutdown_requested },
                ..*old(self)
            }),
    {
        if thread_exited {
            self.shutdown_requested = false;
        }
        self.running = false;
        self.listener_ready = false;
        self.quic_ready = false;
    }

    /// One poll while a start waits for the listener: `Some(code)` ends the
    /// wait with that code, `None` asks for another poll. After the last poll
    /// the start reports success even without a listener.
    pub fn listener_wait_step(&self, polls_done: u32) -> (r: Option<i32>)
        ensures
            self.listener_ready ==> r == Some(START_OK),
            !self.listener_ready && !self.running ==> r == Some(START_LISTEN_FAILED),
            !self.listener_ready && self.running && polls_done >= LISTENER_WAIT_POLLS
                ==> r == Some(START_OK),
            !self.listener_ready && self.running && polls_done < LISTENER_WAIT_POLLS
                ==> r is None,
    {
        if self.listener_ready {
            Some(START_OK)
        } else if !self.running {
            Some(START_LISTEN_FAILED)
        } else if polls_done >= LISTENER_WAIT_POLLS {
            Some(START_OK)
        } else {
            None
        }
    }
}

/// Whether the client loop has been asked to shut down.
pub fn should_shutdown(flags: &ClientFlags) -> (r: bool)
    ensures
        r == flags.shutdown_requested,
{
    flags.shutdown_requested
}

/// Signals that the TCP listener is ready.
pub fn signal_listener_ready(flags: &mut ClientFlags)
    ensures
        *final(flags) == (ClientFlags { listener_ready: true, ..*old(flags) }),
{
    flags.listener_ready = true;
}

/// Signals that the QUIC connection is ready; this also ends a run of failures.
pub fn signal_quic_ready(flags: &mut ClientFlags)
    ensures
        *final(flags) == (ClientFlags { quic_ready: true, consecutive_failures: 0, ..*old(flags) }),
{
    flags.quic_ready = true;
    flags.consecutive_failures = 0;
}

/// Clears the QUIC ready flag before a reconnect.
pub fn reset_quic_ready(flags: &mut ClientFlags)
    ensures
        *final(flags) == (ClientFlags { quic_ready: false, ..*old(flags) }),
{
    flags.quic_ready = false;
}

/// Records a connection that closed without ever becoming ready.
pub fn record_connection_failure(flags: &mut ClientFlags)
    ensures
        final(flags).consecutive_failures as int == if old(flags).consecutive_failures == u32::MAX {
            u32::MAX as int
        } else {
            old(flags).consecutive_failures + 1
        },
        *final(flags) == (ClientFlags {
            consecutive_failures: final(flags).consecutive_failures,
            ..*old(flags)
        }),
{
    flags.consecutive_failures = flags.consecutive_failures.saturating_add(1);
}

/// Whether the run of unready closes has reached the limit.
pub fn exceeded_max_failures(flags: &ClientFlags) -> (r: bool)
    ensures
        r == (flags.consecutive_failures >= MAX_CONSECUTIVE_FAILURES),
{
    flags.consecutive_failures >= MAX_CONSECUTIVE_FAILURES
}

/// The code a start request gets from its arguments alone: an empty domain
/// first, then an empty resolver set; `START_OK` when both are present.
pub fn validate_start_request(domain: &str, resolver_count: usize) -> (r: i32)
    ensures
        domain@.len() == 0 ==> r == START_INVALID_DOMAIN,
        domain@.len() > 0 && resolver_count == 0 ==> r == START_INVALID_RESOLVERS,
        domain@.len() > 0 && resolver_count > 0 ==> r == START_OK,
{
    if domain.unicode_len() == 0 {
        START_INVALID_DOMAIN
    } else if resolver_count == 0 {
        START_INVALID_RESOLVERS
    } else {
        START_OK
    }
}

} // verus!
