//! The peer's connection state machine and the bounded readiness wait.
//!
//! A peer loops forever: connect, sync, stream, and on any failure
//! wait out a fixed backoff and connect again. The machine here makes
//! every decision; the caller performs the returned action (handshake,
//! fetch, read, apply, sleep) and reports what happened as the next
//! event. The local player is not torn down across a reconnect — only
//! the transport is re-established.

use vstd::prelude::*;
use vstd::utf8::{decode_utf8, valid_utf8};

use crate::frame::{byte_index, decode_frame, lemma_byte_index, Frame, UpdatePropertyMessage};

verus! {

/// Fixed reconnect backoff, in seconds.
pub const RETRY_SECS: u64 = 5;

/// Retry budget of the player-readiness wait: five one-second polls.
pub const READY_POLLS: u32 = 5;

/// Where the peer's connection stands.
#[derive(Clone, Copy, Debug, PartialEq, Eq, Structural)]
pub enum PeerState {
    /// Attempting the transport handshake.
    Connecting,
    /// Handshake done; fetching the asset and letting the local
    /// player's control channel settle.
    Syncing,
    /// Receiving frames over the transport.
    Streaming,
    /// Waiting out the fixed backoff before reconnecting.
    Disconnected { retry_secs: u64 },
}

/// What the outside world reports to the state machine.
pub enum PeerEvent {
    /// The transport handshake succeeded.
    ConnectSucceeded,
    /// The transport handshake failed.
    ConnectFailed,
    /// The asset fetch is under way and the settle delay elapsed.
    SettleElapsed,
    /// A frame arrived over the transport.
    FrameReceived(Vec<u8>),
    /// The transport failed while streaming.
    TransportError,
    /// The transport closed cleanly.
    ConnectionClosed,
    /// The reconnect backoff elapsed.
    RetryElapsed,
}

/// What the caller must do next.
pub enum PeerAction {
    /// Attempt the transport handshake.
    StartHandshake,
    /// Begin fetching the asset and let the player settle.
    BeginSync,
    /// Wait for the next inbound frame.
    AwaitFrame,
    /// Apply one property update to the local player and await its
    /// single response line before anything else is applied.
    ApplyUpdate(UpdatePropertyMessage),
    /// Sleep the given seconds, then report `RetryElapsed`.
    Backoff(u64),
    /// Nothing to do; the event carried no work in this state.
    Idle,
}

/// An inbound frame that does not terminate the connection: the
/// heartbeat, or an update that splits at a first NUL into two halves
/// of valid text.
pub open spec fn frame_ok(b: Seq<u8>) -> bool {
    let i = byte_index(b, 0);
    (b.len() == 1 && b[0] == 0) || (i < b.len() && valid_utf8(b.subrange(0, i)) && valid_utf8(
        b.subrange(i + 1, b.len() as int),
    ))
}

/// The pairs of state and event that carry work; any other event is
/// idled away without a state change.
pub open spec fn handled(s: PeerState, e: PeerEvent) -> bool {
    ||| (s is Connecting && (e is ConnectSucceeded || e is ConnectFailed))
    ||| (s is Syncing && e is SettleElapsed)
    ||| (s is Streaming && (e is FrameReceived || e is TransportError || e is ConnectionClosed))
    ||| (s is Disconnected && e is RetryElapsed)
}

/// The state after one event.
pub open spec fn spec_next(s: PeerState, e: PeerEvent) -> PeerState {
    match (s, e) {
        (PeerState::Connecting, PeerEvent::ConnectSucceeded) => PeerState::Syncing,
        (PeerState::Connecting, PeerEvent::ConnectFailed) => PeerState::Disconnected {
            retry_secs: RETRY_SECS,
        },
        (PeerState::Syncing, PeerEvent::SettleElapsed) => PeerState::Streaming,
        (PeerState::Streaming, PeerEvent::FrameReceived(b)) => if frame_ok(b@) {
            PeerState::Streaming
        } else {
            PeerState::Disconnected { retry_secs: RETRY_SECS }
        },
        (PeerState::Streaming, PeerEvent::TransportError) => PeerState::Disconnected {
            retry_secs: RETRY_SECS,
        },
        (PeerState::Streaming, PeerEvent::ConnectionClosed) => PeerState::Disconnected {
            retry_secs: RETRY_SECS,
        },
        (PeerState::Disconnected { .. }, PeerEvent::RetryElapsed) => PeerState::Connecting,
        (_, _) => s,
    }
}

impl PeerState {
    /// One transition: consume an event, hand back the next state and
    /// the action the caller performs before reporting the next event.
    /// A malformed frame is connection-terminating, not skipped; a
    /// heartbeat is liveness only and carries no work.
    pub fn step(self, event: PeerEvent) -> (r: (PeerState, PeerAction))
        ensures
            r.0 == spec_next(self, event),
            self is Connecting && event is ConnectSucceeded ==> r.1 is BeginSync,
            self is Connecting && event is ConnectFailed ==> r.1 == PeerAction::Backoff(
                RETRY_SECS,
            ),
            self is Syncing && event is SettleElapsed ==> r.1 is AwaitFrame,
            self is Streaming ==> (event matches PeerEvent::FrameReceived(b) ==> ({
                let i = byte_index(b@, 0);
                if b@.len() == 1 && b@[0] == 0 {
                    r.1 is AwaitFrame
                } else if !frame_ok(b@) {
                    r.1 == PeerAction::Backoff(RETRY_SECS)
                } else {
                    r.1 matches PeerAction::ApplyUpdate(m) && m.property@ == decode_utf8(
                        b@.subrange(0, i),
                    ) && m.value@ == decode_utf8(b@.subrange(i + 1, b@.len() as int))
                }
            })),
            self is Streaming && (event is TransportError || event is ConnectionClosed) ==> r.1
                == PeerAction::Backoff(RETRY_SECS),
            self is Disconnected && event is RetryElapsed ==> r.1 is StartHandshake,
            !handled(self, event) ==> r.1 is Idle,
    {
        match (self, event) {
            (PeerState::Connecting, PeerEvent::ConnectSucceeded) => (
                PeerState::Syncing,
                PeerAction::BeginSync,
            ),
            (PeerState::Connecting, PeerEvent::ConnectFailed) => (
                PeerState::Disconnected { retry_secs: RETRY_SECS },
                PeerAction::Backoff(RETRY_SECS),
            ),
            (PeerState::Syncing, PeerEvent::SettleElapsed) => (
                PeerState::Streaming,
                PeerAction::AwaitFrame,
            ),
            (PeerState::Streaming, PeerEvent::FrameReceived(bytes)) => {
                proof {
                    lemma_byte_index(bytes@, 0u8);
                }
                match decode_frame(&bytes) {
                    Ok(Frame::Heartbeat) => (PeerState::Streaming, PeerAction::AwaitFrame),
                    Ok(Frame::Update(m)) => (PeerState::Streaming, PeerAction::ApplyUpdate(m)),
                    Err(_) => (
                        PeerState::Disconnected { retry_secs: RETRY_SECS },
                        PeerAction::Backoff(RETRY_SECS),
                    ),
                }
            },
            (PeerState::Streaming, PeerEvent::TransportError) => (
                PeerState::Disconnected { retry_secs: RETRY_SECS },
                PeerAction::Backoff(RETRY_SECS),
            ),
            (PeerState::Streaming, PeerEvent::ConnectionClosed) => (
                PeerState::Disconnected { retry_secs: RETRY_SECS },
                PeerAction::Backoff(RETRY_SECS),
            ),
            (PeerState::Disconnected { .. }, PeerEvent::RetryElapsed) => (
                PeerState::Connecting,
                PeerAction::StartHandshake,
            ),
            (s, _) => (s, PeerAction::Idle),
        }
    }
}

/// Law: reconnect stability. A failed handshake parks the peer in the
/// fixed backoff, and the elapsed backoff returns it exactly to
/// `Connecting`. Every further failure walks the same two-state cycle,
/// so indefinitely repeated failures revisit identical states and
/// accumulate nothing.
pub proof fn lemma_reconnect_cycle()
    ensures
        spec_next(PeerState::Connecting, PeerEvent::ConnectFailed) == (PeerState::Disconnected {
            retry_secs: RETRY_SECS,
        }),
        spec_next(
            PeerState::Disconnected { retry_secs: RETRY_SECS },
            PeerEvent::RetryElapsed,
        ) == PeerState::Connecting,
{
}

/// Verdict of one readiness check of the player's control channel.
#[derive(Clone, Copy, Debug, PartialEq, Eq, Structural)]
pub enum PollVerdict {
    /// The channel is reachable; the bridge may proceed.
    Ready,
    /// Not reachable yet: sleep one second and check again.
    RetryAfterSecond,
    /// The budget is spent: a fatal startup error for this bridge
    /// instance, reported upward and not retried further.
    TimedOut,
}

/// The bounded wait for the player's control channel to appear: a
/// fixed number of one-second polls, then a fatal timeout.
pub struct ReadinessPoll {
    remaining: u32,
}

impl ReadinessPoll {
    /// How many failed checks the budget still tolerates.
    pub closed spec fn polls_left(&self) -> int {
        self.remaining as int
    }

    /// A fresh wait with the given poll budget.
    pub fn new(budget: u32) -> (p: ReadinessPoll)
        ensures
            p.polls_left() == budget as int,
    {
        ReadinessPoll { remaining: budget }
    }

    /// Account one check: ready when the channel is reachable, a
    /// one-second retry while budget remains, and a timeout exactly
    /// when an unreachable channel meets an exhausted budget.
    pub fn on_check(&mut self, reachable: bool) -> (v: PollVerdict)
        ensures
            reachable ==> v == PollVerdict::Ready && final(self).polls_left()
                == old(self).polls_left(),
            !reachable && old(self).polls_left() == 0 ==> v == PollVerdict::TimedOut
                && final(self).polls_left() == 0,
            !reachable && old(self).polls_left() > 0 ==> v == PollVerdict::RetryAfterSecond
                && final(self).polls_left() == old(self).polls_left() - 1,
    {
        if reachable {
            PollVerdict::Ready
        } else if self.remaining == 0 {
            PollVerdict::TimedOut
        } else {
            self.remaining = self.remaining - 1;
            PollVerdict::RetryAfterSecond
        }
    }
}

} // verus!
