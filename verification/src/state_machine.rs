//! The per-peer connection state machine.
//!
//! The machine is pure: it owns no socket and no clock. A transition may ask
//! for a timer; whoever drives the machine arms it and feeds the expiry back
//! as a trigger.

use vstd::arithmetic::power2::{lemma2_to64, lemma_pow2_pos, lemma_pow2_strictly_increases, pow2};
use vstd::bits::lemma_u64_shl_is_mul;
use vstd::prelude::*;

verus! {

/// Durations, in milliseconds, that bound each phase of a connection attempt.
#[derive(Debug, Clone, Copy, PartialEq, Eq, Structural)]
pub struct TimingProfile {
    pub discovery_timeout_ms: u64,
    pub direct_dial_budget_ms: u64,
    pub punch_budget_ms: u64,
    pub relay_dial_timeout_ms: u64,
    pub handshake_timeout_ms: u64,
    pub ping_interval_ms: u64,
    pub path_lost_threshold: u32,
    pub reconnect_budget_ms: u64,
    pub reconnect_backoff_start_ms: u64,
    pub reconnect_backoff_max_ms: u64,
}

impl TimingProfile {
    /// The profile a node runs with unless told otherwise.
    pub open spec fn standard() -> TimingProfile {
        TimingProfile {
            discovery_timeout_ms: 2_500,
            direct_dial_budget_ms: 1_500,
            punch_budget_ms: 2_200,
            relay_dial_timeout_ms: 2_500,
            handshake_timeout_ms: 1_200,
            ping_interval_ms: 1_000,
            path_lost_threshold: 3,
            reconnect_budget_ms: 15_000,
            reconnect_backoff_start_ms: 200,
            reconnect_backoff_max_ms: 2_000,
        }
    }
}

impl Default for TimingProfile {
    fn default() -> (profile: Self)
        ensures
            profile == TimingProfile::standard(),
    {
        TimingProfile {
            discovery_timeout_ms: 2_500,
            direct_dial_budget_ms: 1_500,
            punch_budget_ms: 2_200,
            relay_dial_timeout_ms: 2_500,
            handshake_timeout_ms: 1_200,
            ping_interval_ms: 1_000,
            path_lost_threshold: 3,
            reconnect_budget_ms: 15_000,
            reconnect_backoff_start_ms: 200,
            reconnect_backoff_max_ms: 2_000,
        }
    }
}

/// Why a connection attempt ended in `Failed`.
#[derive(Debug, Clone, Copy, PartialEq, Eq, Structural)]
pub enum FailureReason {
    DiscoveryTimeout,
    RelayTimeout,
    AuthFailed,
    VersionMismatch,
    RetryBudgetExhausted,
    UserAbort,
}

#[derive(Debug, Clone, Copy, PartialEq, Eq, Structural)]
pub enum ConnectionState {
    Idle,
    Discovering,
    DialingDirect,
    HolePunching,
    RelayDialing,
    SecureHandshake,
    Active,
    Reconnecting,
    Failed(FailureReason),
    Closed,
}

#[derive(Debug, Clone, Copy, PartialEq, Eq, Structural)]
pub enum Trigger {
    StartConnect,
    CandidatesFound,
    DiscoveryTimeout,
    DirectConnected,
    DirectNoSuccess,
    PunchConnected,
    PunchTimeout,
    RelayConnected,
    RelayTimeout,
    HandshakeOk,
    AuthFailed,
    VersionMismatch,
    PathLost,
    RetryBudgetAvailable,
    RetryBudgetExhausted,
    UserRetry,
    UserHangup,
}

#[derive(Debug, Clone, Copy, PartialEq, Eq, Structural)]
pub enum TimerKind {
    Discovery,
    DirectDial,
    HolePunch,
    RelayDial,
    Handshake,
    ReconnectBackoff,
}

/// What one accepted trigger did: the state left, the state entered, and the
/// timer to arm, if any, as `(kind, duration_ms)`.
#[derive(Debug, Clone, Copy, PartialEq, Eq)]
pub struct Transition {
    pub from: ConnectionState,
    pub to: ConnectionState,
    pub arm_timer: Option<(TimerKind, u64)>,
}

#[derive(Debug, Clone, Copy, PartialEq, Eq, Structural)]
pub enum StateMachineError {
    InvalidTransition { from: ConnectionState, trigger: Trigger },
}

/// The state entered when `trigger` arrives in state `from`, or `None` where
/// the pair is no row of the transition table. `has_budget` matters only to
/// `RetryBudgetAvailable` while reconnecting.
pub open spec fn next_state(from: ConnectionState, trigger: Trigger, has_budget: bool) -> Option<
    ConnectionState,
> {
    match (from, trigger) {
        (ConnectionState::Idle, Trigger::StartConnect) => Some(ConnectionState::Discovering),
        (ConnectionState::Discovering, Trigger::CandidatesFound) => Some(
            ConnectionState::DialingDirect,
        ),
        (ConnectionState::Discovering, Trigger::DiscoveryTimeout) => Some(
            ConnectionState::Failed(FailureReason::DiscoveryTimeout),
        ),
        (ConnectionState::DialingDirect, Trigger::DirectConnected) => Some(
            ConnectionState::SecureHandshake,
        ),
        (ConnectionState::DialingDirect, Trigger::DirectNoSuccess) => Some(
            ConnectionState::HolePunching,
        ),
        (ConnectionState::HolePunching, Trigger::PunchConnected) => Some(
            ConnectionState::SecureHandshake,
        ),
        (ConnectionState::HolePunching, Trigger::PunchTimeout) => Some(
            ConnectionState::RelayDialing,
        ),
        (ConnectionState::RelayDialing, Trigger::RelayConnected) => Some(
            ConnectionState::SecureHandshake,
        ),
        (ConnectionState::RelayDialing, Trigger::RelayTimeout) => Some(
            ConnectionState::Failed(FailureReason::RelayTimeout),
        ),
        (ConnectionState::SecureHandshake, Trigger::HandshakeOk) => Some(ConnectionState::Active),
        (ConnectionState::SecureHandshake, Trigger::AuthFailed) => Some(
            ConnectionState::Failed(FailureReason::AuthFailed),
        ),
        (ConnectionState::SecureHandshake, Trigger::VersionMismatch) => Some(
            ConnectionState::Failed(FailureReason::VersionMismatch),
        ),
        (ConnectionState::Active, Trigger::PathLost) => Some(ConnectionState::Reconnecting),
        (ConnectionState::Reconnecting, Trigger::RetryBudgetAvailable) => if has_budget {
            Some(ConnectionState::DialingDirect)
        } else {
            Some(ConnectionState::Failed(FailureReason::RetryBudgetExhausted))
        },
        (ConnectionState::Reconnecting, Trigger::RetryBudgetExhausted) => Some(
            ConnectionState::Failed(FailureReason::RetryBudgetExhausted),
        ),
        (ConnectionState::Failed(_), Trigger::UserRetry) => Some(ConnectionState::Idle),
        (ConnectionState::Discovering, Trigger::UserHangup)
        | (ConnectionState::DialingDirect, Trigger::UserHangup)
        | (ConnectionState::HolePunching, Trigger::UserHangup)
        | (ConnectionState::RelayDialing, Trigger::UserHangup)
        | (ConnectionState::SecureHandshake, Trigger::UserHangup)
        | (ConnectionState::Active, Trigger::UserHangup)
        | (ConnectionState::Reconnecting, Trigger::UserHangup) => Some(ConnectionState::Closed),
        _ => None,
    }
}

/// The timer that entering `to` arms. Only the dial phases, the handshake and
/// the reconnect wait are timed; `backoff_ms` is the wait charged when the
/// path was lost.
pub open spec fn timer_for(to: ConnectionState, timing: TimingProfile, backoff_ms: u64) -> Option<
    (TimerKind, u64),
> {
    match to {
        ConnectionState::Discovering => Some((TimerKind::Discovery, timing.discovery_timeout_ms)),
        ConnectionState::DialingDirect => Some(
            (TimerKind::DirectDial, timing.direct_dial_budget_ms),
        ),
        ConnectionState::HolePunching => Some((TimerKind::HolePunch, timing.punch_budget_ms)),
        ConnectionState::RelayDialing => Some((TimerKind::RelayDial, timing.relay_dial_timeout_ms)),
        ConnectionState::SecureHandshake => Some(
            (TimerKind::Handshake, timing.handshake_timeout_ms),
        ),
        ConnectionState::Reconnecting => Some((TimerKind::ReconnectBackoff, backoff_ms)),
        _ => None,
    }
}

/// `a + b`, held at `u64::MAX`.
pub open spec fn saturating_u64(a: int, b: int) -> u64 {
    if a + b > u64::MAX {
        u64::MAX
    } else {
        (a + b) as u64
    }
}

/// `a + b`, held at `u32::MAX`.
pub open spec fn saturating_u32(a: int, b: int) -> u32 {
    if a + b > u32::MAX {
        u32::MAX
    } else {
        (a + b) as u32
    }
}

/// The mathematical content of a machine: its state, its timing profile and
/// the two counters of the current reconnect episode.
pub struct MachineView {
    pub state: ConnectionState,
    pub timing: TimingProfile,
    pub reconnect_elapsed_ms: u64,
    pub reconnect_attempts: u32,
}

impl MachineView {
    /// A fresh machine: idle, nothing charged.
    pub open spec fn initial(timing: TimingProfile) -> MachineView {
        MachineView {
            state: ConnectionState::Idle,
            timing,
            reconnect_elapsed_ms: 0,
            reconnect_attempts: 0,
        }
    }

    /// Whether the reconnect episode may still go on: the time charged so far
    /// is strictly below the budget.
    pub open spec fn has_budget(self) -> bool {
        self.reconnect_elapsed_ms < self.timing.reconnect_budget_ms
    }

    /// The next reconnect wait: the start value doubled once per attempt made
    /// (at most 31 doublings), capped at the profile's maximum.
    pub open spec fn next_backoff(self) -> u64 {
        let doublings: nat = if self.reconnect_attempts < 31 {
            self.reconnect_attempts as nat
        } else {
            31
        };
        let grown: int = self.timing.reconnect_backoff_start_ms * pow2(doublings);
        if grown < self.timing.reconnect_backoff_max_ms {
            grown as u64
        } else {
            self.timing.reconnect_backoff_max_ms
        }
    }

    /// The counters after one more wait of `backoff_ms` was charged.
    pub open spec fn charged(self, backoff_ms: u64) -> MachineView {
        MachineView {
            reconnect_attempts: saturating_u32(self.reconnect_attempts as int, 1),
            reconnect_elapsed_ms: saturating_u64(
                self.reconnect_elapsed_ms as int,
                backoff_ms as int,
            ),
            ..self
        }
    }

    /// The machine after `trigger`, or `None` where the table has no row for
    /// it. A successful handshake clears both counters; losing the path of an
    /// active session charges the next backoff; nothing else touches them.
    pub open spec fn after(self, trigger: Trigger) -> Option<MachineView> {
        match next_state(self.state, trigger, self.has_budget()) {
            None => None,
            Some(to) => Some(
                if self.state == ConnectionState::SecureHandshake && trigger
                    == Trigger::HandshakeOk {
                    MachineView {
                        state: to,
                        reconnect_attempts: 0,
                        reconnect_elapsed_ms: 0,
                        ..self
                    }
                } else if self.state == ConnectionState::Active && trigger == Trigger::PathLost {
                    MachineView { state: to, ..self.charged(self.next_backoff()) }
                } else {
                    MachineView { state: to, ..self }
                },
            ),
        }
    }

    /// The record that `apply` hands back for an accepted trigger.
    pub open spec fn transition(self, trigger: Trigger) -> Transition {
        let to = next_state(self.state, trigger, self.has_budget()).unwrap();
        Transition { from: self.state, to, arm_timer: timer_for(to, self.timing, self.next_backoff()) }
    }
}

#[derive(Debug, Clone, Copy)]
pub struct ConnectionStateMachine {
    state: ConnectionState,
    timing: TimingProfile,
    reconnect_elapsed_ms: u64,
    reconnect_attempts: u32,
}

impl View for ConnectionStateMachine {
    type V = MachineView;

    closed spec fn view(&self) -> MachineView {
        MachineView {
            state: self.state,
            timing: self.timing,
            reconnect_elapsed_ms: self.reconnect_elapsed_ms,
            reconnect_attempts: self.reconnect_attempts,
        }
    }
}

impl Default for ConnectionStateMachine {
    fn default() -> (machine: Self)
        ensures
            machine@ == MachineView::initial(TimingProfile::standard()),
    {
        ConnectionStateMachine {
            state: ConnectionState::Idle,
            timing: TimingProfile::default(),
            reconnect_elapsed_ms: 0,
            reconnect_attempts: 0,
        }
    }
}

impl ConnectionStateMachine {
    /// A machine in `Idle` that has been charged nothing.
    pub fn new(timing: TimingProfile) -> (machine: Self)
        ensures
            machine@ == MachineView::initial(timing),
    {
        ConnectionStateMachine {
            state: ConnectionState::Idle,
            timing,
            reconnect_elapsed_ms: 0,
            reconnect_attempts: 0,
        }
    }

    /// The state the machine is in.
    pub fn state(&self) -> (state: &ConnectionState)
        ensures
            *state == self@.state,
    {
        &self.state
    }

    /// How many waits the reconnect episode has been charged.
    pub fn reconnect_attempts(&self) -> (attempts: u32)
        ensures
            attempts == self@.reconnect_attempts,
    {
        self.reconnect_attempts
    }

    /// How much time the reconnect episode has been charged.
    pub fn reconnect_elapsed_ms(&self) -> (elapsed: u64)
        ensures
            elapsed == self@.reconnect_elapsed_ms,
    {
        self.reconnect_elapsed_ms
    }

    /// Charges one reconnect wait: one more attempt, `backoff_ms` more time,
    /// both held at the top of their range.
    pub fn register_backoff_wait(&mut self, backoff_ms: u64)
        ensures
            final(self)@ == old(self)@.charged(backoff_ms),
    {
        self.reconnect_attempts = self.reconnect_attempts.saturating_add(1);
        self.reconnect_elapsed_ms = self.reconnect_elapsed_ms.saturating_add(backoff_ms);
    }

    /// Whether the time charged is still below the budget.
    pub fn has_reconnect_budget(&self) -> (has: bool)
        ensures
            has == self@.has_budget(),
    {
        self.reconnect_elapsed_ms < self.timing.reconnect_budget_ms
    }

    /// The next wait: the start doubled once for each attempt, held at the
    /// maximum.
    pub fn next_backoff_ms(&self) -> (backoff: u64)
        ensures
            backoff == self@.next_backoff(),
    {
        let shift: u32 = if self.reconnect_attempts < 31 {
            self.reconnect_attempts
        } else {
            31
        };
        proof {
            lemma2_to64();
            lemma_pow2_pos(shift as nat);
            if shift < 31 {
                lemma_pow2_strictly_increases(shift as nat, 31);
            }
            lemma_u64_shl_is_mul(1, shift as u64);
        }
        let factor: u64 = 1u64 << shift;
        let start: u64 = self.timing.reconnect_backoff_start_ms;
        match start.checked_mul(factor) {
            Some(grown) => if grown < self.timing.reconnect_backoff_max_ms {
                grown
            } else {
                self.timing.reconnect_backoff_max_ms
            },
            None => self.timing.reconnect_backoff_max_ms,
        }
    }

    /// Feeds one trigger to the machine.
    ///
    /// Where the transition table has a row for the current state and the
    /// trigger, the machine takes it and the transition is returned. Where it
    /// has none, the error names the state and the trigger, and the machine
    /// is left exactly as it was.
    pub fn apply(&mut self, trigger: Trigger) -> (result: Result<Transition, StateMachineError>)
        ensures
            match result {
                Ok(transition) => {
                    &&& old(self)@.after(trigger) == Some(final(self)@)
                    &&& transition == old(self)@.transition(trigger)
                },
                Err(error) => {
                    &&& old(self)@.after(trigger) is None
                    &&& error == (StateMachineError::InvalidTransition {
                        from: old(self)@.state,
                        trigger,
                    })
                    &&& final(self)@ == old(self)@
                },
            },
    {
        let from: ConnectionState = self.state;
        let wait: u64 = self.next_backoff_ms();
        let to: ConnectionState = match (from, trigger) {
            (ConnectionState::Idle, Trigger::StartConnect) => ConnectionState::Discovering,
            (ConnectionState::Discovering, Trigger::CandidatesFound) => {
                ConnectionState::DialingDirect
            },
            (ConnectionState::Discovering, Trigger::DiscoveryTimeout) => {
                ConnectionState::Failed(FailureReason::DiscoveryTimeout)
            },
            (ConnectionState::DialingDirect, Trigger::DirectConnected) => {
                ConnectionState::SecureHandshake
            },
            (ConnectionState::DialingDirect, Trigger::DirectNoSuccess) => {
                ConnectionState::HolePunching
            },
            (ConnectionState::HolePunching, Trigger::PunchConnected) => {
                ConnectionState::SecureHandshake
            },
            (ConnectionState::HolePunching, Trigger::PunchTimeout) => {
                ConnectionState::RelayDialing
            },
            (ConnectionState::RelayDialing, Trigger::RelayConnected) => {
                ConnectionState::SecureHandshake
            },
            (ConnectionState::RelayDialing, Trigger::RelayTimeout) => {
                ConnectionState::Failed(FailureReason::RelayTimeout)
            },
            (ConnectionState::SecureHandshake, Trigger::HandshakeOk) => {
                self.reconnect_attempts = 0;
                self.reconnect_elapsed_ms = 0;
                ConnectionState::Active
            },
            (ConnectionState::SecureHandshake, Trigger::AuthFailed) => {
                ConnectionState::Failed(FailureReason::AuthFailed)
            },
            (ConnectionState::SecureHandshake, Trigger::VersionMismatch) => {
                ConnectionState::Failed(FailureReason::VersionMismatch)
            },
            (ConnectionState::Active, Trigger::PathLost) => {
                self.register_backoff_wait(wait);
                ConnectionState::Reconnecting
            },
            (ConnectionState::Reconnecting, Trigger::RetryBudgetAvailable) => {
                if self.has_reconnect_budget() {
                    ConnectionState::DialingDirect
                } else {
                    ConnectionState::Failed(FailureReason::RetryBudgetExhausted)
                }
            },
            (ConnectionState::Reconnecting, Trigger::RetryBudgetExhausted) => {
                ConnectionState::Failed(FailureReason::RetryBudgetExhausted)
            },
            (ConnectionState::Failed(_), Trigger::UserRetry) => ConnectionState::Idle,
            (ConnectionState::Discovering, Trigger::UserHangup)
            | (ConnectionState::DialingDirect, Trigger::UserHangup)
            | (ConnectionState::HolePunching, Trigger::UserHangup)
            | (ConnectionState::RelayDialing, Trigger::UserHangup)
            | (ConnectionState::SecureHandshake, Trigger::UserHangup)
            | (ConnectionState::Active, Trigger::UserHangup)
            | (ConnectionState::Reconnecting, Trigger::UserHangup) => ConnectionState::Closed,
            _ => {
                return Err(StateMachineError::InvalidTransition { from, trigger });
            },
        };
        let arm_timer: Option<(TimerKind, u64)> = match to {
            ConnectionState::Discovering => Some(
                (TimerKind::Discovery, self.timing.discovery_timeout_ms),
            ),
            ConnectionState::DialingDirect => Some(
                (TimerKind::DirectDial, self.timing.direct_dial_budget_ms),
            ),
            ConnectionState::HolePunching => Some(
                (TimerKind::HolePunch, self.timing.punch_budget_ms),
            ),
            ConnectionState::RelayDialing => Some(
                (TimerKind::RelayDial, self.timing.relay_dial_timeout_ms),
            ),
            ConnectionState::SecureHandshake => Some(
                (TimerKind::Handshake, self.timing.handshake_timeout_ms),
            ),
            ConnectionState::Reconnecting => Some((TimerKind::ReconnectBackoff, wait)),
            _ => None,
        };
        self.state = to;
        Ok(Transition { from, to, arm_timer })
    }
}

/// One step never takes anything back from what a reconnect episode has been
/// charged: the time and the attempts stay or grow, whatever the trigger.
/// The one exception is a successful handshake, which clears both. The
/// timing profile never changes.
pub proof fn lemma_reconnect_budget_monotone(machine: MachineView, trigger: Trigger)
    ensures
        machine.after(trigger) matches Some(next) ==> {
            &&& next.timing == machine.timing
            &&& if machine.state == ConnectionState::SecureHandshake && trigger
                == Trigger::HandshakeOk {
                next.reconnect_elapsed_ms == 0 && next.reconnect_attempts == 0
            } else {
                &&& next.reconnect_elapsed_ms >= machine.reconnect_elapsed_ms
                &&& next.reconnect_attempts >= machine.reconnect_attempts
            }
        },
{
}

/// A wait is never longer than the profile's maximum, and a machine whose
/// budget is spent fails on the next retry, whichever of the two retry
/// triggers it is given.
pub proof fn lemma_spent_budget_fails(machine: MachineView, trigger: Trigger)
    requires
        machine.state == ConnectionState::Reconnecting,
        !machine.has_budget(),
        trigger == Trigger::RetryBudgetAvailable || trigger == Trigger::RetryBudgetExhausted,
    ensures
        machine.next_backoff() <= machine.timing.reconnect_backoff_max_ms,
        machine.after(trigger) matches Some(next) && next.state == ConnectionState::Failed(
            FailureReason::RetryBudgetExhausted,
        ),
{
}

} // verus!
