//! What the engine keeps for one peer, and how one event changes it.
//!
//! Everything here concerns a single peer and is free of clocks, sockets
//! and tables: time comes in as an argument, and what is to be sent goes out
//! as a value.

use crate::security::nonce_views;
use crate::state_machine::{ConnectionState, ConnectionStateMachine, MachineView, TimingProfile, Trigger};
use crate::text::{bytes_eq, str_eq};
use vstd::prelude::*;

verus! {

/// `a + 1`, held at `u32::MAX`.
pub open spec fn next_count(a: u32) -> u32 {
    if a == u32::MAX {
        a
    } else {
        (a + 1) as u32
    }
}

/// A session request that waits for its answer: the session it asks for,
/// the nonces of the requests sent for it, the time of the last of them,
/// and how many were sent.
#[derive(Debug, Clone, PartialEq, Eq)]
pub struct PendingOutboundSession {
    pub session_id: String,
    pub request_nonces: Vec<Vec<u8>>,
    pub last_send_unix_ms: i64,
    pub attempts: u32,
}

pub struct PendingView {
    pub session_id: Seq<char>,
    pub request_nonces: Seq<Seq<u8>>,
    pub last_send_unix_ms: i64,
    pub attempts: u32,
}

impl View for PendingOutboundSession {
    type V = PendingView;

    open spec fn view(&self) -> PendingView {
        PendingView {
            session_id: self.session_id@,
            request_nonces: nonce_views(self.request_nonces@),
            last_send_unix_ms: self.last_send_unix_ms,
            attempts: self.attempts,
        }
    }
}

/// What is to be done about a request that waits for its answer.
#[derive(Debug, Clone, Copy, PartialEq, Eq, Structural)]
pub enum RetryDecision {
    /// The answer may still come.
    Wait,
    /// The time is up and attempts are left: send the request again.
    Retry,
    /// The time is up and no attempt is left.
    GiveUp,
}

impl PendingView {
    /// A request for `session_id` of which nothing has been sent yet.
    pub open spec fn fresh(session_id: Seq<char>) -> PendingView {
        PendingView {
            session_id,
            request_nonces: Seq::<Seq<u8>>::empty(),
            last_send_unix_ms: 0,
            attempts: 0,
        }
    }

    /// The record after one more request went out with `nonce`: the nonce
    /// joins the others, and the oldest leaves where more than
    /// `max_attempts` would be kept.
    pub open spec fn sent(self, nonce: Seq<u8>, now_unix_ms: i64, max_attempts: u32) -> PendingView {
        let nonces = self.request_nonces.push(nonce);
        PendingView {
            session_id: self.session_id,
            request_nonces: if nonces.len() > max_attempts {
                nonces.drop_first()
            } else {
                nonces
            },
            last_send_unix_ms: now_unix_ms,
            attempts: next_count(self.attempts),
        }
    }

    pub open spec fn decision(self, now_unix_ms: i64, timeout_ms: i64, max_attempts: u32) -> RetryDecision {
        if now_unix_ms - self.last_send_unix_ms < timeout_ms {
            RetryDecision::Wait
        } else if self.attempts < max_attempts {
            RetryDecision::Retry
        } else {
            RetryDecision::GiveUp
        }
    }
}

/// Whether at least `span_ms` lie between `then_unix_ms` and `now_unix_ms`.
pub fn has_elapsed(now_unix_ms: i64, then_unix_ms: i64, span_ms: i64) -> (elapsed: bool)
    ensures
        elapsed == (now_unix_ms - then_unix_ms >= span_ms),
{
    now_unix_ms as i128 - then_unix_ms as i128 >= span_ms as i128
}

impl PendingOutboundSession {
    pub fn new(session_id: String) -> (pending: Self)
        ensures
            pending@ == PendingView::fresh(session_id@),
    {
        let pending = PendingOutboundSession {
            session_id,
            request_nonces: Vec::new(),
            last_send_unix_ms: 0,
            attempts: 0,
        };
        assert(pending@.request_nonces =~= Seq::<Seq<u8>>::empty());
        pending
    }

    /// Notes that one more request went out with `nonce`.
    pub fn note_sent(&mut self, nonce: Vec<u8>, now_unix_ms: i64, max_attempts: u32)
        ensures
            final(self)@ == old(self)@.sent(nonce@, now_unix_ms, max_attempts),
    {
        self.last_send_unix_ms = now_unix_ms;
        self.attempts = if self.attempts == u32::MAX {
            self.attempts
        } else {
            self.attempts + 1
        };
        self.request_nonces.push(nonce);
        assert(nonce_views(self.request_nonces@) =~= old(self)@.request_nonces.push(nonce@));
        if self.request_nonces.len() > max_attempts as usize {
            let ghost grown = self.request_nonces@;
            self.request_nonces.remove(0);
            assert(nonce_views(self.request_nonces@) =~= nonce_views(grown).drop_first());
        }
    }

    /// What is to be done about the request at `now_unix_ms`.
    pub fn retry_decision(&self, now_unix_ms: i64, timeout_ms: i64, max_attempts: u32) -> (decision:
        RetryDecision)
        ensures
            decision == self@.decision(now_unix_ms, timeout_ms, max_attempts),
    {
        if !has_elapsed(now_unix_ms, self.last_send_unix_ms, timeout_ms) {
            RetryDecision::Wait
        } else if self.attempts < max_attempts {
            RetryDecision::Retry
        } else {
            RetryDecision::GiveUp
        }
    }

    /// Whether `nonce` is that of one of the requests sent.
    pub fn holds_nonce(&self, nonce: &[u8]) -> (held: bool)
        ensures
            held == self@.request_nonces.contains(nonce@),
    {
        let mut i: usize = 0;
        while i < self.request_nonces.len()
            invariant
                i <= self.request_nonces@.len(),
                forall|j: int| 0 <= j < i ==> (#[trigger] self@.request_nonces[j]) != nonce@,
            decreases self.request_nonces@.len() - i,
        {
            if bytes_eq(self.request_nonces[i].as_slice(), nonce) {
                assert(self@.request_nonces[i as int] == nonce@);
                return true;
            }
            i += 1;
        }
        false
    }
}

/// The keepalive of an active session: the last sequence number used, the
/// time of the last ping, the ping that waits for its pong, and the misses
/// in a row.
#[derive(Debug, Clone, Copy, PartialEq, Eq)]
pub struct ControlKeepaliveState {
    pub next_seq: u64,
    pub last_send_unix_ms: i64,
    pub awaiting_seq: Option<u64>,
    pub awaiting_since_unix_ms: Option<i64>,
    pub consecutive_misses: u32,
}

/// The times and the threshold that govern keepalive.
#[derive(Debug, Clone, Copy, PartialEq, Eq, Structural)]
pub struct KeepaliveTiming {
    pub interval_ms: i64,
    pub timeout_ms: i64,
    pub max_misses: u32,
}

/// What a tick asks for: a ping to send, with its sequence number, and
/// whether the peer is to be given up as lost.
#[derive(Debug, Clone, Copy, PartialEq, Eq)]
pub struct KeepaliveStep {
    pub send: Option<u64>,
    pub lost: bool,
}

impl ControlKeepaliveState {
    /// The keepalive of a session that has just become active.
    pub open spec fn initial() -> ControlKeepaliveState {
        ControlKeepaliveState {
            next_seq: 0,
            last_send_unix_ms: 0,
            awaiting_seq: None,
            awaiting_since_unix_ms: None,
            consecutive_misses: 0,
        }
    }

    /// A ping waits, and its time is not up.
    pub open spec fn waits(self, now_unix_ms: i64, timing: KeepaliveTiming) -> bool {
        self.awaiting_since_unix_ms matches Some(since) && now_unix_ms - since < timing.timeout_ms
    }

    /// A ping waits, and its time is up.
    pub open spec fn timed_out(self, now_unix_ms: i64, timing: KeepaliveTiming) -> bool {
        self.awaiting_since_unix_ms matches Some(since) && now_unix_ms - since >= timing.timeout_ms
    }

    /// The state after the ping that waited was given up: nothing waits,
    /// and one more miss is counted.
    pub open spec fn missed(self) -> ControlKeepaliveState {
        ControlKeepaliveState {
            awaiting_seq: None,
            awaiting_since_unix_ms: None,
            consecutive_misses: next_count(self.consecutive_misses),
            ..self
        }
    }

    /// The state after a ping went out at `now_unix_ms`.
    pub open spec fn pinged(self, now_unix_ms: i64) -> ControlKeepaliveState {
        let seq: u64 = if self.next_seq == u64::MAX {
            u64::MAX
        } else {
            (self.next_seq + 1) as u64
        };
        ControlKeepaliveState {
            next_seq: seq,
            last_send_unix_ms: now_unix_ms,
            awaiting_seq: Some(seq),
            awaiting_since_unix_ms: Some(now_unix_ms),
            ..self
        }
    }

    /// The state before the interval is looked at: the ping that waited is
    /// given up where its time is up.
    pub open spec fn settled(self, now_unix_ms: i64, timing: KeepaliveTiming) -> ControlKeepaliveState {
        if self.timed_out(now_unix_ms, timing) {
            self.missed()
        } else {
            self
        }
    }

    /// Whether a tick sends a ping: none waits within its time, and the
    /// interval since the last ping has passed.
    pub open spec fn pings(self, now_unix_ms: i64, timing: KeepaliveTiming) -> bool {
        !self.waits(now_unix_ms, timing) && now_unix_ms - self.last_send_unix_ms
            >= timing.interval_ms
    }

    /// Whether a tick gives the peer up: the ping that waited has timed out
    /// and the misses in a row have reached the threshold.
    pub open spec fn gives_up(self, now_unix_ms: i64, timing: KeepaliveTiming) -> bool {
        self.timed_out(now_unix_ms, timing) && self.missed().consecutive_misses
            >= timing.max_misses
    }

    /// The state after a tick.
    pub open spec fn ticked(self, now_unix_ms: i64, timing: KeepaliveTiming) -> ControlKeepaliveState {
        if self.pings(now_unix_ms, timing) {
            self.settled(now_unix_ms, timing).pinged(now_unix_ms)
        } else {
            self.settled(now_unix_ms, timing)
        }
    }

    /// What a tick asks for.
    pub open spec fn step(self, now_unix_ms: i64, timing: KeepaliveTiming) -> KeepaliveStep {
        KeepaliveStep {
            send: if self.pings(now_unix_ms, timing) {
                Some(self.settled(now_unix_ms, timing).pinged(now_unix_ms).next_seq)
            } else {
                None
            },
            lost: self.gives_up(now_unix_ms, timing),
        }
    }

    /// Whether a pong with `seq` answers the ping that waits.
    pub open spec fn awaits(self, seq: u64) -> bool {
        self.awaiting_seq == Some(seq)
    }

    /// The state after the pong that was waited for came in.
    pub open spec fn answered(self) -> ControlKeepaliveState {
        ControlKeepaliveState {
            awaiting_seq: None,
            awaiting_since_unix_ms: None,
            consecutive_misses: 0,
            ..self
        }
    }

    pub fn new() -> (state: Self)
        ensures
            state == ControlKeepaliveState::initial(),
    {
        ControlKeepaliveState {
            next_seq: 0,
            last_send_unix_ms: 0,
            awaiting_seq: None,
            awaiting_since_unix_ms: None,
            consecutive_misses: 0,
        }
    }

    /// One tick of the keepalive of a session whose transport is connected.
    ///
    /// A ping whose time is up counts as a miss, and the peer is given up
    /// once the misses in a row reach the threshold. Unless a ping still
    /// waits within its time, a new ping is sent as soon as the interval
    /// since the last one has passed; at most one ping ever waits.
    pub fn tick(&mut self, now_unix_ms: i64, timing: KeepaliveTiming) -> (step: KeepaliveStep)
        ensures
            *final(self) == old(self).ticked(now_unix_ms, timing),
            step == old(self).step(now_unix_ms, timing),
            step.send matches Some(seq) ==> final(self).awaits(seq),
    {
        let mut lost: bool = false;
        match self.awaiting_since_unix_ms {
            Some(since) => {
                if has_elapsed(now_unix_ms, since, timing.timeout_ms) {
                    self.awaiting_since_unix_ms = None;
                    self.awaiting_seq = None;
                    self.consecutive_misses = if self.consecutive_misses == u32::MAX {
                        u32::MAX
                    } else {
                        self.consecutive_misses + 1
                    };
                    lost = self.consecutive_misses >= timing.max_misses;
                } else {
                    return KeepaliveStep { send: None, lost: false };
                }
            },
            None => {},
        }
        if !has_elapsed(now_unix_ms, self.last_send_unix_ms, timing.interval_ms) {
            return KeepaliveStep { send: None, lost };
        }
        let seq: u64 = if self.next_seq == u64::MAX {
            u64::MAX
        } else {
            self.next_seq + 1
        };
        self.next_seq = seq;
        self.last_send_unix_ms = now_unix_ms;
        self.awaiting_seq = Some(seq);
        self.awaiting_since_unix_ms = Some(now_unix_ms);
        KeepaliveStep { send: Some(seq), lost }
    }

    /// Takes a pong. It counts only where it answers the ping that waits;
    /// then nothing waits any more and the misses start again from zero.
    pub fn note_pong(&mut self, seq: u64) -> (counted: bool)
        ensures
            counted == old(self).awaits(seq),
            *final(self) == if counted {
                old(self).answered()
            } else {
                *old(self)
            },
    {
        match self.awaiting_seq {
            Some(expected) => {
                if expected != seq {
                    return false;
                }
            },
            None => {
                return false;
            },
        }
        self.awaiting_seq = None;
        self.awaiting_since_unix_ms = None;
        self.consecutive_misses = 0;
        true
    }

    /// Takes the failure to send the ping with `seq`. It counts as a miss
    /// only where that ping is the one that waits; the result says whether
    /// the misses in a row have reached the threshold.
    pub fn note_send_failure(&mut self, seq: u64, max_misses: u32) -> (lost: bool)
        ensures
            *final(self) == if old(self).awaits(seq) {
                old(self).missed()
            } else {
                *old(self)
            },
            lost == (old(self).awaits(seq) && old(self).missed().consecutive_misses >= max_misses),
    {
        match self.awaiting_seq {
            Some(expected) => {
                if expected != seq {
                    return false;
                }
            },
            None => {
                return false;
            },
        }
        self.awaiting_seq = None;
        self.awaiting_since_unix_ms = None;
        self.consecutive_misses = if self.consecutive_misses == u32::MAX {
            u32::MAX
        } else {
            self.consecutive_misses + 1
        };
        self.consecutive_misses >= max_misses
    }
}

/// The round trip of a ping, in milliseconds: the time from its sending to
/// `now_unix_ms`, held within the range of the result.
pub open spec fn round_trip(now_unix_ms: i64, echo_send_unix_ms: u64) -> i64 {
    if now_unix_ms - echo_send_unix_ms < i64::MIN {
        i64::MIN
    } else {
        (now_unix_ms - echo_send_unix_ms) as i64
    }
}

pub fn round_trip_ms(now_unix_ms: i64, echo_send_unix_ms: u64) -> (rtt: i64)
    ensures
        rtt == round_trip(now_unix_ms, echo_send_unix_ms),
{
    let apart: i128 = now_unix_ms as i128 - echo_send_unix_ms as i128;
    if apart < i64::MIN as i128 {
        i64::MIN
    } else {
        apart as i64
    }
}

/// All that is kept for one peer. A peer of which nothing is known has the
/// empty record.
#[derive(Debug, Clone)]
pub struct PeerSession {
    pub machine: Option<ConnectionStateMachine>,
    pub pending: Option<PendingOutboundSession>,
    pub active_session_id: Option<String>,
    pub keepalive: Option<ControlKeepaliveState>,
    pub last_dial_unix_ms: Option<i64>,
}

pub struct PeerSessionView {
    pub machine: Option<MachineView>,
    pub pending: Option<PendingView>,
    pub active_session_id: Option<Seq<char>>,
    pub keepalive: Option<ControlKeepaliveState>,
    pub last_dial_unix_ms: Option<i64>,
}

impl View for PeerSession {
    type V = PeerSessionView;

    open spec fn view(&self) -> PeerSessionView {
        PeerSessionView {
            machine: match self.machine {
                Some(m) => Some(m@),
                None => None,
            },
            pending: match self.pending {
                Some(p) => Some(p@),
                None => None,
            },
            active_session_id: match self.active_session_id {
                Some(id) => Some(id@),
                None => None,
            },
            keepalive: self.keepalive,
            last_dial_unix_ms: self.last_dial_unix_ms,
        }
    }
}

/// The machine after `trigger`, left as it was where the trigger has no row.
pub open spec fn pushed(machine: MachineView, trigger: Trigger) -> MachineView {
    match machine.after(trigger) {
        Some(next) => next,
        None => machine,
    }
}

impl PeerSessionView {
    pub open spec fn empty() -> PeerSessionView {
        PeerSessionView {
            machine: None,
            pending: None,
            active_session_id: None,
            keepalive: None,
            last_dial_unix_ms: None,
        }
    }

    /// The state of the connection, if a machine runs for the peer.
    pub open spec fn state(self) -> Option<ConnectionState> {
        match self.machine {
            Some(m) => Some(m.state),
            None => None,
        }
    }

    /// The record after `trigger` was fed to the machine, if one runs.
    pub open spec fn driven(self, trigger: Trigger) -> PeerSessionView {
        PeerSessionView {
            machine: match self.machine {
                Some(m) => Some(pushed(m, trigger)),
                None => None,
            },
            ..self
        }
    }

    /// The record after the transport reported a connection: a machine runs
    /// from now on, and has been taken through discovery and the direct
    /// dial as far as its state allowed.
    pub open spec fn connected(self) -> PeerSessionView {
        let machine = match self.machine {
            Some(m) => m,
            None => MachineView::initial(TimingProfile::standard()),
        };
        PeerSessionView {
            machine: Some(
                pushed(
                    pushed(pushed(machine, Trigger::StartConnect), Trigger::CandidatesFound),
                    Trigger::DirectConnected,
                ),
            ),
            ..self
        }
    }

    /// The record after the transport reported the connection closed:
    /// nothing waits, nothing is active, and the machine has lost its path.
    pub open spec fn disconnected(self) -> PeerSessionView {
        PeerSessionView { pending: None, active_session_id: None, keepalive: None, ..self }.driven(
            Trigger::PathLost,
        )
    }

    /// The record without an active session.
    pub open spec fn deactivated(self) -> PeerSessionView {
        PeerSessionView { active_session_id: None, keepalive: None, ..self }
    }

    /// The record after a handshake succeeded for `session_id`: the session
    /// is active, its keepalive runs, and the machine has been told.
    pub open spec fn accepted(self, session_id: Seq<char>) -> PeerSessionView {
        PeerSessionView {
            active_session_id: Some(session_id),
            keepalive: Some(
                match self.keepalive {
                    Some(k) => k,
                    None => ControlKeepaliveState::initial(),
                },
            ),
            ..self
        }.driven(Trigger::HandshakeOk)
    }

    /// The record after a handshake failed.
    pub open spec fn auth_failed(self) -> PeerSessionView {
        self.driven(Trigger::AuthFailed)
    }

    /// The record after a request that waited was dropped and the machine
    /// told of the failure.
    pub open spec fn request_failed(self) -> PeerSessionView {
        PeerSessionView { pending: None, ..self }.driven(Trigger::AuthFailed)
    }

    /// The session that a new request asks for: the one that waits, or
    /// `fresh_session_id` where none does.
    pub open spec fn request_session_id(self, fresh_session_id: Seq<char>) -> Seq<char> {
        match self.pending {
            Some(p) => p.session_id,
            None => fresh_session_id,
        }
    }

    /// The record after a request went out with `nonce`.
    pub open spec fn request_sent(
        self,
        fresh_session_id: Seq<char>,
        nonce: Seq<u8>,
        now_unix_ms: i64,
        max_attempts: u32,
    ) -> PeerSessionView {
        PeerSessionView {
            pending: Some(
                match self.pending {
                    Some(p) => p,
                    None => PendingView::fresh(fresh_session_id),
                }.sent(nonce, now_unix_ms, max_attempts),
            ),
            ..self
        }
    }

    /// Whether a dial out of discovery may be tried at `now_unix_ms`: no
    /// request waits, and the last such dial lies at least the cooldown
    /// back.
    pub open spec fn may_dial(self, now_unix_ms: i64, cooldown_ms: i64) -> bool {
        &&& self.pending is None
        &&& self.last_dial_unix_ms matches Some(last) ==> now_unix_ms - last >= cooldown_ms
    }

    /// Whether keepalive is due for the peer: a session is active.
    pub open spec fn keeps_alive(self) -> bool {
        self.active_session_id is Some
    }

    /// The keepalive that a tick works on.
    pub open spec fn keepalive_or_initial(self) -> ControlKeepaliveState {
        match self.keepalive {
            Some(k) => k,
            None => ControlKeepaliveState::initial(),
        }
    }

    /// The record after a keepalive tick for a connected peer with an
    /// active session.
    pub open spec fn kept_alive(self, now_unix_ms: i64, timing: KeepaliveTiming) -> PeerSessionView {
        PeerSessionView {
            keepalive: Some(self.keepalive_or_initial().ticked(now_unix_ms, timing)),
            ..self
        }
    }

    /// Whether a pong for `session_id` with `seq` counts: the session is
    /// the active one and the pong answers the ping that waits.
    pub open spec fn pong_counts(self, session_id: Seq<char>, seq: u64) -> bool {
        &&& self.active_session_id == Some(session_id)
        &&& self.keepalive matches Some(k) && k.awaits(seq)
    }

    /// The record after a pong that counts.
    pub open spec fn ponged(self) -> PeerSessionView {
        PeerSessionView { keepalive: Some(self.keepalive.unwrap().answered()), ..self }
    }

    /// Whether the failure to send the ping with `seq` counts as a miss.
    pub open spec fn ping_failure_counts(self, seq: u64) -> bool {
        self.keepalive matches Some(k) && k.awaits(seq)
    }

    /// Whether that failure is one miss too many.
    pub open spec fn ping_failure_is_final(self, seq: u64, max_misses: u32) -> bool {
        self.ping_failure_counts(seq) && self.keepalive.unwrap().missed().consecutive_misses
            >= max_misses
    }

    /// The record after the failure to send the ping with `seq`: a miss is
    /// counted where the ping is the one that waits, and the session is
    /// dropped where that is one miss too many.
    pub open spec fn ping_failed(self, seq: u64, max_misses: u32) -> PeerSessionView {
        if !self.ping_failure_counts(seq) {
            self
        } else if self.ping_failure_is_final(seq, max_misses) {
            self.deactivated()
        } else {
            PeerSessionView { keepalive: Some(self.keepalive.unwrap().missed()), ..self }
        }
    }

    /// At most one request waits for its answer and at most one ping for
    /// its pong: the record has one place for each. The nonces kept for a
    /// request never outnumber the attempts allowed, and a ping waits only
    /// with the time since which it does.
    pub open spec fn bounded(self, max_attempts: u32) -> bool {
        &&& self.pending matches Some(p) ==> p.request_nonces.len() <= max_attempts
        &&& self.keepalive matches Some(k) ==> (k.awaiting_seq is Some
            <==> k.awaiting_since_unix_ms is Some)
    }
}

impl PeerSession {
    pub fn new() -> (session: Self)
        ensures
            session@ == PeerSessionView::empty(),
    {
        PeerSession {
            machine: None,
            pending: None,
            active_session_id: None,
            keepalive: None,
            last_dial_unix_ms: None,
        }
    }

    /// Feeds `trigger` to the machine, if one runs. A trigger that has no
    /// row in the state the machine is in changes nothing.
    pub fn drive(&mut self, trigger: Trigger)
        ensures
            final(self)@ == old(self)@.driven(trigger),
    {
        match self.machine {
            Some(mut machine) => {
                let _ = machine.apply(trigger);
                self.machine = Some(machine);
            },
            None => {},
        }
    }

    /// The transport reports a connection.
    pub fn on_connected(&mut self)
        ensures
            final(self)@ == old(self)@.connected(),
    {
        let mut machine: ConnectionStateMachine = match self.machine {
            Some(machine) => machine,
            None => ConnectionStateMachine::default(),
        };
        let _ = machine.apply(Trigger::StartConnect);
        let _ = machine.apply(Trigger::CandidatesFound);
        let _ = machine.apply(Trigger::DirectConnected);
        self.machine = Some(machine);
    }

    /// The transport reports the connection closed.
    pub fn on_disconnected(&mut self)
        ensures
            final(self)@ == old(self)@.disconnected(),
    {
        self.pending = None;
        self.active_session_id = None;
        self.keepalive = None;
        self.drive(Trigger::PathLost);
    }

    /// Makes `session_id` the active session. The keepalive goes on where
    /// there is one, and starts where there is none.
    pub fn set_active_session(&mut self, session_id: String)
        ensures
            final(self)@ == (PeerSessionView {
                active_session_id: Some(session_id@),
                keepalive: Some(old(self)@.keepalive_or_initial()),
                ..old(self)@
            }),
    {
        self.active_session_id = Some(session_id);
        if self.keepalive.is_none() {
            self.keepalive = Some(ControlKeepaliveState::new());
        }
    }

    /// Drops the active session and its keepalive.
    pub fn clear_active_session(&mut self)
        ensures
            final(self)@ == old(self)@.deactivated(),
    {
        self.active_session_id = None;
        self.keepalive = None;
    }

    /// The handshake went well: the machine is told, and `session_id` becomes
    /// the active session.
    pub fn on_accept(&mut self, session_id: String)
        ensures
            final(self)@ == old(self)@.accepted(session_id@),
    {
        self.set_active_session(session_id);
        self.drive(Trigger::HandshakeOk);
    }

    /// The handshake failed: the machine is told.
    pub fn on_auth_failed(&mut self)
        ensures
            final(self)@ == old(self)@.auth_failed(),
    {
        self.drive(Trigger::AuthFailed);
    }

    /// Whether the machine of the peer is in `Active`.
    pub fn is_active(&self) -> (active: bool)
        ensures
            active == (self@.state() == Some(ConnectionState::Active)),
    {
        match &self.machine {
            Some(machine) => match machine.state() {
                ConnectionState::Active => true,
                _ => false,
            },
            None => false,
        }
    }

    /// Notes that a request went out with `nonce`, for the session that
    /// waits or, where none does, for `fresh_session_id`.
    pub fn note_request_sent(
        &mut self,
        fresh_session_id: String,
        nonce: Vec<u8>,
        now_unix_ms: i64,
        max_attempts: u32,
    )
        ensures
            final(self)@ == old(self)@.request_sent(
                fresh_session_id@,
                nonce@,
                now_unix_ms,
                max_attempts,
            ),
    {
        let mut pending: PendingOutboundSession = match self.pending.take() {
            Some(pending) => pending,
            None => PendingOutboundSession::new(fresh_session_id),
        };
        pending.note_sent(nonce, now_unix_ms, max_attempts);
        self.pending = Some(pending);
    }

    /// Whether a dial out of discovery may be tried at `now_unix_ms`.
    pub fn may_dial(&self, now_unix_ms: i64, cooldown_ms: i64) -> (allowed: bool)
        ensures
            allowed == self@.may_dial(now_unix_ms, cooldown_ms),
    {
        if self.pending.is_some() {
            return false;
        }
        match self.last_dial_unix_ms {
            Some(last) => has_elapsed(now_unix_ms, last, cooldown_ms),
            None => true,
        }
    }

    /// One keepalive tick for a connected peer with an active session.
    pub fn keepalive_tick(&mut self, now_unix_ms: i64, timing: KeepaliveTiming) -> (step:
        KeepaliveStep)
        ensures
            final(self)@ == old(self)@.kept_alive(now_unix_ms, timing),
            step == old(self)@.keepalive_or_initial().step(now_unix_ms, timing),
    {
        let mut state: ControlKeepaliveState = match self.keepalive {
            Some(state) => state,
            None => ControlKeepaliveState::new(),
        };
        let step: KeepaliveStep = state.tick(now_unix_ms, timing);
        self.keepalive = Some(state);
        step
    }

    /// Takes a pong, and gives the round trip where the pong counts.
    pub fn note_control_pong(
        &mut self,
        session_id: &str,
        seq: u64,
        echo_send_unix_ms: u64,
        now_unix_ms: i64,
    ) -> (rtt_ms: Option<i64>)
        ensures
            old(self)@.pong_counts(session_id@, seq) ==> {
                &&& rtt_ms == Some(round_trip(now_unix_ms, echo_send_unix_ms))
                &&& final(self)@ == old(self)@.ponged()
            },
            !old(self)@.pong_counts(session_id@, seq) ==> rtt_ms is None && final(self)@ == old(
                self,
            )@,
    {
        match &self.active_session_id {
            Some(active) => {
                if !str_eq(active.as_str(), session_id) {
                    return None;
                }
            },
            None => {
                return None;
            },
        }
        let mut state: ControlKeepaliveState = match self.keepalive {
            Some(state) => state,
            None => {
                return None;
            },
        };
        if !state.note_pong(seq) {
            return None;
        }
        self.keepalive = Some(state);
        Some(round_trip_ms(now_unix_ms, echo_send_unix_ms))
    }

    /// Takes the failure to send the ping with `seq`. Where that is one
    /// miss too many the active session is dropped, and the result says so.
    pub fn note_keepalive_send_failure(&mut self, seq: u64, max_misses: u32) -> (lost: bool)
        ensures
            final(self)@ == old(self)@.ping_failed(seq, max_misses),
            lost == old(self)@.ping_failure_is_final(seq, max_misses),
    {
        let mut state: ControlKeepaliveState = match self.keepalive {
            Some(state) => state,
            None => {
                return false;
            },
        };
        let lost: bool = state.note_send_failure(seq, max_misses);
        self.keepalive = Some(state);
        if lost {
            self.clear_active_session();
        }
        lost
    }
}

/// Feeding a machine never loses a peer's request, session or keepalive:
/// driving changes the machine and nothing else.
pub proof fn lemma_driven_keeps_the_rest(session: PeerSessionView, trigger: Trigger)
    ensures
        session.driven(trigger).pending == session.pending,
        session.driven(trigger).active_session_id == session.active_session_id,
        session.driven(trigger).keepalive == session.keepalive,
        session.driven(trigger).last_dial_unix_ms == session.last_dial_unix_ms,
{
}

/// At most one ping waits: a tick that sends a ping leaves exactly that
/// ping waiting, and a tick never sends one while another waits within its
/// time.
pub proof fn lemma_one_ping_waits(
    state: ControlKeepaliveState,
    now_unix_ms: i64,
    timing: KeepaliveTiming,
)
    ensures
        state.step(now_unix_ms, timing).send matches Some(seq) ==> {
            &&& state.ticked(now_unix_ms, timing).awaits(seq)
            &&& !state.waits(now_unix_ms, timing)
        },
        state.waits(now_unix_ms, timing) ==> state.ticked(now_unix_ms, timing) == state,
{
}

/// The nonces kept for a request never outnumber the attempts allowed, as
/// long as at least one attempt is.
pub proof fn lemma_sent_keeps_bound(
    pending: PendingView,
    nonce: Seq<u8>,
    now_unix_ms: i64,
    max_attempts: u32,
)
    requires
        pending.request_nonces.len() <= max_attempts,
        max_attempts >= 1,
    ensures
        pending.sent(nonce, now_unix_ms, max_attempts).request_nonces.len() <= max_attempts,
        pending.sent(nonce, now_unix_ms, max_attempts).request_nonces.last() == nonce,
{
}

} // verus!
