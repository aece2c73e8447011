//! The control session engine.
//!
//! The engine is a state transformer. It is fed what happens (a connection
//! comes up or goes down, a control message arrives, a request fails, the
//! clock ticks) together with the time, and answers with what is to be done:
//! messages to send, peers to disconnect, the trust store to persist. It
//! does no I/O of its own.

use crate::codes::{
    contains_text, insert_sorted, is_target, normalize_targets, remove_sorted, strictly_sorted, texts,
    trim, trimmed,
};
use crate::error::{AuthFault, SessionAuthError};
use crate::identity::{signature_of, IdentityKey, PeerId};
use crate::peers::PeerTable;
use crate::replay::{fresh_part, NonceReplayCache, DEFAULT_ALLOWED_SKEW_MS};
use crate::security::{
    accept_fault, accept_shape_fault, key_peer_text, request_fault, request_shape_fault,
    sign_session_accept, sign_session_request, verify_session_accept, verify_session_request,
    VerifiedSessionPeer,
};
use crate::session::{
    ControlKeepaliveState, KeepaliveStep, KeepaliveTiming, PeerSession, PeerSessionView,
    RetryDecision,
};
use crate::state_machine::{ConnectionState, Trigger};
use crate::text::{decimal, digits, push_decimal, push_digits, push_text, str_eq};
use crate::trust::{sighting_record, sighting_writes, TrustedPeers};
use crate::wire::{
    ControlEnvelope, ControlEnvelopeView, ControlMessage, ControlMessageView, DeviceIdentity,
    DeviceIdentityView, Ping, PingView, Pong, PongView, ProtocolVersion, RejectReason,
    SessionAccept, SessionAcceptView, SessionReject, SessionRejectView, SessionRequest,
    SessionRequestView, SessionRole, VideoCodec,
};
use std::collections::HashMap;
use vstd::prelude::*;
use vstd::slice::slice_to_vec;
use vstd::std_specs::hash::group_hash_axioms;

verus! {

broadcast use group_hash_axioms;

/// The major version of the protocol this engine speaks.
pub const PROTOCOL_MAJOR: u32 = 1;

/// The time between two ticks, in milliseconds.
pub const TICK_INTERVAL_MS: u64 = 200;

/// The number of bytes of a nonce the engine makes.
pub const NONCE_BYTES: usize = 16;

/// What an outbound request was sent for. The transport reports answers
/// and failures by the tag of the request; the kind tells what to make of
/// them.
#[derive(Debug, Clone, Copy, PartialEq, Eq)]
pub enum OutboundControlRequestKind {
    SessionRequest,
    KeepalivePing { seq: u64 },
}

/// A duration given as an unsigned number, raised to `floor` where it is
/// below it and held at the top of the signed range.
pub open spec fn clamped_ms(value: u64, floor: u64) -> i64 {
    if value < floor {
        floor as i64
    } else if value > i64::MAX {
        i64::MAX
    } else {
        value as i64
    }
}

pub(crate) fn clamp_ms(value: u64, floor: u64) -> (ms: i64)
    requires
        floor <= i64::MAX,
    ensures
        ms == clamped_ms(value, floor),
{
    if value < floor {
        floor as i64
    } else if value > i64::MAX as u64 {
        i64::MAX
    } else {
        value as i64
    }
}

#[derive(Debug, Clone, Copy, PartialEq, Eq)]
pub struct EngineConfig {
    pub auto_request: bool,
    pub trust_on_first_use: bool,
    pub session_request_timeout_ms: i64,
    pub session_request_max_attempts: u32,
    pub keepalive: KeepaliveTiming,
}

impl EngineConfig {
    /// The configuration made of the given values, each raised to its least
    /// sensible value: 100 ms to wait for an answer, one attempt, 300 ms
    /// between pings, 500 ms to wait for a pong, one miss.
    pub open spec fn normalized(
        auto_request: bool,
        trust_on_first_use: bool,
        session_request_timeout_ms: u64,
        session_request_max_attempts: u32,
        keepalive_interval_ms: u64,
        keepalive_timeout_ms: u64,
        keepalive_max_misses: u32,
    ) -> EngineConfig {
        EngineConfig {
            auto_request,
            trust_on_first_use,
            session_request_timeout_ms: clamped_ms(session_request_timeout_ms, 100),
            session_request_max_attempts: if session_request_max_attempts < 1 {
                1
            } else {
                session_request_max_attempts
            },
            keepalive: KeepaliveTiming {
                interval_ms: clamped_ms(keepalive_interval_ms, 300),
                timeout_ms: clamped_ms(keepalive_timeout_ms, 500),
                max_misses: if keepalive_max_misses < 1 {
                    1
                } else {
                    keepalive_max_misses
                },
            },
        }
    }

    /// The configuration of a node that is told nothing: answers are waited
    /// for 1200 ms and asked for three times, pings go out every second,
    /// and three misses in a row lose the peer.
    pub open spec fn standard() -> EngineConfig {
        EngineConfig::normalized(false, true, 1200, 3, 1000, 1200, 3)
    }

    /// The configuration made of the given values, each raised to its least
    /// sensible value.
    pub fn new(
        auto_request: bool,
        trust_on_first_use: bool,
        session_request_timeout_ms: u64,
        session_request_max_attempts: u32,
        keepalive_interval_ms: u64,
        keepalive_timeout_ms: u64,
        keepalive_max_misses: u32,
    ) -> (config: Self)
        ensures
            config == EngineConfig::normalized(
                auto_request,
                trust_on_first_use,
                session_request_timeout_ms,
                session_request_max_attempts,
                keepalive_interval_ms,
                keepalive_timeout_ms,
                keepalive_max_misses,
            ),
            config.session_request_max_attempts >= 1,
    {
        EngineConfig {
            auto_request,
            trust_on_first_use,
            session_request_timeout_ms: clamp_ms(session_request_timeout_ms, 100),
            session_request_max_attempts: if session_request_max_attempts < 1 {
                1
            } else {
                session_request_max_attempts
            },
            keepalive: KeepaliveTiming {
                interval_ms: clamp_ms(keepalive_interval_ms, 300),
                timeout_ms: clamp_ms(keepalive_timeout_ms, 500),
                max_misses: if keepalive_max_misses < 1 {
                    1
                } else {
                    keepalive_max_misses
                },
            },
        }
    }
}

impl Default for EngineConfig {
    fn default() -> (config: Self)
        ensures
            config == EngineConfig::standard(),
    {
        EngineConfig::new(false, true, 1200, 3, 1000, 1200, 3)
    }
}

/// The time as the unsigned number that messages carry; a time before the
/// epoch counts as the epoch.
pub open spec fn clock(now_unix_ms: i64) -> u64 {
    if now_unix_ms < 0 {
        0
    } else {
        now_unix_ms as u64
    }
}

fn clock_of(now_unix_ms: i64) -> (time: u64)
    ensures
        time == clock(now_unix_ms),
{
    if now_unix_ms < 0 {
        0
    } else {
        now_unix_ms as u64
    }
}

/// The identity that the holder of `key` puts into its messages: its peer
/// identifier, its public key, and the text of the identifier as device
/// code.
pub open spec fn identity_of(key: IdentityKey) -> DeviceIdentityView {
    DeviceIdentityView {
        peer_id: key.peer_id()@,
        identity_pubkey: key.public_key(),
        device_code: key.peer_id().text(),
    }
}

/// The session request that goes to the peer with text `target`, before it
/// is signed.
pub open spec fn request_template(
    from: DeviceIdentityView,
    target: Seq<char>,
    session_id: Seq<char>,
    nonce: Seq<u8>,
    now_unix_ms: i64,
) -> SessionRequestView {
    SessionRequestView {
        session_id,
        from: Some(from),
        requested_role: SessionRole::Controller.spec_code(),
        target_device_code: target,
        supported_video_codecs: seq![VideoCodec::H264.spec_code()],
        allow_relay: true,
        preferred_max_fps: 30,
        preferred_max_width: 1280,
        preferred_max_height: 720,
        nonce,
        unix_ms: now_unix_ms,
        signature: Seq::<u8>::empty(),
        version: Some(ProtocolVersion { major: PROTOCOL_MAJOR, minor: 0, patch: 0 }),
    }
}

/// The accept that answers a request for `session_id` made with
/// `request_nonce`, before it is signed.
pub open spec fn accept_template(
    from: DeviceIdentityView,
    session_id: Seq<char>,
    nonce: Seq<u8>,
    request_nonce: Seq<u8>,
    now_unix_ms: i64,
) -> SessionAcceptView {
    SessionAcceptView {
        session_id,
        selected_codec: VideoCodec::H264.spec_code(),
        selected_fps: 30,
        selected_width: 1280,
        selected_height: 720,
        using_relay: false,
        path_id: "direct-quic"@,
        from: Some(from),
        nonce,
        unix_ms: now_unix_ms,
        signature: Seq::<u8>::empty(),
        request_nonce,
    }
}

/// The session that a request sent at `now_unix_ms` opens where none waits.
pub open spec fn fresh_session_id(now_unix_ms: i64) -> Seq<char> {
    "session-"@ + decimal(now_unix_ms as int)
}

/// The reason a refusal is reported with to the peer: a refusal of policy
/// as `PolicyDenied`, every other as `AuthFailed`.
pub open spec fn reject_reason(fault: AuthFault) -> RejectReason {
    if fault.is_policy() {
        RejectReason::PolicyDenied
    } else {
        RejectReason::AuthFailed
    }
}

/// The reason with which a refusal is reported to the peer.
pub fn map_auth_error_to_reject(error: &SessionAuthError) -> (reason: RejectReason)
    ensures
        reason == reject_reason(error@),
{
    match error {
        SessionAuthError::InvalidTargetDeviceCode { .. } => RejectReason::PolicyDenied,
        SessionAuthError::UntrustedPeer { .. } => RejectReason::PolicyDenied,
        SessionAuthError::TrustedPeerMismatch { .. } => RejectReason::PolicyDenied,
        _ => RejectReason::AuthFailed,
    }
}

/// The major version a request claims; zero where it claims none.
pub open spec fn claimed_major(version: Option<ProtocolVersion>) -> u32 {
    match version {
        Some(v) => v.major,
        None => 0,
    }
}

/// What a peer is told when it speaks another major version.
pub open spec fn version_detail(version: Option<ProtocolVersion>) -> Seq<char> {
    "protocol major mismatch: expected "@ + digits(PROTOCOL_MAJOR as nat) + ", got "@
        + match version {
        Some(v) => "Some("@ + digits(v.major as nat) + ")"@,
        None => "None"@,
    }
}

fn version_mismatch_detail(version: &Option<ProtocolVersion>) -> (detail: String)
    ensures
        detail@ == version_detail(*version),
{
    let mut detail: String = "protocol major mismatch: expected ".to_owned();
    push_digits(&mut detail, PROTOCOL_MAJOR as u64);
    push_text(&mut detail, ", got ");
    match version {
        Some(v) => {
            let ghost before = detail@;
            push_text(&mut detail, "Some(");
            push_digits(&mut detail, v.major as u64);
            push_text(&mut detail, ")");
            assert(detail@ =~= before + ("Some("@ + digits(v.major as nat) + ")"@));
        },
        None => {
            push_text(&mut detail, "None");
        },
    }
    detail
}

/// Fills a buffer of `len` bytes from the thread's random generator, with
/// `rand::RngCore::fill_bytes`. Only the length of the result is promised.
#[verifier::external_body]
fn random_nonce(len: usize) -> (nonce: Vec<u8>)
    ensures
        nonce@.len() == len,
{
    let mut bytes = vec![0_u8; len];
    rand::RngCore::fill_bytes(&mut rand::rng(), &mut bytes);
    bytes
}

/// A request for the transport to send: the peer it goes to, the tag under
/// which its answer or its failure is to be reported, and the message.
#[derive(Debug, Clone)]
pub struct OutboundRequest {
    pub peer: PeerId,
    pub tag: u64,
    pub envelope: ControlEnvelope,
}

/// What came of an inbound request.
#[derive(Debug, Clone)]
pub struct RequestOutcome {
    /// The answer for the transport to send back, if there is one.
    pub reply: Option<ControlEnvelope>,
    /// Whether the trust store changed and is to be persisted.
    pub persist_trust_store: bool,
    /// Why the request was refused or could not be answered.
    pub failure: Option<SessionAuthError>,
}

/// What came of an answer to an outbound request.
#[derive(Debug, Clone, PartialEq, Eq)]
pub enum ResponseOutcome {
    /// The answer called for nothing.
    Ignored,
    /// The peer turned the session request down.
    Rejected,
    /// An accept came in while no request waited for one.
    AcceptWithoutRequest,
    /// An accept came in and was refused.
    AcceptRefused(SessionAuthError),
    /// An accept came in and the session is active. The trust store is to
    /// be persisted where it changed.
    Activated { persist_trust_store: bool },
    /// A pong answered the ping that waited, after this round trip.
    Pong { rtt_ms: i64 },
}

#[derive(Debug, Clone)]
pub struct Engine {
    local_key: IdentityKey,
    config: EngineConfig,
    targets: Vec<String>,
    peers: PeerTable,
    nonce_cache: NonceReplayCache,
    trusted_peers: TrustedPeers,
    outbound: HashMap<u64, OutboundControlRequestKind>,
    next_tag: u64,
}

impl Engine {
    pub closed spec fn local_key(&self) -> IdentityKey {
        self.local_key
    }

    pub closed spec fn config(&self) -> EngineConfig {
        self.config
    }

    /// The device codes the engine is to connect to.
    pub closed spec fn targets(&self) -> Seq<Seq<char>> {
        texts(self.targets@)
    }

    /// The record of `peer`.
    pub closed spec fn session(&self, peer: Seq<u8>) -> PeerSessionView {
        self.peers.at(peer)
    }

    /// The peers heard of, oldest first.
    pub closed spec fn peer_order(&self) -> Seq<Seq<u8>> {
        self.peers.order()
    }

    /// The nonces the replay cache remembers.
    pub closed spec fn seen(&self) -> Map<Seq<u8>, i64> {
        self.nonce_cache@
    }

    pub closed spec fn retention(&self) -> i64 {
        self.nonce_cache.retention()
    }

    pub closed spec fn trust(&self) -> TrustedPeers {
        self.trusted_peers
    }

    /// The outbound requests whose answers are outstanding, by tag.
    pub closed spec fn outbound(&self) -> Map<u64, OutboundControlRequestKind> {
        self.outbound@
    }

    /// The tag that the next outbound request gets.
    pub closed spec fn next_tag(&self) -> u64 {
        self.next_tag
    }

    pub closed spec fn wf(&self) -> bool {
        &&& self.local_key.wf()
        &&& self.peers.wf()
        &&& self.nonce_cache.wf()
        &&& self.trusted_peers.wf()
        &&& self.config.session_request_max_attempts >= 1
        &&& strictly_sorted(texts(self.targets@))
        &&& forall|peer: Seq<u8>| (#[trigger] self.peers.at(peer)).bounded(
            self.config.session_request_max_attempts,
        )
    }

    /// The identity the engine puts into its messages.
    pub open spec fn identity(&self) -> DeviceIdentityView {
        identity_of(self.local_key())
    }

    /// The device code of the local device: the text of its peer
    /// identifier.
    pub open spec fn local_device_code(&self) -> Seq<char> {
        self.local_key().peer_id().text()
    }

    /// Everything but the records of the peers is as in `before`.
    pub open spec fn same_stores(&self, before: &Engine) -> bool {
        &&& self.local_key() == before.local_key()
        &&& self.config() == before.config()
        &&& self.targets() == before.targets()
        &&& self.seen() == before.seen()
        &&& self.retention() == before.retention()
        &&& self.trust().records() == before.trust().records()
        &&& self.outbound() == before.outbound()
        &&& self.next_tag() == before.next_tag()
    }

    /// The records of all peers but `peer` are as in `before`.
    pub open spec fn same_peers_but(&self, before: &Engine, peer: Seq<u8>) -> bool {
        forall|other: Seq<u8>| other != peer ==> #[trigger] self.session(other) == before.session(other)
    }

    /// In a well-formed engine at most one request waits for each peer, with
    /// no more nonces than attempts are allowed, and at most one ping, which
    /// waits with the time since which it does.
    pub proof fn lemma_bounded(&self, peer: Seq<u8>)
        requires
            self.wf(),
        ensures
            self.session(peer).bounded(self.config().session_request_max_attempts),
            self.config().session_request_max_attempts >= 1,
            self.local_key().wf(),
            self.trust().wf(),
    {
    }

    /// The order of the peers names each peer once, and every peer of whom
    /// anything is on record stands in it.
    pub proof fn lemma_peer_order(&self)
        requires
            self.wf(),
        ensures
            self.peer_order().no_duplicates(),
            forall|peer: Seq<u8>|
                !self.peer_order().contains(peer) ==> #[trigger] self.session(peer)
                    == PeerSessionView::empty(),
    {
        self.peers.lemma_order();
    }

    /// An engine that knows no peer. `connect_device_codes` are the device
    /// codes it is to connect to; they are trimmed, the empty ones and the
    /// code of the local device are left out, and the rest is kept in
    /// order, each code once.
    pub fn new(
        local_key: IdentityKey,
        config: EngineConfig,
        trusted_peers: TrustedPeers,
        connect_device_codes: &[String],
    ) -> (engine: Self)
        requires
            local_key.wf(),
            trusted_peers.wf(),
            config.session_request_max_attempts >= 1,
        ensures
            engine.wf(),
            engine.local_key() == local_key,
            engine.config() == config,
            strictly_sorted(engine.targets()),
            forall|code: Seq<char>|
                engine.targets().contains(code) <==> is_target(
                    texts(connect_device_codes@),
                    local_key.peer_id().text(),
                    code,
                ),
            engine.trust().records() == trusted_peers.records(),
            engine.seen() == Map::<Seq<u8>, i64>::empty(),
            engine.outbound() == Map::<u64, OutboundControlRequestKind>::empty(),
            engine.next_tag() == 0,
            engine.peer_order() == Seq::<Seq<u8>>::empty(),
            forall|peer: Seq<u8>| #[trigger] engine.session(peer) == PeerSessionView::empty(),
    {
        let targets: Vec<String> = normalize_targets(
            connect_device_codes,
            local_key.local_peer_id().as_str(),
        );
        Engine {
            local_key,
            config,
            targets,
            peers: PeerTable::new(),
            nonce_cache: NonceReplayCache::default(),
            trusted_peers,
            outbound: HashMap::new(),
            next_tag: 0,
        }
    }

    /// Whether `code`, trimmed, is a device code to connect to: it is not
    /// empty and not the code of the local device.
    pub open spec fn accepts_target(&self, code: Seq<char>) -> bool {
        trimmed(code).len() > 0 && trimmed(code) != self.local_device_code()
    }

    /// Adds a device code to those the engine is to connect to. The code
    /// is trimmed; an empty code and the code of the local device are not
    /// taken.
    pub fn add_target_device_code(&mut self, code: &str)
        requires
            old(self).wf(),
        ensures
            final(self).wf(),
            final(self).local_key() == old(self).local_key(),
            final(self).config() == old(self).config(),
            final(self).seen() == old(self).seen(),
            final(self).retention() == old(self).retention(),
            final(self).trust().records() == old(self).trust().records(),
            final(self).outbound() == old(self).outbound(),
            final(self).next_tag() == old(self).next_tag(),
            final(self).peer_order() == old(self).peer_order(),
            forall|peer: Seq<u8>| #[trigger] final(self).session(peer) == old(self).session(peer),
            strictly_sorted(final(self).targets()),
            forall|other: Seq<char>|
                final(self).targets().contains(other) <==> (old(self).targets().contains(other)
                    || (other == trimmed(code@) && old(self).accepts_target(code@))),
    {
        let inner: &str = trim(code);
        if inner.unicode_len() > 0 && !str_eq(inner, self.local_key.local_peer_id().as_str()) {
            insert_sorted(&mut self.targets, inner);
        }
    }

    /// Takes a device code from those the engine is to connect to.
    pub fn remove_target_device_code(&mut self, code: &str)
        requires
            old(self).wf(),
        ensures
            final(self).wf(),
            final(self).local_key() == old(self).local_key(),
            final(self).config() == old(self).config(),
            final(self).seen() == old(self).seen(),
            final(self).retention() == old(self).retention(),
            final(self).trust().records() == old(self).trust().records(),
            final(self).outbound() == old(self).outbound(),
            final(self).next_tag() == old(self).next_tag(),
            final(self).peer_order() == old(self).peer_order(),
            forall|peer: Seq<u8>| #[trigger] final(self).session(peer) == old(self).session(peer),
            strictly_sorted(final(self).targets()),
            forall|other: Seq<char>|
                final(self).targets().contains(other) <==> (old(self).targets().contains(other)
                    && other != trimmed(code@)),
    {
        remove_sorted(&mut self.targets, trim(code));
    }

    /// The device codes the engine is to connect to, in order.
    pub fn target_device_codes(&self) -> (targets: &[String])
        ensures
            texts(targets@) == self.targets(),
    {
        self.targets.as_slice()
    }

    /// The settings of the engine.
    pub fn config_values(&self) -> (config: EngineConfig)
        ensures
            config == self.config(),
    {
        self.config
    }

    /// The identity of the local device.
    pub fn identity_key(&self) -> (key: &IdentityKey)
        ensures
            *key == self.local_key(),
    {
        &self.local_key
    }

    /// The trust store, for persisting.
    pub fn trusted_peers(&self) -> (store: &TrustedPeers)
        ensures
            *store == self.trust(),
    {
        &self.trusted_peers
    }

    /// The record of `peer`, where the peer was heard of.
    pub fn session_of(&self, peer: &PeerId) -> (session: Option<&PeerSession>)
        requires
            self.wf(),
        ensures
            match session {
                Some(s) => s@ == self.session(peer@),
                None => self.session(peer@) == PeerSessionView::empty(),
            },
    {
        self.peers.get(peer)
    }

    /// The state of the connection to `peer`, if a machine runs for it.
    pub fn state_of(&self, peer: &PeerId) -> (state: Option<ConnectionState>)
        requires
            self.wf(),
        ensures
            state == self.session(peer@).state(),
    {
        match self.peers.get(peer) {
            Some(session) => match &session.machine {
                Some(machine) => Some(*machine.state()),
                None => None,
            },
            None => None,
        }
    }

    /// What the outbound request with `tag` was sent for, if its answer is
    /// outstanding.
    pub fn outbound_kind(&self, tag: u64) -> (kind: Option<OutboundControlRequestKind>)
        ensures
            kind == if self.outbound().contains_key(tag) {
                Some(self.outbound()[tag])
            } else {
                None
            },
    {
        match self.outbound.get(&tag) {
            Some(kind) => Some(*kind),
            None => None,
        }
    }

    fn local_identity(&self) -> (identity: DeviceIdentity)
        requires
            self.wf(),
        ensures
            identity@ == self.identity(),
    {
        DeviceIdentity {
            peer_id: self.local_key.local_peer_id().to_bytes(),
            identity_pubkey: slice_to_vec(self.local_key.public_key_bytes()),
            device_code: self.local_key.local_peer_id().as_str().to_owned(),
        }
    }

    /// Whether a session is to be asked of `peer` without being told:
    /// asking on its own is on, and the peer is one of the targets or there
    /// are no targets at all.
    pub open spec fn auto_requests(&self, peer_text: Seq<char>) -> bool {
        self.config().auto_request && (self.targets().len() == 0 || self.targets().contains(
            peer_text,
        ))
    }

    /// Whether `peer` is asked for a session on its own: never while auto
    /// request is off; else every peer where no target device code is set,
    /// and the peers whose text is a target device code where some are.
    pub fn should_auto_request_for_peer(&self, peer: &PeerId) -> (wanted: bool)
        ensures
            wanted == self.auto_requests(peer.text()),
    {
        if !self.config.auto_request {
            return false;
        }
        if self.targets.len() == 0 {
            return true;
        }
        contains_text(self.targets.as_slice(), peer.as_str())
    }

    /// Whether a session request is to go to `peer` now that it is
    /// connected: the peer is asked on its own, no request waits for it,
    /// and its session is not active.
    pub fn should_send_session_request(&self, peer: &PeerId) -> (wanted: bool)
        requires
            self.wf(),
        ensures
            wanted == (self.auto_requests(peer.text()) && self.session(peer@).pending is None
                && self.session(peer@).state() != Some(ConnectionState::Active)),
    {
        if !self.should_auto_request_for_peer(peer) {
            return false;
        }
        match self.peers.get(peer) {
            Some(session) => session.pending.is_none() && !session.is_active(),
            None => true,
        }
    }

    /// Takes the tag for the next outbound request and notes what the
    /// request is for.
    fn register(&mut self, kind: OutboundControlRequestKind) -> (tag: u64)
        ensures
            tag == old(self).next_tag,
            final(self).next_tag == if tag == u64::MAX {
                0u64
            } else {
                (tag + 1) as u64
            },
            final(self).outbound@ == old(self).outbound@.insert(tag, kind),
            final(self).local_key == old(self).local_key,
            final(self).config == old(self).config,
            final(self).targets == old(self).targets,
            final(self).peers == old(self).peers,
            final(self).nonce_cache == old(self).nonce_cache,
            final(self).trusted_peers == old(self).trusted_peers,
    {
        let tag: u64 = self.next_tag;
        self.next_tag = if tag == u64::MAX {
            0
        } else {
            tag + 1
        };
        self.outbound.insert(tag, kind);
        tag
    }

    /// The transport reports a connection to `peer`.
    pub fn on_connected(&mut self, peer: &PeerId)
        requires
            old(self).wf(),
            peer.wf(),
        ensures
            final(self).wf(),
            final(self).same_stores(old(self)),
            final(self).session(peer@) == old(self).session(peer@).connected(),
            final(self).same_peers_but(old(self), peer@),
    {
        let index: usize = self.peers.place(peer);
        let mut session: PeerSession = self.peers.take_at(index);
        session.on_connected();
        self.peers.put_at(index, session);
    }

    /// The transport reports the connection to `peer` closed.
    pub fn on_disconnected(&mut self, peer: &PeerId)
        requires
            old(self).wf(),
            peer.wf(),
        ensures
            final(self).wf(),
            final(self).same_stores(old(self)),
            final(self).session(peer@) == old(self).session(peer@).disconnected(),
            final(self).same_peers_but(old(self), peer@),
    {
        let index: usize = self.peers.place(peer);
        let mut session: PeerSession = self.peers.take_at(index);
        session.on_disconnected();
        self.peers.put_at(index, session);
    }

    /// What the next request to `peer` is made of, given the nonce: the
    /// template for it, and the session it asks for.
    pub open spec fn next_request(&self, peer: &PeerId, nonce: Seq<u8>, now_unix_ms: i64) -> SessionRequestView {
        request_template(
            self.identity(),
            peer.text(),
            self.session(peer@).request_session_id(fresh_session_id(now_unix_ms)),
            nonce,
            now_unix_ms,
        )
    }

    /// What comes of sending `peer` a session request made with `nonce`,
    /// where `before` is the engine before the sending and `self` the
    /// engine after it. Where the request can be signed it is handed out
    /// in its envelope under the next tag, and the record of the peer notes
    /// the attempt and keeps the nonce. Where it cannot, signing is
    /// reported to have failed and nothing changes.
    pub open spec fn sent_with(
        &self,
        before: &Engine,
        peer: &PeerId,
        now_unix_ms: i64,
        nonce: Seq<u8>,
        result: Result<OutboundRequest, SessionAuthError>,
    ) -> bool {
        match signature_of(
            before.local_key().encoded(),
            before.next_request(peer, nonce, now_unix_ms).signing_payload(),
        ) {
            Some(signature) => {
                &&& result matches Ok(request)
                &&& request.peer@ == peer@
                &&& request.peer.wf()
                &&& request.tag == before.next_tag()
                &&& request.envelope@ == (ControlEnvelopeView {
                    seq: clock(now_unix_ms),
                    request_id: "req-"@ + decimal(now_unix_ms as int),
                    message: Some(
                        ControlMessageView::SessionRequest(
                            SessionRequestView {
                                signature,
                                ..before.next_request(peer, nonce, now_unix_ms)
                            },
                        ),
                    ),
                })
                &&& self.outbound() == before.outbound().insert(
                    request.tag,
                    OutboundControlRequestKind::SessionRequest,
                )
                &&& self.next_tag() != before.next_tag()
                &&& self.session(peer@) == before.session(peer@).request_sent(
                    fresh_session_id(now_unix_ms),
                    nonce,
                    now_unix_ms,
                    before.config().session_request_max_attempts,
                )
            },
            None => {
                &&& result matches Err(error)
                &&& error == SessionAuthError::SigningFailed
                &&& self.session(peer@) == before.session(peer@)
                &&& self.outbound() == before.outbound()
                &&& self.next_tag() == before.next_tag()
            },
        }
    }

    /// Sends a session request to `peer`, made with `nonce`.
    ///
    /// The request asks for the session that already waits for the peer, or
    /// opens a new one. It is signed with the local identity; where that
    /// fails nothing changes. Otherwise the request is handed out under a
    /// fresh tag, and the record of the peer notes the attempt and keeps the
    /// nonce, so that an accept can be bound to any of the requests sent.
    pub fn send_session_request_with(&mut self, peer: &PeerId, now_unix_ms: i64, nonce: Vec<u8>) -> (result:
        Result<OutboundRequest, SessionAuthError>)
        requires
            old(self).wf(),
            peer.wf(),
        ensures
            final(self).wf(),
            final(self).same_peers_but(old(self), peer@),
            final(self).local_key() == old(self).local_key(),
            final(self).config() == old(self).config(),
            final(self).targets() == old(self).targets(),
            final(self).seen() == old(self).seen(),
            final(self).retention() == old(self).retention(),
            final(self).trust().records() == old(self).trust().records(),
            final(self).sent_with(old(self), peer, now_unix_ms, nonce@, result),
    {
        let mut fresh: String = "session-".to_owned();
        push_decimal(&mut fresh, now_unix_ms);
        let session_id: String = match self.peers.get(peer) {
            Some(session) => match &session.pending {
                Some(pending) => pending.session_id.clone(),
                None => fresh.clone(),
            },
            None => fresh.clone(),
        };
        let mut request: SessionRequest = SessionRequest {
            session_id,
            from: Some(self.local_identity()),
            requested_role: SessionRole::Controller.code(),
            target_device_code: peer.as_str().to_owned(),
            supported_video_codecs: vec![VideoCodec::H264.code()],
            allow_relay: true,
            preferred_max_fps: 30,
            preferred_max_width: 1280,
            preferred_max_height: 720,
            nonce: slice_to_vec(nonce.as_slice()),
            unix_ms: now_unix_ms,
            signature: Vec::new(),
            version: Some(ProtocolVersion { major: PROTOCOL_MAJOR, minor: 0, patch: 0 }),
        };
        proof {
            assert(request.supported_video_codecs@ =~= seq![VideoCodec::H264.spec_code()]);
            assert(request@ == old(self).next_request(peer, nonce@, now_unix_ms));
        }
        match sign_session_request(&mut request, &self.local_key) {
            Ok(_) => {},
            Err(error) => {
                return Err(error);
            },
        }
        let mut request_id: String = "req-".to_owned();
        push_decimal(&mut request_id, now_unix_ms);
        let envelope: ControlEnvelope = ControlEnvelope {
            seq: clock_of(now_unix_ms),
            request_id,
            message: Some(ControlMessage::SessionRequest(request)),
        };
        let tag: u64 = self.register(OutboundControlRequestKind::SessionRequest);
        let index: usize = self.peers.place(peer);
        let mut session: PeerSession = self.peers.take_at(index);
        session.note_request_sent(
            fresh,
            nonce,
            now_unix_ms,
            self.config.session_request_max_attempts,
        );
        self.peers.put_at(index, session);
        Ok(OutboundRequest { peer: peer.duplicate(), tag, envelope })
    }

    /// Sends a session request to `peer`, with a nonce of sixteen random
    /// bytes: there is a nonce of that length with which the request was
    /// made and sent as `send_session_request_with` says.
    pub fn send_session_request(&mut self, peer: &PeerId, now_unix_ms: i64) -> (result: Result<
        OutboundRequest,
        SessionAuthError,
    >)
        requires
            old(self).wf(),
            peer.wf(),
        ensures
            final(self).wf(),
            final(self).same_peers_but(old(self), peer@),
            final(self).local_key() == old(self).local_key(),
            final(self).config() == old(self).config(),
            final(self).targets() == old(self).targets(),
            final(self).seen() == old(self).seen(),
            final(self).retention() == old(self).retention(),
            final(self).trust().records() == old(self).trust().records(),
            exists|nonce: Seq<u8>|
                nonce.len() == NONCE_BYTES && #[trigger] final(self).sent_with(
                    old(self),
                    peer,
                    now_unix_ms,
                    nonce,
                    result,
                ),
            result matches Ok(request) ==> {
                &&& request.peer@ == peer@
                &&& request.tag == old(self).next_tag()
                &&& final(self).outbound() == old(self).outbound().insert(
                    request.tag,
                    OutboundControlRequestKind::SessionRequest,
                )
                &&& final(self).session(peer@).pending matches Some(pending)
                &&& pending.last_send_unix_ms == now_unix_ms
                &&& pending.session_id == old(self).session(peer@).request_session_id(
                    fresh_session_id(now_unix_ms),
                )
            },
            result matches Err(error) ==> {
                &&& error == SessionAuthError::SigningFailed
                &&& final(self).session(peer@) == old(self).session(peer@)
                &&& final(self).outbound() == old(self).outbound()
            },
    {
        let nonce: Vec<u8> = random_nonce(NONCE_BYTES);
        let ghost made = nonce@;
        let result = self.send_session_request_with(peer, now_unix_ms, nonce);
        assert(made.len() == NONCE_BYTES && self.sent_with(
            old(self),
            peer,
            now_unix_ms,
            made,
            result,
        ));
        result
    }
}

/// The envelope that carries `message` back to the sender of a request.
pub open spec fn reply_envelope(
    request_id: Seq<char>,
    message: ControlMessageView,
    now_unix_ms: i64,
) -> ControlEnvelopeView {
    ControlEnvelopeView { seq: clock(now_unix_ms), request_id, message: Some(message) }
}

/// The reject that turns a request for `session_id` down.
pub open spec fn reject_message(
    session_id: Seq<char>,
    reason: RejectReason,
    detail: Seq<char>,
) -> ControlMessageView {
    ControlMessageView::SessionReject(
        SessionRejectView { session_id, reason: reason.spec_code(), detail },
    )
}

/// The pong that answers `ping` at `now_unix_ms`.
pub open spec fn pong_message(ping: PingView, now_unix_ms: i64) -> ControlMessageView {
    ControlMessageView::Pong(
        PongView {
            session_id: ping.session_id,
            seq: ping.seq,
            echo_send_unix_ms: ping.send_unix_ms,
            recv_unix_ms: clock(now_unix_ms),
        },
    )
}

fn reject_reply(
    request_id: &str,
    session_id: &str,
    reason: RejectReason,
    detail: String,
    now_unix_ms: i64,
) -> (envelope: ControlEnvelope)
    ensures
        envelope@ == reply_envelope(
            request_id@,
            reject_message(session_id@, reason, detail@),
            now_unix_ms,
        ),
{
    ControlEnvelope {
        seq: clock_of(now_unix_ms),
        request_id: request_id.to_owned(),
        message: Some(
            ControlMessage::SessionReject(
                SessionReject { session_id: session_id.to_owned(), reason: reason.code(), detail },
            ),
        ),
    }
}

impl Engine {
    /// Why the engine refuses `request` from `peer`, if it does: the first
    /// fault of the request, checked against the transport peer, the local
    /// device code as target, the standard skew, the replay cache and the
    /// trust store.
    pub open spec fn inbound_fault(
        &self,
        peer: Seq<u8>,
        request: SessionRequest,
        now_unix_ms: i64,
    ) -> Option<AuthFault> {
        request_fault(
            request,
            Some(peer),
            Some(self.local_device_code()),
            now_unix_ms,
            DEFAULT_ALLOWED_SKEW_MS,
            self.seen(),
            self.retention(),
            match request.from {
                Some(from) => self.trust().lookup(from.device_code@),
                None => None,
            },
            self.config().trust_on_first_use,
        )
    }

    /// The replay cache after `nonce` went through it at `now_unix_ms`.
    pub open spec fn seen_after(&self, nonce: Seq<u8>, now_unix_ms: i64) -> Map<Seq<u8>, i64> {
        if fresh_part(self.seen(), now_unix_ms, self.retention()).contains_key(nonce) {
            fresh_part(self.seen(), now_unix_ms, self.retention())
        } else {
            fresh_part(self.seen(), now_unix_ms, self.retention()).insert(nonce, now_unix_ms)
        }
    }

    /// The accept that answers `request`, before it is signed.
    pub open spec fn accept_for(
        &self,
        request: SessionRequest,
        nonce: Seq<u8>,
        now_unix_ms: i64,
    ) -> SessionAcceptView {
        accept_template(self.identity(), request.session_id@, nonce, request.nonce@, now_unix_ms)
    }

    /// What comes of a session request from `peer` apart from the accept
    /// that may answer it, where `before` is the engine before the request
    /// and `self` the engine after it.
    ///
    /// A request of another major version is turned down as a version
    /// mismatch; the machine of the peer is told so, and the replay cache
    /// and the trust store stay as they are. Any other request reaches the
    /// replay cache once its shape is right. One with a fault is turned
    /// down with the reason and the words of the fault, the machine is told
    /// of a failed authentication, and the trust store stays as it is. One
    /// without fault comes from the peer of the key it carries; the peer
    /// and the key are pinned to its device code or seen there again, and
    /// the trust store is to be persisted where that wrote anything. What
    /// is held under any other device code stays, and a trust store with
    /// which nothing is wrong stays so.
    pub open spec fn judged(
        &self,
        before: &Engine,
        peer: Seq<u8>,
        request_id: Seq<char>,
        request: SessionRequest,
        now_unix_ms: i64,
        outcome: RequestOutcome,
    ) -> bool {
        &&& forall|code: Seq<char>|
            !(request.from matches Some(from) && from.device_code@ == code)
                ==> #[trigger] self.trust().lookup(code) == before.trust().lookup(code)
        &&& before.trust().sound() ==> self.trust().sound()
        &&& claimed_major(request.version) != PROTOCOL_MAJOR ==> {
            &&& outcome.reply matches Some(reply)
            &&& reply@ == reply_envelope(
                request_id,
                reject_message(
                    request.session_id@,
                    RejectReason::VersionMismatch,
                    version_detail(request.version),
                ),
                now_unix_ms,
            )
            &&& outcome.failure is None
            &&& !outcome.persist_trust_store
            &&& self.session(peer) == before.session(peer).driven(Trigger::VersionMismatch)
            &&& self.seen() == before.seen()
            &&& self.trust().records() == before.trust().records()
        }
        &&& claimed_major(request.version) == PROTOCOL_MAJOR ==> {
            &&& self.seen() == if request_shape_fault(
                request,
                Some(before.local_device_code()),
                now_unix_ms,
                DEFAULT_ALLOWED_SKEW_MS,
            ) is Some {
                before.seen()
            } else {
                before.seen_after(request.nonce@, now_unix_ms)
            }
            &&& match before.inbound_fault(peer, request, now_unix_ms) {
                Some(fault) => {
                    &&& outcome.reply matches Some(reply)
                    &&& reply@ == reply_envelope(
                        request_id,
                        reject_message(request.session_id@, reject_reason(fault), fault.message()),
                        now_unix_ms,
                    )
                    &&& outcome.failure matches Some(error)
                    &&& error@ == fault
                    &&& !outcome.persist_trust_store
                    &&& self.session(peer) == before.session(peer).auth_failed()
                    &&& self.trust().records() == before.trust().records()
                },
                None => {
                    &&& request.from matches Some(from)
                    &&& crate::identity::derived_peer_id(from.identity_pubkey@) == Some(peer)
                    &&& crate::identity::canonical_peer_id(from.peer_id@) == Some(peer)
                    &&& outcome.persist_trust_store == sighting_writes(
                        before.trust().lookup(from.device_code@),
                        now_unix_ms,
                    )
                    &&& self.trust().lookup(from.device_code@) == Some(
                        sighting_record(
                            before.trust().lookup(from.device_code@),
                            from.device_code@,
                            key_peer_text(from.identity_pubkey@),
                            from.identity_pubkey@,
                            now_unix_ms,
                        ),
                    )
                },
            }
        }
    }

    /// Whether a session request from `peer` is one to accept: it is of the
    /// major version of this node and has no fault.
    pub open spec fn accepts(&self, peer: Seq<u8>, request: SessionRequest, now_unix_ms: i64) -> bool {
        claimed_major(request.version) == PROTOCOL_MAJOR && self.inbound_fault(
            peer,
            request,
            now_unix_ms,
        ) is None
    }

    /// What comes of a session request from `peer` that is one to accept,
    /// where the accept is made with `nonce`. Where the accept can be
    /// signed it is the answer, in the envelope of the request, and the
    /// session asked for becomes the active one. Where it cannot, there is
    /// no answer, signing is reported to have failed, and the record of the
    /// peer stays as it is.
    pub open spec fn accepted_with(
        &self,
        before: &Engine,
        peer: Seq<u8>,
        request_id: Seq<char>,
        request: SessionRequest,
        now_unix_ms: i64,
        nonce: Seq<u8>,
        outcome: RequestOutcome,
    ) -> bool {
        match signature_of(
            before.local_key().encoded(),
            before.accept_for(request, nonce, now_unix_ms).signing_payload(),
        ) {
            Some(signature) => {
                &&& outcome.reply matches Some(reply)
                &&& reply@ == reply_envelope(
                    request_id,
                    ControlMessageView::SessionAccept(
                        SessionAcceptView {
                            signature,
                            ..before.accept_for(request, nonce, now_unix_ms)
                        },
                    ),
                    now_unix_ms,
                )
                &&& outcome.failure is None
                &&& self.session(peer) == before.session(peer).accepted(request.session_id@)
            },
            None => {
                &&& outcome.reply is None
                &&& outcome.failure == Some(SessionAuthError::SigningFailed)
                &&& self.session(peer) == before.session(peer)
            },
        }
    }

    /// What comes of a request from `peer` apart from the accept that may
    /// answer a session request. A session request is judged as `judged`
    /// says. A ping is answered with a pong that echoes its sequence number
    /// and its time of sending and adds the time of its arrival; nothing
    /// changes. Any other message is not answered and changes nothing.
    pub open spec fn handled(
        &self,
        before: &Engine,
        peer: Seq<u8>,
        envelope: ControlEnvelope,
        now_unix_ms: i64,
        outcome: RequestOutcome,
    ) -> bool {
        match envelope.message {
            Some(ControlMessage::SessionRequest(request)) => self.judged(
                before,
                peer,
                envelope.request_id@,
                request,
                now_unix_ms,
                outcome,
            ),
            Some(ControlMessage::Ping(ping)) => {
                &&& outcome.reply matches Some(reply)
                &&& reply@ == reply_envelope(
                    envelope.request_id@,
                    pong_message(ping@, now_unix_ms),
                    now_unix_ms,
                )
                &&& outcome.failure is None
                &&& !outcome.persist_trust_store
                &&& self.session(peer) == before.session(peer)
                &&& self.seen() == before.seen()
                &&& self.trust().records() == before.trust().records()
            },
            _ => {
                &&& outcome.reply is None
                &&& outcome.failure is None
                &&& !outcome.persist_trust_store
                &&& self.session(peer) == before.session(peer)
                &&& self.seen() == before.seen()
                &&& self.trust().records() == before.trust().records()
            },
        }
    }

    /// Answers a session request from `peer`; `accept_nonce` is the nonce
    /// of the accept, should there be one.
    ///
    /// A request of another major version is turned down as a version
    /// mismatch, and the machine of the peer is told so. Any other request
    /// is verified; a request with a fault is turned down with the reason
    /// and the words of the fault, and the machine is told of a failed
    /// authentication. A request without fault is answered with a signed
    /// accept that carries the nonce of the request, the session becomes
    /// active, and the trust store is to be persisted where it changed.
    /// Should signing fail, there is no answer and the session does not
    /// become active.
    pub fn answer_session_request(
        &mut self,
        peer: &PeerId,
        request_id: &str,
        request: &SessionRequest,
        now_unix_ms: i64,
        accept_nonce: Vec<u8>,
    ) -> (outcome: RequestOutcome)
        requires
            old(self).wf(),
            peer.wf(),
        ensures
            final(self).wf(),
            final(self).same_peers_but(old(self), peer@),
            final(self).local_key() == old(self).local_key(),
            final(self).config() == old(self).config(),
            final(self).targets() == old(self).targets(),
            final(self).retention() == old(self).retention(),
            final(self).outbound() == old(self).outbound(),
            final(self).next_tag() == old(self).next_tag(),
            final(self).judged(old(self), peer@, request_id@, *request, now_unix_ms, outcome),
            old(self).accepts(peer@, *request, now_unix_ms) ==> final(self).accepted_with(
                old(self),
                peer@,
                request_id@,
                *request,
                now_unix_ms,
                accept_nonce@,
                outcome,
            ),
    {
        let major: u32 = match &request.version {
            Some(version) => version.major,
            None => 0,
        };
        if major != PROTOCOL_MAJOR {
            let index: usize = self.peers.place(peer);
            let mut session: PeerSession = self.peers.take_at(index);
            session.drive(Trigger::VersionMismatch);
            self.peers.put_at(index, session);
            return RequestOutcome {
                reply: Some(
                    reject_reply(
                        request_id,
                        request.session_id.as_str(),
                        RejectReason::VersionMismatch,
                        version_mismatch_detail(&request.version),
                        now_unix_ms,
                    ),
                ),
                persist_trust_store: false,
                failure: None,
            };
        }
        let verified: VerifiedSessionPeer = match verify_session_request(
            request,
            Some(peer),
            Some(self.local_key.local_peer_id().as_str()),
            now_unix_ms,
            DEFAULT_ALLOWED_SKEW_MS,
            &mut self.nonce_cache,
            &mut self.trusted_peers,
            self.config.trust_on_first_use,
        ) {
            Ok(verified) => verified,
            Err(error) => {
                let index: usize = self.peers.place(peer);
                let mut session: PeerSession = self.peers.take_at(index);
                session.on_auth_failed();
                self.peers.put_at(index, session);
                let reply: ControlEnvelope = reject_reply(
                    request_id,
                    request.session_id.as_str(),
                    map_auth_error_to_reject(&error),
                    error.message(),
                    now_unix_ms,
                );
                return RequestOutcome {
                    reply: Some(reply),
                    persist_trust_store: false,
                    failure: Some(error),
                };
            },
        };
        let mut accept: SessionAccept = SessionAccept {
            session_id: request.session_id.clone(),
            selected_codec: VideoCodec::H264.code(),
            selected_fps: 30,
            selected_width: 1280,
            selected_height: 720,
            using_relay: false,
            path_id: "direct-quic".to_owned(),
            from: Some(self.local_identity()),
            nonce: accept_nonce,
            unix_ms: now_unix_ms,
            signature: Vec::new(),
            request_nonce: slice_to_vec(request.nonce.as_slice()),
        };
        assert(accept@ == old(self).accept_for(*request, accept_nonce@, now_unix_ms));
        match sign_session_accept(&mut accept, &self.local_key) {
            Ok(_) => {},
            Err(error) => {
                return RequestOutcome {
                    reply: None,
                    persist_trust_store: verified.trust_store_changed,
                    failure: Some(error),
                };
            },
        }
        let index: usize = self.peers.place(peer);
        let mut session: PeerSession = self.peers.take_at(index);
        session.on_accept(request.session_id.clone());
        self.peers.put_at(index, session);
        RequestOutcome {
            reply: Some(
                ControlEnvelope {
                    seq: clock_of(now_unix_ms),
                    request_id: request_id.to_owned(),
                    message: Some(ControlMessage::SessionAccept(accept)),
                },
            ),
            persist_trust_store: verified.trust_store_changed,
            failure: None,
        }
    }

    /// Handles a request that came in from `peer`; `accept_nonce` is the
    /// nonce of the accept, should the request be a session request that is
    /// accepted.
    ///
    /// A session request is answered as `answer_session_request` says. A
    /// ping is answered with a pong that echoes its sequence number and its
    /// time of sending and adds the time of its arrival; nothing changes.
    /// Any other message is not answered and changes nothing.
    pub fn handle_control_request_with(
        &mut self,
        peer: &PeerId,
        envelope: &ControlEnvelope,
        now_unix_ms: i64,
        accept_nonce: Vec<u8>,
    ) -> (outcome: RequestOutcome)
        requires
            old(self).wf(),
            peer.wf(),
        ensures
            final(self).wf(),
            final(self).same_peers_but(old(self), peer@),
            final(self).local_key() == old(self).local_key(),
            final(self).config() == old(self).config(),
            final(self).targets() == old(self).targets(),
            final(self).retention() == old(self).retention(),
            final(self).outbound() == old(self).outbound(),
            final(self).next_tag() == old(self).next_tag(),
            final(self).handled(old(self), peer@, *envelope, now_unix_ms, outcome),
            envelope.message matches Some(ControlMessage::SessionRequest(request)) ==> (old(
                self,
            ).accepts(peer@, request, now_unix_ms) ==> final(self).accepted_with(
                old(self),
                peer@,
                envelope.request_id@,
                request,
                now_unix_ms,
                accept_nonce@,
                outcome,
            )),
    {
        match &envelope.message {
            Some(ControlMessage::SessionRequest(request)) => self.answer_session_request(
                peer,
                envelope.request_id.as_str(),
                request,
                now_unix_ms,
                accept_nonce,
            ),
            Some(ControlMessage::Ping(ping)) => RequestOutcome {
                reply: Some(
                    ControlEnvelope {
                        seq: clock_of(now_unix_ms),
                        request_id: envelope.request_id.clone(),
                        message: Some(
                            ControlMessage::Pong(
                                Pong {
                                    session_id: ping.session_id.clone(),
                                    seq: ping.seq,
                                    echo_send_unix_ms: ping.send_unix_ms,
                                    recv_unix_ms: clock_of(now_unix_ms),
                                },
                            ),
                        ),
                    },
                ),
                persist_trust_store: false,
                failure: None,
            },
            _ => RequestOutcome { reply: None, persist_trust_store: false, failure: None },
        }
    }

    /// Handles a request that came in from `peer`, making the nonce of an
    /// accept from sixteen random bytes: where a session request is one to
    /// accept, there is a nonce of that length with which it was answered
    /// as `handle_control_request_with` says. All else is the same.
    pub fn handle_control_request(
        &mut self,
        peer: &PeerId,
        envelope: &ControlEnvelope,
        now_unix_ms: i64,
    ) -> (outcome: RequestOutcome)
        requires
            old(self).wf(),
            peer.wf(),
        ensures
            final(self).wf(),
            final(self).same_peers_but(old(self), peer@),
            final(self).local_key() == old(self).local_key(),
            final(self).config() == old(self).config(),
            final(self).targets() == old(self).targets(),
            final(self).retention() == old(self).retention(),
            final(self).outbound() == old(self).outbound(),
            final(self).next_tag() == old(self).next_tag(),
            final(self).handled(old(self), peer@, *envelope, now_unix_ms, outcome),
            envelope.message matches Some(ControlMessage::SessionRequest(request)) ==> (old(
                self,
            ).accepts(peer@, request, now_unix_ms) ==> exists|nonce: Seq<u8>|
                nonce.len() == NONCE_BYTES && #[trigger] final(self).accepted_with(
                    old(self),
                    peer@,
                    envelope.request_id@,
                    request,
                    now_unix_ms,
                    nonce,
                    outcome,
                )),
    {
        let accept_nonce: Vec<u8> = random_nonce(NONCE_BYTES);
        let ghost made = accept_nonce@;
        let outcome = self.handle_control_request_with(peer, envelope, now_unix_ms, accept_nonce);
        proof {
            match &envelope.message {
                Some(ControlMessage::SessionRequest(request)) => {
                    if old(self).accepts(peer@, *request, now_unix_ms) {
                        assert(made.len() == NONCE_BYTES && self.accepted_with(
                            old(self),
                            peer@,
                            envelope.request_id@,
                            *request,
                            now_unix_ms,
                            made,
                            outcome,
                        ));
                    }
                },
                _ => {},
            }
        }
        outcome
    }
}

impl Engine {
    /// Why the engine refuses `accept` from `peer` while `pending` waits,
    /// if it does: the accept must carry the nonce of one of the requests
    /// sent, and pass the checks of an accept for the session that waits.
    pub open spec fn accept_refusal(
        &self,
        peer: Seq<u8>,
        accept: SessionAccept,
        now_unix_ms: i64,
    ) -> Option<AuthFault> {
        let pending = self.session(peer).pending.unwrap();
        if accept.request_nonce@.len() == 0 {
            Some(AuthFault::MissingRequestNonceBinding)
        } else if !pending.request_nonces.contains(accept.request_nonce@) {
            Some(AuthFault::RequestNonceMismatch)
        } else {
            accept_fault(
                accept,
                Some(peer),
                Some(pending.session_id),
                Some(pending.request_nonces),
                now_unix_ms,
                DEFAULT_ALLOWED_SKEW_MS,
                self.seen(),
                self.retention(),
                match accept.from {
                    Some(from) => self.trust().lookup(from.device_code@),
                    None => None,
                },
                self.config().trust_on_first_use,
            )
        }
    }

    /// Whether an accept reaches the replay cache: it binds to a request
    /// that waits and its shape is right.
    pub open spec fn accept_reaches_cache(
        &self,
        peer: Seq<u8>,
        accept: SessionAccept,
        now_unix_ms: i64,
    ) -> bool {
        &&& self.session(peer).pending matches Some(pending)
        &&& accept.request_nonce@.len() != 0
        &&& pending.request_nonces.contains(accept.request_nonce@)
        &&& accept_shape_fault(
            accept,
            Some(pending.session_id),
            Some(pending.request_nonces),
            now_unix_ms,
            DEFAULT_ALLOWED_SKEW_MS,
        ) is None
    }

    /// What comes of an accept from `peer`, where `before` is the engine
    /// before the accept and `self` the engine after it.
    ///
    /// The accept reaches the replay cache only where it binds to a
    /// request that waits and its shape is right. Without a request that
    /// waits, or with an accept that is refused, the machine of the peer is
    /// told of a failed authentication and the trust store stays as it is.
    /// An accept without fault carries the nonce of one of the requests
    /// sent and the session asked for, and comes from the peer of the key
    /// it carries; the session becomes active, the peer and the key are
    /// pinned to its device code or seen there again, and the trust store
    /// is to be persisted where that wrote anything. What is held under
    /// any other device code stays, and a trust store with which nothing is
    /// wrong stays so.
    pub open spec fn took_accept(
        &self,
        before: &Engine,
        peer: Seq<u8>,
        accept: SessionAccept,
        now_unix_ms: i64,
        outcome: ResponseOutcome,
    ) -> bool {
        &&& forall|code: Seq<char>|
            !(accept.from matches Some(from) && from.device_code@ == code)
                ==> #[trigger] self.trust().lookup(code) == before.trust().lookup(code)
        &&& before.trust().sound() ==> self.trust().sound()
        &&& self.seen() == if before.accept_reaches_cache(peer, accept, now_unix_ms) {
            before.seen_after(accept.nonce@, now_unix_ms)
        } else {
            before.seen()
        }
        &&& match before.session(peer).pending {
            None => {
                &&& outcome == ResponseOutcome::AcceptWithoutRequest
                &&& self.session(peer) == before.session(peer).auth_failed()
                &&& self.trust().records() == before.trust().records()
            },
            Some(pending) => match before.accept_refusal(peer, accept, now_unix_ms) {
                Some(fault) => {
                    &&& outcome matches ResponseOutcome::AcceptRefused(error)
                    &&& error@ == fault
                    &&& self.session(peer) == before.session(peer).request_failed()
                    &&& self.trust().records() == before.trust().records()
                },
                None => {
                    &&& accept.from matches Some(from)
                    &&& pending.request_nonces.contains(accept.request_nonce@)
                    &&& accept.session_id@ == pending.session_id
                    &&& crate::identity::derived_peer_id(from.identity_pubkey@) == Some(peer)
                    &&& outcome == (ResponseOutcome::Activated {
                        persist_trust_store: sighting_writes(
                            before.trust().lookup(from.device_code@),
                            now_unix_ms,
                        ),
                    })
                    &&& self.trust().lookup(from.device_code@) == Some(
                        sighting_record(
                            before.trust().lookup(from.device_code@),
                            from.device_code@,
                            key_peer_text(from.identity_pubkey@),
                            from.identity_pubkey@,
                            now_unix_ms,
                        ),
                    )
                    &&& self.session(peer) == (PeerSessionView {
                        pending: None,
                        ..before.session(peer)
                    }).accepted(accept.session_id@)
                },
            },
        }
    }

    /// Takes a session accept from `peer`.
    ///
    /// The request that waits for the peer is used up by the accept,
    /// whatever comes of it. Without such a request, or with an accept that
    /// is refused, the machine of the peer is told of a failed
    /// authentication and no session becomes active. An accept is taken
    /// only where it carries the nonce of one of the requests sent and the
    /// session that was asked for, and passes verification; then the
    /// session becomes active and the trust store is to be persisted where
    /// it changed.
    pub fn take_session_accept(&mut self, peer: &PeerId, accept: &SessionAccept, now_unix_ms: i64) -> (outcome:
        ResponseOutcome)
        requires
            old(self).wf(),
            peer.wf(),
        ensures
            final(self).wf(),
            final(self).same_peers_but(old(self), peer@),
            final(self).local_key() == old(self).local_key(),
            final(self).config() == old(self).config(),
            final(self).targets() == old(self).targets(),
            final(self).retention() == old(self).retention(),
            final(self).outbound() == old(self).outbound(),
            final(self).next_tag() == old(self).next_tag(),
            final(self).took_accept(old(self), peer@, *accept, now_unix_ms, outcome),
    {
        let index: usize = self.peers.place(peer);
        let mut session: PeerSession = self.peers.take_at(index);
        let pending = match session.pending.take() {
            Some(pending) => pending,
            None => {
                session.on_auth_failed();
                self.peers.put_at(index, session);
                return ResponseOutcome::AcceptWithoutRequest;
            },
        };
        if accept.request_nonce.len() == 0 {
            session.on_auth_failed();
            self.peers.put_at(index, session);
            return ResponseOutcome::AcceptRefused(SessionAuthError::MissingRequestNonceBinding);
        }
        if !pending.holds_nonce(accept.request_nonce.as_slice()) {
            session.on_auth_failed();
            self.peers.put_at(index, session);
            return ResponseOutcome::AcceptRefused(SessionAuthError::RequestNonceMismatch);
        }
        let verified: VerifiedSessionPeer = match verify_session_accept(
            accept,
            Some(peer),
            Some(pending.session_id.as_str()),
            Some(pending.request_nonces.as_slice()),
            now_unix_ms,
            DEFAULT_ALLOWED_SKEW_MS,
            &mut self.nonce_cache,
            &mut self.trusted_peers,
            self.config.trust_on_first_use,
        ) {
            Ok(verified) => verified,
            Err(error) => {
                session.on_auth_failed();
                self.peers.put_at(index, session);
                return ResponseOutcome::AcceptRefused(error);
            },
        };
        session.on_accept(accept.session_id.clone());
        self.peers.put_at(index, session);
        ResponseOutcome::Activated { persist_trust_store: verified.trust_store_changed }
    }

    /// Whether a pong from `peer` under `tag` counts: the request with that
    /// tag was the ping with the sequence number of the pong, the pong
    /// names the active session, and the ping is the one that waits.
    pub open spec fn pong_counts(&self, peer: Seq<u8>, tag: u64, pong: Pong) -> bool {
        &&& self.outbound().contains_key(tag)
        &&& self.outbound()[tag] == (OutboundControlRequestKind::KeepalivePing { seq: pong.seq })
        &&& self.session(peer).pong_counts(pong.session_id@, pong.seq)
    }

    /// Handles the answer from `peer` to the outbound request with `tag`.
    ///
    /// The tag is used up. An accept is taken as `take_session_accept`
    /// says. A reject drops the request that waits and tells the machine of
    /// a failed authentication. A pong counts only where it answers the
    /// ping that was sent under the tag and that still waits; then nothing
    /// waits any more, the misses start again from zero, and the round trip
    /// is reported. Any other message changes nothing.
    pub fn handle_control_response(
        &mut self,
        peer: &PeerId,
        tag: u64,
        envelope: &ControlEnvelope,
        now_unix_ms: i64,
    ) -> (outcome: ResponseOutcome)
        requires
            old(self).wf(),
            peer.wf(),
        ensures
            final(self).wf(),
            final(self).same_peers_but(old(self), peer@),
            final(self).local_key() == old(self).local_key(),
            final(self).config() == old(self).config(),
            final(self).targets() == old(self).targets(),
            final(self).retention() == old(self).retention(),
            final(self).outbound() == old(self).outbound().remove(tag),
            final(self).next_tag() == old(self).next_tag(),
            match envelope.message {
                Some(ControlMessage::SessionAccept(accept)) => final(self).took_accept(
                    old(self),
                    peer@,
                    accept,
                    now_unix_ms,
                    outcome,
                ),
                Some(ControlMessage::SessionReject(_)) => {
                    &&& outcome == ResponseOutcome::Rejected
                    &&& final(self).session(peer@) == old(self).session(peer@).request_failed()
                    &&& final(self).seen() == old(self).seen()
                    &&& final(self).trust().records() == old(self).trust().records()
                },
                Some(ControlMessage::Pong(pong)) => {
                    &&& final(self).seen() == old(self).seen()
                    &&& final(self).trust().records() == old(self).trust().records()
                    &&& if old(self).pong_counts(peer@, tag, pong) {
                        &&& outcome == (ResponseOutcome::Pong {
                            rtt_ms: crate::session::round_trip(now_unix_ms, pong.echo_send_unix_ms),
                        })
                        &&& final(self).session(peer@) == old(self).session(peer@).ponged()
                    } else {
                        &&& outcome == ResponseOutcome::Ignored
                        &&& final(self).session(peer@) == old(self).session(peer@)
                    }
                },
                _ => {
                    &&& outcome == ResponseOutcome::Ignored
                    &&& final(self).session(peer@) == old(self).session(peer@)
                    &&& final(self).seen() == old(self).seen()
                    &&& final(self).trust().records() == old(self).trust().records()
                },
            },
    {
        let kind: Option<OutboundControlRequestKind> = self.outbound.remove(&tag);
        match &envelope.message {
            Some(ControlMessage::SessionAccept(accept)) => self.take_session_accept(
                peer,
                accept,
                now_unix_ms,
            ),
            Some(ControlMessage::SessionReject(_)) => {
                let index: usize = self.peers.place(peer);
                let mut session: PeerSession = self.peers.take_at(index);
                session.pending = None;
                session.on_auth_failed();
                self.peers.put_at(index, session);
                ResponseOutcome::Rejected
            },
            Some(ControlMessage::Pong(pong)) => {
                match kind {
                    Some(OutboundControlRequestKind::KeepalivePing { seq }) => {
                        if seq != pong.seq {
                            return ResponseOutcome::Ignored;
                        }
                    },
                    _ => {
                        return ResponseOutcome::Ignored;
                    },
                }
                let index: usize = self.peers.place(peer);
                let mut session: PeerSession = self.peers.take_at(index);
                let rtt: Option<i64> = session.note_control_pong(
                    pong.session_id.as_str(),
                    pong.seq,
                    pong.echo_send_unix_ms,
                    now_unix_ms,
                );
                self.peers.put_at(index, session);
                match rtt {
                    Some(rtt_ms) => ResponseOutcome::Pong { rtt_ms },
                    None => ResponseOutcome::Ignored,
                }
            },
            _ => ResponseOutcome::Ignored,
        }
    }

    /// Handles the failure of the outbound request to `peer` with `tag`,
    /// and says whether the peer is to be disconnected.
    ///
    /// The tag is used up. Where the request was a session request, the
    /// request that waits is dropped and the machine told of a failed
    /// authentication. Where it was a ping that still waits, a miss is
    /// counted; once the misses in a row reach the threshold the active
    /// session is dropped and the peer is to be disconnected. A tag that is
    /// not known changes nothing.
    pub fn handle_outbound_failure(&mut self, peer: &PeerId, tag: u64) -> (disconnect: bool)
        requires
            old(self).wf(),
            peer.wf(),
        ensures
            final(self).wf(),
            final(self).same_peers_but(old(self), peer@),
            final(self).local_key() == old(self).local_key(),
            final(self).config() == old(self).config(),
            final(self).targets() == old(self).targets(),
            final(self).seen() == old(self).seen(),
            final(self).retention() == old(self).retention(),
            final(self).trust().records() == old(self).trust().records(),
            final(self).outbound() == old(self).outbound().remove(tag),
            final(self).next_tag() == old(self).next_tag(),
            if old(self).outbound().contains_key(tag) {
                match old(self).outbound()[tag] {
                    OutboundControlRequestKind::SessionRequest => {
                        &&& !disconnect
                        &&& final(self).session(peer@) == old(self).session(
                            peer@,
                        ).request_failed()
                    },
                    OutboundControlRequestKind::KeepalivePing { seq } => {
                        &&& disconnect == old(self).session(peer@).ping_failure_is_final(
                            seq,
                            old(self).config().keepalive.max_misses,
                        )
                        &&& final(self).session(peer@) == old(self).session(peer@).ping_failed(
                            seq,
                            old(self).config().keepalive.max_misses,
                        )
                    },
                }
            } else {
                !disconnect && final(self).session(peer@) == old(self).session(peer@)
            },
    {
        match self.outbound.remove(&tag) {
            Some(OutboundControlRequestKind::SessionRequest) => {
                let index: usize = self.peers.place(peer);
                let mut session: PeerSession = self.peers.take_at(index);
                session.pending = None;
                session.on_auth_failed();
                self.peers.put_at(index, session);
                false
            },
            Some(OutboundControlRequestKind::KeepalivePing { seq }) => {
                let index: usize = self.peers.place(peer);
                let mut session: PeerSession = self.peers.take_at(index);
                let lost: bool = session.note_keepalive_send_failure(
                    seq,
                    self.config.keepalive.max_misses,
                );
                self.peers.put_at(index, session);
                lost
            },
            None => false,
        }
    }

    /// The user hangs up on `peer`: the request that waits and the active
    /// session are dropped and the machine is told. The peer is to be
    /// disconnected by the caller.
    pub fn hang_up(&mut self, peer: &PeerId)
        requires
            old(self).wf(),
            peer.wf(),
        ensures
            final(self).wf(),
            final(self).same_stores(old(self)),
            final(self).same_peers_but(old(self), peer@),
            final(self).session(peer@) == (PeerSessionView {
                pending: None,
                ..old(self).session(peer@).deactivated()
            }).driven(Trigger::UserHangup),
    {
        let index: usize = self.peers.place(peer);
        let mut session: PeerSession = self.peers.take_at(index);
        session.pending = None;
        session.clear_active_session();
        session.drive(Trigger::UserHangup);
        self.peers.put_at(index, session);
    }

    /// Notes at `now_unix_ms` that a dial out of discovery to `peer` was
    /// started.
    pub fn mark_discovery_dial_attempt(&mut self, peer: &PeerId, now_unix_ms: i64)
        requires
            old(self).wf(),
            peer.wf(),
        ensures
            final(self).wf(),
            final(self).same_stores(old(self)),
            final(self).same_peers_but(old(self), peer@),
            final(self).session(peer@) == (PeerSessionView {
                last_dial_unix_ms: Some(now_unix_ms),
                ..old(self).session(peer@)
            }),
    {
        let index: usize = self.peers.place(peer);
        let mut session: PeerSession = self.peers.take_at(index);
        session.last_dial_unix_ms = Some(now_unix_ms);
        self.peers.put_at(index, session);
    }

    /// Whether a dial out of discovery to `peer` may be tried: the peer is
    /// not connected, no request waits for it, and the last such dial lies
    /// at least the cooldown back.
    pub fn can_attempt_discovery_dial(&self, peer: &PeerId, connected: bool, now_unix_ms: i64) -> (allowed:
        bool)
        requires
            self.wf(),
        ensures
            allowed == (!connected && self.session(peer@).may_dial(
                now_unix_ms,
                crate::discovery::DISCOVERY_DIAL_COOLDOWN_MS,
            )),
    {
        if connected {
            return false;
        }
        match self.peers.get(peer) {
            Some(session) => session.may_dial(
                now_unix_ms,
                crate::discovery::DISCOVERY_DIAL_COOLDOWN_MS,
            ),
            None => true,
        }
    }
}

/// A ping that a tick asks for.
#[derive(Debug, Clone, PartialEq, Eq)]
pub struct KeepalivePing {
    pub peer: PeerId,
    pub session_id: String,
    pub seq: u64,
}

pub struct KeepalivePingView {
    pub peer: Seq<u8>,
    pub session_id: Seq<char>,
    pub seq: u64,
}

impl View for KeepalivePing {
    type V = KeepalivePingView;

    open spec fn view(&self) -> KeepalivePingView {
        KeepalivePingView { peer: self.peer@, session_id: self.session_id@, seq: self.seq }
    }
}

/// The peers that the pings of a list go to, in the order of the list.
pub open spec fn ping_peers(pings: Seq<KeepalivePingView>) -> Seq<Seq<u8>> {
    Seq::new(pings.len(), |i: int| pings[i].peer)
}

/// A list that names nothing twice still does so with one more item that
/// it did not name.
proof fn lemma_push_keeps_apart(list: Seq<Seq<u8>>, item: Seq<u8>)
    requires
        list.no_duplicates(),
        !list.contains(item),
    ensures
        list.push(item).no_duplicates(),
{
    assert forall|i: int, j: int|
        0 <= i < list.push(item).len() && 0 <= j < list.push(item).len() && i != j implies list.push(
        item,
    )[i] != list.push(item)[j] by {
        if i < list.len() {
            assert(list.contains(list[i]));
        }
        if j < list.len() {
            assert(list.contains(list[j]));
        }
    }
}

/// The pings of a list, each as plain values.
pub open spec fn ping_views(pings: Seq<KeepalivePing>) -> Seq<KeepalivePingView> {
    Seq::new(pings.len(), |i: int| pings[i]@)
}

/// The peers of a list, each as plain bytes.
pub open spec fn peer_views(peers: Seq<PeerId>) -> Seq<Seq<u8>> {
    Seq::new(peers.len(), |i: int| peers[i]@)
}

/// Whether `peer` is one of `peers`.
pub fn contains_peer(peers: &[PeerId], peer: &PeerId) -> (found: bool)
    ensures
        found == peer_views(peers@).contains(peer@),
{
    let mut i: usize = 0;
    while i < peers.len()
        invariant
            i <= peers@.len(),
            forall|j: int| 0 <= j < i ==> (#[trigger] peer_views(peers@)[j]) != peer@,
        decreases peers@.len() - i,
    {
        if peers[i].same_as(peer) {
            assert(peer_views(peers@)[i as int] == peer@);
            return true;
        }
        i += 1;
    }
    false
}

/// The envelope that carries a keepalive ping.
pub open spec fn ping_envelope(session_id: Seq<char>, seq: u64, now_unix_ms: i64) -> ControlEnvelopeView {
    ControlEnvelopeView {
        seq,
        request_id: "ping-"@ + digits(clock(now_unix_ms) as nat) + "-"@ + digits(seq as nat),
        message: Some(
            ControlMessageView::Ping(
                PingView { session_id, seq, send_unix_ms: clock(now_unix_ms) },
            ),
        ),
    }
}

impl Engine {
    /// What is to be done at `now_unix_ms` about the request that waits for
    /// `peer`; `None` where none waits.
    pub open spec fn retry_decision(&self, peer: Seq<u8>, now_unix_ms: i64) -> Option<RetryDecision> {
        match self.session(peer).pending {
            Some(pending) => Some(
                pending.decision(
                    now_unix_ms,
                    self.config().session_request_timeout_ms,
                    self.config().session_request_max_attempts,
                ),
            ),
            None => None,
        }
    }

    /// The first `upto` peers of the order whose request is decided as
    /// `decision`, in that order.
    pub open spec fn decided(&self, decision: RetryDecision, now_unix_ms: i64, upto: int) -> Seq<
        Seq<u8>,
    >
        decreases upto,
    {
        if upto <= 0 {
            Seq::<Seq<u8>>::empty()
        } else {
            let rest = self.decided(decision, now_unix_ms, upto - 1);
            let peer = self.peer_order()[upto - 1];
            if self.retry_decision(peer, now_unix_ms) == Some(decision) {
                rest.push(peer)
            } else {
                rest
            }
        }
    }

    /// A prefix of the order names no peer twice, and grows by one peer
    /// that it did not name.
    proof fn lemma_order_prefix(&self, upto: int)
        requires
            self.wf(),
            0 < upto <= self.peer_order().len(),
        ensures
            self.peer_order().take(upto) == self.peer_order().take(upto - 1).push(
                self.peer_order()[upto - 1],
            ),
            !self.peer_order().take(upto - 1).contains(self.peer_order()[upto - 1]),
    {
        self.lemma_peer_order();
        let order = self.peer_order();
        let front = order.take(upto - 1);
        assert(order.take(upto) =~= front.push(order[upto - 1]));
        if front.contains(order[upto - 1]) {
            let k = choose|k: int| 0 <= k < front.len() && #[trigger] front[k] == order[upto - 1];
            assert(order[k] == order[upto - 1]);
        }
    }

    proof fn lemma_decided_upto(&self, decision: RetryDecision, now_unix_ms: i64, upto: int)
        requires
            self.wf(),
            0 <= upto <= self.peer_order().len(),
        ensures
            self.decided(decision, now_unix_ms, upto).no_duplicates(),
            forall|peer: Seq<u8>| #[trigger]
                self.decided(decision, now_unix_ms, upto).contains(peer) <==> (
                self.peer_order().take(upto).contains(peer) && self.retry_decision(
                    peer,
                    now_unix_ms,
                ) == Some(decision)),
        decreases upto,
    {
        if upto > 0 {
            self.lemma_decided_upto(decision, now_unix_ms, upto - 1);
            self.lemma_order_prefix(upto);
            let rest = self.decided(decision, now_unix_ms, upto - 1);
            let last = self.peer_order()[upto - 1];
            let front = self.peer_order().take(upto - 1);
            assert forall|peer: Seq<u8>| #[trigger]
                self.decided(decision, now_unix_ms, upto).contains(peer) <==> (
                self.peer_order().take(upto).contains(peer) && self.retry_decision(
                    peer,
                    now_unix_ms,
                ) == Some(decision)) by {
                vstd::seq_lib::lemma_seq_contains_after_push(front, last, peer);
                vstd::seq_lib::lemma_seq_contains_after_push(rest, last, peer);
                assert(rest.contains(peer) <==> (front.contains(peer) && self.retry_decision(
                    peer,
                    now_unix_ms,
                ) == Some(decision)));
            }
            assert(!rest.contains(last));
            lemma_push_keeps_apart(rest, last);
        }
    }

    /// Each list of `collect_pending_retry_actions` names a peer once at
    /// most, and names it exactly where that is what is decided about its
    /// request: a peer is given up if and only if a request waits for it,
    /// its timeout has passed and its attempts are used up.
    pub proof fn lemma_retry_lists(&self, decision: RetryDecision, now_unix_ms: i64, peer: Seq<u8>)
        requires
            self.wf(),
        ensures
            self.decided(decision, now_unix_ms, self.peer_order().len() as int).no_duplicates(),
            self.decided(decision, now_unix_ms, self.peer_order().len() as int).contains(peer)
                <==> self.retry_decision(peer, now_unix_ms) == Some(decision),
    {
        let all = self.peer_order().len() as int;
        self.lemma_decided_upto(decision, now_unix_ms, all);
        self.lemma_peer_order();
        assert(self.peer_order().take(all) =~= self.peer_order());
        assert(self.decided(decision, now_unix_ms, all).contains(peer) <==> (
        self.peer_order().take(all).contains(peer) && self.retry_decision(peer, now_unix_ms)
            == Some(decision)));
    }

    /// The peers whose session request is to be sent again, and those whose
    /// request is to be given up, each list in the order in which the peers
    /// were first heard of.
    ///
    /// A request is left alone until the timeout since its last sending
    /// has passed. After that it is sent again while attempts are left, and
    /// given up once they are used up.
    pub fn collect_pending_retry_actions(&self, now_unix_ms: i64) -> (actions: (Vec<PeerId>, Vec<PeerId>))
        requires
            self.wf(),
        ensures
            peer_views(actions.0@) == self.decided(
                RetryDecision::Retry,
                now_unix_ms,
                self.peer_order().len() as int,
            ),
            peer_views(actions.1@) == self.decided(
                RetryDecision::GiveUp,
                now_unix_ms,
                self.peer_order().len() as int,
            ),
            forall|i: int| 0 <= i < actions.0@.len() ==> (#[trigger] actions.0@[i]).wf(),
            forall|i: int| 0 <= i < actions.1@.len() ==> (#[trigger] actions.1@[i]).wf(),
    {
        let mut retry: Vec<PeerId> = Vec::new();
        let mut fail: Vec<PeerId> = Vec::new();
        let mut i: usize = 0;
        assert(peer_views(retry@) =~= self.decided(RetryDecision::Retry, now_unix_ms, 0));
        assert(peer_views(fail@) =~= self.decided(RetryDecision::GiveUp, now_unix_ms, 0));
        while i < self.peers.len()
            invariant
                self.wf(),
                i <= self.peer_order().len(),
                peer_views(retry@) == self.decided(RetryDecision::Retry, now_unix_ms, i as int),
                peer_views(fail@) == self.decided(RetryDecision::GiveUp, now_unix_ms, i as int),
                forall|k: int| 0 <= k < retry@.len() ==> (#[trigger] retry@[k]).wf(),
                forall|k: int| 0 <= k < fail@.len() ==> (#[trigger] fail@[k]).wf(),
            decreases self.peer_order().len() - i,
        {
            let session: &PeerSession = self.peers.session_at(i);
            let ghost retry_before = retry@;
            let ghost fail_before = fail@;
            match &session.pending {
                Some(pending) => {
                    match pending.retry_decision(
                        now_unix_ms,
                        self.config.session_request_timeout_ms,
                        self.config.session_request_max_attempts,
                    ) {
                        RetryDecision::Wait => {},
                        RetryDecision::Retry => {
                            retry.push(self.peers.peer_at(i).duplicate());
                            assert(peer_views(retry@) =~= peer_views(retry_before).push(
                                self.peer_order()[i as int],
                            ));
                        },
                        RetryDecision::GiveUp => {
                            fail.push(self.peers.peer_at(i).duplicate());
                            assert(peer_views(fail@) =~= peer_views(fail_before).push(
                                self.peer_order()[i as int],
                            ));
                        },
                    }
                },
                None => {},
            }
            i += 1;
        }
        (retry, fail)
    }

    /// Gives the request that waits for `peer` up: it is dropped, and the
    /// machine is told of a failed authentication.
    pub fn fail_pending_request(&mut self, peer: &PeerId)
        requires
            old(self).wf(),
            peer.wf(),
        ensures
            final(self).wf(),
            final(self).same_stores(old(self)),
            final(self).same_peers_but(old(self), peer@),
            final(self).session(peer@) == old(self).session(peer@).request_failed(),
    {
        let index: usize = self.peers.place(peer);
        let mut session: PeerSession = self.peers.take_at(index);
        session.pending = None;
        session.on_auth_failed();
        self.peers.put_at(index, session);
    }

    /// Drops the active session of `peer` and its keepalive.
    pub fn clear_active_session(&mut self, peer: &PeerId)
        requires
            old(self).wf(),
            peer.wf(),
        ensures
            final(self).wf(),
            final(self).same_stores(old(self)),
            final(self).same_peers_but(old(self), peer@),
            final(self).session(peer@) == old(self).session(peer@).deactivated(),
    {
        let index: usize = self.peers.place(peer);
        let mut session: PeerSession = self.peers.take_at(index);
        session.clear_active_session();
        self.peers.put_at(index, session);
    }

    /// Whether keepalive is due for `peer`: it is connected and has an
    /// active session.
    pub open spec fn keepalive_due(&self, peer: Seq<u8>, connected: Seq<Seq<u8>>) -> bool {
        connected.contains(peer) && self.session(peer).keeps_alive()
    }

    /// What a tick at `now_unix_ms` asks of the keepalive of `peer`.
    pub open spec fn keepalive_step(&self, peer: Seq<u8>, now_unix_ms: i64) -> KeepaliveStep {
        self.session(peer).keepalive_or_initial().step(now_unix_ms, self.config().keepalive)
    }

    /// The pings that a tick asks for among the first `upto` peers of the
    /// order.
    pub open spec fn due_pings(&self, connected: Seq<Seq<u8>>, now_unix_ms: i64, upto: int) -> Seq<
        KeepalivePingView,
    >
        decreases upto,
    {
        if upto <= 0 {
            Seq::<KeepalivePingView>::empty()
        } else {
            let rest = self.due_pings(connected, now_unix_ms, upto - 1);
            let peer = self.peer_order()[upto - 1];
            if self.keepalive_due(peer, connected) && self.keepalive_step(
                peer,
                now_unix_ms,
            ).send is Some {
                rest.push(
                    KeepalivePingView {
                        peer,
                        session_id: self.session(peer).active_session_id.unwrap(),
                        seq: self.keepalive_step(peer, now_unix_ms).send.unwrap(),
                    },
                )
            } else {
                rest
            }
        }
    }

    /// The peers that a tick gives up as lost among the first `upto` peers
    /// of the order.
    pub open spec fn lost_peers(&self, connected: Seq<Seq<u8>>, now_unix_ms: i64, upto: int) -> Seq<
        Seq<u8>,
    >
        decreases upto,
    {
        if upto <= 0 {
            Seq::<Seq<u8>>::empty()
        } else {
            let rest = self.lost_peers(connected, now_unix_ms, upto - 1);
            let peer = self.peer_order()[upto - 1];
            if self.keepalive_due(peer, connected) && self.keepalive_step(peer, now_unix_ms).lost {
                rest.push(peer)
            } else {
                rest
            }
        }
    }

    proof fn lemma_lost_upto(&self, connected: Seq<Seq<u8>>, now_unix_ms: i64, upto: int)
        requires
            self.wf(),
            0 <= upto <= self.peer_order().len(),
        ensures
            self.lost_peers(connected, now_unix_ms, upto).no_duplicates(),
            forall|peer: Seq<u8>| #[trigger]
                self.lost_peers(connected, now_unix_ms, upto).contains(peer) <==> (
                self.peer_order().take(upto).contains(peer) && self.keepalive_due(peer, connected)
                    && self.keepalive_step(peer, now_unix_ms).lost),
        decreases upto,
    {
        if upto > 0 {
            self.lemma_lost_upto(connected, now_unix_ms, upto - 1);
            self.lemma_order_prefix(upto);
            let rest = self.lost_peers(connected, now_unix_ms, upto - 1);
            let last = self.peer_order()[upto - 1];
            let front = self.peer_order().take(upto - 1);
            assert forall|peer: Seq<u8>| #[trigger]
                self.lost_peers(connected, now_unix_ms, upto).contains(peer) <==> (
                self.peer_order().take(upto).contains(peer) && self.keepalive_due(peer, connected)
                    && self.keepalive_step(peer, now_unix_ms).lost) by {
                vstd::seq_lib::lemma_seq_contains_after_push(front, last, peer);
                vstd::seq_lib::lemma_seq_contains_after_push(rest, last, peer);
                assert(rest.contains(peer) <==> (front.contains(peer) && self.keepalive_due(
                    peer,
                    connected,
                ) && self.keepalive_step(peer, now_unix_ms).lost));
            }
            assert(!rest.contains(last));
            lemma_push_keeps_apart(rest, last);
        }
    }

    /// The ping that a tick at `now_unix_ms` asks for `peer`.
    pub open spec fn ping_for(&self, peer: Seq<u8>, now_unix_ms: i64) -> KeepalivePingView {
        KeepalivePingView {
            peer,
            session_id: self.session(peer).active_session_id.unwrap(),
            seq: self.keepalive_step(peer, now_unix_ms).send.unwrap(),
        }
    }

    /// Whether a tick at `now_unix_ms` asks for a ping to `peer`: keepalive
    /// is due for it, and its step sends one.
    pub open spec fn ping_due(&self, peer: Seq<u8>, connected: Seq<Seq<u8>>, now_unix_ms: i64) -> bool {
        self.keepalive_due(peer, connected) && self.keepalive_step(peer, now_unix_ms).send is Some
    }

    proof fn lemma_pings_upto(&self, connected: Seq<Seq<u8>>, now_unix_ms: i64, upto: int)
        requires
            self.wf(),
            0 <= upto <= self.peer_order().len(),
        ensures
            ping_peers(self.due_pings(connected, now_unix_ms, upto)).no_duplicates(),
            forall|k: int|
                0 <= k < self.due_pings(connected, now_unix_ms, upto).len() ==> {
                    let ping = #[trigger] self.due_pings(connected, now_unix_ms, upto)[k];
                    &&& self.ping_due(ping.peer, connected, now_unix_ms)
                    &&& ping == self.ping_for(ping.peer, now_unix_ms)
                },
            forall|peer: Seq<u8>| #[trigger]
                ping_peers(self.due_pings(connected, now_unix_ms, upto)).contains(peer) <==> (
                self.peer_order().take(upto).contains(peer) && self.ping_due(
                    peer,
                    connected,
                    now_unix_ms,
                )),
        decreases upto,
    {
        let pings = self.due_pings(connected, now_unix_ms, upto);
        if upto <= 0 {
            assert(ping_peers(pings) =~= Seq::<Seq<u8>>::empty());
        } else {
            self.lemma_pings_upto(connected, now_unix_ms, upto - 1);
            self.lemma_order_prefix(upto);
            let rest = self.due_pings(connected, now_unix_ms, upto - 1);
            let last = self.peer_order()[upto - 1];
            let front = self.peer_order().take(upto - 1);
            if self.ping_due(last, connected, now_unix_ms) {
                assert(pings == rest.push(self.ping_for(last, now_unix_ms)));
                assert(ping_peers(pings) =~= ping_peers(rest).push(last));
            } else {
                assert(pings == rest);
            }
            assert forall|peer: Seq<u8>| #[trigger]
                ping_peers(pings).contains(peer) <==> (self.peer_order().take(upto).contains(peer)
                    && self.ping_due(peer, connected, now_unix_ms)) by {
                vstd::seq_lib::lemma_seq_contains_after_push(front, last, peer);
                vstd::seq_lib::lemma_seq_contains_after_push(ping_peers(rest), last, peer);
                assert(ping_peers(rest).contains(peer) <==> (front.contains(peer) && self.ping_due(
                    peer,
                    connected,
                    now_unix_ms,
                )));
            }
            assert(!ping_peers(rest).contains(last));
            lemma_push_keeps_apart(ping_peers(rest), last);
        }
    }

    /// The lists of `collect_keepalive_actions` at a tick: no peer gets
    /// more than one ping, and a peer gets one exactly where keepalive is
    /// due for it and its step sends one, which is then the ping of the
    /// list for it; no peer is given up twice, and a peer is given up
    /// exactly where keepalive is due for it and its step finds it lost.
    pub proof fn lemma_keepalive_lists(&self, connected: Seq<Seq<u8>>, now_unix_ms: i64, peer: Seq<u8>)
        requires
            self.wf(),
        ensures
            ping_peers(
                self.due_pings(connected, now_unix_ms, self.peer_order().len() as int),
            ).no_duplicates(),
            ping_peers(
                self.due_pings(connected, now_unix_ms, self.peer_order().len() as int),
            ).contains(peer) <==> self.ping_due(peer, connected, now_unix_ms),
            forall|k: int|
                0 <= k < self.due_pings(
                    connected,
                    now_unix_ms,
                    self.peer_order().len() as int,
                ).len() ==> {
                    let ping = #[trigger] self.due_pings(
                        connected,
                        now_unix_ms,
                        self.peer_order().len() as int,
                    )[k];
                    &&& self.ping_due(ping.peer, connected, now_unix_ms)
                    &&& ping == self.ping_for(ping.peer, now_unix_ms)
                },
            self.lost_peers(connected, now_unix_ms, self.peer_order().len() as int).no_duplicates(),
            self.lost_peers(connected, now_unix_ms, self.peer_order().len() as int).contains(peer)
                <==> (self.keepalive_due(peer, connected) && self.keepalive_step(
                peer,
                now_unix_ms,
            ).lost),
    {
        let all = self.peer_order().len() as int;
        self.lemma_pings_upto(connected, now_unix_ms, all);
        self.lemma_lost_upto(connected, now_unix_ms, all);
        self.lemma_peer_order();
        assert(self.peer_order().take(all) =~= self.peer_order());
        assert(ping_peers(self.due_pings(connected, now_unix_ms, all)).contains(peer) <==> (
        self.peer_order().take(all).contains(peer) && self.ping_due(peer, connected, now_unix_ms)));
        assert(self.lost_peers(connected, now_unix_ms, all).contains(peer) <==> (
        self.peer_order().take(all).contains(peer) && self.keepalive_due(peer, connected)
            && self.keepalive_step(peer, now_unix_ms).lost));
    }

    /// One keepalive tick over all peers.
    ///
    /// Every peer that is connected and has an active session gets one tick
    /// of its keepalive; every other peer is left alone. The result lists
    /// the pings to send and the peers to give up as lost, each in the
    /// order in which the peers were first heard of.
    pub fn collect_keepalive_actions(&mut self, now_unix_ms: i64, connected_peers: &[PeerId]) -> (actions:
        (Vec<KeepalivePing>, Vec<PeerId>))
        requires
            old(self).wf(),
        ensures
            final(self).wf(),
            final(self).same_stores(old(self)),
            final(self).peer_order() == old(self).peer_order(),
            forall|peer: Seq<u8>| #[trigger]
                final(self).session(peer) == if old(self).keepalive_due(
                    peer,
                    peer_views(connected_peers@),
                ) {
                    old(self).session(peer).kept_alive(now_unix_ms, old(self).config().keepalive)
                } else {
                    old(self).session(peer)
                },
            ping_views(actions.0@) == old(self).due_pings(
                peer_views(connected_peers@),
                now_unix_ms,
                old(self).peer_order().len() as int,
            ),
            peer_views(actions.1@) == old(self).lost_peers(
                peer_views(connected_peers@),
                now_unix_ms,
                old(self).peer_order().len() as int,
            ),
            forall|i: int| 0 <= i < actions.0@.len() ==> (#[trigger] actions.0@[i]).peer.wf(),
            forall|i: int| 0 <= i < actions.1@.len() ==> (#[trigger] actions.1@[i]).wf(),
    {
        let mut pings: Vec<KeepalivePing> = Vec::new();
        let mut lost: Vec<PeerId> = Vec::new();
        let ghost connected = peer_views(connected_peers@);
        let ghost order = self.peer_order();
        let timing: KeepaliveTiming = self.config.keepalive;
        let count: usize = self.peers.len();
        let mut i: usize = 0;
        proof {
            self.peers.lemma_order();
            assert(ping_views(pings@) =~= old(self).due_pings(connected, now_unix_ms, 0));
            assert(peer_views(lost@) =~= old(self).lost_peers(connected, now_unix_ms, 0));
        }
        while i < count
            invariant
                old(self).wf(),
                self.peers.wf(),
                self.local_key == old(self).local_key,
                self.config == old(self).config,
                self.targets == old(self).targets,
                self.nonce_cache == old(self).nonce_cache,
                self.trusted_peers == old(self).trusted_peers,
                self.outbound == old(self).outbound,
                self.next_tag == old(self).next_tag,
                timing == old(self).config.keepalive,
                connected == peer_views(connected_peers@),
                order == old(self).peer_order(),
                order.no_duplicates(),
                self.peers.order() == order,
                count == order.len(),
                i <= count,
                forall|j: int|
                    0 <= j < i ==> #[trigger] self.peers.at(order[j]) == if old(
                        self,
                    ).keepalive_due(order[j], connected) {
                        old(self).session(order[j]).kept_alive(now_unix_ms, timing)
                    } else {
                        old(self).session(order[j])
                    },
                forall|j: int|
                    i <= j < count ==> #[trigger] self.peers.at(order[j]) == old(self).session(
                        order[j],
                    ),
                forall|peer: Seq<u8>|
                    !order.contains(peer) ==> #[trigger] self.peers.at(peer) == old(self).session(
                        peer,
                    ),
                ping_views(pings@) == old(self).due_pings(connected, now_unix_ms, i as int),
                peer_views(lost@) == old(self).lost_peers(connected, now_unix_ms, i as int),
                forall|k: int| 0 <= k < pings@.len() ==> (#[trigger] pings@[k]).peer.wf(),
                forall|k: int| 0 <= k < lost@.len() ==> (#[trigger] lost@[k]).wf(),
            decreases count - i,
        {
            let peer: PeerId = self.peers.peer_at(i).duplicate();
            let is_connected: bool = contains_peer(connected_peers, &peer);
            let ghost table_before = self.peers;
            let ghost pings_before = pings@;
            let ghost lost_before = lost@;
            let mut session: PeerSession = self.peers.take_at(i);
            assert(session@ == old(self).session(order[i as int]));
            if is_connected && session.active_session_id.is_some() {
                let step: KeepaliveStep = session.keepalive_tick(now_unix_ms, timing);
                match step.send {
                    Some(seq) => {
                        let session_id: String = match &session.active_session_id {
                            Some(id) => id.clone(),
                            None => String::new(),
                        };
                        pings.push(KeepalivePing { peer: peer.duplicate(), session_id, seq });
                        assert(ping_views(pings@) =~= ping_views(pings_before).push(
                            KeepalivePingView {
                                peer: order[i as int],
                                session_id: old(self).session(
                                    order[i as int],
                                ).active_session_id.unwrap(),
                                seq,
                            },
                        ));
                    },
                    None => {},
                }
                if step.lost {
                    lost.push(peer);
                    assert(peer_views(lost@) =~= peer_views(lost_before).push(order[i as int]));
                }
            }
            self.peers.put_at(i, session);
            proof {
                assert forall|j: int| 0 <= j < i + 1 implies #[trigger] self.peers.at(order[j])
                    == if old(self).keepalive_due(order[j], connected) {
                    old(self).session(order[j]).kept_alive(now_unix_ms, timing)
                } else {
                    old(self).session(order[j])
                } by {
                    if j < i {
                        assert(order[j] != order[i as int]);
                        assert(table_before.at(order[j]) == self.peers.at(order[j]));
                    }
                }
                assert forall|j: int| i + 1 <= j < count implies #[trigger] self.peers.at(
                    order[j],
                ) == old(self).session(order[j]) by {
                    assert(order[j] != order[i as int]);
                    assert(table_before.at(order[j]) == self.peers.at(order[j]));
                }
                assert forall|p: Seq<u8>| !order.contains(p) implies #[trigger] self.peers.at(p)
                    == old(self).session(p) by {
                    assert(p != order[i as int]);
                    assert(table_before.at(p) == self.peers.at(p));
                }
            }
            i += 1;
        }
        proof {
            assert forall|p: Seq<u8>| #[trigger]
                self.peers.at(p) == if old(self).keepalive_due(p, connected) {
                    old(self).session(p).kept_alive(now_unix_ms, timing)
                } else {
                    old(self).session(p)
                } by {
                if order.contains(p) {
                    let j = choose|j: int| 0 <= j < order.len() && order[j] == p;
                    assert(self.peers.at(order[j]) == self.peers.at(p));
                } else {
                    old(self).peers.lemma_order();
                }
            }
        }
        (pings, lost)
    }

    /// Makes the ping with `seq` for the active session `session_id` of
    /// `peer`: it is handed out under a fresh tag, and the tag is noted as
    /// that of this ping.
    pub fn send_control_ping(&mut self, peer: &PeerId, session_id: &str, seq: u64, now_unix_ms: i64) -> (request:
        OutboundRequest)
        requires
            old(self).wf(),
        ensures
            final(self).wf(),
            final(self).local_key() == old(self).local_key(),
            final(self).config() == old(self).config(),
            final(self).targets() == old(self).targets(),
            final(self).seen() == old(self).seen(),
            final(self).retention() == old(self).retention(),
            final(self).trust().records() == old(self).trust().records(),
            final(self).peer_order() == old(self).peer_order(),
            forall|other: Seq<u8>| #[trigger] final(self).session(other) == old(self).session(other),
            request.peer@ == peer@,
            request.tag == old(self).next_tag(),
            request.envelope@ == ping_envelope(session_id@, seq, now_unix_ms),
            final(self).outbound() == old(self).outbound().insert(
                request.tag,
                OutboundControlRequestKind::KeepalivePing { seq },
            ),
    {
        let now: u64 = clock_of(now_unix_ms);
        let mut request_id: String = "ping-".to_owned();
        push_digits(&mut request_id, now);
        push_text(&mut request_id, "-");
        push_digits(&mut request_id, seq);
        let envelope: ControlEnvelope = ControlEnvelope {
            seq,
            request_id,
            message: Some(
                ControlMessage::Ping(
                    Ping { session_id: session_id.to_owned(), seq, send_unix_ms: now },
                ),
            ),
        };
        let tag: u64 = self.register(OutboundControlRequestKind::KeepalivePing { seq });
        OutboundRequest { peer: peer.duplicate(), tag, envelope }
    }
}

} // verus!
