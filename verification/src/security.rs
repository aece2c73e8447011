//! Signing and verifying the handshake messages.
//!
//! A message is checked in a fixed order, and the first check that fails
//! names the refusal: the shape of the message, its nonce, its time, the
//! replay cache, the signature, the sender's identity, and last the trust
//! store. The replay cache takes the nonce as soon as the checks before it
//! have passed, so a message that fails later still uses its nonce up.

use crate::error::{AuthFault, SessionAuthError};
use crate::identity::{
    canonical_peer_id, check_signature, derived_peer_id, is_public_key, peer_id_text,
    signature_check, signature_of, IdentityKey, PeerId,
};
use crate::replay::{fresh_part, lemma_replay_refused, offered, NonceReplayCache, MIN_NONCE_BYTES};
use crate::text::{bytes_eq, is_blank, str_eq, str_is_blank};
use crate::trust::{
    sighting_fault, sighting_record, sighting_writes, TrustedPeerRecordView, TrustedPeers,
};
use crate::wire::{
    canonical_session_accept_payload, canonical_session_request_payload, DeviceIdentity,
    SessionAccept, SessionRequest,
};
use vstd::prelude::*;

verus! {

/// The peer behind a message that passed every check.
#[derive(Debug, Clone, PartialEq, Eq)]
pub struct VerifiedSessionPeer {
    pub peer_id: PeerId,
    pub device_code: String,
    pub trust_store_changed: bool,
}

/// How far two times lie apart, in milliseconds.
pub open spec fn time_distance(a: i64, b: i64) -> int {
    if a >= b {
        a - b
    } else {
        b - a
    }
}

/// What is wrong with a nonce: it is missing, or shorter than twelve bytes.
pub open spec fn nonce_fault(nonce: Seq<u8>) -> Option<AuthFault> {
    if nonce.len() == 0 {
        Some(AuthFault::MissingNonce)
    } else if nonce.len() < MIN_NONCE_BYTES {
        Some(AuthFault::NonceTooShort { min_bytes: MIN_NONCE_BYTES })
    } else {
        None
    }
}

/// What is wrong with the time of a message: it lies further from the local
/// clock than the skew allows.
pub open spec fn skew_fault(unix_ms: i64, now_unix_ms: i64, allowed_skew_ms: i64) -> Option<
    AuthFault,
> {
    if time_distance(now_unix_ms, unix_ms) > allowed_skew_ms {
        Some(AuthFault::TimestampSkew { request_unix_ms: unix_ms, now_unix_ms, allowed_skew_ms })
    } else {
        None
    }
}

/// The first fault of a request that shows without the replay cache, a key
/// or the trust store.
pub open spec fn request_shape_fault(
    request: SessionRequest,
    expected_target: Option<Seq<char>>,
    now_unix_ms: i64,
    allowed_skew_ms: i64,
) -> Option<AuthFault> {
    match request.from {
        None => Some(AuthFault::MissingSenderIdentity),
        Some(from) => if is_blank(from.device_code@) {
            Some(AuthFault::MissingDeviceCode)
        } else if expected_target matches Some(expected) && request.target_device_code@
            != expected {
            Some(
                AuthFault::InvalidTargetDeviceCode {
                    expected: expected_target.unwrap(),
                    got: request.target_device_code@,
                },
            )
        } else if nonce_fault(request.nonce@) is Some {
            nonce_fault(request.nonce@)
        } else {
            skew_fault(request.unix_ms, now_unix_ms, allowed_skew_ms)
        },
    }
}

/// The nonces of a list, each as plain bytes.
pub open spec fn nonce_views(nonces: Seq<Vec<u8>>) -> Seq<Seq<u8>> {
    Seq::new(nonces.len(), |i: int| nonces[i]@)
}

/// The nonces of a list that may be absent, each as plain bytes.
pub open spec fn nonce_list(nonces: Option<&[Vec<u8>]>) -> Option<Seq<Seq<u8>>> {
    match nonces {
        Some(list) => Some(nonce_views(list@)),
        None => None,
    }
}

/// The first fault of an accept that shows without the replay cache, a key
/// or the trust store.
pub open spec fn accept_shape_fault(
    accept: SessionAccept,
    expected_session_id: Option<Seq<char>>,
    pending_nonces: Option<Seq<Seq<u8>>>,
    now_unix_ms: i64,
    allowed_skew_ms: i64,
) -> Option<AuthFault> {
    match accept.from {
        None => Some(AuthFault::MissingResponderIdentity),
        Some(from) => if is_blank(from.device_code@) {
            Some(AuthFault::MissingDeviceCode)
        } else if expected_session_id matches Some(expected) && accept.session_id@ != expected {
            Some(
                AuthFault::SessionIdMismatch {
                    expected: expected_session_id.unwrap(),
                    got: accept.session_id@,
                },
            )
        } else if accept.request_nonce@.len() == 0 {
            Some(AuthFault::MissingRequestNonceBinding)
        } else if pending_nonces matches Some(nonces) && !nonces.contains(
            accept.request_nonce@,
        ) {
            Some(AuthFault::RequestNonceMismatch)
        } else if nonce_fault(accept.nonce@) is Some {
            nonce_fault(accept.nonce@)
        } else {
            skew_fault(accept.unix_ms, now_unix_ms, allowed_skew_ms)
        },
    }
}

/// The first fault in what a message says of its sender: a public key that
/// cannot be decoded, a signature that does not verify, a peer identifier
/// that cannot be read or is not the one of the key, or a transport peer
/// that is another.
pub open spec fn identity_fault(
    from: DeviceIdentity,
    payload: Seq<u8>,
    signature: Seq<u8>,
    transport_peer: Option<Seq<u8>>,
) -> Option<AuthFault> {
    match signature_check(from.identity_pubkey@, payload, signature) {
        None => Some(AuthFault::InvalidSenderPublicKey),
        Some(false) => Some(AuthFault::InvalidSignature),
        Some(true) => match canonical_peer_id(from.peer_id@) {
            None => Some(AuthFault::InvalidSenderPeerId),
            Some(claimed) => if derived_peer_id(from.identity_pubkey@) != Some(claimed) {
                Some(AuthFault::PeerIdMismatch)
            } else if transport_peer matches Some(bound) && bound != claimed {
                Some(AuthFault::TransportPeerIdMismatch)
            } else {
                None
            },
        },
    }
}

/// The bytes of a transport peer that may be absent.
pub open spec fn peer_bytes(peer: Option<&PeerId>) -> Option<Seq<u8>> {
    match peer {
        Some(p) => Some(p@),
        None => None,
    }
}

/// The characters of a text that may be absent.
pub open spec fn text_of(text: Option<&str>) -> Option<Seq<char>> {
    match text {
        Some(t) => Some(t@),
        None => None,
    }
}

/// The text of the peer identifier that belongs to a public key.
pub open spec fn key_peer_text(public_key: Seq<u8>) -> Seq<char> {
    peer_id_text(derived_peer_id(public_key).unwrap()).unwrap()
}

/// What follows the shape checks, for requests and accepts alike: the
/// replay cache, the sender's identity over `payload`, and the trust store,
/// which holds `held` under the sender's device code.
pub open spec fn sender_fault(
    from: DeviceIdentity,
    nonce: Seq<u8>,
    payload: Seq<u8>,
    signature: Seq<u8>,
    transport_peer: Option<Seq<u8>>,
    now_unix_ms: i64,
    seen: Map<Seq<u8>, i64>,
    retention_ms: i64,
    held: Option<TrustedPeerRecordView>,
    trust_on_first_use: bool,
) -> Option<AuthFault> {
    if fresh_part(seen, now_unix_ms, retention_ms).contains_key(nonce) {
        Some(AuthFault::ReplayDetected)
    } else if identity_fault(from, payload, signature, transport_peer) is Some {
        identity_fault(from, payload, signature, transport_peer)
    } else {
        sighting_fault(
            held,
            from.device_code@,
            key_peer_text(from.identity_pubkey@),
            from.identity_pubkey@,
            trust_on_first_use,
        )
    }
}

/// Why a request is refused, if it is: its first fault, in the order of the
/// checks.
pub open spec fn request_fault(
    request: SessionRequest,
    transport_peer: Option<Seq<u8>>,
    expected_target: Option<Seq<char>>,
    now_unix_ms: i64,
    allowed_skew_ms: i64,
    seen: Map<Seq<u8>, i64>,
    retention_ms: i64,
    held: Option<TrustedPeerRecordView>,
    trust_on_first_use: bool,
) -> Option<AuthFault> {
    if request_shape_fault(request, expected_target, now_unix_ms, allowed_skew_ms) is Some {
        request_shape_fault(request, expected_target, now_unix_ms, allowed_skew_ms)
    } else {
        sender_fault(
            request.from.unwrap(),
            request.nonce@,
            request.signing_payload(),
            request.signature@,
            transport_peer,
            now_unix_ms,
            seen,
            retention_ms,
            held,
            trust_on_first_use,
        )
    }
}

/// The replay cache after a request was verified: as it was where the shape
/// of the request is wrong, and else as offering the nonce of the request
/// leaves it.
pub open spec fn cache_after_request(
    request: SessionRequest,
    expected_target: Option<Seq<char>>,
    now_unix_ms: i64,
    allowed_skew_ms: i64,
    seen: Map<Seq<u8>, i64>,
    retention_ms: i64,
) -> Map<Seq<u8>, i64> {
    if request_shape_fault(request, expected_target, now_unix_ms, allowed_skew_ms) is Some {
        seen
    } else {
        offered(seen, request.nonce@, now_unix_ms, retention_ms)
    }
}

/// The replay cache after an accept was verified: as it was where the shape
/// of the accept is wrong, and else as offering the nonce of the accept
/// leaves it.
pub open spec fn cache_after_accept(
    accept: SessionAccept,
    expected_session_id: Option<Seq<char>>,
    pending_nonces: Option<Seq<Seq<u8>>>,
    now_unix_ms: i64,
    allowed_skew_ms: i64,
    seen: Map<Seq<u8>, i64>,
    retention_ms: i64,
) -> Map<Seq<u8>, i64> {
    if accept_shape_fault(
        accept,
        expected_session_id,
        pending_nonces,
        now_unix_ms,
        allowed_skew_ms,
    ) is Some {
        seen
    } else {
        offered(seen, accept.nonce@, now_unix_ms, retention_ms)
    }
}

/// Why an accept is refused, if it is: its first fault, in the order of the
/// checks.
pub open spec fn accept_fault(
    accept: SessionAccept,
    transport_peer: Option<Seq<u8>>,
    expected_session_id: Option<Seq<char>>,
    pending_nonces: Option<Seq<Seq<u8>>>,
    now_unix_ms: i64,
    allowed_skew_ms: i64,
    seen: Map<Seq<u8>, i64>,
    retention_ms: i64,
    held: Option<TrustedPeerRecordView>,
    trust_on_first_use: bool,
) -> Option<AuthFault> {
    if accept_shape_fault(
        accept,
        expected_session_id,
        pending_nonces,
        now_unix_ms,
        allowed_skew_ms,
    ) is Some {
        accept_shape_fault(
            accept,
            expected_session_id,
            pending_nonces,
            now_unix_ms,
            allowed_skew_ms,
        )
    } else {
        sender_fault(
            accept.from.unwrap(),
            accept.nonce@,
            accept.signing_payload(),
            accept.signature@,
            transport_peer,
            now_unix_ms,
            seen,
            retention_ms,
            held,
            trust_on_first_use,
        )
    }
}

/// Signs a request with the local identity.
///
/// The signature is made over the request with its signature field empty
/// and put into that field; nothing else of the request changes. The
/// signature verifies under the public half of the key. Where signing fails
/// the signature field is left empty.
pub fn sign_session_request(request: &mut SessionRequest, keypair: &IdentityKey) -> (result: Result<
    (),
    SessionAuthError,
>)
    requires
        keypair.wf(),
    ensures
        *final(request) == (SessionRequest { signature: final(request).signature, ..*old(request) }),
        final(request).signing_payload() == old(request).signing_payload(),
        result is Ok == signature_of(keypair.encoded(), old(request).signing_payload()) is Some,
        result is Ok ==> {
            &&& signature_of(keypair.encoded(), old(request).signing_payload()) == Some(
                final(request).signature@,
            )
            &&& signature_check(
                keypair.public_key(),
                final(request).signing_payload(),
                final(request).signature@,
            ) == Some(true)
        },
        result matches Err(error) ==> {
            &&& error == SessionAuthError::SigningFailed
            &&& final(request).signature@.len() == 0
        },
{
    request.signature = Vec::new();
    let payload: Vec<u8> = canonical_session_request_payload(request);
    match keypair.sign(payload.as_slice()) {
        Some(signature) => {
            request.signature = signature;
            Ok(())
        },
        None => Err(SessionAuthError::SigningFailed),
    }
}

/// Signs an accept with the local identity, as `sign_session_request` signs
/// a request. The nonce of the request that the accept answers is part of
/// what is signed.
pub fn sign_session_accept(accept: &mut SessionAccept, keypair: &IdentityKey) -> (result: Result<
    (),
    SessionAuthError,
>)
    requires
        keypair.wf(),
    ensures
        *final(accept) == (SessionAccept { signature: final(accept).signature, ..*old(accept) }),
        final(accept).signing_payload() == old(accept).signing_payload(),
        result is Ok == signature_of(keypair.encoded(), old(accept).signing_payload()) is Some,
        result is Ok ==> {
            &&& signature_of(keypair.encoded(), old(accept).signing_payload()) == Some(
                final(accept).signature@,
            )
            &&& signature_check(
                keypair.public_key(),
                final(accept).signing_payload(),
                final(accept).signature@,
            ) == Some(true)
        },
        result matches Err(error) ==> {
            &&& error == SessionAuthError::SigningFailed
            &&& final(accept).signature@.len() == 0
        },
{
    accept.signature = Vec::new();
    let payload: Vec<u8> = canonical_session_accept_payload(accept);
    match keypair.sign(payload.as_slice()) {
        Some(signature) => {
            accept.signature = signature;
            Ok(())
        },
        None => Err(SessionAuthError::SigningFailed),
    }
}

fn check_nonce(nonce: &[u8]) -> (result: Result<(), SessionAuthError>)
    ensures
        match nonce_fault(nonce@) {
            Some(fault) => result matches Err(error) && error@ == fault,
            None => result is Ok,
        },
{
    if nonce.len() == 0 {
        return Err(SessionAuthError::MissingNonce);
    }
    if nonce.len() < MIN_NONCE_BYTES {
        return Err(SessionAuthError::NonceTooShort { min_bytes: MIN_NONCE_BYTES });
    }
    Ok(())
}

fn check_skew(unix_ms: i64, now_unix_ms: i64, allowed_skew_ms: i64) -> (result: Result<
    (),
    SessionAuthError,
>)
    ensures
        match skew_fault(unix_ms, now_unix_ms, allowed_skew_ms) {
            Some(fault) => result matches Err(error) && error@ == fault,
            None => result is Ok,
        },
{
    let apart: i128 = if now_unix_ms >= unix_ms {
        now_unix_ms as i128 - unix_ms as i128
    } else {
        unix_ms as i128 - now_unix_ms as i128
    };
    if apart > allowed_skew_ms as i128 {
        return Err(
            SessionAuthError::TimestampSkew { request_unix_ms: unix_ms, now_unix_ms, allowed_skew_ms },
        );
    }
    Ok(())
}

/// Checks what a message says of its sender, and gives the sender's peer
/// identifier where nothing is wrong.
fn check_identity(
    from: &DeviceIdentity,
    payload: &[u8],
    signature: &[u8],
    transport_peer_id: Option<&PeerId>,
) -> (result: Result<PeerId, SessionAuthError>)
    ensures
        match identity_fault(*from, payload@, signature@, peer_bytes(transport_peer_id)) {
            Some(fault) => result matches Err(error) && error@ == fault,
            None => {
                &&& result matches Ok(peer)
                &&& peer.wf()
                &&& derived_peer_id(from.identity_pubkey@) == Some(peer@)
                &&& canonical_peer_id(from.peer_id@) == Some(peer@)
                &&& peer.text() == key_peer_text(from.identity_pubkey@)
            },
        },
{
    match check_signature(from.identity_pubkey.as_slice(), payload, signature) {
        None => {
            return Err(SessionAuthError::InvalidSenderPublicKey);
        },
        Some(valid) => {
            if !valid {
                return Err(SessionAuthError::InvalidSignature);
            }
        },
    }
    let claimed: PeerId = match PeerId::from_bytes(from.peer_id.as_slice()) {
        Some(peer) => peer,
        None => {
            return Err(SessionAuthError::InvalidSenderPeerId);
        },
    };
    let derived: PeerId = match PeerId::from_public_key(from.identity_pubkey.as_slice()) {
        Some(peer) => peer,
        None => {
            return Err(SessionAuthError::InvalidSenderPublicKey);
        },
    };
    if !claimed.same_as(&derived) {
        return Err(SessionAuthError::PeerIdMismatch);
    }
    match transport_peer_id {
        Some(bound) => {
            if !bound.same_as(&derived) {
                return Err(SessionAuthError::TransportPeerIdMismatch);
            }
        },
        None => {},
    }
    proof {
        derived.lemma_text_of_bytes();
    }
    Ok(derived)
}

/// The checks that requests and accepts share once their shape is found
/// right: the replay cache, the sender's identity, the trust store.
fn check_sender(
    from: &DeviceIdentity,
    nonce: &[u8],
    payload: &[u8],
    signature: &[u8],
    transport_peer_id: Option<&PeerId>,
    now_unix_ms: i64,
    replay_cache: &mut NonceReplayCache,
    trusted_peers: &mut TrustedPeers,
    trust_on_first_use: bool,
) -> (result: Result<VerifiedSessionPeer, SessionAuthError>)
    requires
        old(replay_cache).wf(),
        old(trusted_peers).wf(),
    ensures
        final(replay_cache).wf(),
        final(trusted_peers).wf(),
        old(trusted_peers).sound() && !is_blank(from.device_code@) ==> final(trusted_peers).sound(),
        final(replay_cache).retention() == old(replay_cache).retention(),
        match sender_fault(
            *from,
            nonce@,
            payload@,
            signature@,
            peer_bytes(transport_peer_id),
            now_unix_ms,
            old(replay_cache)@,
            old(replay_cache).retention(),
            old(trusted_peers).lookup(from.device_code@),
            trust_on_first_use,
        ) {
            Some(fault) => {
                &&& result matches Err(error)
                &&& error@ == fault
                &&& final(trusted_peers).records() == old(trusted_peers).records()
            },
            None => {
                &&& result matches Ok(verified)
                &&& verified.peer_id.wf()
                &&& derived_peer_id(from.identity_pubkey@) == Some(verified.peer_id@)
                &&& canonical_peer_id(from.peer_id@) == Some(verified.peer_id@)
                &&& transport_peer_id matches Some(bound) ==> bound@ == verified.peer_id@
                &&& verified.device_code@ == from.device_code@
                &&& verified.trust_store_changed == sighting_writes(
                    old(trusted_peers).lookup(from.device_code@),
                    now_unix_ms,
                )
                &&& final(trusted_peers).lookup(from.device_code@) == Some(
                    sighting_record(
                        old(trusted_peers).lookup(from.device_code@),
                        from.device_code@,
                        key_peer_text(from.identity_pubkey@),
                        from.identity_pubkey@,
                        now_unix_ms,
                    ),
                )
            },
        },
        final(replay_cache)@ == if fresh_part(
            old(replay_cache)@,
            now_unix_ms,
            old(replay_cache).retention(),
        ).contains_key(nonce@) {
            fresh_part(old(replay_cache)@, now_unix_ms, old(replay_cache).retention())
        } else {
            fresh_part(old(replay_cache)@, now_unix_ms, old(replay_cache).retention()).insert(
                nonce@,
                now_unix_ms,
            )
        },
        forall|code: Seq<char>|
            code != from.device_code@ ==> #[trigger] final(trusted_peers).lookup(code)
                == old(trusted_peers).lookup(code),
{
    match replay_cache.check_and_store(nonce, now_unix_ms) {
        Ok(_) => {},
        Err(error) => {
            return Err(error);
        },
    }
    let peer: PeerId = match check_identity(from, payload, signature, transport_peer_id) {
        Ok(peer) => peer,
        Err(error) => {
            return Err(error);
        },
    };
    let changed: bool = match trusted_peers.ensure_trusted(
        from.device_code.as_str(),
        &peer,
        from.identity_pubkey.as_slice(),
        now_unix_ms,
        trust_on_first_use,
    ) {
        Ok(changed) => changed,
        Err(error) => {
            return Err(error);
        },
    };
    Ok(
        VerifiedSessionPeer {
            peer_id: peer,
            device_code: from.device_code.clone(),
            trust_store_changed: changed,
        },
    )
}

/// Verifies a session request.
///
/// The request is refused with its first fault, in the order of the checks;
/// it is accepted exactly where it has none. An accepted request comes from
/// the peer whose identifier is derived from the public key it carries, which
/// is also the identifier it claims and, where a transport peer is given,
/// that of the transport. The replay cache is touched only once the shape of
/// the request is found right, and the trust store only where the request
/// is accepted.
pub fn verify_session_request(
    request: &SessionRequest,
    transport_peer_id: Option<&PeerId>,
    expected_target_device_code: Option<&str>,
    now_unix_ms: i64,
    allowed_skew_ms: i64,
    replay_cache: &mut NonceReplayCache,
    trusted_peers: &mut TrustedPeers,
    trust_on_first_use: bool,
) -> (result: Result<VerifiedSessionPeer, SessionAuthError>)
    requires
        old(replay_cache).wf(),
        old(trusted_peers).wf(),
    ensures
        final(replay_cache).wf(),
        final(trusted_peers).wf(),
        old(trusted_peers).sound() ==> final(trusted_peers).sound(),
        final(replay_cache).retention() == old(replay_cache).retention(),
        match request_fault(
            *request,
            peer_bytes(transport_peer_id),
            text_of(expected_target_device_code),
            now_unix_ms,
            allowed_skew_ms,
            old(replay_cache)@,
            old(replay_cache).retention(),
            match request.from {
                Some(from) => old(trusted_peers).lookup(from.device_code@),
                None => None,
            },
            trust_on_first_use,
        ) {
            Some(fault) => {
                &&& result matches Err(error)
                &&& error@ == fault
                &&& final(trusted_peers).records() == old(trusted_peers).records()
            },
            None => {
                &&& result matches Ok(verified)
                &&& request.from matches Some(from)
                &&& verified.peer_id.wf()
                &&& derived_peer_id(from.identity_pubkey@) == Some(verified.peer_id@)
                &&& canonical_peer_id(from.peer_id@) == Some(verified.peer_id@)
                &&& transport_peer_id matches Some(bound) ==> bound@ == verified.peer_id@
                &&& verified.device_code@ == from.device_code@
                &&& verified.trust_store_changed == sighting_writes(
                    old(trusted_peers).lookup(from.device_code@),
                    now_unix_ms,
                )
                &&& final(trusted_peers).lookup(from.device_code@) == Some(
                    sighting_record(
                        old(trusted_peers).lookup(from.device_code@),
                        from.device_code@,
                        key_peer_text(from.identity_pubkey@),
                        from.identity_pubkey@,
                        now_unix_ms,
                    ),
                )
            },
        },
        final(replay_cache)@ == cache_after_request(
            *request,
            text_of(expected_target_device_code),
            now_unix_ms,
            allowed_skew_ms,
            old(replay_cache)@,
            old(replay_cache).retention(),
        ),
        forall|code: Seq<char>|
            !(request.from matches Some(from) && from.device_code@ == code)
                ==> #[trigger] final(trusted_peers).lookup(code) == old(trusted_peers).lookup(code),
{
    let from: &DeviceIdentity = match &request.from {
        Some(from) => from,
        None => {
            return Err(SessionAuthError::MissingSenderIdentity);
        },
    };
    if str_is_blank(from.device_code.as_str()) {
        return Err(SessionAuthError::MissingDeviceCode);
    }
    match expected_target_device_code {
        Some(expected) => {
            if !str_eq(request.target_device_code.as_str(), expected) {
                return Err(
                    SessionAuthError::InvalidTargetDeviceCode {
                        expected: expected.to_owned(),
                        got: request.target_device_code.clone(),
                    },
                );
            }
        },
        None => {},
    }
    match check_nonce(request.nonce.as_slice()) {
        Ok(_) => {},
        Err(error) => {
            return Err(error);
        },
    }
    match check_skew(request.unix_ms, now_unix_ms, allowed_skew_ms) {
        Ok(_) => {},
        Err(error) => {
            return Err(error);
        },
    }
    let payload: Vec<u8> = canonical_session_request_payload(request);
    check_sender(
        from,
        request.nonce.as_slice(),
        payload.as_slice(),
        request.signature.as_slice(),
        transport_peer_id,
        now_unix_ms,
        replay_cache,
        trusted_peers,
        trust_on_first_use,
    )
}

/// Whether `nonce` is one of `nonces`.
pub fn contains_nonce(nonces: &[Vec<u8>], nonce: &[u8]) -> (found: bool)
    ensures
        found == nonce_views(nonces@).contains(nonce@),
{
    let mut i: usize = 0;
    while i < nonces.len()
        invariant
            i <= nonces@.len(),
            forall|j: int| 0 <= j < i ==> (#[trigger] nonce_views(nonces@)[j]) != nonce@,
        decreases nonces@.len() - i,
    {
        if bytes_eq(nonces[i].as_slice(), nonce) {
            assert(nonce_views(nonces@)[i as int] == nonce@);
            return true;
        }
        i += 1;
    }
    false
}

/// Verifies a session accept.
///
/// An accept is checked as a request is, with the responder in the place of
/// the sender. In addition it must answer the session that is expected,
/// where one is given, and it must carry the nonce of a request: one of the
/// nonces given as pending, where a list is given.
pub fn verify_session_accept(
    accept: &SessionAccept,
    transport_peer_id: Option<&PeerId>,
    expected_session_id: Option<&str>,
    pending_request_nonces: Option<&[Vec<u8>]>,
    now_unix_ms: i64,
    allowed_skew_ms: i64,
    replay_cache: &mut NonceReplayCache,
    trusted_peers: &mut TrustedPeers,
    trust_on_first_use: bool,
) -> (result: Result<VerifiedSessionPeer, SessionAuthError>)
    requires
        old(replay_cache).wf(),
        old(trusted_peers).wf(),
    ensures
        final(replay_cache).wf(),
        final(trusted_peers).wf(),
        old(trusted_peers).sound() ==> final(trusted_peers).sound(),
        final(replay_cache).retention() == old(replay_cache).retention(),
        match accept_fault(
            *accept,
            peer_bytes(transport_peer_id),
            text_of(expected_session_id),
            nonce_list(pending_request_nonces),
            now_unix_ms,
            allowed_skew_ms,
            old(replay_cache)@,
            old(replay_cache).retention(),
            match accept.from {
                Some(from) => old(trusted_peers).lookup(from.device_code@),
                None => None,
            },
            trust_on_first_use,
        ) {
            Some(fault) => {
                &&& result matches Err(error)
                &&& error@ == fault
                &&& final(trusted_peers).records() == old(trusted_peers).records()
            },
            None => {
                &&& result matches Ok(verified)
                &&& accept.from matches Some(from)
                &&& verified.peer_id.wf()
                &&& derived_peer_id(from.identity_pubkey@) == Some(verified.peer_id@)
                &&& canonical_peer_id(from.peer_id@) == Some(verified.peer_id@)
                &&& transport_peer_id matches Some(bound) ==> bound@ == verified.peer_id@
                &&& verified.device_code@ == from.device_code@
                &&& verified.trust_store_changed == sighting_writes(
                    old(trusted_peers).lookup(from.device_code@),
                    now_unix_ms,
                )
                &&& final(trusted_peers).lookup(from.device_code@) == Some(
                    sighting_record(
                        old(trusted_peers).lookup(from.device_code@),
                        from.device_code@,
                        key_peer_text(from.identity_pubkey@),
                        from.identity_pubkey@,
                        now_unix_ms,
                    ),
                )
                &&& pending_request_nonces matches Some(nonces) ==> nonce_views(nonces@).contains(
                    accept.request_nonce@,
                )
                &&& expected_session_id matches Some(expected) ==> accept.session_id@ == expected@
            },
        },
        final(replay_cache)@ == cache_after_accept(
            *accept,
            text_of(expected_session_id),
            nonce_list(pending_request_nonces),
            now_unix_ms,
            allowed_skew_ms,
            old(replay_cache)@,
            old(replay_cache).retention(),
        ),
        forall|code: Seq<char>|
            !(accept.from matches Some(from) && from.device_code@ == code)
                ==> #[trigger] final(trusted_peers).lookup(code) == old(trusted_peers).lookup(code),
{
    let from: &DeviceIdentity = match &accept.from {
        Some(from) => from,
        None => {
            return Err(SessionAuthError::MissingResponderIdentity);
        },
    };
    if str_is_blank(from.device_code.as_str()) {
        return Err(SessionAuthError::MissingDeviceCode);
    }
    match expected_session_id {
        Some(expected) => {
            if !str_eq(accept.session_id.as_str(), expected) {
                return Err(
                    SessionAuthError::SessionIdMismatch {
                        expected: expected.to_owned(),
                        got: accept.session_id.clone(),
                    },
                );
            }
        },
        None => {},
    }
    if accept.request_nonce.len() == 0 {
        return Err(SessionAuthError::MissingRequestNonceBinding);
    }
    match pending_request_nonces {
        Some(nonces) => {
            if !contains_nonce(nonces, accept.request_nonce.as_slice()) {
                return Err(SessionAuthError::RequestNonceMismatch);
            }
        },
        None => {},
    }
    match check_nonce(accept.nonce.as_slice()) {
        Ok(_) => {},
        Err(error) => {
            return Err(error);
        },
    }
    match check_skew(accept.unix_ms, now_unix_ms, allowed_skew_ms) {
        Ok(_) => {},
        Err(error) => {
            return Err(error);
        },
    }
    let payload: Vec<u8> = canonical_session_accept_payload(accept);
    check_sender(
        from,
        accept.nonce.as_slice(),
        payload.as_slice(),
        accept.signature.as_slice(),
        transport_peer_id,
        now_unix_ms,
        replay_cache,
        trusted_peers,
        trust_on_first_use,
    )
}

/// Of two requests with one nonce exactly one is accepted within the
/// retention: where a request was accepted at `first_unix_ms`, a request
/// with the same nonce that is verified on the cache the first one left, no
/// more than the retention later, is refused, whoever sent it and whatever
/// else it holds.
pub proof fn lemma_same_nonce_accepted_once(
    first: SessionRequest,
    first_transport_peer: Option<Seq<u8>>,
    first_target: Option<Seq<char>>,
    first_unix_ms: i64,
    first_held: Option<TrustedPeerRecordView>,
    second: SessionRequest,
    second_transport_peer: Option<Seq<u8>>,
    second_target: Option<Seq<char>>,
    second_unix_ms: i64,
    second_held: Option<TrustedPeerRecordView>,
    allowed_skew_ms: i64,
    seen: Map<Seq<u8>, i64>,
    retention_ms: i64,
    trust_on_first_use: bool,
)
    requires
        request_fault(
            first,
            first_transport_peer,
            first_target,
            first_unix_ms,
            allowed_skew_ms,
            seen,
            retention_ms,
            first_held,
            trust_on_first_use,
        ) is None,
        second.nonce@ == first.nonce@,
        second_unix_ms - first_unix_ms <= retention_ms,
    ensures
        request_fault(
            second,
            second_transport_peer,
            second_target,
            second_unix_ms,
            allowed_skew_ms,
            cache_after_request(
                first,
                first_target,
                first_unix_ms,
                allowed_skew_ms,
                seen,
                retention_ms,
            ),
            retention_ms,
            second_held,
            trust_on_first_use,
        ) is Some,
{
    lemma_replay_refused(seen, retention_ms, first.nonce@, first_unix_ms, second_unix_ms);
}

/// A request that carries the identity of a key and a signature that
/// verifies under it is accepted, provided its shape is right, its nonce is
/// not remembered, the transport peer, if one is given, is the peer of the
/// key, and the trust store does not object: it holds the peer and the key
/// under the sender's device code, or holds nothing under it while trust on
/// first use is on.
pub proof fn lemma_signed_request_is_accepted(
    request: SessionRequest,
    key: IdentityKey,
    transport_peer: Option<Seq<u8>>,
    expected_target: Option<Seq<char>>,
    now_unix_ms: i64,
    allowed_skew_ms: i64,
    seen: Map<Seq<u8>, i64>,
    retention_ms: i64,
    held: Option<TrustedPeerRecordView>,
    trust_on_first_use: bool,
)
    requires
        key.wf(),
        request.from matches Some(from) && from.identity_pubkey@ == key.public_key()
            && from.peer_id@ == key.peer_id()@,
        signature_check(key.public_key(), request.signing_payload(), request.signature@) == Some(
            true,
        ),
        request_shape_fault(request, expected_target, now_unix_ms, allowed_skew_ms) is None,
        !fresh_part(seen, now_unix_ms, retention_ms).contains_key(request.nonce@),
        transport_peer matches Some(bound) ==> bound == key.peer_id()@,
        sighting_fault(
            held,
            request.from.unwrap().device_code@,
            key.peer_id().text(),
            key.public_key(),
            trust_on_first_use,
        ) is None,
    ensures
        request_fault(
            request,
            transport_peer,
            expected_target,
            now_unix_ms,
            allowed_skew_ms,
            seen,
            retention_ms,
            held,
            trust_on_first_use,
        ) is None,
{
    key.lemma_wf();
    key.peer_id().lemma_text_of_bytes();
}

} // verus!
