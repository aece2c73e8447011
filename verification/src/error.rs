//! The ways in which a session handshake can be refused.

use crate::text::{decimal, digits, push_decimal, push_digits, push_text};
use vstd::prelude::*;

verus! {

#[derive(Debug, Clone, PartialEq, Eq)]
pub enum SessionAuthError {
    MissingSenderIdentity,
    MissingResponderIdentity,
    MissingDeviceCode,
    MissingNonce,
    NonceTooShort { min_bytes: usize },
    InvalidTargetDeviceCode { expected: String, got: String },
    TimestampSkew { request_unix_ms: i64, now_unix_ms: i64, allowed_skew_ms: i64 },
    ReplayDetected,
    InvalidSenderPublicKey,
    InvalidSenderPeerId,
    PeerIdMismatch,
    TransportPeerIdMismatch,
    InvalidSignature,
    SigningFailed,
    MissingRequestNonceBinding,
    RequestNonceMismatch,
    SessionIdMismatch { expected: String, got: String },
    UntrustedPeer { device_code: String },
    TrustedPeerMismatch { device_code: String },
    TrustStoreCorrupt(String),
}

/// A refusal as plain values.
pub enum AuthFault {
    MissingSenderIdentity,
    MissingResponderIdentity,
    MissingDeviceCode,
    MissingNonce,
    NonceTooShort { min_bytes: usize },
    InvalidTargetDeviceCode { expected: Seq<char>, got: Seq<char> },
    TimestampSkew { request_unix_ms: i64, now_unix_ms: i64, allowed_skew_ms: i64 },
    ReplayDetected,
    InvalidSenderPublicKey,
    InvalidSenderPeerId,
    PeerIdMismatch,
    TransportPeerIdMismatch,
    InvalidSignature,
    SigningFailed,
    MissingRequestNonceBinding,
    RequestNonceMismatch,
    SessionIdMismatch { expected: Seq<char>, got: Seq<char> },
    UntrustedPeer { device_code: Seq<char> },
    TrustedPeerMismatch { device_code: Seq<char> },
    TrustStoreCorrupt(Seq<char>),
}

impl View for SessionAuthError {
    type V = AuthFault;

    open spec fn view(&self) -> AuthFault {
        match *self {
            SessionAuthError::MissingSenderIdentity => AuthFault::MissingSenderIdentity,
            SessionAuthError::MissingResponderIdentity => AuthFault::MissingResponderIdentity,
            SessionAuthError::MissingDeviceCode => AuthFault::MissingDeviceCode,
            SessionAuthError::MissingNonce => AuthFault::MissingNonce,
            SessionAuthError::NonceTooShort { min_bytes } => AuthFault::NonceTooShort { min_bytes },
            SessionAuthError::InvalidTargetDeviceCode { expected, got } => {
                AuthFault::InvalidTargetDeviceCode { expected: expected@, got: got@ }
            },
            SessionAuthError::TimestampSkew { request_unix_ms, now_unix_ms, allowed_skew_ms } => {
                AuthFault::TimestampSkew { request_unix_ms, now_unix_ms, allowed_skew_ms }
            },
            SessionAuthError::ReplayDetected => AuthFault::ReplayDetected,
            SessionAuthError::InvalidSenderPublicKey => AuthFault::InvalidSenderPublicKey,
            SessionAuthError::InvalidSenderPeerId => AuthFault::InvalidSenderPeerId,
            SessionAuthError::PeerIdMismatch => AuthFault::PeerIdMismatch,
            SessionAuthError::TransportPeerIdMismatch => AuthFault::TransportPeerIdMismatch,
            SessionAuthError::InvalidSignature => AuthFault::InvalidSignature,
            SessionAuthError::SigningFailed => AuthFault::SigningFailed,
            SessionAuthError::MissingRequestNonceBinding => AuthFault::MissingRequestNonceBinding,
            SessionAuthError::RequestNonceMismatch => AuthFault::RequestNonceMismatch,
            SessionAuthError::SessionIdMismatch { expected, got } => {
                AuthFault::SessionIdMismatch { expected: expected@, got: got@ }
            },
            SessionAuthError::UntrustedPeer { device_code } => {
                AuthFault::UntrustedPeer { device_code: device_code@ }
            },
            SessionAuthError::TrustedPeerMismatch { device_code } => {
                AuthFault::TrustedPeerMismatch { device_code: device_code@ }
            },
            SessionAuthError::TrustStoreCorrupt(detail) => AuthFault::TrustStoreCorrupt(detail@),
        }
    }
}

impl AuthFault {
    /// Whether the refusal is one of policy: the wrong target, a peer that
    /// is not trusted, or a peer that is not the one pinned. Every other
    /// refusal is a failure to authenticate.
    pub open spec fn is_policy(self) -> bool {
        ||| self is InvalidTargetDeviceCode
        ||| self is UntrustedPeer
        ||| self is TrustedPeerMismatch
    }
}

impl AuthFault {
    /// The refusal in words.
    pub open spec fn message(self) -> Seq<char> {
        match self {
            AuthFault::MissingSenderIdentity => "missing sender identity in SessionRequest.from"@,
            AuthFault::MissingResponderIdentity => "missing responder identity in SessionAccept.from"@,
            AuthFault::MissingDeviceCode => "missing device_code in sender identity"@,
            AuthFault::MissingNonce => "missing nonce"@,
            AuthFault::NonceTooShort { min_bytes } => "nonce too short: expected at least "@
                + digits(min_bytes as nat) + " bytes"@,
            AuthFault::InvalidTargetDeviceCode { expected, got } => {
                "invalid target device code: expected "@ + expected + ", got "@ + got
            },
            AuthFault::TimestampSkew { request_unix_ms, now_unix_ms, allowed_skew_ms } => {
                "request timestamp outside allowed skew ("@ + decimal(allowed_skew_ms as int)
                    + " ms): request="@ + decimal(request_unix_ms as int) + ", now="@ + decimal(
                    now_unix_ms as int,
                )
            },
            AuthFault::ReplayDetected => "replay detected"@,
            AuthFault::InvalidSenderPublicKey => "invalid sender public key encoding"@,
            AuthFault::InvalidSenderPeerId => "invalid sender peer id encoding"@,
            AuthFault::PeerIdMismatch => "sender peer id does not match public key"@,
            AuthFault::TransportPeerIdMismatch => "transport peer id does not match signed identity"@,
            AuthFault::InvalidSignature => "invalid session request signature"@,
            AuthFault::SigningFailed => "signing session request failed"@,
            AuthFault::MissingRequestNonceBinding => "missing request nonce binding"@,
            AuthFault::RequestNonceMismatch => "request nonce does not match a pending request"@,
            AuthFault::SessionIdMismatch { expected, got } => {
                "session id mismatch: expected "@ + expected + ", got "@ + got
            },
            AuthFault::UntrustedPeer { device_code } => {
                "peer is not trusted and trust-on-first-use is disabled: "@ + device_code
            },
            AuthFault::TrustedPeerMismatch { device_code } => {
                "trusted peer mismatch for device code "@ + device_code
            },
            AuthFault::TrustStoreCorrupt(detail) => "trust store is corrupted: "@ + detail,
        }
    }
}

impl SessionAuthError {
    /// The refusal in words, as it is shown to a user and sent to a peer.
    pub fn message(&self) -> (text: String)
        ensures
            text@ == self@.message(),
    {
        match self {
            SessionAuthError::MissingSenderIdentity => {
                "missing sender identity in SessionRequest.from".to_owned()
            },
            SessionAuthError::MissingResponderIdentity => {
                "missing responder identity in SessionAccept.from".to_owned()
            },
            SessionAuthError::MissingDeviceCode => {
                "missing device_code in sender identity".to_owned()
            },
            SessionAuthError::MissingNonce => "missing nonce".to_owned(),
            SessionAuthError::NonceTooShort { min_bytes } => {
                let mut text: String = "nonce too short: expected at least ".to_owned();
                push_digits(&mut text, *min_bytes as u64);
                push_text(&mut text, " bytes");
                text
            },
            SessionAuthError::InvalidTargetDeviceCode { expected, got } => {
                let mut text: String = "invalid target device code: expected ".to_owned();
                push_text(&mut text, expected.as_str());
                push_text(&mut text, ", got ");
                push_text(&mut text, got.as_str());
                text
            },
            SessionAuthError::TimestampSkew { request_unix_ms, now_unix_ms, allowed_skew_ms } => {
                let mut text: String = "request timestamp outside allowed skew (".to_owned();
                push_decimal(&mut text, *allowed_skew_ms);
                push_text(&mut text, " ms): request=");
                push_decimal(&mut text, *request_unix_ms);
                push_text(&mut text, ", now=");
                push_decimal(&mut text, *now_unix_ms);
                text
            },
            SessionAuthError::ReplayDetected => "replay detected".to_owned(),
            SessionAuthError::InvalidSenderPublicKey => {
                "invalid sender public key encoding".to_owned()
            },
            SessionAuthError::InvalidSenderPeerId => "invalid sender peer id encoding".to_owned(),
            SessionAuthError::PeerIdMismatch => {
                "sender peer id does not match public key".to_owned()
            },
            SessionAuthError::TransportPeerIdMismatch => {
                "transport peer id does not match signed identity".to_owned()
            },
            SessionAuthError::InvalidSignature => "invalid session request signature".to_owned(),
            SessionAuthError::SigningFailed => "signing session request failed".to_owned(),
            SessionAuthError::MissingRequestNonceBinding => {
                "missing request nonce binding".to_owned()
            },
            SessionAuthError::RequestNonceMismatch => {
                "request nonce does not match a pending request".to_owned()
            },
            SessionAuthError::SessionIdMismatch { expected, got } => {
                let mut text: String = "session id mismatch: expected ".to_owned();
                push_text(&mut text, expected.as_str());
                push_text(&mut text, ", got ");
                push_text(&mut text, got.as_str());
                text
            },
            SessionAuthError::UntrustedPeer { device_code } => {
                let mut text: String =
                    "peer is not trusted and trust-on-first-use is disabled: ".to_owned();
                push_text(&mut text, device_code.as_str());
                text
            },
            SessionAuthError::TrustedPeerMismatch { device_code } => {
                let mut text: String = "trusted peer mismatch for device code ".to_owned();
                push_text(&mut text, device_code.as_str());
                text
            },
            SessionAuthError::TrustStoreCorrupt(detail) => {
                let mut text: String = "trust store is corrupted: ".to_owned();
                push_text(&mut text, detail.as_str());
                text
            },
        }
    }
}

} // verus!
