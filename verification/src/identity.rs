//! Peer identifiers and the local identity key.
//!
//! Keys, signatures and peer identifiers are the work of `libp2p`. This
//! module hands it byte strings and takes byte strings back; what comes back
//! is given a name, and the rest of the library reasons over those names.

use crate::text::{bytes_eq, str_eq};
use vstd::prelude::*;
use vstd::slice::slice_to_vec;

verus! {

/// The canonical bytes of the peer identifier that `bytes` encode: what
/// `PeerId::from_bytes` accepts, written out again by `PeerId::to_bytes`.
/// `None` where `bytes` are no peer identifier.
pub uninterp spec fn canonical_peer_id(bytes: Seq<u8>) -> Option<Seq<u8>>;

/// The base-58 text of the peer identifier that `bytes` encode, as
/// `PeerId::to_base58` writes it.
pub uninterp spec fn peer_id_text(bytes: Seq<u8>) -> Option<Seq<char>>;

/// The canonical bytes of the peer identifier that `text` spells, as parsing
/// the text into a `PeerId` reads it.
pub uninterp spec fn peer_id_from_text(text: Seq<char>) -> Option<Seq<u8>>;

/// The canonical bytes of the peer identifier that belongs to an encoded
/// public key, as `PeerId::from_public_key` derives it. `None` where the
/// bytes are no public key.
pub uninterp spec fn derived_peer_id(public_key: Seq<u8>) -> Option<Seq<u8>>;

/// What `PublicKey::verify` says of `signature` over `message` under an
/// encoded public key. `None` where the bytes are no public key.
pub uninterp spec fn signature_check(
    public_key: Seq<u8>,
    message: Seq<u8>,
    signature: Seq<u8>,
) -> Option<bool>;

/// The signature that `Keypair::sign` makes of `message` with an encoded
/// keypair. `None` where the bytes are no keypair or signing fails.
pub uninterp spec fn signature_of(keypair: Seq<u8>, message: Seq<u8>) -> Option<Seq<u8>>;

/// The encoded public half of an encoded keypair, as `Keypair::public`
/// gives it. `None` where the bytes are no keypair.
pub uninterp spec fn public_key_of(keypair: Seq<u8>) -> Option<Seq<u8>>;

/// Whether `bytes` are a public key that can be decoded.
pub open spec fn is_public_key(bytes: Seq<u8>) -> bool {
    derived_peer_id(bytes) is Some
}

/// Whether `bytes` are the canonical bytes of a peer identifier.
pub open spec fn is_peer_id(bytes: Seq<u8>) -> bool {
    canonical_peer_id(bytes) == Some(bytes)
}

/// Calls `libp2p::PeerId::from_bytes`, then `to_bytes` on what it gave. The
/// contract names the result, and adds that the bytes of a peer identifier
/// are read back as the same identifier.
#[verifier::external_body]
fn parse_peer_id_bytes(bytes: &[u8]) -> (canonical: Option<Vec<u8>>)
    ensures
        canonical is Some == canonical_peer_id(bytes@) is Some,
        canonical matches Some(c) ==> canonical_peer_id(bytes@) == Some(c@) && is_peer_id(c@),
{
    match libp2p::PeerId::from_bytes(bytes) {
        Ok(peer_id) => Some(peer_id.to_bytes()),
        Err(_) => None,
    }
}

/// Calls `libp2p::PeerId::to_base58` on the peer identifier that `bytes`
/// encode. The contract names the text, and says that there is one exactly
/// where the bytes are a peer identifier. It adds that the text is read
/// back as the identifier: parsing is the base-58 decoding of the text
/// followed by `PeerId::from_bytes`, and the text is the base-58 encoding
/// of the identifier's bytes.
#[verifier::external_body]
fn peer_id_to_text(bytes: &[u8]) -> (text: Option<String>)
    ensures
        text is Some == canonical_peer_id(bytes@) is Some,
        text is Some == peer_id_text(bytes@) is Some,
        text matches Some(t) ==> peer_id_text(bytes@) == Some(t@),
        text matches Some(t) ==> peer_id_from_text(t@) == canonical_peer_id(bytes@),
{
    match libp2p::PeerId::from_bytes(bytes) {
        Ok(peer_id) => Some(peer_id.to_base58()),
        Err(_) => None,
    }
}

/// Parses base-58 text into a `libp2p::PeerId` through its `FromStr`, and
/// gives the identifier's bytes. The contract names the result, and adds
/// that those bytes are read back as the same identifier.
#[verifier::external_body]
fn parse_peer_id_text(text: &str) -> (canonical: Option<Vec<u8>>)
    ensures
        canonical is Some == peer_id_from_text(text@) is Some,
        canonical matches Some(c) ==> peer_id_from_text(text@) == Some(c@) && is_peer_id(c@),
{
    match text.parse::<libp2p::PeerId>() {
        Ok(peer_id) => Some(peer_id.to_bytes()),
        Err(_) => None,
    }
}

/// Decodes a public key with `PublicKey::try_decode_protobuf` and calls
/// `libp2p::PeerId::from_public_key` on it. The contract names the bytes of
/// the identifier, and adds that they are read back as the same identifier.
#[verifier::external_body]
fn derive_peer_id(public_key: &[u8]) -> (derived: Option<Vec<u8>>)
    ensures
        derived is Some == derived_peer_id(public_key@) is Some,
        derived matches Some(d) ==> derived_peer_id(public_key@) == Some(d@) && is_peer_id(d@),
{
    match libp2p::identity::PublicKey::try_decode_protobuf(public_key) {
        Ok(key) => Some(libp2p::PeerId::from_public_key(&key).to_bytes()),
        Err(_) => None,
    }
}

/// Decodes a public key with `PublicKey::try_decode_protobuf` and calls
/// `PublicKey::verify` on it. The contract names the verdict, and says that
/// there is one exactly where the key can be decoded.
#[verifier::external_body]
pub(crate) fn check_signature(public_key: &[u8], message: &[u8], signature: &[u8]) -> (verdict:
    Option<bool>)
    ensures
        verdict == signature_check(public_key@, message@, signature@),
        verdict is Some == is_public_key(public_key@),
{
    match libp2p::identity::PublicKey::try_decode_protobuf(public_key) {
        Ok(key) => Some(key.verify(message, signature)),
        Err(_) => None,
    }
}

/// Decodes a keypair with `Keypair::from_protobuf_encoding` and calls
/// `Keypair::sign` on it. The contract names the signature, and adds what
/// the documentation of `sign` promises: the signature verifies under the
/// public half of the keypair.
#[verifier::external_body]
fn sign_with_keypair(keypair: &[u8], message: &[u8]) -> (signature: Option<Vec<u8>>)
    ensures
        signature is Some == signature_of(keypair@, message@) is Some,
        signature matches Some(s) ==> {
            &&& signature_of(keypair@, message@) == Some(s@)
            &&& public_key_of(keypair@) matches Some(public_key)
            &&& signature_check(public_key, message@, s@) == Some(true)
        },
{
    match libp2p::identity::Keypair::from_protobuf_encoding(keypair) {
        Ok(pair) => pair.sign(message).ok(),
        Err(_) => None,
    }
}

/// Decodes a keypair with `Keypair::from_protobuf_encoding` and encodes its
/// public half, `Keypair::public`, with `PublicKey::encode_protobuf`. The
/// contract names the result.
#[verifier::external_body]
fn keypair_public_key(keypair: &[u8]) -> (public_key: Option<Vec<u8>>)
    ensures
        public_key is Some == public_key_of(keypair@) is Some,
        public_key matches Some(k) ==> public_key_of(keypair@) == Some(k@),
{
    match libp2p::identity::Keypair::from_protobuf_encoding(keypair) {
        Ok(pair) => Some(pair.public().encode_protobuf()),
        Err(_) => None,
    }
}

/// Makes a fresh Ed25519 keypair with `Keypair::generate_ed25519` and
/// encodes it with `Keypair::to_protobuf_encoding`. The bytes come from the
/// system's random source, so the contract says only what holds of every
/// keypair so made: an Ed25519 keypair is always encoded, what is encoded
/// is a keypair again to `Keypair::from_protobuf_encoding`, and its public
/// half is a public key to `PublicKey::try_decode_protobuf`.
#[verifier::external_body]
fn generate_keypair() -> (keypair: Option<Vec<u8>>)
    ensures
        keypair is Some,
        keypair matches Some(encoded) ==> public_key_of(encoded@) is Some,
        keypair matches Some(encoded) ==> is_public_key(public_key_of(encoded@).unwrap()),
{
    libp2p::identity::Keypair::generate_ed25519().to_protobuf_encoding().ok()
}

/// The identifier of a peer: the canonical bytes of its multihash, and the
/// base-58 text that stands for them.
#[derive(Debug, Clone, PartialEq, Eq)]
pub struct PeerId {
    bytes: Vec<u8>,
    text: String,
}

impl View for PeerId {
    type V = Seq<u8>;

    closed spec fn view(&self) -> Seq<u8> {
        self.bytes@
    }
}

impl PeerId {
    /// The base-58 text of the identifier.
    pub closed spec fn text(&self) -> Seq<char> {
        self.text@
    }

    /// The bytes are those of a peer identifier, the text is theirs, and
    /// the text is read back as the bytes.
    pub closed spec fn wf(&self) -> bool {
        &&& is_peer_id(self.bytes@)
        &&& peer_id_text(self.bytes@) == Some(self.text@)
        &&& peer_id_from_text(self.text@) == Some(self.bytes@)
    }

    /// Two well-formed identifiers with the same bytes have the same text,
    /// and the text of a well-formed identifier spells it.
    pub proof fn lemma_text_of_bytes(&self)
        requires
            self.wf(),
        ensures
            is_peer_id(self@),
            peer_id_text(self@) == Some(self.text()),
            peer_id_from_text(self.text()) == Some(self@),
    {
    }

    /// Reads a peer identifier from its bytes. There is one exactly where
    /// the bytes encode one; it holds the canonical form of the bytes.
    pub fn from_bytes(bytes: &[u8]) -> (peer: Option<PeerId>)
        ensures
            peer is Some == canonical_peer_id(bytes@) is Some,
            peer matches Some(p) ==> p.wf() && canonical_peer_id(bytes@) == Some(p@),
    {
        match parse_peer_id_bytes(bytes) {
            Some(canonical) => match peer_id_to_text(canonical.as_slice()) {
                Some(text) => Some(PeerId { bytes: canonical, text }),
                None => None,
            },
            None => None,
        }
    }

    /// Reads a peer identifier from its base-58 text.
    pub fn parse(text: &str) -> (peer: Option<PeerId>)
        ensures
            peer is Some == peer_id_from_text(text@) is Some,
            peer matches Some(p) ==> p.wf() && peer_id_from_text(text@) == Some(p@),
    {
        match parse_peer_id_text(text) {
            Some(canonical) => match peer_id_to_text(canonical.as_slice()) {
                Some(text) => Some(PeerId { bytes: canonical, text }),
                None => None,
            },
            None => None,
        }
    }

    /// Derives the peer identifier of an encoded public key. There is one
    /// exactly where the key can be decoded.
    pub fn from_public_key(public_key: &[u8]) -> (peer: Option<PeerId>)
        ensures
            peer is Some == is_public_key(public_key@),
            peer matches Some(p) ==> p.wf() && derived_peer_id(public_key@) == Some(p@),
    {
        match derive_peer_id(public_key) {
            Some(derived) => match peer_id_to_text(derived.as_slice()) {
                Some(text) => Some(PeerId { bytes: derived, text }),
                None => None,
            },
            None => None,
        }
    }

    /// A copy of the canonical bytes.
    pub fn to_bytes(&self) -> (bytes: Vec<u8>)
        ensures
            bytes@ == self@,
    {
        slice_to_vec(self.bytes.as_slice())
    }

    /// The canonical bytes.
    pub fn as_bytes(&self) -> (bytes: &[u8])
        ensures
            bytes@ == self@,
    {
        self.bytes.as_slice()
    }

    /// The base-58 text of the identifier.
    pub fn as_str(&self) -> (text: &str)
        ensures
            text@ == self.text(),
    {
        self.text.as_str()
    }

    /// Whether two identifiers are the same: whether their bytes are.
    pub fn same_as(&self, other: &PeerId) -> (same: bool)
        ensures
            same == (self@ == other@),
    {
        bytes_eq(self.bytes.as_slice(), other.bytes.as_slice())
    }

    /// Whether `text` spells this identifier.
    pub fn has_text(&self, text: &str) -> (same: bool)
        ensures
            same == (self.text() == text@),
    {
        str_eq(self.text.as_str(), text)
    }

    /// A copy of the identifier.
    pub fn duplicate(&self) -> (copy: PeerId)
        ensures
            copy@ == self@,
            copy.text() == self.text(),
            copy.wf() == self.wf(),
    {
        PeerId { bytes: slice_to_vec(self.bytes.as_slice()), text: self.text.clone() }
    }
}

#[derive(Debug, Clone, Copy, PartialEq, Eq, Structural)]
pub enum IdentityError {
    /// The key file could not be read or written.
    Io,
    /// The bytes are no keypair, or hold a key this node cannot use.
    Decode,
}

/// The long-lived signing key of the local device, held in its encoded
/// form, with its public half and the peer identifier derived from it.
#[derive(Debug, Clone)]
pub struct IdentityKey {
    encoded: Vec<u8>,
    public_key: Vec<u8>,
    peer_id: PeerId,
}

impl IdentityKey {
    /// The encoded keypair, as it is persisted.
    pub closed spec fn encoded(&self) -> Seq<u8> {
        self.encoded@
    }

    /// The encoded public half.
    pub closed spec fn public_key(&self) -> Seq<u8> {
        self.public_key@
    }

    pub closed spec fn peer_id(&self) -> PeerId {
        self.peer_id
    }

    /// The public half is that of the keypair, and the peer identifier is
    /// derived from it.
    pub closed spec fn wf(&self) -> bool {
        &&& public_key_of(self.encoded@) == Some(self.public_key@)
        &&& derived_peer_id(self.public_key@) == Some(self.peer_id@)
        &&& self.peer_id.wf()
    }

    /// A well-formed identity holds the public half of its keypair and the
    /// peer identifier that belongs to that half.
    pub proof fn lemma_wf(&self)
        requires
            self.wf(),
        ensures
            public_key_of(self.encoded()) == Some(self.public_key()),
            derived_peer_id(self.public_key()) == Some(self.peer_id()@),
            self.peer_id().wf(),
    {
    }

    /// Reads an identity from the encoded keypair. It is refused where the
    /// bytes are no keypair, or where its public half has no peer
    /// identifier.
    pub fn from_protobuf_encoding(encoded: &[u8]) -> (result: Result<IdentityKey, IdentityError>)
        ensures
            result is Ok == (public_key_of(encoded@) matches Some(k) && is_public_key(k)),
            result matches Ok(key) ==> key.wf() && key.encoded() == encoded@,
            result matches Err(error) ==> error == IdentityError::Decode,
    {
        match keypair_public_key(encoded) {
            Some(public_key) => match PeerId::from_public_key(public_key.as_slice()) {
                Some(peer_id) => Ok(
                    IdentityKey { encoded: slice_to_vec(encoded), public_key, peer_id },
                ),
                None => Err(IdentityError::Decode),
            },
            None => Err(IdentityError::Decode),
        }
    }

    /// Makes a fresh identity. What the generator hands back is read as any
    /// persisted key is read, and is always an identity.
    pub fn generate() -> (result: Result<IdentityKey, IdentityError>)
        ensures
            result matches Ok(key) && key.wf(),
    {
        match generate_keypair() {
            Some(encoded) => IdentityKey::from_protobuf_encoding(encoded.as_slice()),
            None => Err(IdentityError::Decode),
        }
    }

    /// The encoded keypair, for persisting.
    pub fn to_protobuf_encoding(&self) -> (encoded: Vec<u8>)
        ensures
            encoded@ == self.encoded(),
    {
        slice_to_vec(self.encoded.as_slice())
    }

    /// The encoded public half of the key.
    pub fn public_key_bytes(&self) -> (public_key: &[u8])
        ensures
            public_key@ == self.public_key(),
    {
        self.public_key.as_slice()
    }

    /// The peer identifier that belongs to the key.
    pub fn local_peer_id(&self) -> (peer_id: &PeerId)
        ensures
            *peer_id == self.peer_id(),
    {
        &self.peer_id
    }

    /// Signs `message`. A signature that is handed back verifies under the
    /// public half of this key.
    pub fn sign(&self, message: &[u8]) -> (signature: Option<Vec<u8>>)
        requires
            self.wf(),
        ensures
            signature is Some == signature_of(self.encoded(), message@) is Some,
            signature matches Some(s) ==> {
                &&& signature_of(self.encoded(), message@) == Some(s@)
                &&& signature_check(self.public_key(), message@, s@) == Some(true)
            },
    {
        sign_with_keypair(self.encoded.as_slice(), message)
    }
}

} // verus!
