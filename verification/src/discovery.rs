//! Finding devices by their code: what is published, what is looked up, and
//! which addresses of an announcement are dialled.
//!
//! A device announces itself under the key `/aetherlink/device/v1/` followed
//! by its device code, and looks the devices it is to connect to up under
//! theirs. Storing, fetching and dialling are the caller's work; what to
//! store, what to fetch and what to dial is decided here.

use crate::codes::{contains_text, texts, trim, trimmed};
use crate::identity::{canonical_peer_id, peer_id_from_text, PeerId};
use crate::session::has_elapsed;
use crate::text::{push_text, str_eq};
use vstd::prelude::*;
use vstd::string::StringExecFns;

verus! {

/// The least time, in milliseconds, between two dials to one peer that come
/// out of discovery.
pub const DISCOVERY_DIAL_COOLDOWN_MS: i64 = 2_500;

/// The version of the announcements this node writes and reads.
pub const ANNOUNCEMENT_VERSION: u32 = 1;

/// The key under which the device with `device_code` is announced.
pub open spec fn record_key(device_code: Seq<char>) -> Seq<char> {
    "/aetherlink/device/v1/"@ + trimmed(device_code)
}

/// The key under which the device with `device_code` is announced, as text.
pub fn device_record_key(device_code: &str) -> (key: String)
    ensures
        key@ == record_key(device_code@),
{
    let mut key: String = "/aetherlink/device/v1/".to_owned();
    push_text(&mut key, trim(device_code));
    key
}

/// What a device says of itself in the table of devices: its code, its peer
/// identifier, the addresses it can be reached at, and when it said so.
#[derive(Debug, Clone, PartialEq, Eq)]
pub struct DeviceAnnouncement {
    pub version: u32,
    pub device_code: String,
    pub peer_id: String,
    pub addrs: Vec<String>,
    pub unix_ms: i64,
}

pub struct DeviceAnnouncementView {
    pub version: u32,
    pub device_code: Seq<char>,
    pub peer_id: Seq<char>,
    pub addrs: Seq<Seq<char>>,
    pub unix_ms: i64,
}

impl View for DeviceAnnouncement {
    type V = DeviceAnnouncementView;

    open spec fn view(&self) -> DeviceAnnouncementView {
        DeviceAnnouncementView {
            version: self.version,
            device_code: self.device_code@,
            peer_id: self.peer_id@,
            addrs: texts(self.addrs@),
            unix_ms: self.unix_ms,
        }
    }
}

/// The first peer identifier that a multiaddress names: `None` where the
/// text is no multiaddress, `Some(None)` where it is one that names no peer.
/// This is what parsing the text into a `Multiaddr` and looking for its
/// first `P2p` part gives.
pub uninterp spec fn multiaddr_peer(address: Seq<char>) -> Option<Option<Seq<u8>>>;

/// The text of the multiaddress `address` with a part added that names the
/// peer, as `Multiaddr::with` and `to_string` give it. `None` where either
/// is not what it should be.
pub uninterp spec fn multiaddr_with_peer(address: Seq<char>, peer: Seq<u8>) -> Option<Seq<char>>;

/// Parses `address` into a `libp2p::Multiaddr` and looks for its first
/// `Protocol::P2p` part. The contract names the result.
#[verifier::external_body]
fn parse_multiaddr_peer(address: &str) -> (peer: Option<Option<Vec<u8>>>)
    ensures
        match peer {
            Some(Some(bytes)) => multiaddr_peer(address@) == Some(Some(bytes@)),
            Some(None) => multiaddr_peer(address@) == Some(None::<Seq<u8>>),
            None => multiaddr_peer(address@) is None,
        },
{
    match address.parse::<libp2p::Multiaddr>() {
        Ok(parsed) => Some(
            parsed.iter().find_map(
                |part| match part {
                    libp2p::multiaddr::Protocol::P2p(peer) => Some(peer.to_bytes()),
                    _ => None,
                },
            ),
        ),
        Err(_) => None,
    }
}

/// Parses `address` into a `libp2p::Multiaddr`, adds the part
/// `Protocol::P2p` for the peer with `Multiaddr::with`, and writes the
/// result out. The contract names the result.
#[verifier::external_body]
fn append_multiaddr_peer(address: &str, peer: &[u8]) -> (text: Option<String>)
    ensures
        match text {
            Some(t) => multiaddr_with_peer(address@, peer@) == Some(t@),
            None => multiaddr_with_peer(address@, peer@) is None,
        },
{
    match (address.parse::<libp2p::Multiaddr>(), libp2p::PeerId::from_bytes(peer)) {
        (Ok(parsed), Ok(peer_id)) => Some(
            parsed.with(libp2p::multiaddr::Protocol::P2p(peer_id)).to_string(),
        ),
        _ => None,
    }
}

/// The address to dial for `peer` at `address`: the address itself where it
/// names a peer, the address with the peer added where it names none, and
/// nothing where the text is no address.
pub open spec fn dial_address(address: Seq<char>, peer: Seq<u8>) -> Option<Seq<char>> {
    match multiaddr_peer(address) {
        None => None,
        Some(Some(_)) => Some(address),
        Some(None) => multiaddr_with_peer(address, peer),
    }
}

/// The first peer that `address` names, if it names one.
pub fn extract_peer_id(address: &str) -> (peer: Option<PeerId>)
    ensures
        match peer {
            Some(p) => {
                &&& p.wf()
                &&& multiaddr_peer(address@) matches Some(Some(bytes))
                &&& canonical_peer_id(bytes) == Some(p@)
            },
            None => match multiaddr_peer(address@) {
                Some(Some(bytes)) => canonical_peer_id(bytes) is None,
                _ => true,
            },
        },
{
    match parse_multiaddr_peer(address) {
        Some(Some(bytes)) => PeerId::from_bytes(bytes.as_slice()),
        _ => None,
    }
}

/// The address to dial for `peer` at `address`.
pub fn ensure_addr_has_peer_id(address: &str, peer: &PeerId) -> (dial: Option<String>)
    ensures
        match dial {
            Some(text) => dial_address(address@, peer@) == Some(text@),
            None => dial_address(address@, peer@) is None,
        },
{
    match parse_multiaddr_peer(address) {
        None => None,
        Some(Some(_)) => Some(String::from_str(address)),
        Some(None) => append_multiaddr_peer(address, peer.as_bytes()),
    }
}

/// The addresses to dial among the first `upto` of `addresses`, in their
/// order: those that are addresses, each made to name the peer.
pub open spec fn dial_addresses(addresses: Seq<Seq<char>>, peer: Seq<u8>, upto: int) -> Seq<Seq<char>>
    decreases upto,
{
    if upto <= 0 {
        Seq::<Seq<char>>::empty()
    } else {
        let rest = dial_addresses(addresses, peer, upto - 1);
        match dial_address(addresses[upto - 1], peer) {
            Some(text) => rest.push(text),
            None => rest,
        }
    }
}

/// Why an announcement leads to no dial.
#[derive(Debug, Clone, Copy, PartialEq, Eq, Structural)]
pub enum AnnouncementFault {
    /// The announcement is of a version this node does not read.
    UnsupportedVersion,
    /// The announcement is for another device code than was looked up.
    MismatchedDeviceCode,
    /// The peer identifier of the announcement cannot be read.
    InvalidPeerId,
    /// The announcement is this node's own.
    OwnRecord,
    /// The peer is connected, a request waits for it, or it was dialled a
    /// moment ago.
    Throttled,
}

/// What to do about an announcement: dial the peer at the addresses given,
/// in their order and until one dial succeeds, or leave it.
#[derive(Debug, Clone, PartialEq, Eq)]
pub enum DiscoveryPlan {
    Dial { peer: PeerId, addresses: Vec<String> },
    Ignore(AnnouncementFault),
}

/// Why the announcement found for `target` leads to no dial, if it leads
/// to none.
pub open spec fn announcement_fault(
    target: Seq<char>,
    announcement: DeviceAnnouncementView,
    local_peer: Seq<u8>,
    may_dial: bool,
) -> Option<AnnouncementFault> {
    if announcement.version != ANNOUNCEMENT_VERSION {
        Some(AnnouncementFault::UnsupportedVersion)
    } else if announcement.device_code != target {
        Some(AnnouncementFault::MismatchedDeviceCode)
    } else {
        match peer_id_from_text(announcement.peer_id) {
            None => Some(AnnouncementFault::InvalidPeerId),
            Some(peer) => if peer == local_peer {
                Some(AnnouncementFault::OwnRecord)
            } else if !may_dial {
                Some(AnnouncementFault::Throttled)
            } else {
                None
            },
        }
    }
}

/// The peer that the announcement found for `target` names, where the
/// announcement is one to act upon: of the version this node reads, for the
/// device code looked up, with a peer identifier that can be read and is
/// not this node's own.
pub fn announced_peer(target: &str, announcement: &DeviceAnnouncement, local_peer: &PeerId) -> (result:
    Result<PeerId, AnnouncementFault>)
    ensures
        match result {
            Ok(peer) => {
                &&& peer.wf()
                &&& peer_id_from_text(announcement.peer_id@) == Some(peer@)
                &&& announcement_fault(target@, announcement@, local_peer@, true) is None
            },
            Err(fault) => {
                &&& fault != AnnouncementFault::Throttled
                &&& announcement_fault(target@, announcement@, local_peer@, true) == Some(fault)
            },
        },
{
    if announcement.version != ANNOUNCEMENT_VERSION {
        return Err(AnnouncementFault::UnsupportedVersion);
    }
    if !str_eq(announcement.device_code.as_str(), target) {
        return Err(AnnouncementFault::MismatchedDeviceCode);
    }
    let peer: PeerId = match PeerId::parse(announcement.peer_id.as_str()) {
        Some(peer) => peer,
        None => {
            return Err(AnnouncementFault::InvalidPeerId);
        },
    };
    if peer.same_as(local_peer) {
        return Err(AnnouncementFault::OwnRecord);
    }
    Ok(peer)
}

/// Decides what to do about the announcement found for `target`.
///
/// An announcement of another version, for another device code, with a
/// peer identifier that cannot be read, or of this node itself is left
/// alone, and so is any while `may_dial` is off. Otherwise the peer is to
/// be dialled at the addresses of the announcement that are addresses, each
/// made to name the peer.
pub fn plan_discovery_dial(
    target: &str,
    announcement: &DeviceAnnouncement,
    local_peer: &PeerId,
    may_dial: bool,
) -> (plan: DiscoveryPlan)
    ensures
        match announcement_fault(target@, announcement@, local_peer@, may_dial) {
            Some(fault) => plan == DiscoveryPlan::Ignore(fault),
            None => {
                &&& plan matches DiscoveryPlan::Dial { peer, addresses }
                &&& peer.wf()
                &&& peer_id_from_text(announcement.peer_id@) == Some(peer@)
                &&& texts(addresses@) == dial_addresses(
                    announcement@.addrs,
                    peer@,
                    announcement@.addrs.len() as int,
                )
            },
        },
{
    let peer: PeerId = match announced_peer(target, announcement, local_peer) {
        Ok(peer) => peer,
        Err(fault) => {
            return DiscoveryPlan::Ignore(fault);
        },
    };
    if !may_dial {
        return DiscoveryPlan::Ignore(AnnouncementFault::Throttled);
    }
    let mut addresses: Vec<String> = Vec::new();
    let mut i: usize = 0;
    let ghost given = announcement@.addrs;
    assert(texts(addresses@) =~= dial_addresses(given, peer@, 0));
    while i < announcement.addrs.len()
        invariant
            i <= announcement.addrs@.len(),
            given == announcement@.addrs,
            texts(addresses@) == dial_addresses(given, peer@, i as int),
        decreases announcement.addrs@.len() - i,
    {
        let ghost before = texts(addresses@);
        assert(announcement.addrs@[i as int]@ == given[i as int]);
        match ensure_addr_has_peer_id(announcement.addrs[i].as_str(), &peer) {
            Some(text) => {
                addresses.push(text);
                assert(texts(addresses@) =~= before.push(text@));
            },
            None => {},
        }
        i += 1;
    }
    DiscoveryPlan::Dial { peer, addresses }
}

/// `known` followed by those of the first `upto` of `observed` that are
/// not among what precedes them.
pub open spec fn merged_addrs(known: Seq<Seq<char>>, observed: Seq<Seq<char>>, upto: int) -> Seq<
    Seq<char>,
>
    decreases upto,
{
    if upto <= 0 {
        known
    } else {
        let rest = merged_addrs(known, observed, upto - 1);
        if rest.contains(observed[upto - 1]) {
            rest
        } else {
            rest.push(observed[upto - 1])
        }
    }
}

#[derive(Debug, Clone, Copy, PartialEq, Eq, Structural)]
pub struct DiscoveryConfig {
    pub publish_device_record: bool,
    pub device_record_republish_ms: i64,
    pub device_lookup_interval_ms: i64,
}

/// The state of the lookups for one device code: when the last one was
/// started, and whether one is under way.
#[derive(Debug, Clone, Copy, PartialEq, Eq, Structural)]
pub struct LookupState {
    pub last_lookup_unix_ms: i64,
    pub in_flight: bool,
}

impl LookupState {
    /// The state of a code that was never looked up.
    pub open spec fn never() -> LookupState {
        LookupState { last_lookup_unix_ms: 0, in_flight: false }
    }

    /// Whether a lookup is to be started at `now_unix_ms`: none is under
    /// way, and the interval since the last one has passed.
    pub open spec fn due(self, now_unix_ms: i64, interval_ms: i64) -> bool {
        !self.in_flight && now_unix_ms - self.last_lookup_unix_ms >= interval_ms
    }
}

#[derive(Debug, Clone)]
struct LookupEntry {
    code: String,
    state: LookupState,
}

spec fn distinct(entries: Seq<LookupEntry>) -> bool {
    forall|i: int, j: int|
        0 <= i < j < entries.len() ==> (#[trigger] entries[i]).code@ != (#[trigger] entries[j]).code@
}

spec fn holds(entries: Seq<LookupEntry>, code: Seq<char>) -> bool {
    exists|i: int| 0 <= i < entries.len() && (#[trigger] entries[i]).code@ == code
}

spec fn place_of(entries: Seq<LookupEntry>, code: Seq<char>) -> int {
    choose|i: int| 0 <= i < entries.len() && (#[trigger] entries[i]).code@ == code
}

spec fn state_of(entries: Seq<LookupEntry>, code: Seq<char>) -> LookupState {
    if holds(entries, code) {
        entries[place_of(entries, code)].state
    } else {
        LookupState::never()
    }
}

proof fn lemma_state_at(entries: Seq<LookupEntry>, index: int)
    requires
        distinct(entries),
        0 <= index < entries.len(),
    ensures
        holds(entries, entries[index].code@),
        state_of(entries, entries[index].code@) == entries[index].state,
{
    let code = entries[index].code@;
    let place = place_of(entries, code);
    if place < index {
        assert(entries[place].code@ != entries[index].code@);
    } else if index < place {
        assert(entries[index].code@ != entries[place].code@);
    }
}

/// What a node knows and remembers for discovery: the addresses it can be
/// reached at, when it last announced itself, and the state of its lookups.
#[derive(Debug, Clone)]
pub struct Discovery {
    config: DiscoveryConfig,
    known_local_addrs: Vec<String>,
    last_publish_unix_ms: i64,
    lookups: Vec<LookupEntry>,
}

impl Discovery {
    pub closed spec fn config(&self) -> DiscoveryConfig {
        self.config
    }

    /// The addresses the node is known to listen on or to be seen at.
    pub closed spec fn local_addrs(&self) -> Seq<Seq<char>> {
        texts(self.known_local_addrs@)
    }

    /// When the node last announced itself; zero before it ever did.
    pub closed spec fn last_publish(&self) -> i64 {
        self.last_publish_unix_ms
    }

    /// The state of the lookups for `code`.
    pub closed spec fn lookup(&self, code: Seq<char>) -> LookupState {
        state_of(self.lookups@, code)
    }

    pub closed spec fn wf(&self) -> bool {
        distinct(self.lookups@)
    }

    /// A node that has not announced itself and has looked nothing up.
    /// The republish time is raised to two seconds and the lookup interval
    /// to half a second where they are below that.
    pub fn new(
        publish_device_record: bool,
        device_record_republish_ms: u64,
        device_lookup_interval_ms: u64,
    ) -> (discovery: Self)
        ensures
            discovery.wf(),
            discovery.config() == (DiscoveryConfig {
                publish_device_record,
                device_record_republish_ms: crate::engine::clamped_ms(
                    device_record_republish_ms,
                    2_000,
                ),
                device_lookup_interval_ms: crate::engine::clamped_ms(
                    device_lookup_interval_ms,
                    500,
                ),
            }),
            discovery.local_addrs() == Seq::<Seq<char>>::empty(),
            discovery.last_publish() == 0,
            forall|code: Seq<char>| #[trigger] discovery.lookup(code) == LookupState::never(),
    {
        let discovery = Discovery {
            config: DiscoveryConfig {
                publish_device_record,
                device_record_republish_ms: crate::engine::clamp_ms(
                    device_record_republish_ms,
                    2_000,
                ),
                device_lookup_interval_ms: crate::engine::clamp_ms(device_lookup_interval_ms, 500),
            },
            known_local_addrs: Vec::new(),
            last_publish_unix_ms: 0,
            lookups: Vec::new(),
        };
        assert(discovery.local_addrs() =~= Seq::<Seq<char>>::empty());
        discovery
    }

    /// The settings of discovery.
    pub fn config_values(&self) -> (config: DiscoveryConfig)
        ensures
            config == self.config(),
    {
        self.config
    }

    /// Notes an address of the local node, unless it is known already.
    pub fn note_local_addr(&mut self, address: &str)
        ensures
            final(self).wf() == old(self).wf(),
            final(self).config() == old(self).config(),
            final(self).last_publish() == old(self).last_publish(),
            forall|code: Seq<char>| #[trigger] final(self).lookup(code) == old(self).lookup(code),
            final(self).local_addrs() == if old(self).local_addrs().contains(address@) {
                old(self).local_addrs()
            } else {
                old(self).local_addrs().push(address@)
            },
    {
        if !contains_text(self.known_local_addrs.as_slice(), address) {
            self.known_local_addrs.push(String::from_str(address));
            assert(self.local_addrs() =~= old(self).local_addrs().push(address@));
        }
    }

    /// Whether the node is to announce itself at `now_unix_ms`: publishing
    /// is on, and the republish time since the last announcement has
    /// passed.
    pub open spec fn publishes(&self, now_unix_ms: i64) -> bool {
        self.config().publish_device_record && now_unix_ms - self.last_publish()
            >= self.config().device_record_republish_ms
    }

    /// The announcement of the local node, if it is time for one.
    ///
    /// The announcement carries the addresses the node knows of itself,
    /// followed by those of `external_addrs` that are not among them. The
    /// time of this announcement is noted at once, whatever becomes of it,
    /// so that a failed attempt is not repeated before the republish time
    /// has passed.
    pub fn maybe_publish_local_device_record(
        &mut self,
        local_peer: &PeerId,
        now_unix_ms: i64,
        external_addrs: &[String],
    ) -> (announcement: Option<DeviceAnnouncement>)
        ensures
            final(self).wf() == old(self).wf(),
            final(self).config() == old(self).config(),
            final(self).local_addrs() == old(self).local_addrs(),
            forall|code: Seq<char>| #[trigger] final(self).lookup(code) == old(self).lookup(code),
            old(self).publishes(now_unix_ms) ==> {
                &&& final(self).last_publish() == now_unix_ms
                &&& announcement matches Some(record)
                &&& record@ == (DeviceAnnouncementView {
                    version: ANNOUNCEMENT_VERSION,
                    device_code: local_peer.text(),
                    peer_id: local_peer.text(),
                    addrs: merged_addrs(
                        old(self).local_addrs(),
                        texts(external_addrs@),
                        external_addrs@.len() as int,
                    ),
                    unix_ms: now_unix_ms,
                })
            },
            !old(self).publishes(now_unix_ms) ==> {
                &&& final(self).last_publish() == old(self).last_publish()
                &&& announcement is None
            },
    {
        if !self.config.publish_device_record {
            return None;
        }
        if !has_elapsed(
            now_unix_ms,
            self.last_publish_unix_ms,
            self.config.device_record_republish_ms,
        ) {
            return None;
        }
        let mut addrs: Vec<String> = Vec::new();
        let mut i: usize = 0;
        while i < self.known_local_addrs.len()
            invariant
                i <= self.known_local_addrs@.len(),
                texts(addrs@) == texts(self.known_local_addrs@).take(i as int),
            decreases self.known_local_addrs@.len() - i,
        {
            let ghost before = texts(addrs@);
            let copy: String = self.known_local_addrs[i].clone();
            assert(copy@ == texts(self.known_local_addrs@)[i as int]);
            addrs.push(copy);
            assert(texts(addrs@) =~= before.push(copy@));
            assert(texts(addrs@) =~= texts(self.known_local_addrs@).take(i + 1));
            i += 1;
        }
        assert(texts(self.known_local_addrs@).take(i as int) =~= self.local_addrs());
        let ghost observed = texts(external_addrs@);
        let mut k: usize = 0;
        while k < external_addrs.len()
            invariant
                k <= external_addrs@.len(),
                observed == texts(external_addrs@),
                texts(addrs@) == merged_addrs(old(self).local_addrs(), observed, k as int),
                self.local_addrs() == old(self).local_addrs(),
            decreases external_addrs@.len() - k,
        {
            let ghost before = texts(addrs@);
            assert(external_addrs@[k as int]@ == observed[k as int]);
            if !contains_text(addrs.as_slice(), external_addrs[k].as_str()) {
                addrs.push(external_addrs[k].clone());
                assert(texts(addrs@) =~= before.push(observed[k as int]));
            }
            k += 1;
        }
        self.last_publish_unix_ms = now_unix_ms;
        Some(
            DeviceAnnouncement {
                version: ANNOUNCEMENT_VERSION,
                device_code: String::from_str(local_peer.as_str()),
                peer_id: String::from_str(local_peer.as_str()),
                addrs,
                unix_ms: now_unix_ms,
            },
        )
    }

    fn find(&self, code: &str) -> (place: Option<usize>)
        ensures
            match place {
                Some(index) => index < self.lookups@.len() && self.lookups@[index as int].code@
                    == code@,
                None => !holds(self.lookups@, code@),
            },
    {
        let mut i: usize = 0;
        while i < self.lookups.len()
            invariant
                i <= self.lookups@.len(),
                forall|j: int| 0 <= j < i ==> (#[trigger] self.lookups@[j]).code@ != code@,
            decreases self.lookups@.len() - i,
        {
            if str_eq(self.lookups[i].code.as_str(), code) {
                return Some(i);
            }
            i += 1;
        }
        None
    }

    /// The state of the lookups for `code`.
    pub fn lookup_state(&self, code: &str) -> (state: LookupState)
        requires
            self.wf(),
        ensures
            state == self.lookup(code@),
    {
        match self.find(code) {
            Some(index) => {
                proof {
                    lemma_state_at(self.lookups@, index as int);
                }
                self.lookups[index].state
            },
            None => LookupState { last_lookup_unix_ms: 0, in_flight: false },
        }
    }

    fn set_lookup(&mut self, code: &str, state: LookupState)
        requires
            old(self).wf(),
        ensures
            final(self).wf(),
            final(self).config() == old(self).config(),
            final(self).local_addrs() == old(self).local_addrs(),
            final(self).last_publish() == old(self).last_publish(),
            forall|other: Seq<char>| #[trigger]
                final(self).lookup(other) == if other == code@ {
                    state
                } else {
                    old(self).lookup(other)
                },
    {
        let ghost before = self.lookups@;
        match self.find(code) {
            Some(index) => {
                self.lookups.set(index, LookupEntry { code: String::from_str(code), state });
                proof {
                    let after = self.lookups@;
                    assert forall|i: int, j: int| 0 <= i < j < after.len() implies (
                    #[trigger] after[i]).code@ != (#[trigger] after[j]).code@ by {
                        assert(before[i].code@ != before[j].code@);
                    }
                    assert forall|other: Seq<char>| #[trigger]
                        state_of(after, other) == if other == code@ {
                            state
                        } else {
                            state_of(before, other)
                        } by {
                        if other == code@ {
                            lemma_state_at(after, index as int);
                        } else if holds(before, other) {
                            let k = place_of(before, other);
                            lemma_state_at(before, k);
                            assert(after[k] == before[k]);
                            lemma_state_at(after, k);
                        } else if holds(after, other) {
                            let k = place_of(after, other);
                            assert(before[k].code@ == other);
                        }
                    }
                }
            },
            None => {
                self.lookups.push(LookupEntry { code: String::from_str(code), state });
                proof {
                    let after = self.lookups@;
                    let last = after.len() - 1;
                    assert forall|i: int, j: int| 0 <= i < j < after.len() implies (
                    #[trigger] after[i]).code@ != (#[trigger] after[j]).code@ by {
                        assert(after[i] == before[i]);
                        if j < last {
                            assert(after[j] == before[j]);
                        }
                    }
                    assert forall|other: Seq<char>| #[trigger]
                        state_of(after, other) == if other == code@ {
                            state
                        } else {
                            state_of(before, other)
                        } by {
                        if other == code@ {
                            lemma_state_at(after, last);
                        } else if holds(before, other) {
                            let k = place_of(before, other);
                            lemma_state_at(before, k);
                            assert(after[k] == before[k]);
                            lemma_state_at(after, k);
                        } else if holds(after, other) {
                            let k = place_of(after, other);
                            if k < last {
                                assert(after[k] == before[k]);
                            }
                        }
                    }
                }
            },
        }
    }

    /// Whether a lookup for the target at `index` is started by a pass over
    /// `targets` at `now_unix_ms`: one is due for its code, and the code
    /// does not stand earlier in the list.
    pub open spec fn starts_lookup(&self, targets: Seq<Seq<char>>, index: int, now_unix_ms: i64) -> bool {
        &&& self.lookup(targets[index]).due(now_unix_ms, self.config().device_lookup_interval_ms)
        &&& !targets.take(index).contains(targets[index])
    }

    /// The codes among the first `upto` of `targets` for which a pass
    /// starts a lookup, in their order.
    pub open spec fn started_lookups(&self, targets: Seq<Seq<char>>, now_unix_ms: i64, upto: int) -> Seq<
        Seq<char>,
    >
        decreases upto,
    {
        if upto <= 0 {
            Seq::<Seq<char>>::empty()
        } else {
            let rest = self.started_lookups(targets, now_unix_ms, upto - 1);
            if self.starts_lookup(targets, upto - 1, now_unix_ms) {
                rest.push(targets[upto - 1])
            } else {
                rest
            }
        }
    }

    /// The device codes to look up at `now_unix_ms`, in the order of
    /// `targets`.
    ///
    /// A code is looked up where no lookup for it is under way and the
    /// lookup interval since the last one has passed. Each lookup that is
    /// started is noted as under way, with the time.
    pub fn maybe_start_device_code_lookups(&mut self, targets: &[String], now_unix_ms: i64) -> (started:
        Vec<String>)
        requires
            old(self).wf(),
        ensures
            final(self).wf(),
            final(self).config() == old(self).config(),
            final(self).local_addrs() == old(self).local_addrs(),
            final(self).last_publish() == old(self).last_publish(),
            texts(started@) == old(self).started_lookups(
                texts(targets@),
                now_unix_ms,
                targets@.len() as int,
            ),
            forall|code: Seq<char>| #[trigger]
                final(self).lookup(code) == if texts(targets@).contains(code) && old(self).lookup(
                    code,
                ).due(now_unix_ms, old(self).config().device_lookup_interval_ms) {
                    LookupState { last_lookup_unix_ms: now_unix_ms, in_flight: true }
                } else {
                    old(self).lookup(code)
                },
    {
        let mut started: Vec<String> = Vec::new();
        let ghost wanted = texts(targets@);
        let interval: i64 = self.config.device_lookup_interval_ms;
        let mut i: usize = 0;
        assert(texts(started@) =~= old(self).started_lookups(wanted, now_unix_ms, 0));
        while i < targets.len()
            invariant
                i <= targets@.len(),
                wanted == texts(targets@),
                interval == old(self).config().device_lookup_interval_ms,
                self.wf(),
                self.config() == old(self).config(),
                self.local_addrs() == old(self).local_addrs(),
                self.last_publish() == old(self).last_publish(),
                texts(started@) == old(self).started_lookups(wanted, now_unix_ms, i as int),
                forall|code: Seq<char>| #[trigger]
                    self.lookup(code) == if wanted.take(i as int).contains(code) && old(
                        self,
                    ).lookup(code).due(now_unix_ms, interval) {
                        LookupState { last_lookup_unix_ms: now_unix_ms, in_flight: true }
                    } else {
                        old(self).lookup(code)
                    },
            decreases targets@.len() - i,
        {
            let code: &str = targets[i].as_str();
            assert(code@ == wanted[i as int]);
            let state: LookupState = self.lookup_state(code);
            let ghost before = texts(started@);
            let ghost seen = wanted.take(i as int);
            let due: bool = !state.in_flight && has_elapsed(
                now_unix_ms,
                state.last_lookup_unix_ms,
                interval,
            );
            if due {
                self.set_lookup(
                    code,
                    LookupState { last_lookup_unix_ms: now_unix_ms, in_flight: true },
                );
                started.push(String::from_str(code));
                assert(texts(started@) =~= before.push(code@));
            }
            proof {
                let grown = wanted.take(i + 1);
                assert forall|c: Seq<char>| grown.contains(c) <==> (c == code@ || seen.contains(c)) by {
                    if grown.contains(c) {
                        let k = choose|k: int| 0 <= k < grown.len() && grown[k] == c;
                        if k < i {
                            assert(seen[k] == c);
                        }
                    }
                    if seen.contains(c) {
                        let k = choose|k: int| 0 <= k < seen.len() && seen[k] == c;
                        assert(grown[k] == c);
                    }
                    if c == code@ {
                        assert(grown[i as int] == c);
                    }
                }
                assert(due == old(self).starts_lookup(wanted, i as int, now_unix_ms));
            }
            i += 1;
        }
        assert(wanted.take(i as int) =~= wanted);
        started
    }

    /// Notes that the lookup for `code` has come to its end.
    pub fn finish_lookup(&mut self, code: &str)
        requires
            old(self).wf(),
        ensures
            final(self).wf(),
            final(self).config() == old(self).config(),
            final(self).local_addrs() == old(self).local_addrs(),
            final(self).last_publish() == old(self).last_publish(),
            forall|other: Seq<char>| #[trigger]
                final(self).lookup(other) == if other == code@ {
                    LookupState { in_flight: false, ..old(self).lookup(other) }
                } else {
                    old(self).lookup(other)
                },
    {
        let state: LookupState = self.lookup_state(code);
        self.set_lookup(
            code,
            LookupState { last_lookup_unix_ms: state.last_lookup_unix_ms, in_flight: false },
        );
    }
}

} // verus!
