//! The trust store: which peer, with which key, stands behind a device code.
//!
//! A device code is pinned to the first peer seen under it. Later sightings
//! must show the same peer and the same key; they can only move the time the
//! peer was last seen.

use crate::error::{AuthFault, SessionAuthError};
use crate::hex::{
    decode_hex, encode_hex, hex_bytes, hex_fault, hex_text, lemma_hex_round_trip,
};
use crate::identity::{derived_peer_id, peer_id_from_text, PeerId};
use crate::text::{
    is_blank, lemma_lex_lt_irreflexive, lemma_lex_lt_total, lemma_lex_lt_transitive, str_before,
    str_eq, str_is_blank, str_lt,
};
use vstd::prelude::*;
use vstd::string::StringExecFns;
use vstd::utf8::{encode_utf8, encode_utf8_decode_utf8};

verus! {

/// The least time, in milliseconds, between two writes of `last_seen`.
pub const LAST_SEEN_PERSIST_INTERVAL_MS: i64 = 60_000;

#[derive(Debug, Clone, PartialEq, Eq)]
pub struct TrustedPeerRecord {
    pub device_code: String,
    pub peer_id: String,
    pub identity_pubkey_hex: String,
    pub first_seen_unix_ms: i64,
    pub last_seen_unix_ms: i64,
}

/// A record as plain values.
pub struct TrustedPeerRecordView {
    pub device_code: Seq<char>,
    pub peer_id: Seq<char>,
    pub identity_pubkey_hex: Seq<char>,
    pub first_seen_unix_ms: i64,
    pub last_seen_unix_ms: i64,
}

impl View for TrustedPeerRecord {
    type V = TrustedPeerRecordView;

    open spec fn view(&self) -> TrustedPeerRecordView {
        TrustedPeerRecordView {
            device_code: self.device_code@,
            peer_id: self.peer_id@,
            identity_pubkey_hex: self.identity_pubkey_hex@,
            first_seen_unix_ms: self.first_seen_unix_ms,
            last_seen_unix_ms: self.last_seen_unix_ms,
        }
    }
}

/// The records of a list, each as plain values.
pub open spec fn record_views(records: Seq<TrustedPeerRecord>) -> Seq<TrustedPeerRecordView> {
    Seq::new(records.len(), |i: int| records[i]@)
}

/// What is wrong with a record, in words, or `None` where nothing is: a
/// blank device code, a peer identifier that does not parse, a public key
/// that is no hexadecimal text, or a public key that is not the key of the
/// peer identifier, in this order.
pub open spec fn record_fault(record: TrustedPeerRecordView) -> Option<Seq<char>> {
    if is_blank(record.device_code) {
        Some("empty device_code in trust record"@)
    } else if peer_id_from_text(record.peer_id) is None {
        Some("invalid peer id: "@ + record.peer_id)
    } else if hex_fault(encode_utf8(record.identity_pubkey_hex)) is Some {
        hex_fault(encode_utf8(record.identity_pubkey_hex))
    } else if derived_peer_id(hex_bytes(encode_utf8(record.identity_pubkey_hex)))
        != peer_id_from_text(record.peer_id) {
        Some("public key does not belong to peer id: "@ + record.peer_id)
    } else {
        None
    }
}

/// Nothing is wrong with any of the records.
pub open spec fn faultless(records: Seq<TrustedPeerRecordView>) -> bool {
    forall|i: int| 0 <= i < records.len() ==> record_fault(#[trigger] records[i]) is None
}

/// What `from_records` makes of `records`: a store, where nothing is wrong
/// with any of them, which holds under each device code the last record
/// with it; and else the fault of the first record that has one.
pub open spec fn built_from(
    records: Seq<TrustedPeerRecordView>,
    result: Result<TrustedPeers, SessionAuthError>,
) -> bool {
    match result {
        Ok(store) => {
            &&& store.wf()
            &&& store.sound()
            &&& faultless(records)
            &&& forall|code: Seq<char>| #[trigger]
                store.lookup(code) == last_with_code(records, code)
        },
        Err(error) => exists|i: int|
            {
                &&& 0 <= i < records.len()
                &&& forall|j: int| 0 <= j < i ==> record_fault(#[trigger] records[j]) is None
                &&& error matches SessionAuthError::TrustStoreCorrupt(detail)
                &&& record_fault(#[trigger] records[i]) == Some(detail@)
            },
    }
}

/// The last record of `records` that carries `code`.
pub open spec fn last_with_code(records: Seq<TrustedPeerRecordView>, code: Seq<char>) -> Option<
    TrustedPeerRecordView,
>
    decreases records.len(),
{
    if records.len() == 0 {
        None
    } else if records.last().device_code == code {
        Some(records.last())
    } else {
        last_with_code(records.drop_last(), code)
    }
}

/// Strictly rising device codes, in the order of strings.
pub open spec fn sorted_by_code(records: Seq<TrustedPeerRecordView>) -> bool {
    forall|i: int, j: int|
        0 <= i < j < records.len() ==> str_lt(
            #[trigger] records[i].device_code,
            #[trigger] records[j].device_code,
        )
}

/// The record of `records` that carries `code`, if there is one.
pub open spec fn lookup_record(records: Seq<TrustedPeerRecordView>, code: Seq<char>) -> Option<
    TrustedPeerRecordView,
> {
    if exists|i: int| 0 <= i < records.len() && records[i].device_code == code {
        Some(records[choose|i: int| 0 <= i < records.len() && records[i].device_code == code])
    } else {
        None
    }
}

/// The record that a sighting of the peer leaves behind, given the record
/// held before: time moves only where a full interval has passed.
pub open spec fn refreshed(record: TrustedPeerRecordView, now_unix_ms: i64) -> TrustedPeerRecordView {
    if now_unix_ms - record.last_seen_unix_ms >= LAST_SEEN_PERSIST_INTERVAL_MS {
        TrustedPeerRecordView { last_seen_unix_ms: now_unix_ms, ..record }
    } else {
        record
    }
}

/// The record written for a peer that is seen for the first time.
pub open spec fn first_sighting(
    device_code: Seq<char>,
    peer_text: Seq<char>,
    public_key: Seq<u8>,
    now_unix_ms: i64,
) -> TrustedPeerRecordView {
    TrustedPeerRecordView {
        device_code,
        peer_id: peer_text,
        identity_pubkey_hex: hex_text(public_key),
        first_seen_unix_ms: now_unix_ms,
        last_seen_unix_ms: now_unix_ms,
    }
}

/// Why a sighting is refused, if it is: a pinned code shown with another
/// peer or key, or a code that is not pinned while trust on first use is
/// off.
pub open spec fn sighting_fault(
    held: Option<TrustedPeerRecordView>,
    device_code: Seq<char>,
    peer_text: Seq<char>,
    public_key: Seq<u8>,
    trust_on_first_use: bool,
) -> Option<AuthFault> {
    match held {
        Some(record) => if record.peer_id == peer_text && record.identity_pubkey_hex == hex_text(
            public_key,
        ) {
            None
        } else {
            Some(AuthFault::TrustedPeerMismatch { device_code })
        },
        None => if trust_on_first_use {
            None
        } else {
            Some(AuthFault::UntrustedPeer { device_code })
        },
    }
}

/// The record held under the code after a sighting that was not refused.
pub open spec fn sighting_record(
    held: Option<TrustedPeerRecordView>,
    device_code: Seq<char>,
    peer_text: Seq<char>,
    public_key: Seq<u8>,
    now_unix_ms: i64,
) -> TrustedPeerRecordView {
    match held {
        Some(record) => refreshed(record, now_unix_ms),
        None => first_sighting(device_code, peer_text, public_key, now_unix_ms),
    }
}

/// Whether a sighting that was not refused wrote to the store.
pub open spec fn sighting_writes(held: Option<TrustedPeerRecordView>, now_unix_ms: i64) -> bool {
    match held {
        Some(record) => now_unix_ms - record.last_seen_unix_ms >= LAST_SEEN_PERSIST_INTERVAL_MS,
        None => true,
    }
}

proof fn lemma_str_lt_irreflexive(a: Seq<char>)
    ensures
        !str_lt(a, a),
{
    lemma_lex_lt_irreflexive(encode_utf8(a));
}

proof fn lemma_str_lt_total(a: Seq<char>, b: Seq<char>)
    ensures
        str_lt(a, b) || str_lt(b, a) || a == b,
{
    lemma_lex_lt_total(encode_utf8(a), encode_utf8(b));
    encode_utf8_decode_utf8(a);
    encode_utf8_decode_utf8(b);
}

/// In a sorted list a code stands at one place at most, so looking a code up
/// finds the record at that place.
pub proof fn lemma_lookup_at(records: Seq<TrustedPeerRecordView>, index: int)
    requires
        sorted_by_code(records),
        0 <= index < records.len(),
    ensures
        lookup_record(records, records[index].device_code) == Some(records[index]),
{
    let code = records[index].device_code;
    let found = choose|i: int| 0 <= i < records.len() && records[i].device_code == code;
    lemma_str_lt_irreflexive(code);
    if found < index {
        assert(str_lt(records[found].device_code, records[index].device_code));
    } else if index < found {
        assert(str_lt(records[index].device_code, records[found].device_code));
    }
}

proof fn lemma_lookup_absent(records: Seq<TrustedPeerRecordView>, code: Seq<char>)
    requires
        forall|i: int| 0 <= i < records.len() ==> (#[trigger] records[i]).device_code != code,
    ensures
        lookup_record(records, code) is None,
{
}

/// Putting a record at the place where its code belongs keeps the list
/// sorted, makes the record the one found under its code, and leaves every
/// other code as it was.
proof fn lemma_insert(
    records: Seq<TrustedPeerRecordView>,
    position: int,
    record: TrustedPeerRecordView,
)
    requires
        sorted_by_code(records),
        0 <= position <= records.len(),
        forall|j: int|
            0 <= j < position ==> str_lt((#[trigger] records[j]).device_code, record.device_code),
        forall|j: int|
            position <= j < records.len() ==> str_lt(
                record.device_code,
                (#[trigger] records[j]).device_code,
            ),
    ensures
        sorted_by_code(records.insert(position, record)),
        forall|code: Seq<char>| #[trigger]
            lookup_record(records.insert(position, record), code) == if code
                == record.device_code {
                Some(record)
            } else {
                lookup_record(records, code)
            },
{
    let after = records.insert(position, record);
    assert forall|i: int, j: int| 0 <= i < j < after.len() implies str_lt(
        #[trigger] after[i].device_code,
        #[trigger] after[j].device_code,
    ) by {
        if i < position && j > position {
            assert(str_lt(records[i].device_code, records[j - 1].device_code)) by {
                if i < j - 1 {
                } else {
                    lemma_lex_lt_transitive(
                        encode_utf8(records[i].device_code),
                        encode_utf8(record.device_code),
                        encode_utf8(records[j - 1].device_code),
                    );
                }
            }
        }
    }
    assert forall|code: Seq<char>| #[trigger]
        lookup_record(after, code) == if code == record.device_code {
            Some(record)
        } else {
            lookup_record(records, code)
        } by {
        if code == record.device_code {
            assert(after[position] == record);
            lemma_lookup_at(after, position);
        } else if exists|i: int| 0 <= i < records.len() && records[i].device_code == code {
            let i = choose|i: int| 0 <= i < records.len() && records[i].device_code == code;
            lemma_lookup_at(records, i);
            let moved = if i < position {
                i
            } else {
                i + 1
            };
            assert(after[moved] == records[i]);
            lemma_lookup_at(after, moved);
        } else {
            assert forall|i: int| 0 <= i < after.len() implies (#[trigger] after[i]).device_code
                != code by {
                if i < position {
                    assert(after[i] == records[i]);
                } else if i > position {
                    assert(after[i] == records[i - 1]);
                }
            }
            lemma_lookup_absent(after, code);
        }
    }
}

/// Replacing a record by one with the same code keeps the list sorted, makes
/// the new record the one found under that code, and leaves every other code
/// as it was.
proof fn lemma_replace(
    records: Seq<TrustedPeerRecordView>,
    position: int,
    record: TrustedPeerRecordView,
)
    requires
        sorted_by_code(records),
        0 <= position < records.len(),
        records[position].device_code == record.device_code,
    ensures
        sorted_by_code(records.update(position, record)),
        forall|code: Seq<char>| #[trigger]
            lookup_record(records.update(position, record), code) == if code
                == record.device_code {
                Some(record)
            } else {
                lookup_record(records, code)
            },
{
    let after = records.update(position, record);
    assert forall|i: int, j: int| 0 <= i < j < after.len() implies str_lt(
        #[trigger] after[i].device_code,
        #[trigger] after[j].device_code,
    ) by {
        assert(after[i].device_code == records[i].device_code);
        assert(after[j].device_code == records[j].device_code);
    }
    assert forall|code: Seq<char>| #[trigger]
        lookup_record(after, code) == if code == record.device_code {
            Some(record)
        } else {
            lookup_record(records, code)
        } by {
        if code == record.device_code {
            lemma_lookup_at(after, position);
        } else if exists|i: int| 0 <= i < records.len() && records[i].device_code == code {
            let i = choose|i: int| 0 <= i < records.len() && records[i].device_code == code;
            lemma_lookup_at(records, i);
            assert(after[i] == records[i]);
            lemma_lookup_at(after, i);
        } else {
            assert forall|i: int| 0 <= i < after.len() implies (#[trigger] after[i]).device_code
                != code by {
                assert(after[i].device_code == records[i].device_code);
            }
            lemma_lookup_absent(after, code);
        }
    }
}

fn clone_record(record: &TrustedPeerRecord) -> (copy: TrustedPeerRecord)
    ensures
        copy@ == record@,
{
    TrustedPeerRecord {
        device_code: record.device_code.clone(),
        peer_id: record.peer_id.clone(),
        identity_pubkey_hex: record.identity_pubkey_hex.clone(),
        first_seen_unix_ms: record.first_seen_unix_ms,
        last_seen_unix_ms: record.last_seen_unix_ms,
    }
}

/// Checks one record as the store checks it on loading.
fn check_record(record: &TrustedPeerRecord) -> (result: Result<(), SessionAuthError>)
    ensures
        match result {
            Ok(_) => record_fault(record@) is None,
            Err(error) => {
                &&& error matches SessionAuthError::TrustStoreCorrupt(detail)
                &&& record_fault(record@) == Some(detail@)
            },
        },
{
    if str_is_blank(record.device_code.as_str()) {
        return Err(
            SessionAuthError::TrustStoreCorrupt("empty device_code in trust record".to_owned()),
        );
    }
    let peer: PeerId = match PeerId::parse(record.peer_id.as_str()) {
        Some(peer) => peer,
        None => {
            let detail: String = "invalid peer id: ".to_owned().concat(record.peer_id.as_str());
            return Err(SessionAuthError::TrustStoreCorrupt(detail));
        },
    };
    let public_key: Vec<u8> = match decode_hex(record.identity_pubkey_hex.as_str()) {
        Ok(public_key) => public_key,
        Err(error) => {
            return Err(error);
        },
    };
    let belongs: bool = match PeerId::from_public_key(public_key.as_slice()) {
        Some(derived) => derived.same_as(&peer),
        None => false,
    };
    if belongs {
        Ok(())
    } else {
        let detail: String = "public key does not belong to peer id: ".to_owned().concat(
            record.peer_id.as_str(),
        );
        Err(SessionAuthError::TrustStoreCorrupt(detail))
    }
}

/// The trusted peers, one record for each device code.
#[derive(Debug, Clone)]
pub struct TrustedPeers {
    entries: Vec<TrustedPeerRecord>,
}

impl TrustedPeers {
    /// The records of the store, in the order of their device codes.
    pub closed spec fn records(&self) -> Seq<TrustedPeerRecordView> {
        record_views(self.entries@)
    }

    /// The records stand in the strict order of their device codes, so that
    /// no code occurs twice.
    pub open spec fn wf(&self) -> bool {
        sorted_by_code(self.records())
    }

    /// The record pinned to `code`, if there is one.
    pub open spec fn lookup(&self, code: Seq<char>) -> Option<TrustedPeerRecordView> {
        lookup_record(self.records(), code)
    }

    /// Nothing is wrong with any record of the store: each would be taken
    /// again on loading.
    pub open spec fn sound(&self) -> bool {
        faultless(self.records())
    }

    /// A store without records.
    pub fn new() -> (store: Self)
        ensures
            store.wf(),
            store.records() == Seq::<TrustedPeerRecordView>::empty(),
    {
        let store = TrustedPeers { entries: Vec::new() };
        assert(store.records() =~= Seq::<TrustedPeerRecordView>::empty());
        store
    }

    /// Where `code` stands in the store, or where it would have to be put.
    fn locate(&self, code: &str) -> (place: (usize, bool))
        requires
            self.wf(),
        ensures
            place.1 ==> place.0 < self.records().len() && self.records()[place.0 as int].device_code
                == code@,
            !place.1 ==> {
                &&& place.0 <= self.records().len()
                &&& forall|j: int|
                    0 <= j < place.0 ==> str_lt(
                        (#[trigger] self.records()[j]).device_code,
                        code@,
                    )
                &&& forall|j: int|
                    place.0 <= j < self.records().len() ==> str_lt(
                        code@,
                        (#[trigger] self.records()[j]).device_code,
                    )
            },
    {
        let mut i: usize = 0;
        while i < self.entries.len()
            invariant
                self.wf(),
                i <= self.entries@.len(),
                self.records().len() == self.entries@.len(),
                forall|j: int|
                    0 <= j < i ==> str_lt((#[trigger] self.records()[j]).device_code, code@),
            decreases self.entries@.len() - i,
        {
            let held: &str = self.entries[i].device_code.as_str();
            assert(held@ == self.records()[i as int].device_code);
            if str_eq(held, code) {
                return (i, true);
            }
            if str_before(code, held) {
                proof {
                    assert forall|j: int| i <= j < self.records().len() implies str_lt(
                        code@,
                        (#[trigger] self.records()[j]).device_code,
                    ) by {
                        if i < j {
                            assert(str_lt(
                                self.records()[i as int].device_code,
                                self.records()[j].device_code,
                            ));
                            lemma_lex_lt_transitive(
                                encode_utf8(code@),
                                encode_utf8(held@),
                                encode_utf8(self.records()[j].device_code),
                            );
                        }
                    }
                }
                return (i, false);
            }
            proof {
                lemma_str_lt_total(held@, code@);
            }
            i += 1;
        }
        (i, false)
    }

    /// Puts `record` under its device code, in place of the record that
    /// stood there, if one did.
    fn put(&mut self, record: TrustedPeerRecord)
        requires
            old(self).wf(),
        ensures
            final(self).wf(),
            forall|code: Seq<char>| #[trigger]
                final(self).lookup(code) == if code == record@.device_code {
                    Some(record@)
                } else {
                    old(self).lookup(code)
                },
            old(self).sound() && record_fault(record@) is None ==> final(self).sound(),
    {
        let place: (usize, bool) = self.locate(record.device_code.as_str());
        let ghost before = self.records();
        let ghost view = record@;
        if place.1 {
            self.entries.set(place.0, record);
            proof {
                assert(self.records() =~= before.update(place.0 as int, view));
                lemma_replace(before, place.0 as int, view);
            }
        } else {
            self.entries.insert(place.0, record);
            proof {
                assert(self.records() =~= before.insert(place.0 as int, view));
                lemma_insert(before, place.0 as int, view);
            }
        }
    }

    /// Builds a store from records.
    ///
    /// Every record is checked; the first one that is faulty is reported and
    /// no store is built. Where a device code occurs more than once, the
    /// last record with it is the one kept.
    pub fn from_records(records: Vec<TrustedPeerRecord>) -> (result: Result<
        Self,
        SessionAuthError,
    >)
        ensures
            built_from(record_views(records@), result),
    {
        let mut store: TrustedPeers = TrustedPeers::new();
        let ghost input = record_views(records@);
        let mut i: usize = 0;
        assert(input.take(0) =~= Seq::<TrustedPeerRecordView>::empty());
        while i < records.len()
            invariant
                i <= records@.len(),
                input == record_views(records@),
                store.wf(),
                store.sound(),
                forall|j: int| 0 <= j < i ==> record_fault(#[trigger] input[j]) is None,
                forall|code: Seq<char>| #[trigger]
                    store.lookup(code) == last_with_code(input.take(i as int), code),
            decreases records@.len() - i,
        {
            let record: TrustedPeerRecord = clone_record(&records[i]);
            assert(record@ == input[i as int]);
            match check_record(&record) {
                Ok(_) => {},
                Err(error) => {
                    return Err(error);
                },
            }
            store.put(record);
            proof {
                let grown = input.take(i + 1);
                assert(grown.last() == input[i as int]);
                assert(grown.drop_last() =~= input.take(i as int));
            }
            i += 1;
        }
        assert(input.take(i as int) =~= input);
        Ok(store)
    }

    /// The records of the store, sorted by device code.
    pub fn to_records(&self) -> (records: Vec<TrustedPeerRecord>)
        ensures
            record_views(records@) == self.records(),
    {
        let mut out: Vec<TrustedPeerRecord> = Vec::new();
        let mut i: usize = 0;
        while i < self.entries.len()
            invariant
                i <= self.entries@.len(),
                out@.len() == i,
                forall|j: int| 0 <= j < i ==> (#[trigger] out@[j])@ == self.entries@[j]@,
            decreases self.entries@.len() - i,
        {
            out.push(clone_record(&self.entries[i]));
            i += 1;
        }
        assert(record_views(out@) =~= self.records());
        out
    }

    /// How many records the store holds.
    pub fn len(&self) -> (count: usize)
        ensures
            count == self.records().len(),
    {
        self.entries.len()
    }

    /// Whether the store holds no record.
    pub fn is_empty(&self) -> (empty: bool)
        ensures
            empty == (self.records().len() == 0),
    {
        self.entries.len() == 0
    }

    /// Records one sighting of a peer under a device code.
    ///
    /// A code that is pinned must be shown with the peer and the key it is
    /// pinned to, or the sighting is refused as a mismatch; the record is
    /// then refreshed, and the result says whether that wrote anything. A
    /// code that is not pinned is pinned now if trust on first use is on,
    /// and refused as untrusted if it is off. A refused sighting leaves the
    /// store as it was, and no sighting ever changes the peer, the key or
    /// the time of the first sighting of a record. A store with which
    /// nothing is wrong stays so where the device code is not blank and the
    /// key is the key of the peer.
    pub fn ensure_trusted(
        &mut self,
        device_code: &str,
        peer_id: &PeerId,
        identity_pubkey: &[u8],
        now_unix_ms: i64,
        trust_on_first_use: bool,
    ) -> (result: Result<bool, SessionAuthError>)
        requires
            old(self).wf(),
        ensures
            final(self).wf(),
            match sighting_fault(
                old(self).lookup(device_code@),
                device_code@,
                peer_id.text(),
                identity_pubkey@,
                trust_on_first_use,
            ) {
                Some(fault) => {
                    &&& result matches Err(error)
                    &&& error@ == fault
                    &&& final(self).records() == old(self).records()
                },
                None => {
                    &&& result == Ok::<bool, SessionAuthError>(
                        sighting_writes(old(self).lookup(device_code@), now_unix_ms),
                    )
                    &&& final(self).lookup(device_code@) == Some(
                        sighting_record(
                            old(self).lookup(device_code@),
                            device_code@,
                            peer_id.text(),
                            identity_pubkey@,
                            now_unix_ms,
                        ),
                    )
                },
            },
            forall|code: Seq<char>|
                code != device_code@ ==> #[trigger] final(self).lookup(code) == old(self).lookup(
                    code,
                ),
            old(self).sound() && !is_blank(device_code@) && peer_id.wf() && derived_peer_id(
                identity_pubkey@,
            ) == Some(peer_id@) ==> final(self).sound(),
            forall|code: Seq<char>| #[trigger]
                old(self).lookup(code) matches Some(held) ==> {
                    &&& final(self).lookup(code) matches Some(kept)
                    &&& kept.device_code == held.device_code
                    &&& kept.peer_id == held.peer_id
                    &&& kept.identity_pubkey_hex == held.identity_pubkey_hex
                    &&& kept.first_seen_unix_ms == held.first_seen_unix_ms
                    &&& kept.last_seen_unix_ms != held.last_seen_unix_ms ==> {
                        &&& kept.last_seen_unix_ms == now_unix_ms
                        &&& now_unix_ms - held.last_seen_unix_ms >= LAST_SEEN_PERSIST_INTERVAL_MS
                    }
                },
    {
        let pubkey_hex: String = encode_hex(identity_pubkey);
        let place: (usize, bool) = self.locate(device_code);
        let ghost before = self.records();
        if place.1 {
            proof {
                lemma_lookup_at(before, place.0 as int);
            }
            let held: &TrustedPeerRecord = &self.entries[place.0];
            assert(held@ == before[place.0 as int]);
            if !peer_id.has_text(held.peer_id.as_str()) || !str_eq(
                held.identity_pubkey_hex.as_str(),
                pubkey_hex.as_str(),
            ) {
                return Err(
                    SessionAuthError::TrustedPeerMismatch { device_code: device_code.to_owned() },
                );
            }
            let changed: bool = match now_unix_ms.checked_sub(held.last_seen_unix_ms) {
                Some(passed) => passed >= LAST_SEEN_PERSIST_INTERVAL_MS,
                None => now_unix_ms > held.last_seen_unix_ms,
            };
            if changed {
                let mut renewed: TrustedPeerRecord = clone_record(held);
                renewed.last_seen_unix_ms = now_unix_ms;
                let ghost view = renewed@;
                self.entries.set(place.0, renewed);
                proof {
                    assert(self.records() =~= before.update(place.0 as int, view));
                    lemma_replace(before, place.0 as int, view);
                }
            }
            return Ok(changed);
        }
        proof {
            assert forall|i: int| 0 <= i < before.len() implies (#[trigger] before[i]).device_code
                != device_code@ by {
                lemma_str_lt_irreflexive(device_code@);
            }
            lemma_lookup_absent(before, device_code@);
        }
        if !trust_on_first_use {
            return Err(SessionAuthError::UntrustedPeer { device_code: device_code.to_owned() });
        }
        let record: TrustedPeerRecord = TrustedPeerRecord {
            device_code: device_code.to_owned(),
            peer_id: String::from_str(peer_id.as_str()),
            identity_pubkey_hex: pubkey_hex,
            first_seen_unix_ms: now_unix_ms,
            last_seen_unix_ms: now_unix_ms,
        };
        let ghost view = record@;
        self.entries.insert(place.0, record);
        proof {
            assert(self.records() =~= before.insert(place.0 as int, view));
            lemma_insert(before, place.0 as int, view);
            if old(self).sound() && !is_blank(device_code@) && peer_id.wf() && derived_peer_id(
                identity_pubkey@,
            ) == Some(peer_id@) {
                lemma_hex_round_trip(identity_pubkey@);
                peer_id.lemma_text_of_bytes();
                assert(record_fault(view) is None);
                assert forall|i: int| 0 <= i < self.records().len() implies record_fault(
                    #[trigger] self.records()[i],
                ) is None by {
                    if i < place.0 {
                        assert(self.records()[i] == before[i]);
                    } else if i > place.0 {
                        assert(self.records()[i] == before[i - 1]);
                    }
                }
            }
        }
        Ok(true)
    }
}

proof fn lemma_str_lt_transitive(a: Seq<char>, b: Seq<char>, c: Seq<char>)
    requires
        str_lt(a, b),
        str_lt(b, c),
    ensures
        str_lt(a, c),
{
    lemma_lex_lt_transitive(encode_utf8(a), encode_utf8(b), encode_utf8(c));
}

/// In a sorted list no record before the last carries the code of the
/// last, and what is found under any other code is found without the last.
proof fn lemma_lookup_without_last(records: Seq<TrustedPeerRecordView>, code: Seq<char>)
    requires
        sorted_by_code(records),
        records.len() > 0,
    ensures
        sorted_by_code(records.drop_last()),
        lookup_record(records.drop_last(), code) == if code == records.last().device_code {
            None
        } else {
            lookup_record(records, code)
        },
{
    let front = records.drop_last();
    let last = records.len() - 1;
    assert forall|i: int, j: int| 0 <= i < j < front.len() implies str_lt(
        #[trigger] front[i].device_code,
        #[trigger] front[j].device_code,
    ) by {
        assert(front[i] == records[i] && front[j] == records[j]);
    }
    if code == records.last().device_code {
        lemma_str_lt_irreflexive(code);
        assert forall|i: int| 0 <= i < front.len() implies (#[trigger] front[i]).device_code
            != code by {
            assert(str_lt(records[i].device_code, records[last].device_code));
        }
        lemma_lookup_absent(front, code);
    } else if exists|i: int| 0 <= i < records.len() && records[i].device_code == code {
        let i = choose|i: int| 0 <= i < records.len() && records[i].device_code == code;
        lemma_lookup_at(records, i);
        assert(front[i] == records[i]);
        lemma_lookup_at(front, i);
    } else {
        assert forall|i: int| 0 <= i < front.len() implies (#[trigger] front[i]).device_code
            != code by {
            assert(front[i] == records[i]);
        }
        lemma_lookup_absent(front, code);
    }
}

/// A sorted list is known by what is found in it: two sorted lists in
/// which every code finds the same are one list.
pub proof fn lemma_sorted_records_are_unique(
    a: Seq<TrustedPeerRecordView>,
    b: Seq<TrustedPeerRecordView>,
)
    requires
        sorted_by_code(a),
        sorted_by_code(b),
        forall|code: Seq<char>| #[trigger] lookup_record(a, code) == lookup_record(b, code),
    ensures
        a == b,
    decreases a.len(), b.len(),
{
    if a.len() == 0 {
        if b.len() > 0 {
            lemma_lookup_at(b, 0);
            lemma_lookup_absent(a, b[0].device_code);
            assert(lookup_record(a, b[0].device_code) == lookup_record(b, b[0].device_code));
        }
        assert(a =~= b);
    } else if b.len() == 0 {
        lemma_lookup_at(a, 0);
        lemma_lookup_absent(b, a[0].device_code);
        assert(lookup_record(a, a[0].device_code) == lookup_record(b, a[0].device_code));
    } else {
        let top_a = a.last();
        let top_b = b.last();
        lemma_lookup_at(a, a.len() - 1);
        lemma_lookup_at(b, b.len() - 1);
        assert(lookup_record(b, top_a.device_code) == lookup_record(a, top_a.device_code));
        assert(lookup_record(a, top_b.device_code) == lookup_record(b, top_b.device_code));
        // the greatest code of each list stands in the other
        let in_b = choose|i: int| 0 <= i < b.len() && b[i].device_code == top_a.device_code;
        let in_a = choose|i: int| 0 <= i < a.len() && a[i].device_code == top_b.device_code;
        if top_a.device_code != top_b.device_code {
            assert(in_b < b.len() - 1);
            assert(in_a < a.len() - 1);
            assert(str_lt(b[in_b].device_code, b[b.len() - 1].device_code));
            assert(str_lt(a[in_a].device_code, a[a.len() - 1].device_code));
            lemma_str_lt_transitive(top_a.device_code, top_b.device_code, top_a.device_code);
            lemma_str_lt_irreflexive(top_a.device_code);
        }
        assert(top_a == top_b);
        assert forall|code: Seq<char>| #[trigger]
            lookup_record(a.drop_last(), code) == lookup_record(b.drop_last(), code) by {
            lemma_lookup_without_last(a, code);
            lemma_lookup_without_last(b, code);
            assert(lookup_record(a, code) == lookup_record(b, code));
        }
        lemma_lookup_without_last(a, top_a.device_code);
        lemma_lookup_without_last(b, top_a.device_code);
        lemma_sorted_records_are_unique(a.drop_last(), b.drop_last());
        assert(a =~= a.drop_last().push(top_a));
        assert(b =~= b.drop_last().push(top_b));
    }
}

/// In a sorted list the last record with a code is the only one.
pub proof fn lemma_last_with_code_is_lookup(records: Seq<TrustedPeerRecordView>, code: Seq<char>)
    requires
        sorted_by_code(records),
    ensures
        last_with_code(records, code) == lookup_record(records, code),
    decreases records.len(),
{
    if records.len() == 0 {
        lemma_lookup_absent(records, code);
    } else {
        lemma_lookup_without_last(records, code);
        if code == records.last().device_code {
            lemma_lookup_at(records, records.len() - 1);
        } else {
            lemma_last_with_code_is_lookup(records.drop_last(), code);
        }
    }
}

/// Writing a store out and reading it back gives the same store: where
/// nothing is wrong with any record of `store`, what `from_records` makes of
/// the records that `to_records` writes is a store, and it holds exactly
/// the records of `store`, in their order.
pub proof fn lemma_records_round_trip(
    store: TrustedPeers,
    result: Result<TrustedPeers, SessionAuthError>,
)
    requires
        store.wf(),
        store.sound(),
        built_from(store.records(), result),
    ensures
        result matches Ok(again) && again.wf() && again.sound() && again.records()
            == store.records(),
{
    let again = result->Ok_0;
    assert forall|code: Seq<char>| #[trigger]
        lookup_record(again.records(), code) == lookup_record(store.records(), code) by {
        lemma_last_with_code_is_lookup(store.records(), code);
        assert(again.lookup(code) == last_with_code(store.records(), code));
    }
    lemma_sorted_records_are_unique(again.records(), store.records());
}

impl Default for TrustedPeers {
    fn default() -> (store: Self)
        ensures
            store.wf(),
            store.records() == Seq::<TrustedPeerRecordView>::empty(),
    {
        TrustedPeers::new()
    }
}

} // verus!
