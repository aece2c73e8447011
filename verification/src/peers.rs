//! The table of peers: one record for each peer the engine has heard of.

use crate::identity::PeerId;
use crate::session::{PeerSession, PeerSessionView};
use vstd::prelude::*;

verus! {

#[derive(Debug, Clone)]
struct PeerEntry {
    peer: PeerId,
    session: PeerSession,
}

/// The records of the peers, in the order in which the peers were first
/// heard of. A peer that was never heard of has the empty record.
#[derive(Debug, Clone)]
pub struct PeerTable {
    entries: Vec<PeerEntry>,
}

spec fn distinct(entries: Seq<PeerEntry>) -> bool {
    forall|i: int, j: int|
        0 <= i < j < entries.len() ==> (#[trigger] entries[i]).peer@ != (#[trigger] entries[j]).peer@
}

spec fn holds(entries: Seq<PeerEntry>, peer: Seq<u8>) -> bool {
    exists|i: int| 0 <= i < entries.len() && (#[trigger] entries[i]).peer@ == peer
}

spec fn place_of(entries: Seq<PeerEntry>, peer: Seq<u8>) -> int {
    choose|i: int| 0 <= i < entries.len() && (#[trigger] entries[i]).peer@ == peer
}

spec fn record_of(entries: Seq<PeerEntry>, peer: Seq<u8>) -> PeerSessionView {
    if holds(entries, peer) {
        entries[place_of(entries, peer)].session@
    } else {
        PeerSessionView::empty()
    }
}

proof fn lemma_record_at(entries: Seq<PeerEntry>, index: int)
    requires
        distinct(entries),
        0 <= index < entries.len(),
    ensures
        holds(entries, entries[index].peer@),
        record_of(entries, entries[index].peer@) == entries[index].session@,
{
    let peer = entries[index].peer@;
    let place = place_of(entries, peer);
    if place < index {
        assert(entries[place].peer@ != entries[index].peer@);
    } else if index < place {
        assert(entries[index].peer@ != entries[place].peer@);
    }
}

impl PeerTable {
    /// The peers heard of, oldest first.
    pub closed spec fn order(&self) -> Seq<Seq<u8>> {
        Seq::new(self.entries@.len(), |i: int| self.entries@[i].peer@)
    }

    /// The record of `peer`; the empty record for a peer never heard of.
    pub closed spec fn at(&self, peer: Seq<u8>) -> PeerSessionView {
        record_of(self.entries@, peer)
    }

    /// Whether the peer at `index` is well formed.
    pub closed spec fn peer_wf(&self, index: int) -> bool {
        self.entries@[index].peer.wf()
    }

    /// The text of the peer at `index`.
    pub closed spec fn peer_text(&self, index: int) -> Seq<char> {
        self.entries@[index].peer.text()
    }

    /// No peer stands twice in the table, and every peer in it is well
    /// formed.
    pub closed spec fn wf(&self) -> bool {
        &&& distinct(self.entries@)
        &&& forall|i: int| 0 <= i < self.entries@.len() ==> (#[trigger] self.entries@[i]).peer.wf()
    }

    /// No peer stands twice in the order, and a peer that is not in it has
    /// the empty record.
    pub proof fn lemma_order(&self)
        requires
            self.wf(),
        ensures
            self.order().no_duplicates(),
            forall|peer: Seq<u8>| !self.order().contains(peer) ==> #[trigger] self.at(peer)
                == PeerSessionView::empty(),
            forall|i: int| 0 <= i < self.order().len() ==> self.peer_wf(i),
    {
        assert forall|i: int, j: int|
            0 <= i < self.order().len() && 0 <= j < self.order().len() && i != j implies self.order()[i]
            != self.order()[j] by {
            if i < j {
                assert(self.entries@[i].peer@ != self.entries@[j].peer@);
            } else {
                assert(self.entries@[j].peer@ != self.entries@[i].peer@);
            }
        }
        assert forall|peer: Seq<u8>| !self.order().contains(peer) implies #[trigger] self.at(peer)
            == PeerSessionView::empty() by {
            if holds(self.entries@, peer) {
                let i = place_of(self.entries@, peer);
                assert(self.order()[i] == peer);
            }
        }
    }

    /// A table without peers.
    pub fn new() -> (table: Self)
        ensures
            table.wf(),
            table.order() == Seq::<Seq<u8>>::empty(),
            forall|peer: Seq<u8>| #[trigger] table.at(peer) == PeerSessionView::empty(),
    {
        let table = PeerTable { entries: Vec::new() };
        assert(table.order() =~= Seq::<Seq<u8>>::empty());
        table
    }

    /// How many peers the table holds.
    pub fn len(&self) -> (count: usize)
        ensures
            count == self.order().len(),
    {
        self.entries.len()
    }

    fn find(&self, peer: &PeerId) -> (place: Option<usize>)
        ensures
            match place {
                Some(index) => index < self.entries@.len() && self.entries@[index as int].peer@
                    == peer@,
                None => !holds(self.entries@, peer@),
            },
    {
        let mut i: usize = 0;
        while i < self.entries.len()
            invariant
                i <= self.entries@.len(),
                forall|j: int| 0 <= j < i ==> (#[trigger] self.entries@[j]).peer@ != peer@,
            decreases self.entries@.len() - i,
        {
            if self.entries[i].peer.same_as(peer) {
                return Some(i);
            }
            i += 1;
        }
        None
    }

    /// The record of `peer`, where the peer was heard of.
    pub fn get(&self, peer: &PeerId) -> (session: Option<&PeerSession>)
        requires
            self.wf(),
        ensures
            match session {
                Some(s) => s@ == self.at(peer@) && self.order().contains(peer@),
                None => self.at(peer@) == PeerSessionView::empty() && !self.order().contains(
                    peer@,
                ),
            },
    {
        match self.find(peer) {
            Some(index) => {
                proof {
                    lemma_record_at(self.entries@, index as int);
                    assert(self.order()[index as int] == peer@);
                }
                Some(&self.entries[index].session)
            },
            None => {
                proof {
                    if self.order().contains(peer@) {
                        let i = choose|i: int|
                            0 <= i < self.order().len() && self.order()[i] == peer@;
                        assert(self.entries@[i].peer@ == peer@);
                    }
                }
                None
            },
        }
    }

    /// The peer at `index` of the order.
    pub fn peer_at(&self, index: usize) -> (peer: &PeerId)
        requires
            self.wf(),
            index < self.order().len(),
        ensures
            peer@ == self.order()[index as int],
            peer.wf(),
            peer.text() == self.peer_text(index as int),
    {
        &self.entries[index].peer
    }

    /// The record at `index` of the order.
    pub fn session_at(&self, index: usize) -> (session: &PeerSession)
        requires
            self.wf(),
            index < self.order().len(),
        ensures
            session@ == self.at(self.order()[index as int]),
    {
        proof {
            lemma_record_at(self.entries@, index as int);
        }
        &self.entries[index].session
    }

    /// Takes the record at `index` out of the table, leaving the empty
    /// record in its place.
    pub fn take_at(&mut self, index: usize) -> (session: PeerSession)
        requires
            old(self).wf(),
            index < old(self).order().len(),
        ensures
            final(self).wf(),
            final(self).order() == old(self).order(),
            session@ == old(self).at(old(self).order()[index as int]),
            forall|peer: Seq<u8>| #[trigger]
                final(self).at(peer) == if peer == old(self).order()[index as int] {
                    PeerSessionView::empty()
                } else {
                    old(self).at(peer)
                },
            forall|i: int|
                0 <= i < old(self).order().len() ==> #[trigger] final(self).peer_text(i) == old(
                    self,
                ).peer_text(i),
    {
        let ghost before = self.entries@;
        let entry: PeerEntry = self.entries.remove(index);
        let PeerEntry { peer, session } = entry;
        self.entries.insert(index, PeerEntry { peer, session: PeerSession::new() });
        proof {
            let after = self.entries@;
            assert(after.len() == before.len());
            assert forall|i: int| 0 <= i < after.len() implies (#[trigger] after[i]).peer
                == before[i].peer by {}
            assert(self.order() =~= old(self).order());
            lemma_record_at(before, index as int);
            assert forall|p: Seq<u8>| #[trigger]
                record_of(after, p) == if p == before[index as int].peer@ {
                    PeerSessionView::empty()
                } else {
                    record_of(before, p)
                } by {
                lemma_same_peers(before, after, p);
            }
        }
        session
    }

    /// Puts `session` at `index` of the order.
    pub fn put_at(&mut self, index: usize, session: PeerSession)
        requires
            old(self).wf(),
            index < old(self).order().len(),
        ensures
            final(self).wf(),
            final(self).order() == old(self).order(),
            forall|peer: Seq<u8>| #[trigger]
                final(self).at(peer) == if peer == old(self).order()[index as int] {
                    session@
                } else {
                    old(self).at(peer)
                },
            forall|i: int|
                0 <= i < old(self).order().len() ==> #[trigger] final(self).peer_text(i) == old(
                    self,
                ).peer_text(i),
    {
        let ghost before = self.entries@;
        let entry: PeerEntry = self.entries.remove(index);
        let PeerEntry { peer, session: _ } = entry;
        self.entries.insert(index, PeerEntry { peer, session });
        proof {
            let after = self.entries@;
            assert(after.len() == before.len());
            assert forall|i: int| 0 <= i < after.len() implies (#[trigger] after[i]).peer
                == before[i].peer by {}
            assert(self.order() =~= old(self).order());
            assert forall|p: Seq<u8>| #[trigger]
                record_of(after, p) == if p == before[index as int].peer@ {
                    session@
                } else {
                    record_of(before, p)
                } by {
                lemma_same_peers(before, after, p);
            }
        }
    }

    /// The place of `peer` in the order; a peer that was never heard of is
    /// entered at the end, with the empty record.
    pub fn place(&mut self, peer: &PeerId) -> (index: usize)
        requires
            old(self).wf(),
            peer.wf(),
        ensures
            final(self).wf(),
            index < final(self).order().len(),
            final(self).order()[index as int] == peer@,
            final(self).peer_text(index as int) == peer.text(),
            final(self).order() == if old(self).order().contains(peer@) {
                old(self).order()
            } else {
                old(self).order().push(peer@)
            },
            forall|p: Seq<u8>| #[trigger] final(self).at(p) == old(self).at(p),
    {
        let ghost before = self.entries@;
        match self.find(peer) {
            Some(index) => {
                proof {
                    assert(self.order()[index as int] == peer@);
                    peer.lemma_text_of_bytes();
                    self.entries@[index as int].peer.lemma_text_of_bytes();
                }
                index
            },
            None => {
                self.entries.push(PeerEntry { peer: peer.duplicate(), session: PeerSession::new() });
                proof {
                    let after = self.entries@;
                    let last = after.len() - 1;
                    if old(self).order().contains(peer@) {
                        let i = choose|i: int|
                            0 <= i < old(self).order().len() && old(self).order()[i] == peer@;
                        assert(before[i].peer@ == peer@);
                    }
                    assert(self.order() =~= old(self).order().push(peer@));
                    assert forall|i: int, j: int| 0 <= i < j < after.len() implies (
                    #[trigger] after[i]).peer@ != (#[trigger] after[j]).peer@ by {
                        assert(after[i] == before[i]);
                        if j < last {
                            assert(after[j] == before[j]);
                        }
                    }
                    assert forall|i: int| 0 <= i < after.len() implies (#[trigger] after[i]).peer.wf() by {
                        if i < last {
                            assert(after[i] == before[i]);
                        }
                    }
                    assert forall|p: Seq<u8>| #[trigger]
                        record_of(after, p) == record_of(before, p) by {
                        if holds(before, p) {
                            let k = place_of(before, p);
                            assert(after[k] == before[k]);
                            lemma_record_at(before, k);
                            lemma_record_at(after, k);
                        } else if p == peer@ {
                            lemma_record_at(after, last);
                        } else {
                            if holds(after, p) {
                                let k = place_of(after, p);
                                if k < last {
                                    assert(after[k] == before[k]);
                                }
                            }
                        }
                    }
                    peer.lemma_text_of_bytes();
                    after[last].peer.lemma_text_of_bytes();
                }
                self.entries.len() - 1
            },
        }
    }
}

/// Two lists with the same peers at the same places agree on the record of
/// a peer wherever they agree at the place of that peer.
proof fn lemma_same_peers(before: Seq<PeerEntry>, after: Seq<PeerEntry>, peer: Seq<u8>)
    requires
        distinct(before),
        before.len() == after.len(),
        forall|i: int| 0 <= i < after.len() ==> (#[trigger] after[i]).peer == before[i].peer,
    ensures
        distinct(after),
        holds(after, peer) == holds(before, peer),
        holds(before, peer) ==> record_of(after, peer) == after[place_of(before, peer)].session@,
        holds(before, peer) ==> record_of(before, peer) == before[place_of(
            before,
            peer,
        )].session@,
{
    assert forall|i: int, j: int| 0 <= i < j < after.len() implies (#[trigger] after[i]).peer@ != (
    #[trigger] after[j]).peer@ by {
        assert(before[i].peer@ != before[j].peer@);
    }
    if holds(before, peer) {
        let k = place_of(before, peer);
        assert(after[k].peer@ == peer);
        lemma_record_at(after, k);
    }
    if holds(after, peer) {
        let k = place_of(after, peer);
        assert(before[k].peer@ == peer);
    }
}

} // verus!
