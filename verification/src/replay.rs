//! The replay cache: the nonces of the handshakes accepted lately.

use crate::error::SessionAuthError;
use crate::text::bytes_eq;
use vstd::prelude::*;
use vstd::slice::slice_to_vec;

verus! {

/// The least number of bytes a handshake nonce must have.
pub const MIN_NONCE_BYTES: usize = 12;

/// How far, in milliseconds, the time of a message may lie from the local
/// clock unless the caller says otherwise.
pub const DEFAULT_ALLOWED_SKEW_MS: i64 = 30_000;

/// How long, in milliseconds, a nonce is remembered unless the caller says
/// otherwise.
pub const DEFAULT_REPLAY_RETENTION_MS: i64 = 60_000;

/// Whether a nonce first seen at `seen_unix_ms` is still remembered at
/// `now_unix_ms`: it is while no more than the retention has passed, and a
/// nonce dated in the future is always kept.
pub open spec fn remembered(seen_unix_ms: i64, now_unix_ms: i64, retention_ms: i64) -> bool {
    seen_unix_ms > now_unix_ms || now_unix_ms - seen_unix_ms <= retention_ms
}

/// What is left of `seen` at `now_unix_ms`: the nonces still remembered.
pub open spec fn fresh_part(seen: Map<Seq<u8>, i64>, now_unix_ms: i64, retention_ms: i64) -> Map<
    Seq<u8>,
    i64,
> {
    Map::new(
        |nonce: Seq<u8>| seen.contains_key(nonce) && remembered(seen[nonce], now_unix_ms, retention_ms),
        |nonce: Seq<u8>| seen[nonce],
    )
}

/// The cache after `nonce` was offered at `now_unix_ms`: what was still
/// remembered, and the nonce as well unless it was among that.
pub open spec fn offered(
    seen: Map<Seq<u8>, i64>,
    nonce: Seq<u8>,
    now_unix_ms: i64,
    retention_ms: i64,
) -> Map<Seq<u8>, i64> {
    let fresh = fresh_part(seen, now_unix_ms, retention_ms);
    if fresh.contains_key(nonce) {
        fresh
    } else {
        fresh.insert(nonce, now_unix_ms)
    }
}

#[derive(Debug, Clone)]
struct SeenNonce {
    nonce: Vec<u8>,
    seen_unix_ms: i64,
}

#[derive(Debug, Clone)]
pub struct NonceReplayCache {
    retention_ms: i64,
    seen: Vec<SeenNonce>,
}

/// No nonce stands at two places.
spec fn distinct(entries: Seq<SeenNonce>) -> bool {
    forall|i: int, j: int|
        0 <= i < j < entries.len() ==> (#[trigger] entries[i]).nonce@ != (#[trigger] entries[j]).nonce@
}

spec fn holds(entries: Seq<SeenNonce>, nonce: Seq<u8>) -> bool {
    exists|i: int| 0 <= i < entries.len() && (#[trigger] entries[i]).nonce@ == nonce
}

spec fn place_of(entries: Seq<SeenNonce>, nonce: Seq<u8>) -> int {
    choose|i: int| 0 <= i < entries.len() && (#[trigger] entries[i]).nonce@ == nonce
}

spec fn as_map(entries: Seq<SeenNonce>) -> Map<Seq<u8>, i64> {
    Map::new(
        |nonce: Seq<u8>| holds(entries, nonce),
        |nonce: Seq<u8>| entries[place_of(entries, nonce)].seen_unix_ms,
    )
}

proof fn lemma_as_map_at(entries: Seq<SeenNonce>, index: int)
    requires
        distinct(entries),
        0 <= index < entries.len(),
    ensures
        as_map(entries).contains_key(entries[index].nonce@),
        as_map(entries)[entries[index].nonce@] == entries[index].seen_unix_ms,
{
    let nonce = entries[index].nonce@;
    let place = place_of(entries, nonce);
    if place < index {
        assert(entries[place].nonce@ != entries[index].nonce@);
    } else if index < place {
        assert(entries[index].nonce@ != entries[place].nonce@);
    }
}

impl View for NonceReplayCache {
    type V = Map<Seq<u8>, i64>;

    /// The nonces remembered, each with the time it was first accepted.
    closed spec fn view(&self) -> Map<Seq<u8>, i64> {
        as_map(self.seen@)
    }
}

impl NonceReplayCache {
    /// How long a nonce is remembered, in milliseconds.
    pub closed spec fn retention(&self) -> i64 {
        self.retention_ms
    }

    pub closed spec fn wf(&self) -> bool {
        &&& distinct(self.seen@)
        &&& self.retention_ms >= 1
    }

    /// An empty cache. A retention below one millisecond is raised to one.
    pub fn new(retention_ms: i64) -> (cache: Self)
        ensures
            cache.wf(),
            cache@ == Map::<Seq<u8>, i64>::empty(),
            cache.retention() == if retention_ms < 1 {
                1i64
            } else {
                retention_ms
            },
    {
        let cache = NonceReplayCache {
            retention_ms: if retention_ms < 1 {
                1
            } else {
                retention_ms
            },
            seen: Vec::new(),
        };
        assert(cache@ =~= Map::<Seq<u8>, i64>::empty());
        cache
    }

    /// How long a nonce is remembered, in milliseconds.
    pub fn retention_ms(&self) -> (retention: i64)
        ensures
            retention == self.retention(),
    {
        self.retention_ms
    }

    /// How many nonces are remembered.
    pub fn len(&self) -> (count: usize)
        requires
            self.wf(),
        ensures
            count == self@.dom().len(),
            self@.dom().finite(),
    {
        proof {
            lemma_as_map_len(self.seen@);
        }
        self.seen.len()
    }

    /// Where `nonce` stands among the remembered ones.
    fn find(&self, nonce: &[u8]) -> (place: Option<usize>)
        requires
            self.wf(),
        ensures
            match place {
                Some(index) => index < self.seen@.len() && self.seen@[index as int].nonce@
                    == nonce@,
                None => !self@.contains_key(nonce@),
            },
    {
        let mut i: usize = 0;
        while i < self.seen.len()
            invariant
                i <= self.seen@.len(),
                forall|j: int| 0 <= j < i ==> (#[trigger] self.seen@[j]).nonce@ != nonce@,
            decreases self.seen@.len() - i,
        {
            if bytes_eq(self.seen[i].nonce.as_slice(), nonce) {
                return Some(i);
            }
            i += 1;
        }
        None
    }

    /// Forgets the nonces whose retention has run out at `now_unix_ms`.
    fn evict_expired(&mut self, now_unix_ms: i64)
        requires
            old(self).wf(),
        ensures
            final(self).wf(),
            final(self).retention() == old(self).retention(),
            final(self)@ == fresh_part(old(self)@, now_unix_ms, old(self).retention()),
    {
        let retention: i64 = self.retention_ms;
        let mut kept: Vec<SeenNonce> = Vec::new();
        let mut i: usize = 0;
        while i < self.seen.len()
            invariant
                i <= self.seen@.len(),
                distinct(self.seen@),
                distinct(kept@),
                retention == self.retention_ms,
                forall|k: int|
                    0 <= k < kept@.len() ==> exists|j: int|
                        0 <= j < i && self.seen@[j].nonce@ == (#[trigger] kept@[k]).nonce@
                            && self.seen@[j].seen_unix_ms == kept@[k].seen_unix_ms && remembered(
                            self.seen@[j].seen_unix_ms,
                            now_unix_ms,
                            retention,
                        ),
                forall|j: int|
                    0 <= j < i && remembered(
                        (#[trigger] self.seen@[j]).seen_unix_ms,
                        now_unix_ms,
                        retention,
                    ) ==> exists|k: int|
                        0 <= k < kept@.len() && (#[trigger] kept@[k]).nonce@ == self.seen@[j].nonce@,
            decreases self.seen@.len() - i,
        {
            let entry: &SeenNonce = &self.seen[i];
            let keep: bool = if entry.seen_unix_ms > now_unix_ms {
                true
            } else {
                match now_unix_ms.checked_sub(entry.seen_unix_ms) {
                    Some(passed) => passed <= retention,
                    None => false,
                }
            };
            if keep {
                let ghost before = kept@;
                kept.push(
                    SeenNonce {
                        nonce: slice_to_vec(entry.nonce.as_slice()),
                        seen_unix_ms: entry.seen_unix_ms,
                    },
                );
                proof {
                    assert forall|a: int, b: int| 0 <= a < b < kept@.len() implies (
                    #[trigger] kept@[a]).nonce@ != (#[trigger] kept@[b]).nonce@ by {
                        if b == kept@.len() - 1 {
                            assert(kept@[a] == before[a]);
                            let j = choose|j: int|
                                0 <= j < i && self.seen@[j].nonce@ == before[a].nonce@;
                            assert(self.seen@[j].nonce@ != self.seen@[i as int].nonce@);
                        } else {
                            assert(kept@[a] == before[a] && kept@[b] == before[b]);
                        }
                    }
                    assert forall|k: int| 0 <= k < kept@.len() implies exists|j: int|
                        0 <= j < i + 1 && self.seen@[j].nonce@ == (#[trigger] kept@[k]).nonce@
                            && self.seen@[j].seen_unix_ms == kept@[k].seen_unix_ms && remembered(
                            self.seen@[j].seen_unix_ms,
                            now_unix_ms,
                            retention,
                        ) by {
                        if k < before.len() {
                            assert(kept@[k] == before[k]);
                            let j = choose|j: int|
                                0 <= j < i && self.seen@[j].nonce@ == before[k].nonce@
                                    && self.seen@[j].seen_unix_ms == before[k].seen_unix_ms
                                    && remembered(
                                    self.seen@[j].seen_unix_ms,
                                    now_unix_ms,
                                    retention,
                                );
                            assert(0 <= j < i + 1);
                        } else {
                            assert(self.seen@[i as int].nonce@ == kept@[k].nonce@);
                        }
                    }
                    assert forall|j: int|
                        0 <= j < i + 1 && remembered(
                            (#[trigger] self.seen@[j]).seen_unix_ms,
                            now_unix_ms,
                            retention,
                        ) implies exists|k: int|
                        0 <= k < kept@.len() && (#[trigger] kept@[k]).nonce@
                            == self.seen@[j].nonce@ by {
                        if j < i {
                            let k = choose|k: int|
                                0 <= k < before.len() && (#[trigger] before[k]).nonce@
                                    == self.seen@[j].nonce@;
                            assert(kept@[k] == before[k]);
                        } else {
                            assert(kept@[kept@.len() - 1].nonce@ == self.seen@[j].nonce@);
                        }
                    }
                }
            }
            i += 1;
        }
        proof {
            let before = self.seen@;
            let target = fresh_part(as_map(before), now_unix_ms, retention);
            assert forall|nonce: Seq<u8>| as_map(kept@).contains_key(nonce) implies (
            #[trigger] target.contains_key(nonce)) && target[nonce] == as_map(kept@)[nonce] by {
                let k = place_of(kept@, nonce);
                lemma_as_map_at(kept@, k);
                let j = choose|j: int|
                    0 <= j < before.len() && before[j].nonce@ == kept@[k].nonce@
                        && before[j].seen_unix_ms == kept@[k].seen_unix_ms && remembered(
                        before[j].seen_unix_ms,
                        now_unix_ms,
                        retention,
                    );
                lemma_as_map_at(before, j);
            }
            assert forall|nonce: Seq<u8>| #[trigger]
                target.contains_key(nonce) implies as_map(kept@).contains_key(nonce) by {
                let j = place_of(before, nonce);
                lemma_as_map_at(before, j);
                let k = choose|k: int|
                    0 <= k < kept@.len() && (#[trigger] kept@[k]).nonce@ == before[j].nonce@;
                assert(holds(kept@, nonce));
            }
            assert(as_map(kept@) =~= target);
        }
        self.seen = kept;
    }

    /// Accepts a nonce once.
    ///
    /// The nonces whose retention has run out are forgotten first. If the
    /// nonce is still remembered after that it is refused as a replay;
    /// otherwise it is remembered from now on. Either way the nonces that
    /// have not run out stay as they were.
    pub fn check_and_store(&mut self, nonce: &[u8], now_unix_ms: i64) -> (result: Result<
        (),
        SessionAuthError,
    >)
        requires
            old(self).wf(),
        ensures
            final(self).wf(),
            final(self).retention() == old(self).retention(),
            result is Err == fresh_part(
                old(self)@,
                now_unix_ms,
                old(self).retention(),
            ).contains_key(nonce@),
            result matches Err(error) ==> {
                &&& error == SessionAuthError::ReplayDetected
                &&& final(self)@ == fresh_part(old(self)@, now_unix_ms, old(self).retention())
            },
            result is Ok ==> final(self)@ == fresh_part(
                old(self)@,
                now_unix_ms,
                old(self).retention(),
            ).insert(nonce@, now_unix_ms),
            final(self)@ == offered(old(self)@, nonce@, now_unix_ms, old(self).retention()),
    {
        self.evict_expired(now_unix_ms);
        match self.find(nonce) {
            Some(index) => {
                assert(holds(self.seen@, nonce@)) by {
                    assert(self.seen@[index as int].nonce@ == nonce@);
                }
                return Err(SessionAuthError::ReplayDetected);
            },
            None => {},
        }
        let ghost before = self.seen@;
        self.seen.push(SeenNonce { nonce: slice_to_vec(nonce), seen_unix_ms: now_unix_ms });
        proof {
            let after = self.seen@;
            assert forall|i: int, j: int| 0 <= i < j < after.len() implies (#[trigger] after[i]).nonce@
                != (#[trigger] after[j]).nonce@ by {
                assert(after[i] == before[i]);
                if j == after.len() - 1 {
                    if before[i].nonce@ == nonce@ {
                        assert(holds(before, nonce@));
                    }
                } else {
                    assert(after[j] == before[j]);
                }
            }
            let target = as_map(before).insert(nonce@, now_unix_ms);
            assert forall|n: Seq<u8>| as_map(after).contains_key(n) implies (
            #[trigger] target.contains_key(n)) && target[n] == as_map(after)[n] by {
                let k = place_of(after, n);
                lemma_as_map_at(after, k);
                if k < before.len() {
                    assert(after[k] == before[k]);
                    lemma_as_map_at(before, k);
                }
            }
            assert forall|n: Seq<u8>| #[trigger] target.contains_key(n) implies as_map(
                after,
            ).contains_key(n) by {
                if n == nonce@ {
                    assert(after[after.len() - 1].nonce@ == n);
                } else {
                    let k = place_of(before, n);
                    assert(after[k] == before[k]);
                }
            }
            assert(as_map(after) =~= target);
        }
        Ok(())
    }
}

/// A list without repeated nonces holds as many nonces as it is long.
proof fn lemma_as_map_len(entries: Seq<SeenNonce>)
    requires
        distinct(entries),
    ensures
        as_map(entries).dom().finite(),
        as_map(entries).dom().len() == entries.len(),
    decreases entries.len(),
{
    if entries.len() == 0 {
        assert(as_map(entries).dom() =~= Set::<Seq<u8>>::empty());
    } else {
        let front = entries.drop_last();
        let last = entries.last();
        assert forall|i: int, j: int| 0 <= i < j < front.len() implies (#[trigger] front[i]).nonce@
            != (#[trigger] front[j]).nonce@ by {
            assert(front[i] == entries[i] && front[j] == entries[j]);
        }
        lemma_as_map_len(front);
        assert(!as_map(front).dom().contains(last.nonce@)) by {
            if holds(front, last.nonce@) {
                let k = place_of(front, last.nonce@);
                assert(front[k] == entries[k]);
                assert(entries[k].nonce@ != entries[entries.len() - 1].nonce@);
            }
        }
        assert(as_map(entries).dom() =~= as_map(front).dom().insert(last.nonce@)) by {
            assert forall|n: Seq<u8>| as_map(entries).dom().contains(n) implies as_map(
                front,
            ).dom().insert(last.nonce@).contains(n) by {
                let k = place_of(entries, n);
                if k < front.len() {
                    assert(front[k] == entries[k]);
                }
            }
            assert forall|n: Seq<u8>|
                as_map(front).dom().insert(last.nonce@).contains(n) implies as_map(
                entries,
            ).dom().contains(n) by {
                if n == last.nonce@ {
                    assert(entries[entries.len() - 1].nonce@ == n);
                } else {
                    let k = place_of(front, n);
                    assert(front[k] == entries[k]);
                }
            }
        }
    }
}

impl Default for NonceReplayCache {
    fn default() -> (cache: Self)
        ensures
            cache.wf(),
            cache@ == Map::<Seq<u8>, i64>::empty(),
            cache.retention() == DEFAULT_REPLAY_RETENTION_MS,
    {
        NonceReplayCache::new(DEFAULT_REPLAY_RETENTION_MS)
    }
}

/// A nonce is accepted once: where `check_and_store` took `nonce` at
/// `first_unix_ms`, a second call with it on the cache that the first call
/// left, at any time that is no more than the retention later, finds it
/// remembered and refuses it as a replay.
pub proof fn lemma_replay_refused(
    seen: Map<Seq<u8>, i64>,
    retention_ms: i64,
    nonce: Seq<u8>,
    first_unix_ms: i64,
    second_unix_ms: i64,
)
    requires
        !fresh_part(seen, first_unix_ms, retention_ms).contains_key(nonce),
        second_unix_ms - first_unix_ms <= retention_ms,
    ensures
        fresh_part(
            offered(seen, nonce, first_unix_ms, retention_ms),
            second_unix_ms,
            retention_ms,
        ).contains_key(nonce),
        offered(
            offered(seen, nonce, first_unix_ms, retention_ms),
            nonce,
            second_unix_ms,
            retention_ms,
        )[nonce] == first_unix_ms,
{
}

/// A nonce that is remembered outlives every call made while its retention
/// has not run out, whatever nonce that call is about.
pub proof fn lemma_remembered_survives(
    seen: Map<Seq<u8>, i64>,
    retention_ms: i64,
    nonce: Seq<u8>,
    other: Seq<u8>,
    now_unix_ms: i64,
)
    requires
        seen.contains_key(nonce),
        remembered(seen[nonce], now_unix_ms, retention_ms),
    ensures
        fresh_part(seen, now_unix_ms, retention_ms).contains_key(nonce),
        fresh_part(seen, now_unix_ms, retention_ms)[nonce] == seen[nonce],
        other != nonce ==> fresh_part(seen, now_unix_ms, retention_ms).insert(
            other,
            now_unix_ms,
        )[nonce] == seen[nonce],
{
}

} // verus!
