//! Time-based resolution cache: stores values for a fixed time-to-live.
//!
//! The cache owns a flat list of `(key, entry)` pairs with pairwise-distinct
//! keys and is specified through its abstract view, a `Map` from key models
//! (deep views) to entries. An entry records the absolute expiry instant, in
//! nanoseconds, computed at store time as `now + ttl`. Expiry is checked at
//! read time against the wall clock; no background timer exists. A lookup
//! distinguishes three cases: a live entry (`Cached`), a present but expired
//! entry (`Invalid`), and an absent key (`Empty`).

use vstd::prelude::*;
use vstd::laws_eq::obeys_deep_eq;
use std::time::Duration;

verus! {

/// The whole number of nanoseconds a `Duration` spans. The value is a
/// function of the duration alone; the name lets contracts speak of it.
pub uninterp spec fn duration_nanos(d: Duration) -> u128;

/// Relies on `std::time::Duration::as_nanos`: the whole number of
/// nanoseconds the duration spans, depending on its argument alone.
pub assume_specification[ core::time::Duration::as_nanos ](d: &Duration) -> (r: u128)
    ensures
        r == duration_nanos(*d),
;

/// A duration saturated into whole `u64` nanoseconds: the time-to-live that
/// a cache built from it carries.
pub open spec fn spec_duration_ttl(d: Duration) -> u64 {
    if duration_nanos(d) > u64::MAX as u128 {
        u64::MAX
    } else {
        duration_nanos(d) as u64
    }
}

/// Result when requesting a cached item.
#[derive(Debug, PartialEq)]
pub enum CacheResult<T> {
    /// Item is cached and still valid.
    Cached(T),
    /// Item is cached but its expiry has passed.
    Invalid,
    /// Item is not in the cache.
    Empty,
}

/// One stored value together with its absolute expiry instant in
/// nanoseconds.
#[derive(Debug)]
pub struct CacheEntry<V> {
    /// The instant, in nanoseconds, at which the entry stops being valid.
    pub expiry: u64,
    /// The stored value.
    pub value: V,
}

/// The expiry instant of an entry stored at `now` with time-to-live `ttl`:
/// `now + ttl`, saturated at the largest representable instant.
pub open spec fn expiry_at(now: u64, ttl: u64) -> u64 {
    if now + ttl <= u64::MAX {
        (now + ttl) as u64
    } else {
        u64::MAX
    }
}

impl<V> CacheEntry<V> {
    /// Makes an entry that is valid from `now` for `ttl` nanoseconds.
    pub fn new(value: V, now: u64, ttl: u64) -> (e: Self)
        ensures
            e == (CacheEntry { expiry: expiry_at(now, ttl), value }),
    {
        let expiry: u64 = if ttl <= u64::MAX - now {
            now + ttl
        } else {
            u64::MAX
        };
        CacheEntry { expiry, value }
    }
}

/// A time-to-live in nanoseconds, rounded down to whole seconds and
/// saturated into `u32`.
pub open spec fn spec_ttl_secs(ttl: u64) -> u32 {
    if ttl / 1_000_000_000 <= u32::MAX {
        (ttl / 1_000_000_000) as u32
    } else {
        u32::MAX
    }
}

/// No two pairs in `s` carry the same key model.
pub open spec fn keys_distinct<K: DeepView, V>(s: Seq<(K, CacheEntry<V>)>) -> bool {
    forall|i: int, j: int|
        #![trigger s[i].0.deep_view(), s[j].0.deep_view()]
        0 <= i < j < s.len() ==> s[i].0.deep_view() != s[j].0.deep_view()
}

/// Some pair in `s` carries the key model `kd`.
pub open spec fn seq_has_key<K: DeepView, V>(
    s: Seq<(K, CacheEntry<V>)>,
    kd: <K as DeepView>::V,
) -> bool {
    exists|i: int| 0 <= i < s.len() && (#[trigger] s[i].0.deep_view()) == kd
}

/// An index of a pair in `s` carrying the key model `kd`.
pub open spec fn seq_key_index<K: DeepView, V>(
    s: Seq<(K, CacheEntry<V>)>,
    kd: <K as DeepView>::V,
) -> int {
    choose|i: int| 0 <= i < s.len() && (#[trigger] s[i].0.deep_view()) == kd
}

/// The abstract contents of an entry list: a map from key models to entries.
pub open spec fn map_of<K: DeepView, V>(
    s: Seq<(K, CacheEntry<V>)>,
) -> Map<<K as DeepView>::V, CacheEntry<V>> {
    Map::new(|kd: <K as DeepView>::V| seq_has_key(s, kd), |kd: <K as DeepView>::V| s[seq_key_index(s, kd)].1)
}

/// What a read of key model `kd` at instant `now` yields from contents `m`.
pub open spec fn lookup<KD, V>(m: Map<KD, CacheEntry<V>>, kd: KD, now: u64) -> CacheResult<V> {
    if m.contains_key(kd) {
        if m[kd].expiry >= now {
            CacheResult::Cached(m[kd].value)
        } else {
            CacheResult::Invalid
        }
    } else {
        CacheResult::Empty
    }
}

/// Whether the borrowed result `r` reports exactly the abstract read result
/// `res`.
pub open spec fn read_reports<V>(r: CacheResult<&V>, res: CacheResult<V>) -> bool {
    match r {
        CacheResult::Cached(v) => res == CacheResult::Cached(*v),
        CacheResult::Invalid => res is Invalid,
        CacheResult::Empty => res is Empty,
    }
}

/// The pair `p` occurs in `s` at some index below `bound`.
pub open spec fn occurs_before<K: DeepView, V>(
    s: Seq<(K, CacheEntry<V>)>,
    p: (K, CacheEntry<V>),
    bound: int,
) -> bool {
    exists|i: int| 0 <= i < bound && (#[trigger] s[i]) == p
}

/// The sweep relation: `post` holds exactly the entries of `pre` that were
/// still valid at `now`, unchanged.
pub open spec fn swept<KD, V>(
    pre: Map<KD, CacheEntry<V>>,
    post: Map<KD, CacheEntry<V>>,
    now: u64,
) -> bool {
    &&& forall|kd: KD|
        #![trigger post.contains_key(kd)]
        #![trigger pre.contains_key(kd)]
        post.contains_key(kd) <==> (pre.contains_key(kd) && pre[kd].expiry >= now)
    &&& forall|kd: KD| #[trigger] post.contains_key(kd) ==> post[kd] == pre[kd]
}

/// Time-based cache, storing each value for a fixed time-to-live.
pub struct Cache<K, V> {
    entries: Vec<(K, CacheEntry<V>)>,
    ttl: u64,
}

impl<K: DeepView + PartialEq, V> View for Cache<K, V> {
    type V = Map<<K as DeepView>::V, CacheEntry<V>>;

    closed spec fn view(&self) -> Self::V {
        map_of(self.entries@)
    }
}

/// Relies on `std::time::SystemTime::now`, read as whole nanoseconds since
/// the Unix epoch (saturated into `u64`, and 0 for a clock before the epoch).
/// Nothing is assumed of the value: the wall clock is outside this crate's
/// control, and every caller states what holds whatever instant comes back.
#[verifier::external_body]
fn now_nanos() -> u64 {
    match std::time::SystemTime::now().duration_since(std::time::UNIX_EPOCH) {
        Ok(d) => u64::try_from(d.as_nanos()).unwrap_or(u64::MAX),
        Err(_) => 0,
    }
}

proof fn lemma_map_of_contains<K: DeepView, V>(s: Seq<(K, CacheEntry<V>)>, kd: <K as DeepView>::V)
    ensures
        map_of(s).contains_key(kd) <==> seq_has_key(s, kd),
{
}

proof fn lemma_map_of_index<K: DeepView, V>(s: Seq<(K, CacheEntry<V>)>, i: int)
    requires
        keys_distinct(s),
        0 <= i < s.len(),
    ensures
        map_of(s).contains_key(s[i].0.deep_view()),
        map_of(s)[s[i].0.deep_view()] == s[i].1,
{
    let kd = s[i].0.deep_view();
    assert(seq_has_key(s, kd));
    let j = seq_key_index(s, kd);
    assert(0 <= j < s.len() && s[j].0.deep_view() == kd);
    if i < j {
        assert(s[i].0.deep_view() != s[j].0.deep_view());
    } else if j < i {
        assert(s[j].0.deep_view() != s[i].0.deep_view());
    }
}

impl<K: DeepView + PartialEq, V> Cache<K, V> {
    /// The entries are well formed: no key model occurs twice.
    pub closed spec fn wf(&self) -> bool {
        keys_distinct(self.entries@)
    }

    /// The cache holds no entry at all.
    pub open spec fn spec_empty(&self) -> bool {
        self@ == Map::<<K as DeepView>::V, CacheEntry<V>>::empty()
    }

    /// The cache's time-to-live, in nanoseconds.
    pub closed spec fn spec_ttl(&self) -> u64 {
        self.ttl
    }

    /// Creates a new, empty cache whose entries live for `ttl` nanoseconds.
    pub fn with_ttl_nanos(ttl: u64) -> (c: Self)
        ensures
            c.wf(),
            c@ == Map::<<K as DeepView>::V, CacheEntry<V>>::empty(),
            c.spec_ttl() == ttl,
    {
        let c = Cache { entries: Vec::new(), ttl };
        proof {
            assert forall|kd: <K as DeepView>::V| !map_of(c.entries@).contains_key(kd) by {
                lemma_map_of_contains(c.entries@, kd);
            }
            assert(map_of(c.entries@) =~= Map::<<K as DeepView>::V, CacheEntry<V>>::empty());
        }
        c
    }

    /// Creates a new, empty cache whose entries live for `duration`,
    /// saturated into whole nanoseconds.
    pub fn new(duration: Duration) -> (c: Self)
        ensures
            c.wf(),
            c.spec_empty(),
            c.spec_ttl() == spec_duration_ttl(duration),
    {
        let nanos = duration.as_nanos();
        let ttl: u64 = if nanos > u64::MAX as u128 {
            u64::MAX
        } else {
            nanos as u64
        };
        Self::with_ttl_nanos(ttl)
    }

    /// The time-to-live rounded down to whole seconds, saturated into `u32`.
    pub fn ttl_secs(&self) -> (r: u32)
        ensures
            r == spec_ttl_secs(self.spec_ttl()),
    {
        let s = self.ttl / 1_000_000_000;
        if s > u32::MAX as u64 {
            u32::MAX
        } else {
            s as u32
        }
    }

    fn find_index(&self, key: &K) -> (r: Option<usize>)
        requires
            obeys_deep_eq::<K>(),
        ensures
            match r {
                Some(i) => i < self.entries@.len()
                    && self.entries@[i as int].0.deep_view() == key.deep_view(),
                None => !seq_has_key(self.entries@, key.deep_view()),
            },
    {
        let n = self.entries.len();
        let mut i: usize = 0;
        while i < n
            invariant
                obeys_deep_eq::<K>(),
                n == self.entries@.len(),
                i <= n,
                forall|j: int| 0 <= j < i ==> (#[trigger] self.entries@[j].0.deep_view())
                    != key.deep_view(),
            decreases n - i,
        {
            let hit = self.entries[i].0 == *key;
            proof {
                reveal(vstd::laws_eq::obeys_deep_eq);
            }
            if hit {
                return Some(i);
            }
            i += 1;
        }
        None
    }

    /// Looks a key up as of the instant `now`: `Cached` with the stored value
    /// while the entry is live, `Invalid` once its expiry has passed, and
    /// `Empty` when the key is absent.
    pub fn get_at(&self, key: &K, now: u64) -> (r: CacheResult<&V>)
        requires
            self.wf(),
            obeys_deep_eq::<K>(),
        ensures
            read_reports(r, lookup(self@, key.deep_view(), now)),
    {
        match self.find_index(key) {
            Some(i) => {
                proof {
                    lemma_map_of_index(self.entries@, i as int);
                }
                let e = &self.entries[i].1;
                if e.expiry >= now {
                    CacheResult::Cached(&e.value)
                } else {
                    CacheResult::Invalid
                }
            },
            None => {
                proof {
                    lemma_map_of_contains(self.entries@, key.deep_view());
                }
                CacheResult::Empty
            },
        }
    }

    /// Looks a key up as of the present wall-clock instant. Whichever instant
    /// the clock reports, the result is exact for it: the value handed back
    /// by `Cached` is the stored one, and `Empty` appears exactly when the
    /// key is absent.
    pub fn get(&self, key: &K) -> (r: CacheResult<&V>)
        requires
            self.wf(),
            obeys_deep_eq::<K>(),
        ensures
            exists|now: u64| #[trigger] read_reports(r, lookup(self@, key.deep_view(), now)),
            (r is Empty) <==> !self@.contains_key(key.deep_view()),
            r matches CacheResult::Cached(v) ==> *v == self@[key.deep_view()].value,
    {
        let now = now_nanos();
        let r = self.get_at(key, now);
        proof {
            assert(read_reports(r, lookup(self@, key.deep_view(), now)));
        }
        r
    }

    fn take(&mut self, key: &K) -> (r: Option<(K, CacheEntry<V>)>)
        requires
            old(self).wf(),
            obeys_deep_eq::<K>(),
        ensures
            final(self).wf(),
            final(self).spec_ttl() == old(self).spec_ttl(),
            final(self)@ == old(self)@.remove(key.deep_view()),
            match r {
                Some(p) => old(self)@.contains_key(key.deep_view())
                    && p.1 == old(self)@[key.deep_view()],
                None => !old(self)@.contains_key(key.deep_view()),
            },
    {
        let ghost s0 = self.entries@;
        let ghost kd = key.deep_view();
        match self.find_index(key) {
            Some(i) => {
                proof {
                    lemma_map_of_index(s0, i as int);
                }
                let p = self.entries.swap_remove(i);
                proof {
                    lemma_swap_remove_model(s0, i as int);
                }
                Some(p)
            },
            None => {
                proof {
                    lemma_map_of_contains(s0, kd);
                    assert(old(self)@.remove(kd) =~= old(self)@);
                }
                None
            },
        }
    }

    fn push_entry(&mut self, key: K, e: CacheEntry<V>)
        requires
            old(self).wf(),
            !old(self)@.contains_key(key.deep_view()),
        ensures
            final(self).wf(),
            final(self).spec_ttl() == old(self).spec_ttl(),
            final(self)@ == old(self)@.insert(key.deep_view(), e),
    {
        let ghost s0 = self.entries@;
        let ghost kd = key.deep_view();
        proof {
            lemma_map_of_contains(s0, kd);
        }
        self.entries.push((key, e));
        proof {
            lemma_push_model(s0, (key, e));
        }
    }

    /// Stores an item as of the instant `now`, overwriting any previous entry
    /// for the key; the fresh entry expires at `now + ttl`. Returns the
    /// previously stored value, if any.
    pub fn store_at(&mut self, key: K, value: V, now: u64) -> (prev: Option<V>)
        requires
            old(self).wf(),
            obeys_deep_eq::<K>(),
        ensures
            final(self).wf(),
            final(self).spec_ttl() == old(self).spec_ttl(),
            final(self)@ == old(self)@.insert(
                key.deep_view(),
                (CacheEntry { expiry: expiry_at(now, old(self).spec_ttl()), value }),
            ),
            prev == (if old(self)@.contains_key(key.deep_view()) {
                Some(old(self)@[key.deep_view()].value)
            } else {
                None::<V>
            }),
    {
        let ghost kd = key.deep_view();
        let ghost m0 = old(self)@;
        let taken = self.take(&key);
        let ttl = self.ttl;
        let e = CacheEntry::new(value, now, ttl);
        self.push_entry(key, e);
        proof {
            assert(m0.remove(kd).insert(kd, e) =~= m0.insert(kd, e));
        }
        match taken {
            Some(p) => Some(p.1.value),
            None => None,
        }
    }

    /// Stores an item as of the present wall-clock instant. The key maps to
    /// the stored value afterwards, every other key is untouched, and the
    /// previously stored value, if any, is returned.
    pub fn store(&mut self, key: K, value: V) -> (prev: Option<V>)
        requires
            old(self).wf(),
            obeys_deep_eq::<K>(),
        ensures
            final(self).wf(),
            final(self).spec_ttl() == old(self).spec_ttl(),
            final(self)@.contains_key(key.deep_view()),
            final(self)@[key.deep_view()].value == value,
            final(self)@.remove(key.deep_view()) == old(self)@.remove(key.deep_view()),
            exists|now: u64|
                final(self)@ == old(self)@.insert(
                    key.deep_view(),
                    (CacheEntry { expiry: expiry_at(now, old(self).spec_ttl()), value }),
                ),
            prev == (if old(self)@.contains_key(key.deep_view()) {
                Some(old(self)@[key.deep_view()].value)
            } else {
                None::<V>
            }),
    {
        let ghost kd = key.deep_view();
        let ghost m0 = old(self)@;
        let now = now_nanos();
        let prev = self.store_at(key, value, now);
        proof {
            assert(final(self)@.remove(kd) =~= m0.remove(kd));
        }
        prev
    }

    /// Removes an item. Returns `true` exactly when the key was present; a
    /// later read of the key yields `Empty` either way.
    pub fn invalidate(&mut self, key: &K) -> (was: bool)
        requires
            old(self).wf(),
            obeys_deep_eq::<K>(),
        ensures
            final(self).wf(),
            final(self).spec_ttl() == old(self).spec_ttl(),
            was == old(self)@.contains_key(key.deep_view()),
            final(self)@ == old(self)@.remove(key.deep_view()),
    {
        self.take(key).is_some()
    }

    /// Sweeps the cache as of the instant `now`: every entry whose expiry has
    /// passed is removed, every still-valid entry stays unchanged.
    #[verifier::rlimit(50)]
    pub fn clear_at(&mut self, now: u64)
        requires
            old(self).wf(),
        ensures
            final(self).wf(),
            final(self).spec_ttl() == old(self).spec_ttl(),
            swept(old(self)@, final(self)@, now),
    {
        let ghost s0 = self.entries@;
        let ghost ttl0 = self.ttl;
        let len0 = self.entries.len();
        let ghost n = s0.len() as int;
        let mut kept: Vec<(K, CacheEntry<V>)> = Vec::new();
        let mut done: usize = 0;
        proof {
            assert(n == len0 as int);
        }
        while self.entries.len() > 0
            invariant
                self.ttl == ttl0,
                keys_distinct(s0),
                n == s0.len(),
                n <= usize::MAX,
                done + self.entries@.len() == n,
                self.entries@ == s0.subrange(done as int, n),
                keys_distinct(kept@),
                forall|j: int| 0 <= j < kept@.len() ==> occurs_before(s0, #[trigger] kept@[j], done as int)
                    && kept@[j].1.expiry >= now,
                forall|i: int| 0 <= i < done && (#[trigger] s0[i].1.expiry) >= now
                    ==> occurs_before(kept@, s0[i], kept@.len() as int),
            decreases self.entries@.len(),
        {
            let ghost kept0 = kept@;
            let ghost d = done as int;
            let p = self.entries.remove(0);
            proof {
                assert(p == s0.subrange(d, n)[0]);
                assert(p == s0[d]);
                assert(self.entries@ =~= s0.subrange(d + 1, n));
            }
            if p.1.expiry >= now {
                proof {
                    assert forall|j: int| 0 <= j < kept0.len() implies
                        (#[trigger] kept0[j].0.deep_view()) != s0[d].0.deep_view() by {
                        let i = choose|i: int| 0 <= i < d && (#[trigger] s0[i]) == kept0[j];
                        assert(s0[i].0.deep_view() != s0[d].0.deep_view());
                    }
                }
                kept.push(p);
                proof {
                    assert(kept@ == kept0.push(p));
                    assert(kept@[kept0.len() as int] == s0[d]);
                    assert forall|j: int| 0 <= j < kept@.len() implies
                        occurs_before(s0, #[trigger] kept@[j], d + 1)
                        && kept@[j].1.expiry >= now by {
                        if j < kept0.len() {
                            assert(kept@[j] == kept0[j]);
                            let i = choose|i: int| 0 <= i < d && (#[trigger] s0[i]) == kept0[j];
                            assert(0 <= i < d + 1 && s0[i] == kept@[j]);
                        } else {
                            assert(kept@[j] == s0[d]);
                            assert(0 <= d < d + 1 && s0[d] == kept@[j]);
                        }
                    }
                    assert forall|i: int| 0 <= i < d + 1 && (#[trigger] s0[i].1.expiry) >= now
                        implies occurs_before(kept@, s0[i], kept@.len() as int) by {
                        if i < d {
                            let j = choose|j: int| 0 <= j < kept0.len() && (#[trigger] kept0[j]) == s0[i];
                            assert(kept@[j] == s0[i]);
                        } else {
                            assert(kept@[kept0.len() as int] == s0[i]);
                        }
                    }
                }
            } else {
                proof {
                    assert forall|i: int| 0 <= i < d + 1 && (#[trigger] s0[i].1.expiry) >= now
                        implies occurs_before(kept@, s0[i], kept@.len() as int) by {
                        assert(i < d);
                    }
                }
            }
            done += 1;
        }
        self.entries = kept;
        proof {
            assert(done as int == n);
            lemma_swept_from_partition(s0, self.entries@, now);
        }
    }

    /// Sweeps the cache as of the present wall-clock instant: at that
    /// instant, expired entries are removed and valid entries kept.
    pub fn clear(&mut self)
        requires
            old(self).wf(),
        ensures
            final(self).wf(),
            final(self).spec_ttl() == old(self).spec_ttl(),
            exists|now: u64| swept(old(self)@, final(self)@, now),
    {
        let now = now_nanos();
        self.clear_at(now);
    }
}

proof fn lemma_swap_remove_model<K: DeepView, V>(s: Seq<(K, CacheEntry<V>)>, i: int)
    requires
        keys_distinct(s),
        0 <= i < s.len(),
    ensures
        keys_distinct(s.update(i, s.last()).drop_last()),
        map_of(s.update(i, s.last()).drop_last()) == map_of(s).remove(s[i].0.deep_view()),
{
    let s2 = s.update(i, s.last()).drop_last();
    let n = s.len() as int;
    let kd0 = s[i].0.deep_view();
    assert(forall|j: int| 0 <= j < n - 1 ==> (#[trigger] s2[j]) == (if j == i {
        s[n - 1]
    } else {
        s[j]
    }));
    assert forall|a: int, b: int|
        #![trigger s2[a].0.deep_view(), s2[b].0.deep_view()]
        0 <= a < b < s2.len() implies s2[a].0.deep_view() != s2[b].0.deep_view() by {
        let fa: int = if a == i { n - 1 } else { a };
        let fb: int = if b == i { n - 1 } else { b };
        assert(s2[a] == s[fa] && s2[b] == s[fb]);
        assert(fa != fb);
        if fa < fb {
            assert(s[fa].0.deep_view() != s[fb].0.deep_view());
        } else {
            assert(s[fb].0.deep_view() != s[fa].0.deep_view());
        }
    }
    assert forall|kd: <K as DeepView>::V| #[trigger]
        map_of(s2).contains_key(kd) implies map_of(s).remove(kd0).contains_key(kd)
        && map_of(s2)[kd] == map_of(s).remove(kd0)[kd] by {
        lemma_map_of_contains(s2, kd);
        let j = choose|j: int| 0 <= j < s2.len() && (#[trigger] s2[j].0.deep_view()) == kd;
        let fj: int = if j == i { n - 1 } else { j };
        assert(s2[j] == s[fj]);
        lemma_map_of_index(s, fj);
        lemma_map_of_index(s2, j);
        if fj < i {
            assert(s[fj].0.deep_view() != s[i].0.deep_view());
        } else if i < fj {
            assert(s[i].0.deep_view() != s[fj].0.deep_view());
        }
        assert(kd != kd0);
    }
    assert forall|kd: <K as DeepView>::V| #[trigger]
        map_of(s).remove(kd0).contains_key(kd) implies map_of(s2).contains_key(kd) by {
        lemma_map_of_contains(s, kd);
        let j = choose|j: int| 0 <= j < s.len() && (#[trigger] s[j].0.deep_view()) == kd;
        assert(kd != kd0);
        assert(j != i);
        let gj: int = if j == n - 1 { i } else { j };
        if j == n - 1 {
            assert(i < n - 1);
        }
        assert(s2[gj] == s[j]);
        lemma_map_of_contains(s2, kd);
    }
    assert(map_of(s2) =~= map_of(s).remove(kd0));
}

proof fn lemma_push_model<K: DeepView, V>(s: Seq<(K, CacheEntry<V>)>, p: (K, CacheEntry<V>))
    requires
        keys_distinct(s),
        !seq_has_key(s, p.0.deep_view()),
    ensures
        keys_distinct(s.push(p)),
        map_of(s.push(p)) == map_of(s).insert(p.0.deep_view(), p.1),
{
    let s2 = s.push(p);
    let n = s.len() as int;
    let kd0 = p.0.deep_view();
    assert forall|a: int, b: int|
        #![trigger s2[a].0.deep_view(), s2[b].0.deep_view()]
        0 <= a < b < s2.len() implies s2[a].0.deep_view() != s2[b].0.deep_view() by {
        if b < n {
            assert(s2[a] == s[a] && s2[b] == s[b]);
            assert(s[a].0.deep_view() != s[b].0.deep_view());
        } else {
            assert(s2[b] == p && s2[a] == s[a]);
            assert(s[a].0.deep_view() != kd0);
        }
    }
    assert forall|kd: <K as DeepView>::V| #[trigger]
        map_of(s2).contains_key(kd) implies map_of(s).insert(kd0, p.1).contains_key(kd)
        && map_of(s2)[kd] == map_of(s).insert(kd0, p.1)[kd] by {
        lemma_map_of_contains(s2, kd);
        let j = choose|j: int| 0 <= j < s2.len() && (#[trigger] s2[j].0.deep_view()) == kd;
        lemma_map_of_index(s2, j);
        if j < n {
            assert(s2[j] == s[j]);
            lemma_map_of_index(s, j);
            assert(kd != kd0);
        } else {
            assert(s2[j] == p);
            assert(kd == kd0);
        }
    }
    assert forall|kd: <K as DeepView>::V| #[trigger]
        map_of(s).insert(kd0, p.1).contains_key(kd) implies map_of(s2).contains_key(kd) by {
        if kd == kd0 {
            assert(s2[n].0.deep_view() == kd);
            lemma_map_of_contains(s2, kd);
        } else {
            lemma_map_of_contains(s, kd);
            let j = choose|j: int| 0 <= j < s.len() && (#[trigger] s[j].0.deep_view()) == kd;
            assert(s2[j] == s[j]);
            lemma_map_of_contains(s2, kd);
        }
    }
    assert(map_of(s2) =~= map_of(s).insert(kd0, p.1));
}

proof fn lemma_swept_from_partition<K: DeepView, V>(
    s0: Seq<(K, CacheEntry<V>)>,
    kept: Seq<(K, CacheEntry<V>)>,
    now: u64,
)
    requires
        keys_distinct(s0),
        keys_distinct(kept),
        forall|j: int| 0 <= j < kept.len() ==> occurs_before(s0, #[trigger] kept[j], s0.len() as int)
            && kept[j].1.expiry >= now,
        forall|i: int| 0 <= i < s0.len() && (#[trigger] s0[i].1.expiry) >= now
            ==> occurs_before(kept, s0[i], kept.len() as int),
    ensures
        swept(map_of(s0), map_of(kept), now),
{
    assert forall|kd: <K as DeepView>::V| #[trigger]
        map_of(kept).contains_key(kd) implies map_of(s0).contains_key(kd)
        && map_of(s0)[kd].expiry >= now && map_of(kept)[kd] == map_of(s0)[kd] by {
        lemma_map_of_contains(kept, kd);
        let j = choose|j: int| 0 <= j < kept.len() && (#[trigger] kept[j].0.deep_view()) == kd;
        lemma_map_of_index(kept, j);
        let i = choose|i: int| 0 <= i < s0.len() && (#[trigger] s0[i]) == kept[j];
        lemma_map_of_index(s0, i);
    }
    assert forall|kd: <K as DeepView>::V|
        map_of(s0).contains_key(kd) && (#[trigger] map_of(s0)[kd].expiry) >= now implies
        map_of(kept).contains_key(kd) by {
        lemma_map_of_contains(s0, kd);
        let i = choose|i: int| 0 <= i < s0.len() && (#[trigger] s0[i].0.deep_view()) == kd;
        lemma_map_of_index(s0, i);
        assert(s0[i].1.expiry >= now);
        assert(occurs_before(kept, s0[i], kept.len() as int));
        let j = choose|j: int| 0 <= j < kept.len() && (#[trigger] kept[j]) == s0[i];
        assert(kept[j].0.deep_view() == kd);
        lemma_map_of_contains(kept, kd);
    }
}

/// Law: storing a value and reading the same key back while the entry is
/// still within its time-to-live yields exactly the stored value.
pub proof fn lemma_store_then_get<KD, V>(
    m: Map<KD, CacheEntry<V>>,
    kd: KD,
    v: V,
    stored_at: u64,
    ttl: u64,
    read_at: u64,
)
    requires
        read_at <= expiry_at(stored_at, ttl),
    ensures
        lookup(
            m.insert(kd, (CacheEntry { expiry: expiry_at(stored_at, ttl), value: v })),
            kd,
            read_at,
        ) == CacheResult::Cached(v),
{
}

/// Law: once the time-to-live has elapsed, the stored entry reads as
/// `Invalid`, and a sweep performed at such an instant removes it, so that a
/// later read of the key yields `Empty`.
pub proof fn lemma_expire_then_sweep<KD, V>(
    m: Map<KD, CacheEntry<V>>,
    m2: Map<KD, CacheEntry<V>>,
    kd: KD,
    v: V,
    stored_at: u64,
    ttl: u64,
    read_at: u64,
)
    requires
        read_at > expiry_at(stored_at, ttl),
        swept(
            m.insert(kd, (CacheEntry { expiry: expiry_at(stored_at, ttl), value: v })),
            m2,
            read_at,
        ),
    ensures
        lookup(
            m.insert(kd, (CacheEntry { expiry: expiry_at(stored_at, ttl), value: v })),
            kd,
            read_at,
        ) == CacheResult::<V>::Invalid,
        lookup(m2, kd, read_at) == CacheResult::<V>::Empty,
{
}

/// Law: invalidation removes the key, so a read of it afterwards yields
/// `Empty`, whatever the instant.
pub proof fn lemma_invalidate_then_get<KD, V>(m: Map<KD, CacheEntry<V>>, kd: KD, now: u64)
    ensures
        !m.remove(kd).contains_key(kd),
        lookup(m.remove(kd), kd, now) == CacheResult::<V>::Empty,
{
}

/// Law: invalidation is idempotent — after one removal the key is absent, so
/// a second removal reports the key as missing and leaves the map unchanged.
pub proof fn lemma_invalidate_idempotent<KD, V>(m: Map<KD, CacheEntry<V>>, kd: KD)
    ensures
        !m.remove(kd).contains_key(kd),
        m.remove(kd).remove(kd) == m.remove(kd),
{
    assert(m.remove(kd).remove(kd) =~= m.remove(kd));
}

} // verus!
