//! A response store whose entries expire a fixed time after insertion.

use vstd::prelude::*;
use crate::text::eq_text;

verus! {

/// How long a cached response is served, in milliseconds.
pub const CACHE_TTL_MS: u64 = 60_000;

/// An entry inserted at `inserted_at` is still served at `now`: its age is
/// below `ttl`. Expiry counts from insertion; reads do not extend it.
pub open spec fn is_live(inserted_at: u64, now: u64, ttl: u64) -> bool {
    (now as int) - (inserted_at as int) < ttl as int
}

/// What a lookup of `key` at `now` finds in a store holding `contents`.
pub open spec fn lookup<V>(contents: Map<Seq<char>, (V, u64)>, key: Seq<char>, now: u64, ttl: u64) -> Option<V> {
    if contents.contains_key(key) && is_live(contents[key].1, now, ttl) {
        Some(contents[key].0)
    } else {
        None
    }
}

/// An entry inserted at `t0` is found at every later time `t` while less than
/// the time to live has passed since `t0`, and is absent once it has passed.
pub proof fn expiry_counts_from_insertion<V>(
    contents: Map<Seq<char>, (V, u64)>,
    key: Seq<char>,
    value: V,
    t0: u64,
    t: u64,
    ttl: u64,
)
    requires
        t0 <= t,
    ensures
        t - t0 < ttl ==> lookup(contents.insert(key, (value, t0)), key, t, ttl) == Some(value),
        t - t0 >= ttl ==> lookup(contents.insert(key, (value, t0)), key, t, ttl) == None::<V>,
{
}

/// The entries of `contents` that are still live at `now`.
pub open spec fn live_part<V>(contents: Map<Seq<char>, (V, u64)>, now: u64, ttl: u64) -> Map<Seq<char>, (V, u64)> {
    contents.restrict(contents.dom().filter(|k: Seq<char>| is_live(contents[k].1, now, ttl)))
}

/// One stored value with its key and the time it was inserted.
pub struct CacheEntry<V> {
    pub key: String,
    pub value: V,
    pub inserted_at: u64,
}

/// A map from keys to values, each entry served for `ttl` milliseconds after
/// it was inserted and then treated as absent. There is no capacity bound:
/// expired entries are dropped by `purge_expired`.
pub struct TtlCache<V> {
    entries: Vec<CacheEntry<V>>,
    ttl_ms: u64,
    contents: Ghost<Map<Seq<char>, (V, u64)>>,
}

fn is_live_at(inserted_at: u64, now: u64, ttl: u64) -> (r: bool)
    ensures
        r == is_live(inserted_at, now, ttl),
{
    now < inserted_at || now - inserted_at < ttl
}

impl<V> TtlCache<V> {
    /// Each key, with its value and insertion time.
    pub closed spec fn view(&self) -> Map<Seq<char>, (V, u64)> {
        self.contents@
    }

    /// The time to live of every entry.
    pub closed spec fn ttl(&self) -> u64 {
        self.ttl_ms
    }

    /// Keys are distinct and the entries are exactly the contents.
    pub closed spec fn wf(&self) -> bool {
        &&& forall|i: int, j: int|
            0 <= i < j < self.entries@.len() ==> self.entries@[i].key@ != self.entries@[j].key@
        &&& forall|i: int|
            0 <= i < self.entries@.len() ==> {
                &&& self.contents@.contains_key(#[trigger] self.entries@[i].key@)
                &&& self.contents@[self.entries@[i].key@] == (
                self.entries@[i].value,
                self.entries@[i].inserted_at,
            )
            }
        &&& forall|k: Seq<char>|
            #[trigger] self.contents@.contains_key(k) ==> exists|i: int|
                0 <= i < self.entries@.len() && self.entries@[i].key@ == k
    }

    /// An empty store whose entries live `ttl_ms` milliseconds.
    pub fn new(ttl_ms: u64) -> (c: TtlCache<V>)
        ensures
            c.wf(),
            c@ == Map::<Seq<char>, (V, u64)>::empty(),
            c.ttl() == ttl_ms,
    {
        TtlCache { entries: Vec::new(), ttl_ms, contents: Ghost(Map::empty()) }
    }

    /// The time to live of every entry.
    pub fn ttl_ms(&self) -> (r: u64)
        ensures
            r == self.ttl(),
    {
        self.ttl_ms
    }

    /// The number of entries held, live or expired.
    pub fn len(&self) -> (r: usize)
        requires
            self.wf(),
        ensures
            r == self@.len(),
    {
        proof {
            self.lemma_dom_len();
        }
        self.entries.len()
    }

    proof fn lemma_dom_len(&self)
        requires
            self.wf(),
        ensures
            self@.dom().finite(),
            self@.len() == self.entries@.len(),
        decreases self.entries@.len(),
    {
        let keys = self.entries@.map_values(|e: CacheEntry<V>| e.key@);
        assert forall|i: int, j: int| 0 <= i < j < keys.len() implies keys[i] != keys[j] by {
            assert(keys[i] == self.entries@[i].key@);
            assert(keys[j] == self.entries@[j].key@);
        }
        assert(keys.no_duplicates());
        assert forall|k: Seq<char>| self@.dom().contains(k) <==> keys.to_set().contains(k) by {
            if self@.dom().contains(k) {
                let i = choose|i: int| 0 <= i < self.entries@.len() && self.entries@[i].key@ == k;
                assert(keys[i] == k);
            }
            if keys.to_set().contains(k) {
                let i = choose|i: int| 0 <= i < keys.len() && keys[i] == k;
                assert(self.contents@.contains_key(self.entries@[i].key@));
            }
        }
        assert(self@.dom() =~= keys.to_set());
        keys.unique_seq_to_set();
    }

    fn find(&self, key: &str) -> (r: Option<usize>)
        requires
            self.wf(),
        ensures
            r.is_some() == self@.contains_key(key@),
            r.is_some() ==> r.unwrap() < self.entries@.len() && self.entries@[r.unwrap() as int].key@ == key@,
    {
        let n = self.entries.len();
        let mut i: usize = 0;
        while i < n
            invariant
                self.wf(),
                n == self.entries@.len(),
                i <= n,
                forall|k: int| 0 <= k < i ==> self.entries@[k].key@ != key@,
            decreases n - i,
        {
            if eq_text(self.entries[i].key.as_str(), key) {
                assert(self.contents@.contains_key(self.entries@[i as int].key@));
                return Some(i);
            }
            i = i + 1;
        }
        proof {
            if self@.contains_key(key@) {
                let j = choose|j: int| 0 <= j < self.entries@.len() && self.entries@[j].key@ == key@;
                assert(self.entries@[j].key@ == key@);
            }
        }
        None
    }

    /// The value stored under `key`, unless it is absent or has expired at `now`.
    pub fn get(&self, key: &str, now: u64) -> (r: Option<&V>)
        requires
            self.wf(),
        ensures
            r.is_some() == lookup(self@, key@, now, self.ttl()).is_some(),
            r.is_some() ==> *r.unwrap() == lookup(self@, key@, now, self.ttl()).unwrap(),
    {
        match self.find(key) {
            Some(i) => {
                let e = &self.entries[i];
                assert(self.contents@.contains_key(self.entries@[i as int].key@));
                if is_live_at(e.inserted_at, now, self.ttl_ms) {
                    Some(&e.value)
                } else {
                    None
                }
            },
            None => None,
        }
    }

    proof fn lemma_remove_at(old_self: &Self, new_self: &Self, i: int)
        requires
            old_self.wf(),
            0 <= i < old_self.entries@.len(),
            new_self.entries@ == old_self.entries@.update(i, old_self.entries@.last()).drop_last(),
            new_self.contents@ == old_self.contents@.remove(old_self.entries@[i].key@),
            new_self.ttl_ms == old_self.ttl_ms,
        ensures
            new_self.wf(),
    {
        let olds = old_self.entries@;
        let news = new_self.entries@;
        let last = olds.len() - 1;
        let gone = olds[i].key@;
        assert forall|a: int| 0 <= a < news.len() implies news[a] == olds[if a == i { last } else { a }] by {}
        assert forall|a: int, b: int| 0 <= a < b < news.len() implies news[a].key@ != news[b].key@ by {
            let fa = if a == i { last } else { a };
            let fb = if b == i { last } else { b };
            assert(news[a] == olds[fa]);
            assert(news[b] == olds[fb]);
            if fa < fb {
            } else {
                assert(fb < fa);
            }
        }
        assert forall|a: int| 0 <= a < news.len() implies {
            &&& new_self.contents@.contains_key(#[trigger] news[a].key@)
            &&& new_self.contents@[news[a].key@] == (news[a].value, news[a].inserted_at)
        } by {
            let fa = if a == i { last } else { a };
            assert(news[a] == olds[fa]);
            assert(fa != i);
            assert(old_self.contents@.contains_key(olds[fa].key@));
        }
        assert forall|k: Seq<char>| #[trigger] new_self.contents@.contains_key(k) implies exists|a: int|
            0 <= a < news.len() && news[a].key@ == k by {
            assert(old_self.contents@.contains_key(k));
            let j = choose|j: int| 0 <= j < olds.len() && olds[j].key@ == k;
            assert(j != i);
            if j == last {
                assert(news[i].key@ == k);
            } else {
                assert(news[j].key@ == k);
            }
        }
    }

    /// Drops every entry that has expired at `now`; live entries stay as they are.
    pub fn purge_expired(&mut self, now: u64)
        requires
            old(self).wf(),
        ensures
            final(self).wf(),
            final(self).ttl() == old(self).ttl(),
            final(self)@ == live_part(old(self)@, now, old(self).ttl()),
    {
        let ghost start = self.contents@;
        let ttl = self.ttl_ms;
        let mut i: usize = 0;
        while i < self.entries.len()
            invariant
                self.wf(),
                self.ttl_ms == ttl,
                ttl == old(self).ttl_ms,
                start == old(self).contents@,
                i <= self.entries@.len(),
                forall|j: int| 0 <= j < i ==> is_live(#[trigger] self.entries@[j].inserted_at, now, ttl),
                forall|k: Seq<char>| #[trigger] self.contents@.contains_key(k) ==> start.contains_key(k)
                    && self.contents@[k] == start[k],
                forall|k: Seq<char>| #[trigger] start.contains_key(k) && is_live(start[k].1, now, ttl)
                    ==> self.contents@.contains_key(k),
            decreases self.entries@.len() - i,
        {
            if is_live_at(self.entries[i].inserted_at, now, ttl) {
                i = i + 1;
            } else {
                let ghost before = *self;
                let ghost gone = self.entries@[i as int].key@;
                assert(self.contents@.contains_key(gone));
                let _expired = self.entries.swap_remove(i);
                self.contents = Ghost(before.contents@.remove(gone));
                proof {
                    TtlCache::lemma_remove_at(&before, self, i as int);
                    assert forall|j: int| 0 <= j < i implies is_live(#[trigger] self.entries@[j].inserted_at, now, ttl) by {
                        assert(self.entries@[j] == before.entries@[j]);
                    }
                }
            }
        }
        proof {
            let target = live_part(start, now, ttl);
            assert forall|k: Seq<char>| #[trigger] self.contents@.contains_key(k) implies is_live(start[k].1, now, ttl) by {
                let j = choose|j: int| 0 <= j < self.entries@.len() && self.entries@[j].key@ == k;
                assert(self.contents@[self.entries@[j].key@] == (self.entries@[j].value, self.entries@[j].inserted_at));
                assert(is_live(self.entries@[j].inserted_at, now, ttl));
            }
            assert(self.contents@ =~= target);
        }
    }

    /// Stores `value` under `key` as inserted at `now`, replacing any earlier entry.
    pub fn insert(&mut self, key: String, value: V, now: u64)
        requires
            old(self).wf(),
        ensures
            final(self).wf(),
            final(self)@ == old(self)@.insert(key@, (value, now)),
            final(self).ttl() == old(self).ttl(),
    {
        let ghost k = key@;
        let ghost new_contents = self.contents@.insert(k, (value, now));
        let found = self.find(key.as_str());
        let entry = CacheEntry { key, value, inserted_at: now };
        match found {
            Some(i) => {
                self.entries.set(i, entry);
                self.contents = Ghost(new_contents);
                assert forall|kk: Seq<char>| #[trigger] self.contents@.contains_key(kk) implies exists|j: int|
                    0 <= j < self.entries@.len() && self.entries@[j].key@ == kk by {
                    if kk != k {
                        assert(old(self).contents@.contains_key(kk));
                        let j = choose|j: int| 0 <= j < old(self).entries@.len() && old(self).entries@[j].key@ == kk;
                        assert(self.entries@[j].key@ == kk);
                    } else {
                        assert(self.entries@[i as int].key@ == kk);
                    }
                }
            },
            None => {
                self.entries.push(entry);
                self.contents = Ghost(new_contents);
                let ghost last = self.entries@.len() - 1;
                assert forall|kk: Seq<char>| #[trigger] self.contents@.contains_key(kk) implies exists|j: int|
                    0 <= j < self.entries@.len() && self.entries@[j].key@ == kk by {
                    if kk != k {
                        assert(old(self).contents@.contains_key(kk));
                        let j = choose|j: int| 0 <= j < old(self).entries@.len() && old(self).entries@[j].key@ == kk;
                        assert(self.entries@[j].key@ == kk);
                    } else {
                        assert(self.entries@[last].key@ == kk);
                    }
                }
                assert forall|a: int, b: int| 0 <= a < b < self.entries@.len() implies self.entries@[a].key@
                    != self.entries@[b].key@ by {
                    if b == last {
                        assert(old(self).contents@.contains_key(old(self).entries@[a].key@));
                    }
                }
            },
        }
        assert(self.contents@ == old(self)@.insert(key@, (value, now)));
    }
}

} // verus!
