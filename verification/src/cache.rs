//! A cache whose entries expire.

use vstd::prelude::*;

use crate::duplicate::Duplicate;
use crate::text;

verus! {

/// `std::time::Instant`.
#[verifier::external_type_specification]
#[verifier::external_body]
pub struct ExInstant(std::time::Instant);

/// The longest time that a `std::time::Duration` can hold, in nanoseconds.
pub const LONGEST_NANOS: u128 = 18_446_744_073_709_551_615_999_999_999;

/// `std::time::Instant::now`: the reading of the clock, of which nothing is said.
#[verifier::external_body]
fn clock_reading() -> (r: std::time::Instant) {
    std::time::Instant::now()
}

/// `std::time::Instant::elapsed` in nanoseconds: the time since a reading of the clock,
/// whatever it is, fits a `std::time::Duration`.
#[verifier::external_body]
fn nanos_since(start: &std::time::Instant) -> (r: u128)
    ensures
        r <= LONGEST_NANOS,
{
    start.elapsed().as_nanos()
}

/// A value that entries can be found by.
pub trait CacheKey: DeepView + Sized {
    /// Whether two keys are the same.
    fn same_key(&self, other: &Self) -> (r: bool)
        ensures
            r == (self.deep_view() == other.deep_view()),
    ;
}

impl CacheKey for String {
    fn same_key(&self, other: &Self) -> (r: bool) {
        text::same(self.as_str(), other.as_str())
    }
}

/// What is kept under a key.
#[derive(Debug)]
struct Slot<K, V> {
    key: K,
    value: V,
    expires_at: u128,
}

/// The view of an entry: its value, and when it expires.
#[verifier::ext_equal]
pub struct EntryView<V> {
    pub value: V,
    pub expires_at: int,
}

/// A cache whose entries expire a fixed time after they were made. Time is counted in
/// nanoseconds since the cache was made.
#[derive(Debug)]
pub struct TtlCache<K: CacheKey, V: Duplicate> {
    ttl: u128,
    start: std::time::Instant,
    slots: Vec<Slot<K, V>>,
}

spec fn key_at<K: CacheKey, V: Duplicate>(slots: Seq<Slot<K, V>>, key: K::V, i: int) -> bool {
    0 <= i < slots.len() && slots[i].key.deep_view() == key
}

spec fn distinct_keys<K: CacheKey, V: Duplicate>(slots: Seq<Slot<K, V>>) -> bool {
    forall|i: int, j: int|
        0 <= i < j < slots.len() ==> (#[trigger] slots[i]).key.deep_view() != (
        #[trigger] slots[j]).key.deep_view()
}

spec fn entries<K: CacheKey, V: Duplicate>(slots: Seq<Slot<K, V>>) -> Map<K::V, EntryView<V::V>> {
    Map::new(
        |key: K::V| exists|i: int| key_at::<K, V>(slots, key, i),
        |key: K::V|
            {
                let i = choose|i: int| key_at::<K, V>(slots, key, i);
                EntryView {
                    value: slots[i].value.deep_view(),
                    expires_at: slots[i].expires_at as int,
                }
            },
    )
}

proof fn lemma_entry<K: CacheKey, V: Duplicate>(slots: Seq<Slot<K, V>>, i: int)
    requires
        distinct_keys::<K, V>(slots),
        0 <= i < slots.len(),
    ensures
        entries::<K, V>(slots).contains_key(slots[i].key.deep_view()),
        entries::<K, V>(slots)[slots[i].key.deep_view()] == (EntryView {
            value: slots[i].value.deep_view(),
            expires_at: slots[i].expires_at as int,
        }),
{
    let key = slots[i].key.deep_view();
    assert(key_at::<K, V>(slots, key, i));
    let j = choose|j: int| key_at::<K, V>(slots, key, j);
    assert(i == j);
}

/// The entries that have not expired at a time.
pub open spec fn live<K, V>(entries: Map<K, EntryView<V>>, now: int) -> Map<K, EntryView<V>> {
    entries.restrict(
        Set::new(|key: K| entries.contains_key(key) && entries[key].expires_at > now),
    )
}

/// The value under a key, if there is one.
pub open spec fn value_under<K, V>(entries: Map<K, EntryView<V>>, key: K) -> Option<V> {
    if entries.contains_key(key) {
        Some(entries[key].value)
    } else {
        None
    }
}

/// The entries after a value was put under a key at a time.
pub open spec fn with_entry<K, V>(
    entries: Map<K, EntryView<V>>,
    key: K,
    value: V,
    now: int,
    ttl: int,
) -> Map<K, EntryView<V>> {
    entries.insert(key, EntryView { value, expires_at: now + ttl })
}

impl<K: CacheKey, V: Duplicate> TtlCache<K, V> {
    #[verifier::type_invariant]
    spec fn well_formed(self) -> bool {
        &&& distinct_keys::<K, V>(self.slots@)
        &&& self.ttl <= LONGEST_NANOS
    }

    /// How long an entry lasts, in nanoseconds.
    pub closed spec fn lifetime(self) -> int {
        self.ttl as int
    }

    /// What the cache holds, expired or not.
    pub closed spec fn contents(self) -> Map<K::V, EntryView<V::V>> {
        entries::<K, V>(self.slots@)
    }

    /// An empty cache whose entries last a number of seconds.
    pub fn new(ttl_seconds: u64) -> (r: TtlCache<K, V>)
        ensures
            r.lifetime() == ttl_seconds * 1_000_000_000,
            r.contents() == Map::<K::V, EntryView<V::V>>::empty(),
    {
        let r = TtlCache {
            ttl: ttl_seconds as u128 * 1_000_000_000,
            start: clock_reading(),
            slots: Vec::new(),
        };
        assert(r.contents() =~= Map::<K::V, EntryView<V::V>>::empty());
        r
    }

    /// An empty cache whose entries last a number of seconds.
    pub fn with_ttl(ttl_seconds: u64) -> (r: TtlCache<K, V>)
        ensures
            r.lifetime() == ttl_seconds * 1_000_000_000,
            r.contents() == Map::<K::V, EntryView<V::V>>::empty(),
    {
        TtlCache::new(ttl_seconds)
    }

    /// The index of a key, if it is there.
    fn index_of(&self, key: &K) -> (r: Option<usize>)
        ensures
            match r {
                Some(i) => key_at::<K, V>(self.slots@, key.deep_view(), i as int),
                None => !self.contents().contains_key(key.deep_view()),
            },
    {
        let mut i: usize = 0;
        while i < self.slots.len()
            invariant
                i <= self.slots@.len(),
                forall|k: int| 0 <= k < i ==> !key_at::<K, V>(self.slots@, key.deep_view(), k),
            decreases self.slots@.len() - i,
        {
            if self.slots[i].key.same_key(key) {
                return Some(i);
            }
            i += 1;
        }
        None
    }

    /// Puts a value under a key at a given time.
    pub fn insert_at(&mut self, now: u128, key: K, value: V)
        requires
            now <= LONGEST_NANOS,
        ensures
            final(self).lifetime() == old(self).lifetime(),
            final(self).contents() == with_entry(
                old(self).contents(),
                key.deep_view(),
                value.deep_view(),
                now as int,
                old(self).lifetime(),
            ),
    {
        proof {
            use_type_invariant(&*self);
        }
        let ghost before = self.slots@;
        let ghost k = key.deep_view();
        let ghost v = value.deep_view();
        let ghost ttl = self.ttl;
        let found = self.index_of(&key);
        let expires_at: u128 = now + self.ttl;
        let slot = Slot { key, value, expires_at };
        let mut slots: Vec<Slot<K, V>> = Vec::new();
        std::mem::swap(&mut slots, &mut self.slots);
        match found {
            Some(i) => {
                slots.set(i, slot);
                assert forall|a: int, b: int| 0 <= a < b < slots@.len() implies (
                #[trigger] slots@[a]).key.deep_view() != (#[trigger] slots@[b]).key.deep_view() by {
                    assert(slots@[a].key.deep_view() == before[a].key.deep_view());
                    assert(slots@[b].key.deep_view() == before[b].key.deep_view());
                }
            },
            None => {
                assert forall|i: int| 0 <= i < before.len() implies (
                #[trigger] before[i]).key.deep_view() != k by {
                    lemma_entry::<K, V>(before, i);
                }
                slots.push(slot);
            },
        }
        proof {
            let after = slots@;
            assert(distinct_keys::<K, V>(after));
            let m = with_entry(entries::<K, V>(before), k, v, now as int, ttl as int);
            assert forall|x: K::V| entries::<K, V>(after).contains_key(x) <==> m.contains_key(
                x,
            ) by {
                if m.contains_key(x) {
                    if x == k {
                        let i = match found {
                            Some(i) => i as int,
                            None => before.len() as int,
                        };
                        assert(key_at::<K, V>(after, x, i));
                    } else {
                        let i = choose|i: int| key_at::<K, V>(before, x, i);
                        assert(key_at::<K, V>(after, x, i));
                    }
                }
                if entries::<K, V>(after).contains_key(x) {
                    let i = choose|i: int| key_at::<K, V>(after, x, i);
                    if x != k {
                        assert(key_at::<K, V>(before, x, i));
                    }
                }
            }
            assert forall|x: K::V| #[trigger] m.contains_key(x) implies entries::<K, V>(after)[x]
                == m[x] by {
                let i = choose|i: int| key_at::<K, V>(after, x, i);
                lemma_entry::<K, V>(after, i);
                if x != k {
                    lemma_entry::<K, V>(before, i);
                }
            }
            assert(entries::<K, V>(after).dom() =~= m.dom());
            assert forall|x: K::V| #[trigger] entries::<K, V>(after).contains_key(x) implies
                entries::<K, V>(after)[x] == m[x] by {
                assert(m.contains_key(x));
            }
            assert(entries::<K, V>(after) =~= m);
        }
        self.slots = slots;
    }

    /// Removes the entries that have expired at a given time.
    pub fn prune_at(&mut self, now: u128)
        ensures
            final(self).lifetime() == old(self).lifetime(),
            final(self).contents() == live(old(self).contents(), now as int),
    {
        proof {
            use_type_invariant(&*self);
        }
        let ghost before = self.slots@;
        let mut rest: Vec<Slot<K, V>> = Vec::new();
        std::mem::swap(&mut rest, &mut self.slots);
        let mut kept: Vec<Slot<K, V>> = Vec::new();
        let ghost m = live(entries::<K, V>(before), now as int);
        assert(rest@ =~= before.take(rest@.len() as int));
        assert forall|x: K::V| m.contains_key(x) implies exists|i: int|
            0 <= i < rest@.len() && (#[trigger] before[i]).key.deep_view() == x by {
            let i = choose|i: int| key_at::<K, V>(before, x, i);
            assert(before[i].key.deep_view() == x);
        }
        while rest.len() > 0
            invariant
                distinct_keys::<K, V>(before),
                m == live(entries::<K, V>(before), now as int),
                rest@.len() <= before.len(),
                rest@ == before.take(rest@.len() as int),
                distinct_keys::<K, V>(kept@),
                forall|i: int, j: int|
                    0 <= i < rest@.len() && 0 <= j < kept@.len() ==> (
                    #[trigger] before[i]).key.deep_view() != (#[trigger] kept@[j]).key.deep_view(),
                forall|j: int|
                    0 <= j < kept@.len() ==> m.contains_key((#[trigger] kept@[j]).key.deep_view())
                        && m[kept@[j].key.deep_view()] == (EntryView {
                        value: kept@[j].value.deep_view(),
                        expires_at: kept@[j].expires_at as int,
                    }),
                forall|x: K::V| #[trigger]
                    m.contains_key(x) ==> entries::<K, V>(kept@).contains_key(x) || exists|i: int|
                        0 <= i < rest@.len() && (#[trigger] before[i]).key.deep_view() == x,
            decreases rest@.len(),
        {
            let ghost n = rest@.len() - 1;
            let ghost older = kept@;
            assert(rest@[n] == before[n]);
            match rest.pop() {
                Some(slot) => {
                    assert(rest@ =~= before.take(n));
                    proof {
                        lemma_entry::<K, V>(before, n);
                    }
                    if slot.expires_at > now {
                        kept.push(slot);
                    }
                    assert forall|x: K::V| #[trigger] m.contains_key(x) implies entries::<K, V>(
                        kept@,
                    ).contains_key(x) || exists|i: int|
                        0 <= i < rest@.len() && (#[trigger] before[i]).key.deep_view() == x by {
                        if entries::<K, V>(older).contains_key(x) {
                            let i = choose|i: int| key_at::<K, V>(older, x, i);
                            assert(key_at::<K, V>(kept@, x, i));
                        } else {
                            let i = choose|i: int|
                                0 <= i < n + 1 && (#[trigger] before[i]).key.deep_view() == x;
                            if i == n {
                                assert(slot.expires_at > now);
                                assert(key_at::<K, V>(kept@, x, older.len() as int));
                            } else {
                                assert(before[i].key.deep_view() == x);
                            }
                        }
                    }
                },
                None => {},
            }
        }
        proof {
            assert forall|x: K::V| #[trigger] entries::<K, V>(kept@).contains_key(x) implies
                m.contains_key(x) && entries::<K, V>(kept@)[x] == m[x] by {
                let i = choose|i: int| key_at::<K, V>(kept@, x, i);
                lemma_entry::<K, V>(kept@, i);
            }
            assert(entries::<K, V>(kept@) =~= m);
        }
        self.slots = kept;
    }

    /// The value under a key, even if it has expired.
    pub fn get_stale(&self, key: &K) -> (r: Option<V>)
        ensures
            r.deep_view() == value_under(self.contents(), key.deep_view()),
    {
        proof {
            use_type_invariant(self);
        }
        match self.index_of(key) {
            Some(i) => {
                proof {
                    lemma_entry::<K, V>(self.slots@, i as int);
                }
                Some(self.slots[i].value.duplicate())
            },
            None => None,
        }
    }

    /// The value under a key at a given time, after the expired entries were removed.
    pub fn get_at(&mut self, now: u128, key: &K) -> (r: Option<V>)
        ensures
            final(self).lifetime() == old(self).lifetime(),
            final(self).contents() == live(old(self).contents(), now as int),
            r.deep_view() == value_under(live(old(self).contents(), now as int), key.deep_view()),
    {
        self.prune_at(now);
        self.get_stale(key)
    }

    /// The time since the cache was made, in nanoseconds.
    pub fn now(&self) -> (r: u128)
        ensures
            r <= LONGEST_NANOS,
    {
        nanos_since(&self.start)
    }

    /// Puts a value under a key.
    pub fn insert(&mut self, key: K, value: V)
        ensures
            final(self).lifetime() == old(self).lifetime(),
            exists|now: int|
                0 <= now && final(self).contents() == #[trigger] with_entry(
                    old(self).contents(),
                    key.deep_view(),
                    value.deep_view(),
                    now,
                    old(self).lifetime(),
                ),
    {
        let now: u128 = self.now();
        self.insert_at(now, key, value);
    }

    /// The value under a key, unless it has expired. The expired entries are removed.
    pub fn get(&mut self, key: &K) -> (r: Option<V>)
        ensures
            final(self).lifetime() == old(self).lifetime(),
            exists|now: int|
                0 <= now && final(self).contents() == #[trigger] live(old(self).contents(), now),
            r.deep_view() == value_under(final(self).contents(), key.deep_view()),
    {
        let now: u128 = self.now();
        self.get_at(now, key)
    }

    /// Removes the entries that have expired.
    pub fn prune_expired(&mut self)
        ensures
            final(self).lifetime() == old(self).lifetime(),
            exists|now: int|
                0 <= now && final(self).contents() == #[trigger] live(old(self).contents(), now),
    {
        let now: u128 = self.now();
        self.prune_at(now);
    }
}

/// An entry is found from when it is made until its time is over, and not after that.
pub proof fn law_entry_lives_its_time<K, V>(
    entries: Map<K, EntryView<V>>,
    key: K,
    value: V,
    made: int,
    ttl: int,
    now: int,
)
    ensures
        value_under(live(with_entry(entries, key, value, made, ttl), now), key) == if now < made
            + ttl {
            Some(value)
        } else {
            None
        },
{
}

/// An expired entry can still be had until the cache is pruned.
pub proof fn law_stale_entry_remains<K, V>(
    entries: Map<K, EntryView<V>>,
    key: K,
    value: V,
    made: int,
    ttl: int,
)
    ensures
        value_under(with_entry(entries, key, value, made, ttl), key) == Some(value),
{
}

/// Putting a value under one key leaves the others as they are.
pub proof fn law_other_entries_stay<K, V>(
    entries: Map<K, EntryView<V>>,
    key: K,
    value: V,
    made: int,
    ttl: int,
    other: K,
)
    requires
        other != key,
    ensures
        value_under(with_entry(entries, key, value, made, ttl), other) == value_under(
            entries,
            other,
        ),
{
}

/// Pruning twice is pruning at the later time.
pub proof fn law_pruning_twice<K, V>(entries: Map<K, EntryView<V>>, first: int, second: int)
    ensures
        live(live(entries, first), second) == live(
            entries,
            if first < second {
                second
            } else {
                first
            },
        ),
{
    assert(live(live(entries, first), second) =~= live(
        entries,
        if first < second {
            second
        } else {
            first
        },
    ));
}

} // verus!
