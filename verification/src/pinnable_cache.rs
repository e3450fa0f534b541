//! A cache of values that are found by key and can be pinned.
//!
//! The cache holds at most one value for a key. A caller that gets a value
//! out of the cache pins it, and gives the pin back when done; a value with
//! pins on it is never evicted. The cache has a limit on the number of values
//! it holds, and refuses a new value beyond it.

use crate::errno::Errno;
use crate::make::TryMake;
use crate::page::AllocError;
use vstd::prelude::*;

verus! {

/// A key of a cache: a value that can be compared and duplicated.
pub trait CacheKey: Sized {
    /// Whether the two keys are equal.
    fn same(&self, other: &Self) -> (r: bool)
        ensures
            r == (*self == *other),
    ;

    /// A copy of the key.
    fn duplicate(&self) -> (r: Self)
        ensures
            r == *self,
    ;
}

/// Why a value did not enter the cache.
#[derive(Clone, Copy, Debug, PartialEq, Eq, Structural)]
pub enum InsertError {
    /// The cache holds a value for the key already.
    KeyPresent,
    /// There is no room for another value.
    MemoryError(AllocError),
    /// The value could not be made.
    SysError(Option<Errno>),
}

/// What the cache holds for a key: the value and the number of pins on it.
pub struct Pinned<V> {
    pub value: V,
    pub pins: nat,
}

/// One pin on the value of a key.
///
/// A pin is handed out by the cache and given back to it with
/// [`PinnableCache::unpin`]. It cannot be copied.
pub struct PinnedValue<K> {
    key: K,
}

impl<K> PinnedValue<K> {
    /// The key whose value is pinned.
    pub closed spec fn id(&self) -> K {
        self.key
    }

    /// The key whose value is pinned.
    pub fn key(&self) -> (k: &K)
        ensures
            *k == self.id(),
    {
        &self.key
    }
}

struct Entry<K, V> {
    key: K,
    value: V,
    pins: usize,
}

/// A cache of pinnable values.
pub struct PinnableCache<K, V> {
    entries: Vec<Entry<K, V>>,
    limit: usize,
}

spec fn pinned_of<K, V>(e: Entry<K, V>) -> Pinned<V> {
    Pinned { value: e.value, pins: e.pins as nat }
}

spec fn has_key<K, V>(s: Seq<Entry<K, V>>, k: K) -> bool {
    exists|i: int| 0 <= i < s.len() && (#[trigger] s[i]).key == k
}

spec fn distinct<K, V>(s: Seq<Entry<K, V>>) -> bool {
    forall|i: int, j: int|
        0 <= i < s.len() && 0 <= j < s.len() && i != j ==> (#[trigger] s[i]).key != (
        #[trigger] s[j]).key
}

spec fn to_map<K, V>(s: Seq<Entry<K, V>>) -> Map<K, Pinned<V>>
    decreases s.len(),
{
    if s.len() == 0 {
        Map::empty()
    } else {
        to_map(s.drop_last()).insert(s.last().key, pinned_of(s.last()))
    }
}

proof fn lemma_to_map<K, V>(s: Seq<Entry<K, V>>)
    ensures
        forall|k: K| #[trigger] to_map(s).contains_key(k) <==> has_key(s, k),
        to_map(s).dom().finite(),
        distinct(s) ==> to_map(s).len() == s.len(),
        distinct(s) ==> forall|i: int|
            0 <= i < s.len() ==> to_map(s)[(#[trigger] s[i]).key] == pinned_of(s[i]),
    decreases s.len(),
{
    if s.len() > 0 {
        let rest = s.drop_last();
        let last = s.last();
        lemma_to_map(rest);
        assert forall|k: K| #[trigger] to_map(s).contains_key(k) <==> has_key(s, k) by {
            if has_key(s, k) {
                let i = choose|i: int| 0 <= i < s.len() && (#[trigger] s[i]).key == k;
                if i < rest.len() {
                    assert(rest[i].key == k);
                    assert(has_key(rest, k));
                }
            }
            if to_map(s).contains_key(k) {
                if k != last.key {
                    assert(has_key(rest, k));
                    let i = choose|i: int| 0 <= i < rest.len() && (#[trigger] rest[i]).key == k;
                    assert(s[i].key == k);
                } else {
                    assert(s[s.len() - 1].key == k);
                }
            }
        }
        if distinct(s) {
            assert(distinct(rest)) by {
                assert forall|i: int, j: int|
                    0 <= i < rest.len() && 0 <= j < rest.len() && i != j implies (
                #[trigger] rest[i]).key != (#[trigger] rest[j]).key by {
                    assert(s[i].key != s[j].key);
                }
            }
            assert(!has_key(rest, last.key)) by {
                if has_key(rest, last.key) {
                    let i = choose|i: int|
                        0 <= i < rest.len() && (#[trigger] rest[i]).key == last.key;
                    assert(s[i].key == s[s.len() - 1].key);
                }
            }
            assert(!to_map(rest).contains_key(last.key));
            assert forall|i: int| 0 <= i < s.len() implies to_map(s)[(#[trigger] s[i]).key]
                == pinned_of(s[i]) by {
                if i < rest.len() {
                    assert(rest[i] == s[i]);
                    assert(s[i].key != s[s.len() - 1].key);
                }
            }
        }
    }
}

/// The map of a sequence in which the entry at `i` gave way to one with the same key.
proof fn lemma_to_map_update<K, V>(s: Seq<Entry<K, V>>, i: int, e: Entry<K, V>)
    requires
        distinct(s),
        0 <= i < s.len(),
        e.key == s[i].key,
    ensures
        distinct(s.update(i, e)),
        to_map(s.update(i, e)) == to_map(s).insert(e.key, pinned_of(e)),
{
    let t = s.update(i, e);
    assert(distinct(t)) by {
        assert forall|a: int, b: int| 0 <= a < t.len() && 0 <= b < t.len() && a != b implies (
        #[trigger] t[a]).key != (#[trigger] t[b]).key by {
            assert(s[a].key != s[b].key);
        }
    }
    lemma_to_map(s);
    lemma_to_map(t);
    assert forall|k: K| to_map(t).contains_key(k) <==> #[trigger] to_map(s).insert(
        e.key,
        pinned_of(e),
    ).contains_key(k) by {
        if has_key(t, k) {
            let a = choose|a: int| 0 <= a < t.len() && (#[trigger] t[a]).key == k;
            assert(s[a].key == k);
        }
        if has_key(s, k) {
            let a = choose|a: int| 0 <= a < s.len() && (#[trigger] s[a]).key == k;
            assert(t[a].key == k);
        }
        assert(t[i].key == e.key);
    }
    assert forall|k: K| to_map(t).contains_key(k) implies #[trigger] to_map(t)[k] == to_map(
        s,
    ).insert(e.key, pinned_of(e))[k] by {
        let a = choose|a: int| 0 <= a < t.len() && (#[trigger] t[a]).key == k;
        assert(to_map(t)[t[a].key] == pinned_of(t[a]));
        if a != i {
            assert(s[a] == t[a]);
            assert(to_map(s)[s[a].key] == pinned_of(s[a]));
            assert(s[a].key != s[i].key);
        }
    }
    assert(to_map(t) =~= to_map(s).insert(e.key, pinned_of(e)));
}

/// The map of a sequence that lost the entry at `i`.
proof fn lemma_to_map_remove<K, V>(s: Seq<Entry<K, V>>, i: int)
    requires
        distinct(s),
        0 <= i < s.len(),
    ensures
        distinct(s.remove(i)),
        to_map(s.remove(i)) == to_map(s).remove(s[i].key),
{
    let t = s.remove(i);
    assert(distinct(t)) by {
        assert forall|a: int, b: int| 0 <= a < t.len() && 0 <= b < t.len() && a != b implies (
        #[trigger] t[a]).key != (#[trigger] t[b]).key by {
            let sa = if a < i {
                a
            } else {
                a + 1
            };
            let sb = if b < i {
                b
            } else {
                b + 1
            };
            assert(s[sa].key != s[sb].key);
        }
    }
    lemma_to_map(s);
    lemma_to_map(t);
    assert forall|k: K| to_map(t).contains_key(k) <==> #[trigger] to_map(s).remove(
        s[i].key,
    ).contains_key(k) by {
        if has_key(t, k) {
            let a = choose|a: int| 0 <= a < t.len() && (#[trigger] t[a]).key == k;
            let sa = if a < i {
                a
            } else {
                a + 1
            };
            assert(s[sa].key == k);
            assert(s[sa].key != s[i].key);
        }
        if has_key(s, k) && k != s[i].key {
            let a = choose|a: int| 0 <= a < s.len() && (#[trigger] s[a]).key == k;
            let ta = if a < i {
                a
            } else {
                a - 1
            };
            assert(t[ta].key == k);
        }
    }
    assert forall|k: K| to_map(t).contains_key(k) implies #[trigger] to_map(t)[k] == to_map(
        s,
    ).remove(s[i].key)[k] by {
        let a = choose|a: int| 0 <= a < t.len() && (#[trigger] t[a]).key == k;
        let sa = if a < i {
            a
        } else {
            a + 1
        };
        assert(to_map(t)[t[a].key] == pinned_of(t[a]));
        assert(s[sa] == t[a]);
        assert(to_map(s)[s[sa].key] == pinned_of(s[sa]));
        assert(s[sa].key != s[i].key);
    }
    assert(to_map(t) =~= to_map(s).remove(s[i].key));
}

/// The map of a sequence that gained an entry with a new key.
proof fn lemma_to_map_push<K, V>(s: Seq<Entry<K, V>>, e: Entry<K, V>)
    requires
        distinct(s),
        !has_key(s, e.key),
    ensures
        distinct(s.push(e)),
        to_map(s.push(e)) == to_map(s).insert(e.key, pinned_of(e)),
{
    let t = s.push(e);
    assert(t.drop_last() == s);
    assert forall|a: int, b: int| 0 <= a < t.len() && 0 <= b < t.len() && a != b implies (
    #[trigger] t[a]).key != (#[trigger] t[b]).key by {
        if a < s.len() && b < s.len() {
            assert(s[a].key != s[b].key);
        } else if a < s.len() {
            assert(s[a].key != e.key);
        } else {
            assert(s[b].key != e.key);
        }
    }
}

impl<K, V> View for PinnableCache<K, V> {
    type V = Map<K, Pinned<V>>;

    /// What the cache holds for each key.
    closed spec fn view(&self) -> Map<K, Pinned<V>> {
        to_map(self.entries@)
    }
}

impl<K: CacheKey, V> PinnableCache<K, V> {
    /// The cache holds one value for a key, and no more values than its limit.
    pub closed spec fn wf(&self) -> bool {
        &&& distinct(self.entries@)
        &&& self.entries.len() <= self.limit
    }

    /// The number of values that the cache can hold.
    pub closed spec fn limit(&self) -> nat {
        self.limit as nat
    }

    /// A well-formed cache holds finitely many values, and no more than its limit.
    pub proof fn lemma_bounded(&self)
        requires
            self.wf(),
        ensures
            self@.dom().finite(),
            self@.len() <= self.limit(),
    {
        lemma_to_map(self.entries@);
    }

    /// A cache without values that can hold `limit` of them.
    pub fn new(limit: usize) -> (r: Self)
        ensures
            r.wf(),
            r@ == Map::<K, Pinned<V>>::empty(),
            r.limit() == limit,
    {
        PinnableCache { entries: Vec::new(), limit }
    }

    /// Number of values in the cache.
    pub fn len(&self) -> (n: usize)
        requires
            self.wf(),
        ensures
            n == self@.len(),
    {
        proof {
            lemma_to_map(self.entries@);
        }
        self.entries.len()
    }

    /// The number of values that the cache can hold.
    pub fn capacity(&self) -> (n: usize)
        ensures
            n == self.limit(),
    {
        self.limit
    }

    /// Whether the cache has no room for another value.
    pub fn is_full(&self) -> (b: bool)
        requires
            self.wf(),
        ensures
            b == (self@.len() >= self.limit()),
    {
        proof {
            lemma_to_map(self.entries@);
        }
        self.entries.len() >= self.limit
    }

    /// Where the entry of `key` stands.
    fn position(&self, key: &K) -> (r: Option<usize>)
        ensures
            r matches Some(i) ==> i < self.entries.len() && self.entries[i as int].key == *key,
            r is None ==> !has_key(self.entries@, *key),
    {
        let mut i: usize = 0;
        while i < self.entries.len()
            invariant
                i <= self.entries.len(),
                forall|j: int| 0 <= j < i ==> (#[trigger] self.entries[j]).key != *key,
            decreases self.entries.len() - i,
        {
            if key.same(&self.entries[i].key) {
                return Some(i);
            }
            i += 1;
        }
        None
    }

    /// Whether the cache holds a value for `key`.
    pub fn contains(&self, key: &K) -> (b: bool)
        ensures
            b == self@.contains_key(*key),
    {
        proof {
            lemma_to_map(self.entries@);
        }
        let found = self.position(key);
        proof {
            if found is Some {
                assert(self.entries@[found->0 as int].key == *key);
            }
        }
        found.is_some()
    }

    /// The number of pins on the value of `key`, if the cache holds one.
    pub fn pin_count(&self, key: &K) -> (r: Option<usize>)
        requires
            self.wf(),
        ensures
            r is Some <==> self@.contains_key(*key),
            r matches Some(n) ==> n == self@[*key].pins,
    {
        proof {
            lemma_to_map(self.entries@);
        }
        match self.position(key) {
            Some(i) => {
                assert(self.entries@[i as int].key == *key);
                Some(self.entries[i].pins)
            },
            None => None,
        }
    }

    /// Pins the value of `key`, if the cache holds one. Never makes a value.
    pub fn get(&mut self, key: &K) -> (r: Option<PinnedValue<K>>)
        requires
            old(self).wf(),
            old(self)@.contains_key(*key) ==> old(self)@[*key].pins < usize::MAX,
        ensures
            final(self).wf(),
            final(self).limit() == old(self).limit(),
            r is Some <==> old(self)@.contains_key(*key),
            r matches Some(pin) ==> pin.id() == *key && final(self)@ == old(self)@.insert(
                *key,
                Pinned { value: old(self)@[*key].value, pins: old(self)@[*key].pins + 1 },
            ),
            r is None ==> final(self)@ == old(self)@,
    {
        proof {
            lemma_to_map(self.entries@);
        }
        match self.position(key) {
            Some(i) => {
                assert(self.entries@[i as int].key == *key);
                let ghost before = self.entries@;
                self.entries[i].pins = self.entries[i].pins + 1;
                proof {
                    assert(self.entries@ == before.update(i as int, self.entries@[i as int]));
                    lemma_to_map_update(before, i as int, self.entries@[i as int]);
                }
                Some(PinnedValue { key: key.duplicate() })
            },
            None => None,
        }
    }

    /// Puts `value` into the cache under `key`, with one pin on it.
    ///
    /// Where the cache holds a value for `key`, or has no room, nothing
    /// changes and `value` comes back with the reason.
    pub fn insert(&mut self, key: K, value: V) -> (r: Result<PinnedValue<K>, (InsertError, V)>)
        requires
            old(self).wf(),
        ensures
            final(self).wf(),
            final(self).limit() == old(self).limit(),
            match r {
                Ok(pin) => {
                    &&& !old(self)@.contains_key(key)
                    &&& old(self)@.len() < old(self).limit()
                    &&& pin.id() == key
                    &&& final(self)@ == old(self)@.insert(key, Pinned { value, pins: 1 })
                },
                Err((e, v)) => {
                    &&& v == value
                    &&& final(self)@ == old(self)@
                    &&& e == if old(self)@.contains_key(key) {
                        InsertError::KeyPresent
                    } else {
                        InsertError::MemoryError(AllocError)
                    }
                    &&& old(self)@.contains_key(key) || old(self)@.len() >= old(self).limit()
                },
            },
    {
        proof {
            lemma_to_map(self.entries@);
        }
        let found = self.position(&key);
        if found.is_some() {
            assert(self.entries@[found->0 as int].key == key);
            return Err((InsertError::KeyPresent, value));
        }
        if self.entries.len() >= self.limit {
            return Err((InsertError::MemoryError(AllocError), value));
        }
        let pin = PinnedValue { key: key.duplicate() };
        let ghost before = self.entries@;
        let entry = Entry { key, value, pins: 1 };
        proof {
            lemma_to_map_push(before, entry);
        }
        self.entries.push(entry);
        Ok(pin)
    }

    /// Settles what enters the cache under a `key` that it has no value for
    /// and has room for, once the making of the value has ended as `made` says.
    ///
    /// A value that was made enters the cache with one pin on it. A failure
    /// to make one leaves the cache as it was.
    pub fn add_made(&mut self, key: K, made: Result<V, Errno>) -> (r: Result<
        PinnedValue<K>,
        InsertError,
    >)
        requires
            old(self).wf(),
            !old(self)@.contains_key(key),
            old(self)@.len() < old(self).limit(),
        ensures
            final(self).wf(),
            final(self).limit() == old(self).limit(),
            match made {
                Ok(value) => (r matches Ok(pin) && pin.id() == key && final(self)@ == old(
                    self,
                )@.insert(key, Pinned { value, pins: 1 })),
                Err(e) => r == Err::<PinnedValue<K>, InsertError>(InsertError::SysError(Some(e)))
                    && final(self)@ == old(self)@,
            },
    {
        match made {
            Ok(value) => {
                match self.insert(key, value) {
                    Ok(pin) => Ok(pin),
                    Err((e, _)) => Err(e),
                }
            },
            Err(e) => Err(InsertError::SysError(Some(e))),
        }
    }

    /// Pins the value of `key`; where the cache holds none, makes one from
    /// the key and puts it into the cache.
    ///
    /// The cache is held from the lookup to the insertion, so that no other
    /// value of the key can enter it while this one is made: the call never
    /// fails with `KeyPresent`.
    ///
    /// Without room for a new value the call fails with `MemoryError` and
    /// makes none. Where the value cannot be made, the call fails with
    /// `SysError` and the reason. In both cases the cache stays as it was.
    pub fn add_or_get(&mut self, key: K) -> (r: Result<PinnedValue<K>, InsertError>) where
        V: TryMake<K, Errno>,

        requires
            old(self).wf(),
            old(self)@.contains_key(key) ==> old(self)@[key].pins < usize::MAX,
        ensures
            final(self).wf(),
            final(self).limit() == old(self).limit(),
            old(self)@.contains_key(key) ==> (r matches Ok(pin) && pin.id() == key && final(self)@
                == old(self)@.insert(
                key,
                Pinned { value: old(self)@[key].value, pins: old(self)@[key].pins + 1 },
            )),
            !old(self)@.contains_key(key) && old(self)@.len() >= old(self).limit() ==> r == Err::<
                PinnedValue<K>,
                InsertError,
            >(InsertError::MemoryError(AllocError)) && final(self)@ == old(self)@,
            !old(self)@.contains_key(key) && old(self)@.len() < old(self).limit() ==> match r {
                Ok(pin) => pin.id() == key && final(self)@.contains_key(key) && final(self)@
                    == old(self)@.insert(key, Pinned { value: final(self)@[key].value, pins: 1 }),
                Err(e) => e is SysError && e->SysError_0 is Some && final(self)@ == old(self)@,
            },
    {
        match self.get(&key) {
            Some(pin) => Ok(pin),
            None => {
                if self.is_full() {
                    Err(InsertError::MemoryError(AllocError))
                } else {
                    let made = V::try_make(key.duplicate());
                    self.add_made(key, made)
                }
            },
        }
    }

    /// Gives a pin back.
    pub fn unpin(&mut self, pin: PinnedValue<K>)
        requires
            old(self).wf(),
            old(self)@.contains_key(pin.id()),
            old(self)@[pin.id()].pins > 0,
        ensures
            final(self).wf(),
            final(self).limit() == old(self).limit(),
            final(self)@ == old(self)@.insert(
                pin.id(),
                Pinned {
                    value: old(self)@[pin.id()].value,
                    pins: (old(self)@[pin.id()].pins - 1) as nat,
                },
            ),
    {
        proof {
            lemma_to_map(self.entries@);
        }
        match self.position(&pin.key) {
            Some(i) => {
                assert(self.entries@[i as int].key == pin.key);
                let ghost before = self.entries@;
                self.entries[i].pins = self.entries[i].pins - 1;
                proof {
                    assert(self.entries@ == before.update(i as int, self.entries@[i as int]));
                    lemma_to_map_update(before, i as int, self.entries@[i as int]);
                }
            },
            None => unreached(),
        }
    }

    /// The value that `pin` is on.
    pub fn value(&self, pin: &PinnedValue<K>) -> (v: &V)
        requires
            self.wf(),
            self@.contains_key(pin.id()),
        ensures
            *v == self@[pin.id()].value,
    {
        proof {
            lemma_to_map(self.entries@);
        }
        let found = self.position(&pin.key);
        let i = found.unwrap();
        assert(self.entries@[i as int].key == pin.key);
        &self.entries[i].value
    }

    /// The value of `key`, if the cache holds one. No pin is taken.
    pub fn peek(&self, key: &K) -> (r: Option<&V>)
        requires
            self.wf(),
        ensures
            r is Some <==> self@.contains_key(*key),
            r matches Some(v) ==> *v == self@[*key].value,
    {
        proof {
            lemma_to_map(self.entries@);
        }
        match self.position(key) {
            Some(i) => {
                assert(self.entries@[i as int].key == *key);
                Some(&self.entries[i].value)
            },
            None => None,
        }
    }

    /// The value that `pin` is on, to be changed in place.
    pub fn value_mut(&mut self, pin: &PinnedValue<K>) -> (v: &mut V)
        requires
            old(self).wf(),
            old(self)@.contains_key(pin.id()),
        ensures
            *v == old(self)@[pin.id()].value,
            final(self).wf(),
            final(self).limit() == old(self).limit(),
            final(self)@ == old(self)@.insert(
                pin.id(),
                Pinned { value: *final(v), pins: old(self)@[pin.id()].pins },
            ),
    {
        proof {
            lemma_to_map(self.entries@);
        }
        let found = self.position(&pin.key);
        let i = found.unwrap();
        assert(self.entries@[i as int].key == pin.key);
        let ghost before = self.entries@;
        let v = &mut self.entries[i].value;
        proof {
            let entry = Entry { key: before[i as int].key, value: *final(v), pins: before[i as int].pins };
            lemma_to_map_update(before, i as int, entry);
        }
        v
    }

    /// Replaces the value that `pin` is on, and hands out the one it had.
    pub fn replace(&mut self, pin: &PinnedValue<K>, value: V) -> (previous: V)
        requires
            old(self).wf(),
            old(self)@.contains_key(pin.id()),
        ensures
            final(self).wf(),
            final(self).limit() == old(self).limit(),
            previous == old(self)@[pin.id()].value,
            final(self)@ == old(self)@.insert(
                pin.id(),
                Pinned { value, pins: old(self)@[pin.id()].pins },
            ),
    {
        proof {
            lemma_to_map(self.entries@);
        }
        let found = self.position(&pin.key);
        let i = found.unwrap();
        assert(self.entries@[i as int].key == pin.key);
        let ghost before = self.entries@;
        let mut value = value;
        core::mem::swap(&mut self.entries[i].value, &mut value);
        proof {
            assert(self.entries@ == before.update(i as int, self.entries@[i as int]));
            lemma_to_map_update(before, i as int, self.entries@[i as int]);
        }
        value
    }

    /// Takes the value of `key` out of the cache, if there is one and no pin
    /// is on it. A pinned value is never taken out.
    pub fn evict(&mut self, key: &K) -> (r: Option<V>)
        requires
            old(self).wf(),
        ensures
            final(self).wf(),
            final(self).limit() == old(self).limit(),
            r is Some <==> old(self)@.contains_key(*key) && old(self)@[*key].pins == 0,
            r matches Some(value) ==> value == old(self)@[*key].value && final(self)@ == old(
                self,
            )@.remove(*key),
            r is None ==> final(self)@ == old(self)@,
    {
        proof {
            lemma_to_map(self.entries@);
        }
        match self.position(key) {
            Some(i) => {
                assert(self.entries@[i as int].key == *key);
                if self.entries[i].pins == 0 {
                    proof {
                        lemma_to_map_remove(self.entries@, i as int);
                    }
                    let entry = self.entries.remove(i);
                    Some(entry.value)
                } else {
                    None
                }
            },
            None => None,
        }
    }

    /// A key whose value has no pin on it, if there is one: a value that may
    /// be evicted.
    pub fn victim(&self) -> (r: Option<K>)
        requires
            self.wf(),
        ensures
            r matches Some(key) ==> self@.contains_key(key) && self@[key].pins == 0,
            r is None ==> forall|key: K| self@.contains_key(key) ==> (#[trigger] self@[key]).pins > 0,
    {
        proof {
            lemma_to_map(self.entries@);
        }
        let mut i: usize = 0;
        while i < self.entries.len()
            invariant
                self.wf(),
                i <= self.entries.len(),
                forall|j: int| 0 <= j < i ==> (#[trigger] self.entries[j]).pins > 0,
            decreases self.entries.len() - i,
        {
            if self.entries[i].pins == 0 {
                proof {
                    let entry = self.entries@[i as int];
                    lemma_to_map(self.entries@);
                    assert(has_key(self.entries@, entry.key));
                    assert(self@[entry.key] == pinned_of(entry));
                }
                return Some(self.entries[i].key.duplicate());
            }
            i += 1;
        }
        proof {
            assert forall|key: K| self@.contains_key(key) implies (#[trigger] self@[key]).pins
                > 0 by {
                let j = choose|j: int|
                    0 <= j < self.entries@.len() && (#[trigger] self.entries@[j]).key == key;
                assert(self@[self.entries@[j].key] == pinned_of(self.entries@[j]));
            }
        }
        None
    }
}

} // verus!
