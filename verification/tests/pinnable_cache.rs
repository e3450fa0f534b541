use reenix::errno::Errno;
use reenix::make::{Make, TryMake};
use reenix::page::AllocError;
use reenix::pinnable_cache::{CacheKey, InsertError, PinnableCache};

#[derive(Debug, PartialEq)]
struct Key(u32);

impl CacheKey for Key {
    fn same(&self, other: &Key) -> bool {
        self.0 == other.0
    }

    fn duplicate(&self) -> Key {
        Key(self.0)
    }
}

/// A value that can be made from even keys only.
#[derive(Debug, PartialEq)]
struct Value(u32);

impl TryMake<Key, Errno> for Value {
    fn try_make(key: Key) -> Result<Value, Errno> {
        if key.0 % 2 == 0 {
            Ok(Value(key.0 * 10))
        } else {
            Err(Errno::EIO)
        }
    }
}

#[derive(Debug, PartialEq)]
struct Doubled(u32);

impl Make<u32> for Doubled {
    fn make(a: u32) -> Doubled {
        Doubled(2 * a)
    }
}

#[test]
fn what_can_be_made_can_be_made_without_failing() {
    assert_eq!(<Doubled as TryMake<u32, ()>>::try_make(21), Ok(Doubled(42)));
}

#[test]
fn new_cache_is_empty() {
    let mut cache: PinnableCache<Key, Value> = PinnableCache::new(4);
    assert_eq!(cache.len(), 0);
    assert_eq!(cache.capacity(), 4);
    assert!(!cache.is_full());
    assert!(!cache.contains(&Key(2)));
    assert_eq!(cache.pin_count(&Key(2)), None);
    assert!(cache.get(&Key(2)).is_none());
    assert_eq!(cache.victim(), None);
    assert_eq!(cache.peek(&Key(2)), None);
}

#[test]
fn get_never_creates() {
    let mut cache: PinnableCache<Key, Value> = PinnableCache::new(4);
    assert!(cache.get(&Key(2)).is_none());
    assert_eq!(cache.len(), 0);
    assert!(!cache.contains(&Key(2)));
}

#[test]
fn add_or_get_creates_once_and_pins_each_time() {
    let mut cache: PinnableCache<Key, Value> = PinnableCache::new(4);
    let first = cache.add_or_get(Key(2)).unwrap();
    assert_eq!(first.key(), &Key(2));
    assert_eq!(cache.value(&first), &Value(20));
    assert_eq!(cache.pin_count(&Key(2)), Some(1));
    cache.value_mut(&first).0 = 21;
    let second = cache.add_or_get(Key(2)).unwrap();
    assert_eq!(second.key(), &Key(2));
    assert_eq!(cache.value(&second), &Value(21));
    assert_eq!(cache.pin_count(&Key(2)), Some(2));
    assert_eq!(cache.len(), 1);
    let third = cache.get(&Key(2)).unwrap();
    assert_eq!(cache.pin_count(&Key(2)), Some(3));
    cache.unpin(third);
    cache.unpin(second);
    cache.unpin(first);
    assert_eq!(cache.pin_count(&Key(2)), Some(0));
    assert!(cache.contains(&Key(2)));
}

#[test]
fn add_or_get_reports_the_error_of_the_making() {
    let mut cache: PinnableCache<Key, Value> = PinnableCache::new(4);
    assert_eq!(cache.add_or_get(Key(3)).err(), Some(InsertError::SysError(Some(Errno::EIO))));
    assert!(!cache.contains(&Key(3)));
    assert_eq!(cache.len(), 0);
}

#[test]
fn add_or_get_into_a_full_cache_makes_nothing() {
    let mut cache: PinnableCache<Key, Value> = PinnableCache::new(1);
    assert!(cache.add_or_get(Key(2)).is_ok());
    assert!(cache.is_full());
    assert_eq!(cache.add_or_get(Key(4)).err(), Some(InsertError::MemoryError(AllocError)));
    assert_eq!(cache.add_or_get(Key(3)).err(), Some(InsertError::MemoryError(AllocError)));
    assert!(!cache.contains(&Key(4)));
    assert!(cache.add_or_get(Key(2)).is_ok());
    assert_eq!(cache.pin_count(&Key(2)), Some(2));
}

#[test]
fn add_made_takes_the_outcome_of_the_making() {
    let mut cache: PinnableCache<Key, Value> = PinnableCache::new(4);
    let pin = cache.add_made(Key(5), Ok(Value(7))).unwrap();
    assert_eq!(cache.value(&pin), &Value(7));
    assert_eq!(cache.pin_count(&Key(5)), Some(1));
    assert_eq!(
        cache.add_made(Key(6), Err(Errno::ENOTDIR)).err(),
        Some(InsertError::SysError(Some(Errno::ENOTDIR)))
    );
    assert!(!cache.contains(&Key(6)));
}

#[test]
fn insert_refuses_a_second_value_for_a_key() {
    let mut cache: PinnableCache<Key, Value> = PinnableCache::new(4);
    let pin = cache.insert(Key(1), Value(100)).unwrap();
    assert_eq!(pin.key(), &Key(1));
    assert_eq!(cache.pin_count(&Key(1)), Some(1));
    assert_eq!(
        cache.insert(Key(1), Value(200)).err(),
        Some((InsertError::KeyPresent, Value(200)))
    );
    assert_eq!(cache.value(&pin), &Value(100));
    assert_eq!(cache.len(), 1);
}

#[test]
fn insert_into_a_full_cache_hands_the_value_back() {
    let mut cache: PinnableCache<Key, Value> = PinnableCache::new(2);
    assert!(cache.insert(Key(1), Value(100)).is_ok());
    assert!(cache.insert(Key(2), Value(200)).is_ok());
    assert_eq!(
        cache.insert(Key(3), Value(300)).err(),
        Some((InsertError::MemoryError(AllocError), Value(300)))
    );
    assert_eq!(
        cache.insert(Key(1), Value(300)).err(),
        Some((InsertError::KeyPresent, Value(300)))
    );
    assert_eq!(cache.len(), 2);
}

#[test]
fn a_cache_without_room_takes_nothing() {
    let mut cache: PinnableCache<Key, Value> = PinnableCache::new(0);
    assert!(cache.is_full());
    assert_eq!(
        cache.insert(Key(1), Value(1)).err(),
        Some((InsertError::MemoryError(AllocError), Value(1)))
    );
    assert_eq!(cache.add_or_get(Key(2)).err(), Some(InsertError::MemoryError(AllocError)));
}

#[test]
fn a_pinned_value_is_never_evicted() {
    let mut cache: PinnableCache<Key, Value> = PinnableCache::new(4);
    let pin = cache.insert(Key(1), Value(100)).unwrap();
    assert_eq!(cache.victim(), None);
    assert_eq!(cache.evict(&Key(1)), None);
    assert!(cache.contains(&Key(1)));
    cache.unpin(pin);
    assert_eq!(cache.victim(), Some(Key(1)));
    assert_eq!(cache.evict(&Key(1)), Some(Value(100)));
    assert!(!cache.contains(&Key(1)));
    assert_eq!(cache.evict(&Key(1)), None);
    assert_eq!(cache.len(), 0);
}

#[test]
fn evict_takes_out_the_value_of_the_key_only() {
    let mut cache: PinnableCache<Key, Value> = PinnableCache::new(4);
    for k in [1, 2, 3] {
        let pin = cache.insert(Key(k), Value(k * 100)).unwrap();
        cache.unpin(pin);
    }
    let held = cache.get(&Key(1)).unwrap();
    assert_eq!(cache.victim(), Some(Key(2)));
    assert_eq!(cache.evict(&Key(2)), Some(Value(200)));
    assert_eq!(cache.len(), 2);
    assert_eq!(cache.peek(&Key(1)), Some(&Value(100)));
    assert_eq!(cache.peek(&Key(3)), Some(&Value(300)));
    assert_eq!(cache.pin_count(&Key(1)), Some(1));
    assert_eq!(cache.pin_count(&Key(3)), Some(0));
    assert_eq!(cache.victim(), Some(Key(3)));
    cache.unpin(held);
}

#[test]
fn replace_hands_out_the_previous_value() {
    let mut cache: PinnableCache<Key, Value> = PinnableCache::new(4);
    let pin = cache.insert(Key(1), Value(100)).unwrap();
    assert_eq!(cache.replace(&pin, Value(101)), Value(100));
    assert_eq!(cache.value(&pin), &Value(101));
    assert_eq!(cache.pin_count(&Key(1)), Some(1));
}
