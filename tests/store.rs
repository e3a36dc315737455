use std::collections::HashMap;
use std::sync::Arc;

use simple_cache::{downcast_object, from_downcast, make_slot, read_found, Cache, CacheError, CacheItem, Slots};

#[derive(Debug, PartialEq)]
struct Object {
    value: i32,
    string: String,
}

impl CacheItem for Object {}

#[derive(Debug, PartialEq)]
struct Other(u64);

impl CacheItem for Other {}

fn object(value: i32, string: &str) -> Object {
    Object {
        value,
        string: String::from(string),
    }
}

#[test]
fn round_trip_returns_the_stored_value() {
    let cache: Cache<u32> = Cache::new();
    assert!(cache.insert(7, Some(object(42, "forty-two"))).unwrap().is_none());
    let handle = cache.get::<Object, _>(&7).unwrap().unwrap().unwrap();
    assert_eq!(*handle, object(42, "forty-two"));
}

#[test]
fn fresh_store_reads_not_found_and_remove_fails() {
    let cache: Cache<String> = Cache::new();
    assert!(cache.get::<Object, _>("missing").unwrap().is_none());
    assert_eq!(cache.remove("missing"), Err(CacheError::NotFound));
}

#[test]
fn empty_marker_differs_from_absence() {
    let cache: Cache<&str> = Cache::new();
    assert!(cache.insert::<Object>("k", None).unwrap().is_none());
    let read = cache.get::<Object, _>("k").unwrap();
    assert!(matches!(read, Some(None)));
    assert!(cache.get::<Object, _>("other").unwrap().is_none());
    assert_eq!(cache.remove("k"), Ok(()));
}

#[test]
fn overwrite_keeps_earlier_handles() {
    let cache: Cache<&str> = Cache::new();
    let _ = cache.insert("k", Some(object(1, "one")));
    let first = cache.get::<Object, _>("k").unwrap().unwrap().unwrap();
    let previous = cache.insert("k", Some(object(2, "two"))).unwrap().unwrap();
    assert_eq!(previous.value, 1);
    let second = cache.get::<Object, _>("k").unwrap().unwrap().unwrap();
    assert_eq!(second.value, 2);
    assert_eq!(second.string, "two");
    assert_eq!(first.value, 1);
    assert_eq!(first.string, "one");
}

#[test]
fn reading_another_type_is_a_mismatch() {
    let cache: Cache<&str> = Cache::new();
    let _ = cache.insert("k", Some(object(1, "one")));
    assert!(matches!(
        cache.get::<Other, _>("k"),
        Err(CacheError::ValueMismatch)
    ));
    let replaced = cache.insert("k", Some(Other(5)));
    assert!(matches!(replaced, Err(CacheError::ValueMismatch)));
    assert_eq!(*cache.get::<Other, _>("k").unwrap().unwrap().unwrap(), Other(5));
}

#[test]
fn remove_clears_value_and_marker() {
    let cache: Cache<&str> = Cache::new();
    let _ = cache.insert("v", Some(object(1, "test!")));
    let _ = cache.insert::<Object>("e", None);
    assert_eq!(cache.remove("v"), Ok(()));
    assert_eq!(cache.remove("e"), Ok(()));
    assert!(cache.get::<Object, _>("v").unwrap().is_none());
    assert!(cache.get::<Object, _>("e").unwrap().is_none());
    assert_eq!(cache.remove("v"), Err(CacheError::NotFound));
    assert_eq!(cache.remove("e"), Err(CacheError::NotFound));
}

#[test]
fn handle_outlives_removal() {
    let cache: Cache<&str> = Cache::new();
    let _ = cache.insert("test", Some(object(1, "test!")));
    let handle = cache.get::<Object, _>("test").unwrap().unwrap().unwrap();
    assert_eq!(handle.value, 1);
    assert_eq!(cache.remove("test"), Ok(()));
    assert!(cache.get::<Object, _>("test").unwrap().is_none());
    assert_eq!(cache.remove("test"), Err(CacheError::NotFound));
    assert_eq!(handle.string, "test!");
}

#[test]
fn clones_share_storage() {
    let cache: Cache<u8> = Cache::default();
    let other = cache.clone();
    let _ = other.insert(1, Some(Other(9)));
    assert_eq!(*cache.get::<Other, _>(&1).unwrap().unwrap().unwrap(), Other(9));
    assert_eq!(cache.remove(&1), Ok(()));
    assert!(other.get::<Other, _>(&1).unwrap().is_none());
}

#[test]
fn disjoint_keys_do_not_interfere() {
    let cache: Cache<u32> = Cache::new();
    for i in 0..50u32 {
        let _ = cache.insert(i, Some(Other(u64::from(i) * 3)));
    }
    for i in (0..50u32).step_by(2) {
        assert_eq!(cache.remove(&i), Ok(()));
    }
    for i in 0..50u32 {
        let read = cache.get::<Other, _>(&i).unwrap();
        if i % 2 == 0 {
            assert!(read.is_none());
        } else {
            assert_eq!(*read.unwrap().unwrap(), Other(u64::from(i) * 3));
        }
    }
}

#[test]
fn slot_functions_on_a_plain_map() {
    let mut slots: Slots<u32> = HashMap::new();
    assert!(Cache::lookup::<Other, u32>(&slots, &3).unwrap().is_none());
    assert!(Cache::replace::<Other>(&mut slots, 3, make_slot(Some(Other(1)))).unwrap().is_none());
    assert_eq!(
        *Cache::lookup::<Other, u32>(&slots, &3).unwrap().unwrap().unwrap(),
        Other(1)
    );
    assert!(matches!(
        Cache::lookup::<Object, u32>(&slots, &3),
        Err(CacheError::ValueMismatch)
    ));
    let previous = Cache::replace::<Other>(&mut slots, 3, None).unwrap().unwrap();
    assert_eq!(*previous, Other(1));
    assert!(matches!(
        Cache::lookup::<Other, u32>(&slots, &3),
        Ok(Some(None))
    ));
    assert_eq!(Cache::delete(&mut slots, &3), Ok(()));
    assert_eq!(Cache::delete(&mut slots, &3), Err(CacheError::NotFound));
    assert!(slots.is_empty());
}

#[test]
fn downcast_of_slots() {
    assert!(matches!(downcast_object::<Other>(&None), Ok(None)));
    let mut slots: Slots<u8> = HashMap::new();
    let _ = Cache::replace::<Other>(&mut slots, 0, make_slot(Some(Other(4))));
    let slot = slots.get(&0).unwrap();
    assert_eq!(*downcast_object::<Other>(slot).unwrap().unwrap(), Other(4));
    assert!(matches!(
        downcast_object::<Object>(slot),
        Err(CacheError::ValueMismatch)
    ));
}

#[test]
fn from_downcast_maps_each_outcome() {
    let handle = Arc::new(Other(3));
    let r = from_downcast(Some(handle.clone())).unwrap().unwrap();
    assert!(Arc::ptr_eq(&r, &handle));
    assert_eq!(from_downcast::<Other>(None), Err(CacheError::ValueMismatch));
}

#[test]
fn locate_then_read_found() {
    let mut slots: Slots<u16> = HashMap::new();
    let absent = Cache::locate(&slots, &1);
    assert!(absent.is_none());
    assert!(matches!(read_found::<Other>(&absent), Ok(None)));

    let _ = Cache::replace::<Other>(&mut slots, 1, None);
    let empty = Cache::locate(&slots, &1);
    assert!(matches!(empty, Some(None)));
    assert!(matches!(read_found::<Other>(&empty), Ok(Some(None))));

    let _ = Cache::replace::<Other>(&mut slots, 2, make_slot(Some(Other(8))));
    let valued = Cache::locate(&slots, &2);
    let _ = Cache::replace::<Other>(&mut slots, 2, make_slot(Some(Other(9))));
    assert_eq!(*read_found::<Other>(&valued).unwrap().unwrap().unwrap(), Other(8));
    assert!(matches!(
        read_found::<Object>(&valued),
        Err(CacheError::ValueMismatch)
    ));
}

#[test]
fn replace_stores_the_new_slot() {
    let mut slots: Slots<u8> = HashMap::new();
    let _ = Cache::replace::<Other>(&mut slots, 5, make_slot(Some(Other(1))));
    let _ = Cache::replace::<Other>(&mut slots, 6, make_slot(Some(Other(7))));
    let previous = Cache::replace::<Other>(&mut slots, 5, make_slot(Some(Other(2))));
    assert_eq!(*previous.unwrap().unwrap(), Other(1));
    assert_eq!(
        *Cache::lookup::<Other, u8>(&slots, &5).unwrap().unwrap().unwrap(),
        Other(2)
    );
    assert_eq!(
        *Cache::lookup::<Other, u8>(&slots, &6).unwrap().unwrap().unwrap(),
        Other(7)
    );
    let mismatch = Cache::replace::<Object>(&mut slots, 5, make_slot(Some(object(3, "three"))));
    assert!(matches!(mismatch, Err(CacheError::ValueMismatch)));
    let stored = Cache::lookup::<Object, u8>(&slots, &5).unwrap().unwrap().unwrap();
    assert_eq!(*stored, object(3, "three"));
    assert_eq!(slots.len(), 2);
}

#[test]
fn make_slot_marks_absence_of_value() {
    assert!(make_slot::<Other>(None).is_none());
    assert!(make_slot(Some(Other(1))).is_some());
}
