use ritekv::{BatchStore, KvsError, MemStore, Store};

fn is_empty_key<T>(r: ritekv::Result<T>) -> bool {
    matches!(r, Err(KvsError::EmptyKey))
}

#[test]
fn set_then_get_and_contains() {
    let mut s = MemStore::open();
    s.set(b"key", b"value").unwrap();
    assert_eq!(s.get(b"key").unwrap(), Some(b"value".to_vec()));
    assert!(s.contains(b"key").unwrap());
    s.set(b"other", b"x").unwrap();
    s.remove(b"third").unwrap();
    assert_eq!(s.get(b"key").unwrap(), Some(b"value".to_vec()));
}

#[test]
fn set_empty_value_is_stored() {
    let mut s = MemStore::open();
    s.set(b"k", b"").unwrap();
    assert_eq!(s.get(b"k").unwrap(), Some(Vec::new()));
    assert!(s.contains(b"k").unwrap());
}

#[test]
fn remove_then_get_is_absent() {
    let mut s = MemStore::open();
    s.remove(b"never").unwrap();
    assert_eq!(s.get(b"never").unwrap(), None);
    s.set(b"k", b"v").unwrap();
    s.remove(b"k").unwrap();
    assert_eq!(s.get(b"k").unwrap(), None);
    assert!(!s.contains(b"k").unwrap());
}

#[test]
fn set_twice_same_as_once() {
    let mut once = MemStore::open();
    once.set(b"k", b"v").unwrap();
    let mut twice = MemStore::open();
    twice.set(b"k", b"v").unwrap();
    twice.set(b"k", b"v").unwrap();
    assert_eq!(once.get(b"k").unwrap(), twice.get(b"k").unwrap());
    assert_eq!(
        once.get_batch(&[b"k".to_vec(), b"z".to_vec()]).unwrap(),
        twice.get_batch(&[b"k".to_vec(), b"z".to_vec()]).unwrap()
    );
}

#[test]
fn remove_absent_key_succeeds() {
    let mut s = MemStore::open();
    assert!(s.remove(b"b").is_ok());
    assert!(s.remove_batch(&[b"x".to_vec(), b"y".to_vec()]).is_ok());
}

#[test]
fn empty_key_rejected_everywhere() {
    let mut s = MemStore::open();
    s.set(b"a", b"1").unwrap();
    assert!(is_empty_key(s.get(b"")));
    assert!(is_empty_key(s.set(b"", b"2")));
    assert!(is_empty_key(s.remove(b"")));
    assert!(is_empty_key(s.contains(b"")));
    assert!(is_empty_key(s.get_batch(&[b"a".to_vec(), Vec::new()])));
    assert!(is_empty_key(s.set_batch(&[b"b".to_vec(), Vec::new()], &[b"2".to_vec(), b"3".to_vec()])));
    assert!(is_empty_key(s.remove_batch(&[b"a".to_vec(), Vec::new()])));
    assert_eq!(s.get(b"a").unwrap(), Some(b"1".to_vec()));
    assert_eq!(s.get(b"b").unwrap(), None);
}

#[test]
fn mismatched_batch_leaves_state() {
    let mut s = MemStore::open();
    s.set(b"a", b"1").unwrap();
    let r = s.set_batch(&[b"a".to_vec(), b"b".to_vec()], &[b"9".to_vec()]);
    assert!(matches!(r, Err(KvsError::InvalidData(_))));
    assert_eq!(s.get(b"a").unwrap(), Some(b"1".to_vec()));
    assert_eq!(s.get(b"b").unwrap(), None);
}

#[test]
fn distinct_keys_none_lost() {
    let mut s = MemStore::open();
    for i in 0..64u32 {
        s.set(&i.to_be_bytes(), &(i * 3).to_le_bytes()).unwrap();
    }
    for i in (0..64u32).rev() {
        assert_eq!(s.get(&i.to_be_bytes()).unwrap(), Some((i * 3).to_le_bytes().to_vec()));
    }
}

#[test]
fn scenario_get_present_and_absent() {
    let mut s = MemStore::open();
    s.set(b"a", &[0x01]).unwrap();
    assert_eq!(s.get(b"a").unwrap(), Some(vec![0x01]));
    assert_eq!(s.get(b"b").unwrap(), None);
}

#[test]
fn scenario_remove_then_absent() {
    let mut s = MemStore::open();
    s.set(b"a", &[0x01]).unwrap();
    s.remove(b"a").unwrap();
    assert_eq!(s.get(b"a").unwrap(), None);
    assert!(s.remove(b"b").is_ok());
}

#[test]
fn scenario_batches() {
    let mut s = MemStore::open();
    let keys = vec![b"k1".to_vec(), b"k2".to_vec()];
    s.set_batch(&keys, &[b"v1".to_vec(), b"v2".to_vec()]).unwrap();
    assert_eq!(
        s.get_batch(&keys).unwrap(),
        vec![Some(b"v1".to_vec()), Some(b"v2".to_vec())]
    );
    s.remove_batch(&keys).unwrap();
    assert_eq!(s.get(b"k1").unwrap(), None);
    assert_eq!(s.get(b"k2").unwrap(), None);
}

#[test]
fn batch_later_pair_wins() {
    let mut s = MemStore::open();
    s.set_batch(&[b"k".to_vec(), b"k".to_vec()], &[b"first".to_vec(), b"second".to_vec()])
        .unwrap();
    assert_eq!(s.get(b"k").unwrap(), Some(b"second".to_vec()));
}

#[test]
fn remove_batch_keeps_unlisted() {
    let mut s = MemStore::open();
    s.set(b"a", b"1").unwrap();
    s.set(b"ab", b"2").unwrap();
    s.set(b"b", b"3").unwrap();
    s.remove_batch(&[b"a".to_vec(), b"zz".to_vec()]).unwrap();
    assert_eq!(s.get(b"a").unwrap(), None);
    assert_eq!(s.get(b"ab").unwrap(), Some(b"2".to_vec()));
    assert_eq!(s.get(b"b").unwrap(), Some(b"3".to_vec()));
}

#[test]
fn get_batch_keeps_order() {
    let mut s = MemStore::open();
    s.set(b"x", b"1").unwrap();
    s.set(b"y", b"2").unwrap();
    assert_eq!(
        s.get_batch(&[b"y".to_vec(), b"q".to_vec(), b"x".to_vec()]).unwrap(),
        vec![Some(b"2".to_vec()), None, Some(b"1".to_vec())]
    );
    assert_eq!(s.get_batch(&[]).unwrap(), Vec::<Option<Vec<u8>>>::new());
}

#[test]
fn default_store_is_empty_and_named() {
    let mut s = MemStore::default();
    assert_eq!(s.get(b"a").unwrap(), None);
    assert!(!s.contains(b"a").unwrap());
    assert_eq!(s.to_string(), "memstore");
}
