use ritekv::{BatchStore, KvsError, MemStore, Result, Store};

fn check_get<S: Store>(mut s: S) -> Result<()> {
    s.set(b"a", &[0x01])?;
    assert_eq!(Some(vec![0x01]), s.get(b"a")?);
    assert_eq!(None, s.get(b"b")?);
    Ok(())
}

fn check_remove<S: Store>(mut s: S) -> Result<()> {
    s.set(b"a", &[0x01])?;
    assert_eq!(Some(vec![0x01]), s.get(b"a")?);
    s.remove(b"a")?;
    assert_eq!(None, s.get(b"a")?);
    s.remove(b"b")?;
    Ok(())
}

fn check_set<S: Store>(mut s: S) -> Result<()> {
    s.set(b"a", &[0x01])?;
    assert_eq!(Some(vec![0x01]), s.get(b"a")?);
    s.set(b"a", &[0x02])?;
    assert_eq!(Some(vec![0x02]), s.get(b"a")?);
    Ok(())
}

fn check_contains<S: Store>(mut s: S) -> Result<()> {
    s.set(b"a", &[0x01])?;
    assert_eq!(true, s.contains(b"a")?);
    assert_eq!(false, s.contains(b"b")?);
    Ok(())
}

fn check_get_batch<B: Store + BatchStore>(mut s: B) -> Result<()> {
    let data1 = b"test1".to_vec();
    let data2 = b"test2".to_vec();
    s.set(&data1, &data1).unwrap();
    s.set(&data2, &data2).unwrap();
    assert_eq!(s.get(&data1)?, Some(data1.clone()));
    assert_eq!(s.get(&data2)?, Some(data2.clone()));
    assert_eq!(
        s.get_batch(&[data1.clone(), data2.clone()])?,
        vec![Some(data1), Some(data2)]
    );
    Ok(())
}

fn check_set_batch<B: Store + BatchStore>(mut s: B) -> Result<()> {
    let data1 = b"test1".to_vec();
    let data2 = b"test2".to_vec();
    s.set_batch(&[data1.clone(), data2.clone()], &[data1.clone(), data2.clone()])
        .unwrap();
    assert_eq!(s.get(&data1)?, Some(data1.clone()));
    assert_eq!(s.get(&data2)?, Some(data2.clone()));
    Ok(())
}

fn check_remove_batch<B: Store + BatchStore>(mut s: B) -> Result<()> {
    let data1 = b"test1".to_vec();
    let data2 = b"test2".to_vec();
    s.set(&data1, &data1).unwrap();
    s.set(&data2, &data2).unwrap();
    assert_eq!(s.get(&data1)?, Some(data1.clone()));
    assert_eq!(s.get(&data2)?, Some(data2.clone()));
    s.remove_batch(&[data1.clone(), data2.clone()]).unwrap();
    assert_eq!(s.get(&data1)?, None);
    assert_eq!(s.get(&data2)?, None);
    Ok(())
}

#[test]
fn test_basic() -> Result<()> {
    check_remove(MemStore::open())?;
    check_get(MemStore::open())?;
    check_set(MemStore::open())?;
    check_contains(MemStore::open())?;
    Ok(())
}

#[test]
fn test_batch() -> Result<()> {
    check_get_batch(MemStore::open())?;
    check_set_batch(MemStore::open())?;
    check_remove_batch(MemStore::open())?;
    Ok(())
}

#[test]
fn test_empty_key_error() {
    let mut store = MemStore::open();

    let key = b"".to_vec();

    match store.set(&key, &[0x01]) {
        Err(KvsError::EmptyKey) => (),
        _ => panic!("should return error KvsError::EmptyKey"),
    }
}

#[test]
fn test_invalid_data_error() {
    let mut store = MemStore::open();

    let keys = b"".to_vec();

    match store.set_batch(&[keys], &[]) {
        Err(KvsError::InvalidData(_)) => (),
        _ => panic!("should return error KvsError::InvalidData"),
    }
}
