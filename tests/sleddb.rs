use simplekv::{assert_res_ok, dispatch, CommandRequest, Kvpair, SledDB, Storage, Value};

#[test]
fn sleddb_basic_interface_should_work() {
    let mut store = SledDB::new("/tmp/simplekv_sleddb_basic").unwrap();
    store.del("t1", "hello").unwrap();
    store.del("t1", "n").unwrap();

    let res = dispatch(CommandRequest::new_hset("t1", "hello", "world".into()), &mut store);
    assert!(assert_res_ok(res, &[Value::default()], &[]));
    let res = dispatch(CommandRequest::new_hset("t1", "hello", "world1".into()), &mut store);
    assert!(assert_res_ok(res, &["world".into()], &[]));
    let res = dispatch(CommandRequest::new_hget("t1", "hello"), &mut store);
    assert!(assert_res_ok(res, &["world1".into()], &[]));
    assert_eq!(store.contains("t1", "hello"), Ok(true));
    assert_eq!(store.contains("t1", "n"), Ok(false));

    store.set("t1", "n".to_string(), 7.into()).unwrap();
    let res = dispatch(CommandRequest::new_hgetall("t1"), &mut store);
    assert!(assert_res_ok(
        res,
        &[],
        &[Kvpair::new("hello", "world1".into()), Kvpair::new("n", 7.into())]
    ));

    let mut it = store.get_iter("t1").unwrap();
    assert_eq!(it.next(), Some(Kvpair::new("hello", "world1".into())));
    assert_eq!(it.next(), Some(Kvpair::new("n", 7.into())));
    assert_eq!(it.next(), None);

    assert_eq!(store.del("t1", "hello"), Ok(Some("world1".into())));
    assert_eq!(store.get("t1", "hello"), Ok(None));
}
