use std::sync::{Arc, Mutex};

use simplekv::{
    compare_pairs,
    assert_res_error, assert_res_ok, decode_value, dispatch, encode_value, flip,
    pair_from_entry, CommandRequest, CommandResponse, KvError, Kvpair, MemTable, Service,
    ServiceInner, Storage, Value,
};

#[test]
fn unwritten_key_reads_absent() {
    let mut store = MemTable::new();
    let res = dispatch(CommandRequest::new_hget("t", "k"), &mut store);
    assert!(assert_res_error(res, 404, "Not found for table: t, key: k"));
    let res = dispatch(CommandRequest::new_hexist("t", "k"), &mut store);
    assert!(assert_res_ok(res, &[false.into()], &[]));
    let res = dispatch(CommandRequest::new_hdel("t", "k"), &mut store);
    assert!(assert_res_ok(res, &[Value::default()], &[]));
    assert_eq!(store.contains("t", "k"), Ok(false));
    assert_eq!(store.get("t", "k"), Ok(None));
}

#[test]
fn second_write_returns_first_value() {
    let mut store = MemTable::new();
    let res = dispatch(CommandRequest::new_hset("t", "k", "v1".into()), &mut store);
    assert!(assert_res_ok(res, &[Value::default()], &[]));
    let res = dispatch(CommandRequest::new_hset("t", "k", "v2".into()), &mut store);
    assert!(assert_res_ok(res, &["v1".into()], &[]));
    let res = dispatch(CommandRequest::new_hget("t", "k"), &mut store);
    assert!(assert_res_ok(res, &["v2".into()], &[]));
}

#[test]
fn batch_get_keeps_key_order() {
    let mut store = MemTable::new();
    dispatch(CommandRequest::new_hset("t", "b", 2.into()), &mut store);
    dispatch(CommandRequest::new_hset("t", "d", 4.into()), &mut store);
    let keys = vec!["a".into(), "b".into(), "c".into(), "d".into(), "b".into()];
    let res = dispatch(CommandRequest::new_hmget("t", keys), &mut store);
    assert_eq!(
        res.values,
        vec![Value::default(), 2.into(), Value::default(), 4.into(), 2.into()]
    );
}

#[test]
fn batch_set_with_repeated_key_sees_earlier_write() {
    let mut store = MemTable::new();
    let pairs = vec![Kvpair::new("k", 1.into()), Kvpair::new("k", 2.into())];
    let res = dispatch(CommandRequest::new_hmset("t", pairs), &mut store);
    assert!(assert_res_ok(res, &[Value::default(), 1.into()], &[]));
    let res = dispatch(CommandRequest::new_hget("t", "k"), &mut store);
    assert!(assert_res_ok(res, &[2.into()], &[]));
}

#[test]
fn tables_are_independent() {
    let mut store = MemTable::new();
    dispatch(CommandRequest::new_hset("a", "k", 1.into()), &mut store);
    dispatch(CommandRequest::new_hset("b", "k", 2.into()), &mut store);
    let res = dispatch(CommandRequest::new_hgetall("a"), &mut store);
    assert!(assert_res_ok(res, &[], &[Kvpair::new("k", 1.into())]));
    let res = dispatch(CommandRequest::new_hgetall("c"), &mut store);
    assert!(assert_res_ok(res, &[], &[]));
}

#[test]
fn hset_without_pair_is_a_no_op() {
    let mut store = MemTable::new();
    let cmd = CommandRequest {
        request_data: Some(simplekv::RequestData::Hset(simplekv::Hset {
            table: "t".to_string(),
            pair: None,
        })),
    };
    let res = dispatch(cmd, &mut store);
    assert!(assert_res_ok(res, &[Value::default()], &[]));
    assert_eq!(store.get_all("t"), Ok(vec![]));
}

#[test]
fn every_value_survives_encoding() {
    let values = vec![
        Value::default(),
        Value::from("héllo"),
        Value::from(String::new()),
        Value::from(-42i64),
        Value::from(i64::MIN),
        Value::from(i64::MAX),
        Value::from(true),
        Value::from(false),
        Value::Binary(vec![0, 255, 7]),
        Value::Binary(vec![]),
    ];
    for v in values {
        let bytes = encode_value(&v);
        assert_eq!(decode_value(&bytes), Ok(v));
    }
}

#[test]
fn encoding_has_exact_bytes() {
    assert_eq!(encode_value(&Value::default()), vec![0]);
    assert_eq!(encode_value(&Value::from("hi")), vec![1, b'h', b'i']);
    assert_eq!(encode_value(&Value::from(258i64)), vec![2, 2, 1, 0, 0, 0, 0, 0, 0]);
    assert_eq!(encode_value(&Value::from(true)), vec![3, 1]);
    assert_eq!(encode_value(&Value::Binary(vec![9, 8])), vec![4, 9, 8]);
}

#[test]
fn malformed_bytes_are_a_conversion_error() {
    for bytes in [vec![], vec![0, 0], vec![1, 0xff], vec![2, 1, 2], vec![3, 2], vec![9]] {
        assert!(matches!(decode_value(&bytes), Err(KvError::ConvertError(_))));
    }
}

#[test]
fn unreadable_entries_become_the_empty_pair() {
    let empty = Kvpair::new("", Value::default());
    assert_eq!(pair_from_entry(None), empty);
    assert_eq!(pair_from_entry(Some((vec![0xff], vec![0]))), empty);
    assert_eq!(pair_from_entry(Some((b"k".to_vec(), vec![7]))), empty);
    assert_eq!(
        pair_from_entry(Some((b"k".to_vec(), vec![3, 1]))),
        Kvpair::new("k", true.into())
    );
}

#[test]
fn flip_moves_the_error_out() {
    assert_eq!(flip::<u8, u8>(None), Ok(None));
    assert_eq!(flip::<u8, u8>(Some(Ok(3))), Ok(Some(3)));
    assert_eq!(flip::<u8, u8>(Some(Err(4))), Err(4));
}

#[test]
fn each_error_maps_to_its_status() {
    let cases = vec![
        (KvError::NotFound("t".into(), "k".into()), 404, "Not found for table: t, key: k"),
        (KvError::InvalidCommand("x".into()), 400, "Invalid command: x"),
        (KvError::ConvertError("x".into()), 500, "Cannot convert value: x"),
        (KvError::BackendError("x".into()), 500, "Backend error: x"),
    ];
    for (e, code, msg) in cases {
        let res = CommandResponse::from_error(e);
        assert_eq!(res.status, code);
        assert_eq!(res.message, msg);
        assert!(res.values.is_empty() && res.pairs.is_empty());
    }
}

#[test]
fn pair_check_counts_repeats() {
    let a = Kvpair::new("a", 1.into());
    let b = Kvpair::new("b", 2.into());
    let res = CommandResponse::from_pairs(vec![a.clone(), a.clone(), b.clone()]);
    assert!(!assert_res_ok(res.clone(), &[], &[a.clone(), b.clone(), b.clone()]));
    assert!(assert_res_ok(res.clone(), &[], &[a.clone(), a.clone(), b.clone()]));
    assert!(!assert_res_ok(res, &[], &[b, a.clone(), a]));
}

#[test]
fn response_checks_reject_mismatches() {
    let ok = CommandResponse::from_value(1.into());
    assert!(!assert_res_ok(ok.clone(), &[2.into()], &[]));
    assert!(!assert_res_error(ok, 200, "x"));
    let err = CommandResponse::from_error(KvError::InvalidCommand("bad".into()));
    assert!(!assert_res_error(err.clone(), 400, "worse"));
    assert!(assert_res_error(err, 400, "bad"));
}

#[test]
fn distinct_key_writes_are_all_listed() {
    let mut store = MemTable::new();
    let pairs: Vec<Kvpair> = (0..8i64)
        .map(|i| Kvpair::new(&format!("k{}", i), i.into()))
        .collect();
    let res = dispatch(CommandRequest::new_hmset("t", pairs.clone()), &mut store);
    assert_eq!(res.values.len(), 8);
    let res = dispatch(CommandRequest::new_hgetall("t"), &mut store);
    assert!(assert_res_ok(res, &[], &pairs));
}

#[test]
fn memtable_scan_pulls_one_table_lazily() {
    let mut store = MemTable::new();
    store.set("a", "x".to_string(), 1.into()).unwrap();
    store.set("b", "y".to_string(), 2.into()).unwrap();
    store.set("a", "z".to_string(), 3.into()).unwrap();
    let mut it = store.get_iter("a");
    assert_eq!(it.next(&store), Some(Kvpair::new("x", 1.into())));
    assert_eq!(it.next(&store), Some(Kvpair::new("z", 3.into())));
    assert_eq!(it.next(&store), None);
    assert_eq!(it.next(&store), None);
    let mut empty = store.get_iter("c");
    assert_eq!(empty.next(&store), None);
}

#[test]
fn hset_through_one_handle_is_visible_through_another() {
    let service: Service = ServiceInner::new(MemTable::default()).into();
    let shared = Arc::new(Mutex::new(service));
    let cloned = Arc::clone(&shared);
    let res = cloned
        .lock()
        .unwrap()
        .execute(CommandRequest::new_hset("t1", "k1", "v1".into()));
    assert!(assert_res_ok(res, &[Value::default()], &[]));
    let res = shared.lock().unwrap().execute(CommandRequest::new_hget("t1", "k1"));
    assert!(assert_res_ok(res, &["v1".into()], &[]));
}

#[test]
fn pairs_order_by_key_then_value() {
    let a = Kvpair::new("a", 5.into());
    let b = Kvpair::new("b", 1.into());
    assert_eq!(compare_pairs(&a, &b), -1);
    assert_eq!(compare_pairs(&b, &a), 1);
    assert_eq!(compare_pairs(&a, &a.clone()), 0);
    assert_eq!(compare_pairs(&Kvpair::new("a", 1.into()), &a), -1);
    assert_eq!(compare_pairs(&Kvpair::new("a", "z".into()), &a), -1);
    assert_eq!(compare_pairs(&Kvpair::new("a", true.into()), &a), 1);
}
