use simplekv::{assert_res_error, assert_res_ok, dispatch, CommandRequest, Kvpair, MemTable, Value};

fn set_key_pairs(table: &str, pairs: Vec<(&str, impl Into<Value>)>, store: &mut MemTable) {
    for (k, v) in pairs {
        dispatch(CommandRequest::new_hset(table, k, v.into()), store);
    }
}

#[test]
fn hset_should_work() {
    let mut store = MemTable::new();
    let cmd = CommandRequest::new_hset("t1", "hello", "world".into());
    let res = dispatch(cmd.clone(), &mut store);
    assert!(assert_res_ok(res, &[Value::default()], &[]));

    let res = dispatch(cmd, &mut store);
    assert!(assert_res_ok(res, &["world".into()], &[]));
}

#[test]
fn hget_should_work() {
    let mut store = MemTable::new();
    let cmd = CommandRequest::new_hset("score", "u1", 10.into());
    dispatch(cmd, &mut store);
    let cmd = CommandRequest::new_hget("score", "u1");
    let res = dispatch(cmd, &mut store);
    assert!(assert_res_ok(res, &[10.into()], &[]));
}

#[test]
fn hmget_should_work() {
    let mut store = MemTable::new();
    set_key_pairs("user", vec![("u1", "s1"), ("u2", "s2")], &mut store);
    let cmd = CommandRequest::new_hmget("user", vec!["u1".into(), "u2".into(), "u3".into()]);
    let res = dispatch(cmd, &mut store);
    assert!(assert_res_ok(res, &["s1".into(), "s2".into(), Value::default()], &[]));
}

#[test]
fn hmset_should_work() {
    let mut store = MemTable::new();
    set_key_pairs("user", vec![("u1", "s1"), ("u2", "s2")], &mut store);
    let pairs = vec![
        Kvpair::new("u1", "ns1".into()),
        Kvpair::new("u2", "ns2".into()),
        Kvpair::new("u3", "ns3".into()),
    ];
    let cmd = CommandRequest::new_hmset("user", pairs);
    let res = dispatch(cmd, &mut store);
    assert!(assert_res_ok(res, &["s1".into(), "s2".into(), Value::default()], &[]));
}

#[test]
fn hdel_should_work() {
    let mut store = MemTable::new();
    set_key_pairs("user", vec![("u1", "s1")], &mut store);
    let cmd = CommandRequest::new_hdel("user", "u1");
    let res = dispatch(cmd.clone(), &mut store);
    assert!(assert_res_ok(res, &["s1".into()], &[]));

    let res = dispatch(cmd, &mut store);
    assert!(assert_res_ok(res, &[Value::default()], &[]));
}

#[test]
fn hmdel_should_work() {
    let mut store = MemTable::new();
    set_key_pairs("user", vec![("u1", "s1")], &mut store);
    let cmd = CommandRequest::new_hmdel("user", vec!["u1".into(), "u2".into()]);
    let res = dispatch(cmd.clone(), &mut store);
    assert!(assert_res_ok(res, &["s1".into(), Value::default()], &[]));
}

#[test]
fn hexist_should_work() {
    let mut store = MemTable::new();
    set_key_pairs("user", vec![("u1", "s1")], &mut store);
    let cmd = CommandRequest::new_hexist("user", "u1");
    let res = dispatch(cmd.clone(), &mut store);
    assert!(assert_res_ok(res, &[true.into()], &[]));

    let cmd = CommandRequest::new_hexist("user", "u2");
    let res = dispatch(cmd.clone(), &mut store);
    assert!(assert_res_ok(res, &[false.into()], &[]));
}

#[test]
fn hmexist_should_work() {
    let mut store = MemTable::new();
    set_key_pairs("user", vec![("u1", "s1"), ("u2", "s2")], &mut store);
    let cmd = CommandRequest::new_hmexist("user", vec!["u1".into(), "u2".into(), "u3".into()]);
    let res = dispatch(cmd.clone(), &mut store);
    assert!(assert_res_ok(res, &[true.into(), true.into(), false.into()], &[]));
}

#[test]
fn hget_with_non_exist_key_should_return_404() {
    let mut store = MemTable::new();
    let cmd = CommandRequest::new_hget("score", "u1");
    let res = dispatch(cmd, &mut store);
    assert!(assert_res_error(res, 404, "Not found"));
}

#[test]
fn hgetall_should_work() {
    let mut store = MemTable::new();
    let cmds = vec![
        CommandRequest::new_hset("score", "u1", 10.into()),
        CommandRequest::new_hset("score", "u2", 8.into()),
        CommandRequest::new_hset("score", "u3", 11.into()),
        CommandRequest::new_hset("score", "u1", 6.into()),
    ];
    for cmd in cmds {
        dispatch(cmd, &mut store);
    }

    let cmd = CommandRequest::new_hgetall("score");
    let res = dispatch(cmd, &mut store);
    let pairs = &[
        Kvpair::new("u1", 6.into()),
        Kvpair::new("u2", 8.into()),
        Kvpair::new("u3", 11.into()),
    ];
    assert!(assert_res_ok(res, &[], pairs));
}
