use simplekv::{
    assert_res_ok, CommandRequest, CommandResponse, Hook, MemTable, Service, ServiceInner, Value,
};

struct Created;

impl Hook for Created {
    fn on_received(&self, cmd: &CommandRequest) {
        println!("on_received: {:?}", cmd);
    }

    fn on_executed(&self, res: &CommandResponse) {
        println!("on_executed: {:?}", res);
    }

    fn on_before_send(&self, res: &mut CommandResponse) {
        res.status = 201;
    }

    fn on_after_send(&self) {
        println!("on_after_send");
    }
}

#[test]
fn event_registration_should_work() {
    let mut service: Service<MemTable, Created> = ServiceInner::new(MemTable::default())
        .fn_received(Created)
        .fn_executed(Created)
        .fn_before_send(Created)
        .fn_after_send(Created)
        .into();

    let res = service.execute(CommandRequest::new_hset("user", "u1", "s1".into()));
    assert_eq!(res.status, 201);
    assert_eq!(res.message, "");
    assert_eq!(res.values, &[Value::default()]);
    service.notify_sent();
}

#[test]
fn service_should_works() {
    let mut service: Service = ServiceInner::new(MemTable::default()).into();
    let res = service.execute(CommandRequest::new_hset("t1", "k1", "v1".into()));
    assert!(assert_res_ok(res, &[Value::default()], &[]));

    let res = service.execute(CommandRequest::new_hget("t1", "k1"));
    assert!(assert_res_ok(res, &["v1".into()], &[]));
}

#[test]
fn empty_request_is_invalid_command() {
    let mut service: Service = ServiceInner::new(MemTable::default()).into();
    let res = service.execute(CommandRequest { request_data: None });
    assert_eq!(res.status, 400);
    assert_eq!(res.message, "Invalid command: Request has no data");
    assert!(res.values.is_empty());
    assert!(res.pairs.is_empty());
}
