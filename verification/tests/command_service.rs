use kv::service::command_service::{answer_get, answer_get_all, answer_set, read_step, write_step};
use kv::KvError;
use kv::{
    dispatch, CommandRequest, CommandResponse, Hset, Kvpair, MemTable, RequestData, Service, Value,
};

fn assert_res_ok(mut res: CommandResponse, values: &[Value], pairs: &[Kvpair]) {
    res.pairs.sort_by(|a, b| a.partial_cmp(b).unwrap());
    assert_eq!(res.status, 200);
    assert_eq!(res.message, "");
    assert_eq!(res.values, values);
    assert_eq!(res.pairs, pairs);
}

fn assert_res_error(res: CommandResponse, code: u32, msg: &str) {
    assert_eq!(res.status, code);
    assert!(res.message.contains(msg));
    assert_eq!(res.values, &[]);
    assert_eq!(res.pairs, &[]);
}

#[test]
fn hset_should_work() {
    let mut store = MemTable::new();
    let cmd = CommandRequest::new_hset("t1", "hello", "world".to_string().into());
    let res = dispatch(cmd.clone(), &mut store);
    assert_res_ok(res, &[Value::default()], &[]);

    let res = dispatch(cmd, &mut store);
    assert_res_ok(res, &["world".to_string().into()], &[]);
}

#[test]
fn hget_should_work() {
    let mut store = MemTable::new();
    let cmd = CommandRequest::new_hset("score", "u1", 10.into());
    dispatch(cmd, &mut store);
    let cmd = CommandRequest::new_hget("score", "u1");
    let res = dispatch(cmd, &mut store);
    assert_res_ok(res, &[10.into()], &[]);
}

#[test]
fn hget_with_non_exist_key_should_return_404() {
    let mut store = MemTable::new();
    let cmd = CommandRequest::new_hget("score", "u1");
    let res = dispatch(cmd, &mut store);
    assert_res_error(res, 404, "Not found");
}

#[test]
fn hgetall_should_work() {
    let mut store = MemTable::new();
    let cmds = vec![
        CommandRequest::new_hset("score", "u1", 10.into()),
        CommandRequest::new_hset("score", "u2", 8.into()),
        CommandRequest::new_hset("score", "u3", 11.into()),
        CommandRequest::new_hset("score", "u1", 6.into()),
    ];
    for cmd in cmds {
        dispatch(cmd, &mut store);
    }

    let cmd = CommandRequest::new_hgetall("score");
    let res = dispatch(cmd, &mut store);
    let pairs = &[
        Kvpair::new("u1", 6.into()),
        Kvpair::new("u2", 8.into()),
        Kvpair::new("u3", 11.into()),
    ];
    assert_res_ok(res, &[], pairs);
}

#[test]
fn hmget_should_work() {
    let mut store = MemTable::new();
    let cmd = CommandRequest::new_hset("score", "u1", 10.into());
    let _ = dispatch(cmd.clone(), &mut store);
    let cmd = CommandRequest::new_hset("score", "u2", 20.into());
    let _ = dispatch(cmd.clone(), &mut store);
    let cmd = CommandRequest::new_hget("score", "u1");
    let res = dispatch(cmd, &mut store);
    assert_res_ok(res, &[10.into()], &[]);
    let cmd = CommandRequest::new_hget("score", "u2");
    let res = dispatch(cmd, &mut store);
    assert_res_ok(res, &[20.into()], &[]);

    let cmd = CommandRequest::new_hmget("score", vec!["u1".into(), "u2".into()]);
    let res = dispatch(cmd, &mut store);
    assert_res_ok(res, &[10.into(), 20.into()], &[]);
}

#[test]
fn hmset_should_work() {
    let mut store = MemTable::new();
    let cmd_hmset = CommandRequest::new_hmset(
        "score",
        vec![Kvpair::new("u1", 10.into()), Kvpair::new("u2", 20.into())],
    );
    let res = dispatch(cmd_hmset.clone(), &mut store);
    assert_res_ok(
        res,
        &[],
        &[
            Kvpair::new("u1", Value::default()),
            Kvpair::new("u2", Value::default()),
        ],
    );

    let cmd = CommandRequest::new_hget("score", "u1");
    let res = dispatch(cmd.clone(), &mut store);
    assert_res_ok(res, &[10.into()], &[]);
    let cmd = CommandRequest::new_hget("score", "u2");
    let res = dispatch(cmd.clone(), &mut store);
    assert_res_ok(res, &[20.into()], &[]);

    let res = dispatch(cmd_hmset, &mut store);
    assert_res_ok(
        res,
        &[],
        &[Kvpair::new("u1", 10.into()), Kvpair::new("u2", 20.into())],
    );
}

#[test]
fn hget_reads_back_what_hset_wrote() {
    let mut store = MemTable::new();
    let res = dispatch(CommandRequest::new_hset("t", "k", true.into()), &mut store);
    assert_res_ok(res, &[Value::default()], &[]);
    let res = dispatch(CommandRequest::new_hget("t", "k"), &mut store);
    assert_res_ok(res, &[true.into()], &[]);
    let res = dispatch(CommandRequest::new_hget("other", "k"), &mut store);
    assert_eq!(res.status, 404);
}

#[test]
fn hget_missing_key_message_names_table_and_key() {
    let mut store = MemTable::new();
    let res = dispatch(CommandRequest::new_hget("score", "u1"), &mut store);
    assert_eq!(res.status, 404);
    assert_eq!(res.message, "Not found: table: score, key: u1");
}

#[test]
fn hset_without_pair_is_a_bad_request() {
    let mut store = MemTable::new();
    let cmd = CommandRequest {
        request_data: Some(RequestData::Hset(Hset { table: "t1".to_string(), pair: None })),
    };
    let res = dispatch(cmd, &mut store);
    assert_eq!(res.status, 400);
    assert_eq!(res.message, "Cannot parse command: Hset { table: \"t1\", pair: None }");
    assert!(res.values.is_empty());
}

#[test]
fn request_without_data_is_a_bad_request() {
    let mut store = MemTable::new();
    let res = dispatch(CommandRequest { request_data: None }, &mut store);
    assert_eq!(res.status, 400);
    assert_eq!(res.message, "Cannot parse command: Request has no data");
}

#[test]
fn hset_of_pair_without_value_stores_the_empty_value() {
    let mut store = MemTable::new();
    let cmd = CommandRequest {
        request_data: Some(RequestData::Hset(Hset {
            table: "t".to_string(),
            pair: Some(Kvpair { key: "k".to_string(), value: None }),
        })),
    };
    let res = dispatch(cmd, &mut store);
    assert_res_ok(res, &[Value::default()], &[]);
    let res = dispatch(CommandRequest::new_hget("t", "k"), &mut store);
    assert_res_ok(res, &[Value::default()], &[]);
}

#[test]
fn hmget_gives_empty_values_for_missing_keys() {
    let mut store = MemTable::new();
    dispatch(CommandRequest::new_hset("score", "u2", 20.into()), &mut store);
    let cmd = CommandRequest::new_hmget("score", vec!["u1".into(), "u2".into(), "u3".into()]);
    let res = dispatch(cmd, &mut store);
    assert_res_ok(res, &[Value::default(), 20.into(), Value::default()], &[]);
}

#[test]
fn hmset_then_hmget_gives_the_written_values_in_order() {
    let mut store = MemTable::new();
    let pairs = vec![
        Kvpair::new("b", 2.into()),
        Kvpair::new("a", "x".to_string().into()),
        Kvpair::new("c", vec![1u8, 2, 3].into()),
    ];
    dispatch(CommandRequest::new_hmset("t", pairs), &mut store);
    let cmd = CommandRequest::new_hmget("t", vec!["b".into(), "a".into(), "c".into()]);
    let res = dispatch(cmd, &mut store);
    assert_res_ok(
        res,
        &[2.into(), "x".to_string().into(), vec![1u8, 2, 3].into()],
        &[],
    );
}

#[test]
fn hgetall_lists_only_its_own_table() {
    let mut store = MemTable::new();
    dispatch(CommandRequest::new_hset("a", "k1", 1.into()), &mut store);
    dispatch(CommandRequest::new_hset("b", "k2", 2.into()), &mut store);
    let res = dispatch(CommandRequest::new_hgetall("a"), &mut store);
    assert_res_ok(res, &[], &[Kvpair::new("k1", 1.into())]);
    let res = dispatch(CommandRequest::new_hgetall("c"), &mut store);
    assert_res_ok(res, &[], &[]);
}

#[test]
fn service_answers_like_dispatch() {
    let mut service = Service::new(MemTable::new());
    let res = service.execute(CommandRequest::new_hset("t", "k", 5.into()));
    assert_res_ok(res, &[Value::default()], &[]);
    let res = service.execute(CommandRequest::new_hget("t", "k"));
    assert_res_ok(res, &[5.into()], &[]);
}

#[test]
fn reads_do_not_change_the_store() {
    let mut store = MemTable::new();
    dispatch(CommandRequest::new_hset("t", "k", 1.into()), &mut store);
    dispatch(CommandRequest::new_hget("t", "missing"), &mut store);
    dispatch(CommandRequest::new_hmget("t", vec!["k".into(), "x".into()]), &mut store);
    dispatch(CommandRequest::new_hgetall("t"), &mut store);
    let res = dispatch(CommandRequest::new_hgetall("t"), &mut store);
    assert_res_ok(res, &[], &[Kvpair::new("k", 1.into())]);
}

#[test]
fn answers_from_store_results() {
    let r = answer_get("t", "k", Err(KvError::FrameError));
    assert_eq!((r.status, r.message.as_str()), (500, "Frame is larger than max size"));
    let r = answer_get("t", "k", Ok(None));
    assert_eq!((r.status, r.message.as_str()), (404, "Not found: table: t, key: k"));
    let r = answer_get("t", "k", Ok(Some(3.into())));
    assert_res_ok(r, &[3.into()], &[]);
    let r = answer_get_all(Err(KvError::Internal("x".to_string())));
    assert_eq!((r.status, r.message.as_str()), (500, "Internal error: x"));
    let r = answer_set(Ok(None));
    assert_res_ok(r, &[Value::default()], &[]);
    let r = answer_set(Err(KvError::NotFound("y".to_string())));
    assert_eq!(r.status, 404);

    let mut values = vec![];
    assert!(read_step(&mut values, Ok(None)).is_none());
    assert!(read_step(&mut values, Ok(Some(1.into()))).is_none());
    assert_eq!(values, vec![Value::default(), 1.into()]);
    let r = read_step(&mut values, Err(KvError::FrameError)).unwrap();
    assert_eq!(r.status, 500);
    assert_eq!(values.len(), 2);

    let mut answered = vec![];
    assert!(write_step(&mut answered, "a".to_string(), Ok(Some(2.into()))).is_none());
    assert_eq!(answered, vec![Kvpair::new("a", 2.into())]);
    let r = write_step(&mut answered, "b".to_string(), Err(KvError::Internal("z".to_string())))
        .unwrap();
    assert_eq!(r.message, "Internal error: z");
    assert_eq!(answered.len(), 1);
}

#[test]
fn topic_requests_are_not_served_by_the_store() {
    let mut store = MemTable::new();
    for cmd in [
        CommandRequest::new_subscribe("lobby"),
        CommandRequest::new_unsubscribe("lobby", 1),
        CommandRequest::new_publish("lobby", vec![1.into(), "hello".to_string().into()]),
    ] {
        let res = dispatch(cmd, &mut store);
        assert_eq!((res.status, res.message.as_str()), (500, "Internal error: Not implemented"));
    }
    let res = dispatch(CommandRequest::new_hgetall("lobby"), &mut store);
    assert_res_ok(res, &[], &[]);
}
