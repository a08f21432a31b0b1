use kv::{
    AfterWrite, CommandRequest, KvError, MemTable, ProstClientStream, ProstServerStream, ServerStep, Service,
    Value,
};

#[test]
fn client_server_basic_communication_should_work() {
    let mut server = ProstServerStream::new((), Service::new(MemTable::new()));

    let cmd = CommandRequest::new_hset("t1", "k1", "v1".to_string().into());
    let res = match server.on_read(Some(Ok(cmd))) {
        ServerStep::Respond(res) => ProstClientStream::<()>::response(Some(Ok(res))).unwrap(),
        ServerStep::Stop => panic!("expected a response"),
    };
    assert_eq!(res.status, 200);
    assert_eq!(res.values, vec![Value::default()]);

    let cmd = CommandRequest::new_hget("t1", "k1");
    let res = match server.on_read(Some(Ok(cmd))) {
        ServerStep::Respond(res) => ProstClientStream::<()>::response(Some(Ok(res))).unwrap(),
        ServerStep::Stop => panic!("expected a response"),
    };
    assert_eq!(res.values, vec!["v1".to_string().into()]);
}

#[test]
fn server_transport_is_reachable() {
    let mut server = ProstServerStream::new(Vec::<u8>::new(), Service::new(MemTable::new()));
    server.transport().push(1);
    assert_eq!(server.transport().len(), 1);
}

#[test]
fn server_stops_when_the_transport_ends_or_fails() {
    let mut server = ProstServerStream::new((), Service::new(MemTable::new()));
    assert!(matches!(server.on_read(None), ServerStep::Stop));
    assert!(matches!(server.on_read(Some(Err(KvError::FrameError))), ServerStep::Stop));
    assert!(matches!(
        ProstServerStream::<()>::received(None),
        Err(KvError::FrameError)
    ));
}

#[test]
fn client_reports_a_missing_response() {
    let mut client = ProstClientStream::new(0u8);
    *client.transport() = 3;
    assert_eq!(*client.transport(), 3);
    match ProstClientStream::<u8>::response(None) {
        Err(KvError::Internal(m)) => assert_eq!(m, "Didnot get any response"),
        _ => panic!("expected an internal error"),
    }
    let res = ProstClientStream::<u8>::response(Some(Ok(kv::CommandResponse::from_value(1.into()))))
        .unwrap();
    assert_eq!(res.values, vec![1.into()]);
}

#[test]
fn query_output_format() {
    assert_eq!(kv::query::output_format(None), Ok("csv".to_string()));
    assert_eq!(kv::query::output_format(Some("csv".to_string())), Ok("csv".to_string()));
    assert_eq!(
        kv::query::output_format(Some("json".to_string())),
        Err("Only support csv in the moment".to_string())
    );
}

#[test]
fn a_written_response_leads_to_the_next_read_and_a_failed_write_ends() {
    assert!(matches!(
        ProstServerStream::<()>::on_write(Ok(())),
        AfterWrite::ReadNext
    ));
    assert!(matches!(
        ProstServerStream::<()>::on_write(Err(KvError::FrameError)),
        AfterWrite::Fail(KvError::FrameError)
    ));
}
