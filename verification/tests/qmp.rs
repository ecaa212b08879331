use bigiron::error::Error;
use bigiron::qemu::qmp::{
    capabilities_command, command_string, parse_greeting, parse_qapi_stream, response_into_result,
    scan_messages, split_frames, Event, Message, Response, Return, Timestamp,
};

#[test]
fn test_parse_qapi_stream() {
    let s = "{\"timestamp\": {\"seconds\": 1677200460, \"microseconds\": 774479}, \"event\": \"STOP\"}\r\n{\"return\": {}}\r\n";
    let vals = parse_qapi_stream(s).unwrap();
    println!("{:?}", vals);

    assert_eq!(vals.len(), 2);
    assert_eq!(
        vals[0],
        Message::Event(Event {
            timestamp: Timestamp { seconds: 1677200460, microseconds: 774479 },
            event: "STOP".to_string(),
        })
    );
    assert_eq!(vals[1], Message::Response(Response::Return(Return { status: None })));
}

// a buffer holding one event immediately followed by one return: the
// event surfaces on the side, the return is the command's result
#[test]
fn test_drain_event_then_return() {
    let s = "{\"timestamp\": {\"seconds\": 1677200460, \"microseconds\": 774479}, \"event\": \"STOP\"}\r\n{\"return\": {}}\r\n";
    let msgs = parse_qapi_stream(s).unwrap();
    let (events, reply) = scan_messages(msgs);
    assert_eq!(events.len(), 1);
    assert_eq!(events[0].event, "STOP");
    assert_eq!(reply, Some(Response::Return(Return { status: None })));
}

#[test]
fn test_drain_stops_at_first_reply() {
    let s = "{\"return\": {}}\r\n{\"timestamp\": {\"seconds\": 1, \"microseconds\": 2}, \"event\": \"RESUME\"}\r\n";
    let msgs = parse_qapi_stream(s).unwrap();
    let (events, reply) = scan_messages(msgs);
    assert_eq!(events.len(), 0);
    assert_eq!(reply, Some(Response::Return(Return { status: None })));
}

#[test]
fn test_drain_no_reply() {
    let s = "{\"timestamp\": {\"seconds\": 1, \"microseconds\": 2}, \"event\": \"RESUME\"}\r\n";
    let msgs = parse_qapi_stream(s).unwrap();
    let (events, reply) = scan_messages(msgs);
    assert_eq!(events.len(), 1);
    assert_eq!(reply, None);
}

#[test]
fn test_status_field_extracted() {
    let s = "{\"return\": {\"status\": \"running\", \"singlestep\": false}}\r\n";
    let msgs = parse_qapi_stream(s).unwrap();
    assert_eq!(
        msgs[0],
        Message::Response(Response::Return(Return { status: Some("running".to_string()) }))
    );
}

#[test]
fn test_error_reply() {
    let s = "{\"error\": {\"class\": \"GenericError\", \"desc\": \"it broke\"}}\r";
    let msgs = parse_qapi_stream(s).unwrap();
    match &msgs[0] {
        Message::Response(Response::Error(e)) => {
            assert_eq!(e.class, "GenericError");
            assert_eq!(e.desc(), "it broke");
        }
        other => panic!("unexpected {:?}", other),
    }
    match &msgs[0] {
        Message::Response(r) => match response_into_result(r.clone()) {
            Err(Error::Monitor(d)) => assert_eq!(d, "it broke"),
            other => panic!("unexpected {:?}", other),
        },
        _ => unreachable!(),
    }
}

#[test]
fn test_malformed_frames_rejected() {
    assert_eq!(parse_qapi_stream("not json\r\n"), Err(Error::Malformed));
    // an object that is neither event, return nor error
    assert_eq!(parse_qapi_stream("{\"hello\": 1}\r\n"), Err(Error::Malformed));
    // a return whose payload is not an object
    assert_eq!(parse_qapi_stream("{\"return\": 7}\r\n"), Err(Error::Malformed));
    // an event without a timestamp
    assert_eq!(parse_qapi_stream("{\"event\": \"STOP\"}\r\n"), Err(Error::Malformed));
}

#[test]
fn test_split_frames_shapes() {
    let fs = split_frames("a\rb\r\nc");
    assert_eq!(fs, vec!["a".to_string(), "b".to_string(), "\nc".to_string()]);
    let fs = split_frames("one\r\ntwo\r\n");
    assert_eq!(fs, vec!["one".to_string(), "\ntwo".to_string()]);
    let fs = split_frames("");
    assert!(fs.is_empty());
    let fs = split_frames("\r\n");
    assert!(fs.is_empty());
}

#[test]
fn test_command_strings() {
    assert_eq!(capabilities_command(), "{\"arguments\":{},\"execute\":\"qmp_capabilities\"}");
    assert_eq!(command_string("quit"), "{\"execute\":\"quit\"}");
    assert_eq!(command_string("query-status"), "{\"execute\":\"query-status\"}");
}

#[test]
fn test_parse_greeting() {
    let line = "{\"QMP\": {\"version\": {\"qemu\": {\"micro\": 0, \"minor\": 1, \"major\": 3}, \"package\": \"(Debian)\"}, \"capabilities\": [\"oob\"]}}";
    let g = parse_greeting(line).unwrap();
    assert_eq!(g.qmp.version.qemu.major, 3);
    assert_eq!(g.qmp.version.qemu.minor, 1);
    assert_eq!(g.qmp.version.qemu.micro, 0);
    assert_eq!(g.qmp.version.package, "(Debian)");
    assert_eq!(g.qmp.capabilities, vec!["oob".to_string()]);
}

#[test]
fn test_parse_greeting_rejects_other_messages() {
    assert_eq!(parse_greeting("{\"return\": {}}"), Err(Error::Malformed));
    assert_eq!(parse_greeting("garbage"), Err(Error::Malformed));
    assert_eq!(
        parse_greeting("{\"QMP\": {\"version\": {}, \"capabilities\": []}}"),
        Err(Error::Malformed)
    );
}
