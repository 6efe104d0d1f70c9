use serde_json::Value;
use streaming_platform::client::{Correlator, Dispatch};
use streaming_platform::dto::{
    event_dto2, event_dto_with_sizes, reply_to_rpc_dto, reply_to_rpc_dto2_sizes,
    reply_to_rpc_dto_with_later_attachments2, resp, resp_full, resp_raw, resp_raw_full, rpc_dto,
    rpc_dto2, rpc_dto_with_attachments2, rpc_dto_with_correlation_id,
    rpc_dto_with_correlation_id_2, rpc_dto_with_correlation_id_sizes,
    rpc_dto_with_later_attachments, rpc_dto_with_later_attachments2, rpc_dto_with_sizes, compose,
    inline_attachments, later_attachments, Response, ResponseRaw,
};
use streaming_platform::frame::CodecError;
use streaming_platform::key::Key;
use streaming_platform::meta::{MsgType, RpcResult};
use streaming_platform::proto::{ClientMsg, MagicBall, MagicBall2, Received};
use streaming_platform::route::{Participator, Route, RouteSpec};

fn route() -> Route {
    Route {
        source: Participator::Service("c1".to_owned()),
        spec: RouteSpec::Simple,
        points: vec![Participator::Service("c2".to_owned())],
    }
}

fn is_v4(id: u128) -> bool {
    (id >> 76) & 0xF == 4 && (id >> 62) & 0x3 == 2
}

fn text(s: &str) -> Value {
    Value::String(s.to_owned())
}

#[test]
fn rpc_pair() {
    let mut c1: Correlator<&str> = Correlator::new();
    let (u, request) = rpc_dto_with_correlation_id(
        "c1".to_owned(),
        Key::simple("ask"),
        text("x"),
        route(),
        None,
        None,
    )
    .unwrap();
    assert_eq!(request.meta.correlation_id, u);
    assert_eq!(request.meta.msg_type, MsgType::RpcRequest);
    c1.handle(ClientMsg::AddRpc(u, "waiter"));
    assert!(c1.is_pending(u));
    let response = reply_to_rpc_dto(
        "c2".to_owned(),
        Key::simple("ask"),
        request.meta.correlation_id,
        text("y"),
        RpcResult::Success,
        route(),
        None,
        None,
    )
    .unwrap();
    assert_eq!(response.meta.correlation_id, u);
    assert_eq!(response.meta.msg_type, MsgType::RpcResponse(RpcResult::Success));
    assert_eq!(response.payload, b"\"y\"".to_vec());
    match c1.dispatch(response.meta.msg_type, response.meta.correlation_id) {
        Dispatch::RpcResponse(waiter) => assert_eq!(waiter, "waiter"),
        _ => panic!("the waiter of u gets the response"),
    }
    assert!(!c1.is_pending(u));
    assert!(matches!(
        c1.dispatch(response.meta.msg_type, response.meta.correlation_id),
        Dispatch::Unmatched
    ));
}

#[test]
fn responses_go_to_the_waiter_of_their_id() {
    let mut c: Correlator<u8> = Correlator::new();
    c.handle(ClientMsg::AddRpc(1, 10));
    c.handle(ClientMsg::AddRpc(2, 20));
    c.handle(ClientMsg::AddRpc(3, 30));
    let ok = MsgType::RpcResponse(RpcResult::Success);
    let err = MsgType::RpcResponse(RpcResult::Failure);
    assert!(matches!(c.dispatch(ok, 2), Dispatch::RpcResponse(20)));
    assert!(matches!(c.dispatch(err, 1), Dispatch::RpcResponse(10)));
    assert!(matches!(c.dispatch(ok, 4), Dispatch::Unmatched));
    assert!(c.is_pending(3));
    assert!(!c.is_pending(1));
    assert!(!c.is_pending(2));
}

#[test]
fn events_and_requests_leave_pending_calls_alone() {
    let mut c: Correlator<u8> = Correlator::new();
    c.handle(ClientMsg::AddRpc(1, 10));
    assert!(matches!(c.dispatch(MsgType::Event, 1), Dispatch::Event));
    assert!(matches!(c.dispatch(MsgType::RpcRequest, 1), Dispatch::RpcRequest));
    assert!(c.is_pending(1));
}

#[test]
fn cancelled_call_drops_its_response() {
    let mut c: Correlator<u8> = Correlator::new();
    c.handle(ClientMsg::AddRpc(1, 10));
    c.handle(ClientMsg::RemoveRpc(1));
    c.handle(ClientMsg::RemoveRpc(1));
    assert!(!c.is_pending(1));
    assert!(matches!(
        c.dispatch(MsgType::RpcResponse(RpcResult::Success), 1),
        Dispatch::Unmatched
    ));
}

#[test]
fn later_registration_replaces_the_earlier() {
    let mut c: Correlator<u8> = Correlator::new();
    c.handle(ClientMsg::AddRpc(1, 10));
    c.handle(ClientMsg::AddRpc(1, 11));
    c.handle(ClientMsg::RpcDataRequest(1));
    c.handle(ClientMsg::RpcDataResponse(1, 12));
    assert!(matches!(
        c.dispatch(MsgType::RpcResponse(RpcResult::Success), 1),
        Dispatch::RpcResponse(11)
    ));
}

#[test]
fn magic_ball2_sends_from_its_address() {
    let ball = MagicBall2::new("me".to_owned());
    let (meta, payload) = ball.send("you".to_owned(), vec![1, 2, 3]);
    assert_eq!(meta.tx, "me");
    assert_eq!(meta.rx, "you");
    assert_eq!(meta.correlation_id, None);
    assert_eq!(payload, vec![1, 2, 3]);
}

#[test]
fn magic_ball2_receives_what_follows_the_meta() {
    let ball = MagicBall2::new("me".to_owned());
    let (meta, _) = MagicBall2::new("you".to_owned()).send("me".to_owned(), vec![]);
    let received = Received { meta, len: 2, data: b"\x00\x00\x00\x02{}payload".to_vec() };
    let (meta, payload) = ball.recv(received).unwrap();
    assert_eq!(meta.tx, "you");
    assert_eq!(payload, b"payload".to_vec());
}

#[test]
fn magic_ball2_refuses_a_length_beyond_the_frame() {
    let ball = MagicBall2::new("me".to_owned());
    let (meta, _) = ball.send("x".to_owned(), vec![]);
    let received = Received { meta: meta.clone(), len: 3, data: b"\x00\x00\x00\x02{}".to_vec() };
    assert!(matches!(ball.recv(received), Err(CodecError::InvalidLength)));
    let received = Received { meta: meta.clone(), len: 0, data: b"\x00\x00".to_vec() };
    assert!(matches!(ball.recv(received), Err(CodecError::InvalidLength)));
    let received = Received { meta: meta.clone(), len: usize::MAX, data: vec![0; 8] };
    assert!(matches!(ball.recv(received), Err(CodecError::InvalidLength)));
    let received = Received { meta, len: 2, data: b"\x00\x00\x00\x02{}".to_vec() };
    assert_eq!(ball.recv(received).unwrap().1, Vec::<u8>::new());
}

#[test]
fn rpc_call_registers_and_unregisters_its_own_id() {
    let ball = MagicBall2::new("me".to_owned());
    let call = ball.rpc("you".to_owned(), vec![7], "reply");
    let id = call.meta.correlation_id.unwrap();
    assert!(is_v4(id));
    assert_eq!(call.meta.tx, "me");
    assert_eq!(call.meta.rx, "you");
    assert_eq!(call.payload, vec![7]);
    assert!(matches!(call.register, ClientMsg::AddRpc(i, "reply") if i == id));
    assert!(matches!(call.unregister, ClientMsg::RemoveRpc(i) if i == id));
    let mut pending: Correlator<&str> = Correlator::new();
    pending.handle(call.register);
    assert!(pending.is_pending(id));
    pending.handle(call.unregister);
    assert!(!pending.is_pending(id));
}

#[test]
fn rpc_call_under_a_given_id() {
    let ball = MagicBall2::new("me".to_owned());
    let call = ball.rpc_as(42, "you".to_owned(), vec![], 'r');
    assert_eq!(call.meta.correlation_id, Some(42));
    assert!(matches!(call.register, ClientMsg::AddRpc(42, 'r')));
    assert!(matches!(call.unregister, ClientMsg::RemoveRpc(42)));
    let response = Received {
        meta: call.meta.clone(),
        len: 1,
        data: b"\x00\x00\x00\x01mresult".to_vec(),
    };
    let (meta, payload) = ball.rpc_result(response).unwrap();
    assert_eq!(meta.correlation_id, Some(42));
    assert_eq!(payload, b"result".to_vec());
}

#[test]
fn magic_ball_encodes_and_decodes_payloads() {
    let ball = MagicBall::new("me".to_owned());
    let (meta, payload) = ball.send("you".to_owned(), text("hi")).unwrap();
    assert_eq!(meta.tx, "me");
    assert_eq!(meta.rx, "you");
    assert_eq!(meta.correlation_id, None);
    assert_eq!(payload, b"\"hi\"".to_vec());
    let received = Received { meta: meta.clone(), len: 2, data: b"\x00\x00\x00\x02{}[true]".to_vec() };
    let (_, value) = ball.recv(received).unwrap();
    assert_eq!(value, Value::Array(vec![Value::Bool(true)]));
    let received = Received { meta: meta.clone(), len: 2, data: b"\x00\x00\x00\x02{}[true".to_vec() };
    assert!(matches!(ball.recv(received), Err(CodecError::PayloadDecodeError)));
    let received = Received { meta, len: 9, data: b"\x00\x00\x00\x02{}".to_vec() };
    assert!(matches!(ball.recv(received), Err(CodecError::InvalidLength)));
}

#[test]
fn responses_are_wrapped() {
    assert!(matches!(resp(5), Ok(Response::Simple(5))));
    match resp_full("p", vec![("a".to_owned(), 2)], vec![1, 2]) {
        Ok(Response::Full(payload, attachments, data)) => {
            assert_eq!(payload, "p");
            assert_eq!(attachments, vec![("a".to_owned(), 2)]);
            assert_eq!(data, vec![1, 2]);
        }
        _ => panic!("a full response"),
    }
    match resp_raw(vec![1]) {
        Ok(ResponseRaw::Simple(payload)) => assert_eq!(payload, vec![1]),
        _ => panic!("a simple raw response"),
    }
    match resp_raw_full(vec![1], vec![("a".to_owned(), 1)], vec![9]) {
        Ok(ResponseRaw::Full(payload, attachments, data)) => {
            assert_eq!(payload, vec![1]);
            assert_eq!(attachments, vec![("a".to_owned(), 1)]);
            assert_eq!(data, vec![9]);
        }
        _ => panic!("a full raw response"),
    }
}

#[test]
fn raw_event_and_request() {
    let msg = event_dto2(
        "me".to_owned(),
        Key::new("a", "s", "d"),
        vec![1, 2, 3, 4],
        route(),
        Some("tok".to_owned()),
        Some(text("data")),
    );
    assert_eq!(msg.meta.tx, "me");
    assert_eq!(msg.meta.key, Key::new("a", "s", "d"));
    assert_eq!(msg.meta.msg_type, MsgType::Event);
    assert!(is_v4(msg.meta.correlation_id));
    assert_eq!(msg.meta.payload_size, 4);
    assert_eq!(msg.meta.auth_token, Some("tok".to_owned()));
    assert_eq!(msg.meta.auth_data, Some(text("data")));
    assert_eq!(msg.meta.route.points.len(), 1);
    assert!(msg.meta.attachments.is_empty());
    assert_eq!(msg.payload, vec![1, 2, 3, 4]);
    assert!(msg.attachments_data.is_empty());
    let msg = rpc_dto2("me".to_owned(), Key::simple("a"), vec![], route(), None, None);
    assert_eq!(msg.meta.msg_type, MsgType::RpcRequest);
    assert_eq!(msg.meta.payload_size, 0);
    assert!(is_v4(msg.meta.correlation_id));
    let (id, msg) =
        rpc_dto_with_correlation_id_2("me".to_owned(), Key::simple("a"), vec![5], route(), None, None);
    assert_eq!(msg.meta.correlation_id, id);
    assert_eq!(msg.meta.msg_type, MsgType::RpcRequest);
    assert_eq!(msg.payload, vec![5]);
}

#[test]
fn raw_requests_with_attachments() {
    let msg = rpc_dto_with_attachments2(
        "me".to_owned(),
        Key::simple("a"),
        vec![1],
        vec![("x".to_owned(), vec![1, 2]), ("y".to_owned(), vec![]), ("z".to_owned(), vec![3])],
        route(),
        None,
        None,
    );
    assert_eq!(msg.meta.attachments_sizes(), vec![2, 0, 1]);
    assert_eq!(msg.meta.attachments[2].name, "z");
    assert_eq!(msg.attachments_data, vec![1, 2, 3]);
    assert_eq!(msg.meta.content_len(), 4);
    let msg = rpc_dto_with_later_attachments2(
        "me".to_owned(),
        Key::simple("a"),
        vec![1],
        vec![("x".to_owned(), 100), ("y".to_owned(), 7)],
        route(),
        None,
        None,
    );
    assert_eq!(msg.meta.msg_type, MsgType::RpcRequest);
    assert_eq!(msg.meta.attachments_sizes(), vec![100, 7]);
    assert_eq!(msg.meta.attachments[0].name, "x");
    assert!(msg.attachments_data.is_empty());
}

#[test]
fn raw_responses() {
    let (msg, payload_size, sizes) = reply_to_rpc_dto2_sizes(
        "me".to_owned(),
        Key::simple("a"),
        99,
        vec![1, 2],
        vec![("x".to_owned(), 3)],
        vec![7, 8, 9],
        RpcResult::Failure,
        route(),
        None,
        None,
    );
    assert_eq!(msg.meta.correlation_id, 99);
    assert_eq!(msg.meta.msg_type, MsgType::RpcResponse(RpcResult::Failure));
    assert_eq!(payload_size, 2);
    assert_eq!(sizes, vec![3]);
    assert_eq!(msg.attachments_data, vec![7, 8, 9]);
    let msg = reply_to_rpc_dto_with_later_attachments2(
        "me".to_owned(),
        Key::simple("a"),
        98,
        vec![1, 2],
        vec![("x".to_owned(), 3)],
        RpcResult::Success,
        route(),
        None,
        None,
    );
    assert_eq!(msg.meta.correlation_id, 98);
    assert_eq!(msg.meta.msg_type, MsgType::RpcResponse(RpcResult::Success));
    assert_eq!(msg.meta.attachments_sizes(), vec![3]);
    assert!(msg.attachments_data.is_empty());
}

#[test]
fn typed_constructors_encode_the_payload() {
    let (msg, payload_size, sizes) = event_dto_with_sizes(
        "me".to_owned(),
        Key::simple("a"),
        text("abc"),
        route(),
        None,
        None,
    )
    .unwrap();
    assert_eq!(msg.meta.msg_type, MsgType::Event);
    assert_eq!(msg.payload, b"\"abc\"".to_vec());
    assert_eq!(payload_size, 5);
    assert!(sizes.is_empty());
    let msg = rpc_dto("me".to_owned(), Key::simple("a"), Value::Null, route(), None, None).unwrap();
    assert_eq!(msg.meta.msg_type, MsgType::RpcRequest);
    assert_eq!(msg.payload, b"null".to_vec());
    assert_eq!(msg.meta.payload_size, 4);
    let (msg, payload_size, sizes) =
        rpc_dto_with_sizes("me".to_owned(), Key::simple("a"), Value::Bool(false), route(), None, None)
            .unwrap();
    assert_eq!(msg.payload, b"false".to_vec());
    assert_eq!(payload_size, 5);
    assert!(sizes.is_empty());
    let (id, msg, payload_size, sizes) = rpc_dto_with_correlation_id_sizes(
        "me".to_owned(),
        Key::simple("a"),
        Value::Array(vec![]),
        route(),
        None,
        None,
    )
    .unwrap();
    assert_eq!(id, msg.meta.correlation_id);
    assert!(is_v4(id));
    assert_eq!(msg.payload, b"[]".to_vec());
    assert_eq!(payload_size, 2);
    assert!(sizes.is_empty());
    let msg = rpc_dto_with_later_attachments(
        "me".to_owned(),
        Key::simple("a"),
        text(""),
        vec![("later".to_owned(), 12)],
        route(),
        None,
        None,
    )
    .unwrap();
    assert_eq!(msg.payload, b"\"\"".to_vec());
    assert_eq!(msg.meta.attachments_sizes(), vec![12]);
    assert_eq!(msg.meta.attachments[0].name, "later");
    assert!(msg.attachments_data.is_empty());
}

#[test]
fn composing_keeps_every_part() {
    let (meta, data) = inline_attachments(&vec![("n".to_owned(), vec![4, 5])]);
    let msg = compose(
        MsgType::RpcResponse(RpcResult::Success),
        77,
        "tx".to_owned(),
        Key::simple("k"),
        vec![1, 2, 3],
        meta,
        data,
        route(),
        Some("t".to_owned()),
        None,
    );
    assert_eq!(msg.meta.correlation_id, 77);
    assert_eq!(msg.meta.payload_size, 3);
    assert_eq!(msg.meta.attachments[0].name, "n");
    assert_eq!(msg.meta.attachments[0].size, 2);
    assert_eq!(msg.attachments_data, vec![4, 5]);
    assert_eq!(msg.meta.auth_token, Some("t".to_owned()));
    let later = later_attachments(&vec![("a".to_owned(), 1), ("b".to_owned(), u64::MAX)]);
    assert_eq!(later.len(), 2);
    assert_eq!(later[1].name, "b");
    assert_eq!(later[1].size, u64::MAX);
}
