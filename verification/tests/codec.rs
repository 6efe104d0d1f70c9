use serde_json::{Number, Value};
use streaming_platform::decode::{
    attachments_bytes, get_msg, get_msg_meta_and_payload, get_payload,
    get_payload_with_attachments, payload_bytes,
};
use streaming_platform::dto::{event_dto, rpc_dto_with_attachments, MessageRaw};
use streaming_platform::frame::{encode_frame, get_msg_meta, meta_len, replace_meta, CodecError};
use streaming_platform::json::{decode_payload, encode_payload};
use streaming_platform::key::Key;
use streaming_platform::meta::{Attachment, MsgMeta, MsgType};
use streaming_platform::route::{Participator, Route, RouteSpec};

fn object(name: &str, value: Value) -> Value {
    let mut map = serde_json::Map::new();
    map.insert(name.to_owned(), value);
    Value::Object(map)
}

fn number(n: u64) -> Value {
    Value::Number(Number::from(n))
}

fn simple_route() -> Route {
    Route {
        source: Participator::Service("a.b".to_owned()),
        spec: RouteSpec::Simple,
        points: vec![],
    }
}

fn meta_with(payload_size: u64, attachments: Vec<Attachment>) -> MsgMeta {
    MsgMeta {
        tx: "a.b".to_owned(),
        key: Key::simple("ping"),
        msg_type: MsgType::Event,
        correlation_id: 7,
        route: simple_route(),
        payload_size,
        auth_token: None,
        auth_data: None,
        attachments,
    }
}

#[test]
fn prefix_is_big_endian() {
    let meta = vec![b'x'; 0x0102];
    let frame = encode_frame(&meta, b"", b"").unwrap();
    assert_eq!(&frame[..4], &[0x00, 0x00, 0x01, 0x02]);
    assert_eq!(frame.len(), 4 + 0x0102);
    assert_eq!(meta_len(&frame), Ok(0x0102));
}

#[test]
fn prefix_reads_all_four_bytes() {
    let mut data = vec![0x00, 0x01, 0x00, 0x03];
    data.extend(vec![0u8; 0x1_0003]);
    assert_eq!(meta_len(&data), Ok(0x1_0003));
    let data = vec![0x01, 0x00, 0x00, 0x00, 1, 2, 3];
    assert_eq!(meta_len(&data), Err(CodecError::InvalidLength));
}

#[test]
fn frame_layout_is_prefix_meta_payload_attachments() {
    let frame = encode_frame(b"{m}", b"pay", b"att").unwrap();
    assert_eq!(frame, b"\x00\x00\x00\x03{m}payatt".to_vec());
}

#[test]
fn empty_meta_frames() {
    let frame = encode_frame(b"", b"", b"").unwrap();
    assert_eq!(frame, vec![0, 0, 0, 0]);
    assert_eq!(get_msg_meta(&frame).unwrap(), b"");
}

#[test]
fn peek_meta_ignores_what_follows() {
    let with_body = encode_frame(b"{\"tx\":1}", b"payload", b"more").unwrap();
    let bare = encode_frame(b"{\"tx\":1}", b"", b"").unwrap();
    assert_eq!(get_msg_meta(&with_body).unwrap(), b"{\"tx\":1}");
    assert_eq!(get_msg_meta(&bare).unwrap(), b"{\"tx\":1}");
}

#[test]
fn short_buffer_is_invalid_length() {
    assert_eq!(get_msg_meta(b""), Err(CodecError::InvalidLength));
    assert_eq!(get_msg_meta(b"\x00\x00\x00"), Err(CodecError::InvalidLength));
    assert_eq!(meta_len(b"\x00\x00"), Err(CodecError::InvalidLength));
}

#[test]
fn truncated_frame_is_invalid_length() {
    let mut data = vec![0x00, 0x00, 0x03, 0xE8];
    data.extend(vec![b' '; 96]);
    assert_eq!(data.len(), 100);
    assert_eq!(get_msg_meta(&data), Err(CodecError::InvalidLength));
    assert_eq!(meta_len(&data), Err(CodecError::InvalidLength));
}

#[test]
fn meta_filling_the_buffer_is_accepted() {
    let data = b"\x00\x00\x00\x02ab";
    assert_eq!(get_msg_meta(data).unwrap(), b"ab");
    let data = b"\x00\x00\x00\x03ab";
    assert_eq!(get_msg_meta(data), Err(CodecError::InvalidLength));
}

#[test]
fn event_round_trip() {
    let payload = object("n", number(1));
    let msg = event_dto(
        "a.b".to_owned(),
        Key::simple("ping"),
        payload.clone(),
        simple_route(),
        None,
        None,
    )
    .unwrap();
    assert_eq!(msg.meta.tx, "a.b");
    assert_eq!(msg.meta.key, Key::new("ping", "", ""));
    assert_eq!(msg.meta.msg_type, MsgType::Event);
    assert_eq!(msg.meta.payload_size, 7);
    assert!(msg.meta.attachments.is_empty());
    assert!(msg.meta.route.points.is_empty());
    assert_eq!(msg.payload, b"{\"n\":1}".to_vec());
    let meta = msg.meta.clone();
    let encoded_meta = b"{\"tx\":\"a.b\"}";
    let frame = msg.into_frame(encoded_meta).unwrap();
    assert_eq!(get_msg_meta(&frame).unwrap(), encoded_meta);
    let (meta_back, payload_back, attachments) = get_msg(meta, &frame).unwrap();
    assert_eq!(meta_back.tx, "a.b");
    assert_eq!(meta_back.payload_size, 7);
    assert_eq!(payload_back, payload);
    assert!(attachments.is_empty());
}

#[test]
fn attachment_framing() {
    let payload = object("k", number(1));
    let msg = rpc_dto_with_attachments(
        "a".to_owned(),
        Key::simple("get"),
        payload.clone(),
        vec![("a".to_owned(), vec![0x01, 0x02]), ("b".to_owned(), vec![0x03])],
        simple_route(),
        None,
        None,
    )
    .unwrap();
    assert_eq!(msg.meta.msg_type, MsgType::RpcRequest);
    assert_eq!(msg.meta.payload_size, 7);
    assert_eq!(msg.meta.attachments.len(), 2);
    assert_eq!(msg.meta.attachments[0].name, "a");
    assert_eq!(msg.meta.attachments[0].size, 2);
    assert_eq!(msg.meta.attachments[1].name, "b");
    assert_eq!(msg.meta.attachments[1].size, 1);
    assert_eq!(msg.attachments_data, vec![0x01, 0x02, 0x03]);
    let meta = msg.meta.clone();
    let frame = msg.into_frame(b"META").unwrap();
    let mut expected = vec![0, 0, 0, 4];
    expected.extend_from_slice(b"META");
    expected.extend_from_slice(b"{\"k\":1}");
    expected.extend_from_slice(&[0x01, 0x02, 0x03]);
    assert_eq!(frame, expected);
    let (payload_back, attachments) = get_payload_with_attachments(&meta, &frame).unwrap();
    assert_eq!(payload_back, payload);
    assert_eq!(
        attachments,
        vec![("a".to_owned(), vec![0x01, 0x02]), ("b".to_owned(), vec![0x03])]
    );
}

#[test]
fn frame_with_sizes_reports_all_lengths() {
    let msg = MessageRaw {
        meta: meta_with(
            3,
            vec![
                Attachment { name: "x".to_owned(), size: 2 },
                Attachment { name: "y".to_owned(), size: 0 },
            ],
        ),
        payload: b"abc".to_vec(),
        attachments_data: vec![9, 8],
    };
    let (frame, meta_size, payload_size, sizes) = msg.into_frame_with_sizes(b"12345").unwrap();
    assert_eq!(frame, b"\x00\x00\x00\x0512345abc\x09\x08".to_vec());
    assert_eq!(meta_size, 5);
    assert_eq!(payload_size, 3);
    assert_eq!(sizes, vec![2, 0]);
}

#[test]
fn payload_is_cut_by_announced_length() {
    let frame = encode_frame(b"mm", b"abcdef", b"").unwrap();
    assert_eq!(payload_bytes(&meta_with(6, vec![]), &frame).unwrap(), b"abcdef");
    assert_eq!(payload_bytes(&meta_with(4, vec![]), &frame).unwrap(), b"abcd");
    assert_eq!(payload_bytes(&meta_with(0, vec![]), &frame).unwrap(), b"");
    assert_eq!(payload_bytes(&meta_with(7, vec![]), &frame), Err(CodecError::InvalidLength));
    assert_eq!(
        payload_bytes(&meta_with(u64::MAX, vec![]), &frame),
        Err(CodecError::InvalidLength)
    );
}

#[test]
fn attachments_are_cut_in_order() {
    let frame = encode_frame(b"mm", b"pp", b"\x01\x02\x03\x04").unwrap();
    let meta = meta_with(
        2,
        vec![
            Attachment { name: "first".to_owned(), size: 1 },
            Attachment { name: "none".to_owned(), size: 0 },
            Attachment { name: "last".to_owned(), size: 3 },
        ],
    );
    assert_eq!(
        attachments_bytes(&meta, &frame).unwrap(),
        vec![
            ("first".to_owned(), vec![1]),
            ("none".to_owned(), vec![]),
            ("last".to_owned(), vec![2, 3, 4]),
        ]
    );
}

#[test]
fn trailing_bytes_are_left_alone() {
    let frame = encode_frame(b"mm", b"pp", b"\x01\x02\x03\x04").unwrap();
    let meta = meta_with(2, vec![Attachment { name: "a".to_owned(), size: 2 }]);
    assert_eq!(attachments_bytes(&meta, &frame).unwrap(), vec![("a".to_owned(), vec![1, 2])]);
}

#[test]
fn truncated_attachment_is_an_error() {
    let frame = encode_frame(b"mm", b"pp", b"\x01\x02").unwrap();
    let meta = meta_with(
        2,
        vec![
            Attachment { name: "a".to_owned(), size: 2 },
            Attachment { name: "b".to_owned(), size: 1 },
        ],
    );
    assert_eq!(attachments_bytes(&meta, &frame), Err(CodecError::TruncatedAttachment));
    let huge = meta_with(
        2,
        vec![
            Attachment { name: "a".to_owned(), size: u64::MAX },
            Attachment { name: "b".to_owned(), size: u64::MAX },
        ],
    );
    assert_eq!(attachments_bytes(&huge, &frame), Err(CodecError::TruncatedAttachment));
}

#[test]
fn attachments_need_the_payload_to_fit() {
    let frame = encode_frame(b"mm", b"pp", b"").unwrap();
    let meta = meta_with(3, vec![]);
    assert_eq!(attachments_bytes(&meta, &frame), Err(CodecError::InvalidLength));
    assert_eq!(attachments_bytes(&meta, b"\x00"), Err(CodecError::InvalidLength));
}

#[test]
fn payload_that_is_no_json_is_a_decode_error() {
    let frame = encode_frame(b"mm", b"{not json", b"").unwrap();
    let meta = meta_with(9, vec![]);
    assert_eq!(get_payload(&meta, &frame), Err(CodecError::PayloadDecodeError));
    assert_eq!(
        get_payload_with_attachments(&meta, &frame),
        Err(CodecError::PayloadDecodeError)
    );
    assert!(matches!(get_msg(meta.clone(), &frame), Err(CodecError::PayloadDecodeError)));
    assert!(matches!(
        get_msg_meta_and_payload(meta, &frame),
        Err(CodecError::PayloadDecodeError)
    ));
}

#[test]
fn payload_error_comes_before_attachment_error() {
    let frame = encode_frame(b"mm", b"oops", b"").unwrap();
    let meta = meta_with(4, vec![Attachment { name: "a".to_owned(), size: 5 }]);
    assert_eq!(
        get_payload_with_attachments(&meta, &frame),
        Err(CodecError::PayloadDecodeError)
    );
    let frame = encode_frame(b"mm", b"true", b"").unwrap();
    assert_eq!(
        get_payload_with_attachments(&meta, &frame),
        Err(CodecError::TruncatedAttachment)
    );
}

#[test]
fn typed_payload_is_decoded() {
    let frame = encode_frame(b"mm", b"{\"r\":\"y\"}", b"").unwrap();
    let meta = meta_with(9, vec![]);
    assert_eq!(get_payload(&meta, &frame).unwrap(), object("r", Value::String("y".to_owned())));
    let (meta_back, payload) = get_msg_meta_and_payload(meta, &frame).unwrap();
    assert_eq!(meta_back.correlation_id, 7);
    assert_eq!(payload, object("r", Value::String("y".to_owned())));
}

#[test]
fn payload_text_is_json() {
    assert_eq!(encode_payload(&object("n", number(1))).unwrap(), b"{\"n\":1}".to_vec());
    assert_eq!(encode_payload(&Value::Null).unwrap(), b"null".to_vec());
    assert_eq!(decode_payload(b"[1, 2]").unwrap(), Value::Array(vec![number(1), number(2)]));
    assert_eq!(decode_payload(b""), Err(CodecError::PayloadDecodeError));
    assert_eq!(decode_payload(b"{"), Err(CodecError::PayloadDecodeError));
}

#[test]
fn replacing_meta_keeps_the_body() {
    let frame = encode_frame(b"old meta", b"payload", b"\x01\x02").unwrap();
    let replaced = replace_meta(&frame, b"new").unwrap();
    assert_eq!(replaced, b"\x00\x00\x00\x03newpayload\x01\x02".to_vec());
    assert_eq!(get_msg_meta(&replaced).unwrap(), b"new");
    assert_eq!(&replaced[7..], &frame[12..]);
}

#[test]
fn replacing_meta_of_a_truncated_frame_fails() {
    assert_eq!(replace_meta(b"\x00\x00\x00\x09abc", b"new"), Err(CodecError::InvalidLength));
    assert_eq!(replace_meta(b"\x00", b"new"), Err(CodecError::InvalidLength));
}
