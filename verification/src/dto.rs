//! Messages before they are framed: typed constructors for events, rpc
//! requests and rpc responses, with and without attachments.

use vstd::prelude::*;
use crate::frame::{encode_frame, frame_of, frame_view, framed, CodecError};
use crate::ids::{fresh_id, is_v4};
use crate::json::{encode_payload, encoded_payload};
use crate::key::{Key, KeyView};
use crate::meta::{
    attachment_views, sizes, Attachment, AttachmentView, MsgMeta, MsgMetaView, MsgType, RpcResult,
};
use crate::route::{opt_str, Route, RouteView};

verus! {

/// The message itself.
#[derive(Debug, Clone)]
pub struct Message<T> {
    pub meta: MsgMeta,
    pub payload: T,
    pub attachments_data: Vec<u8>,
}

/// The message itself with payload as raw bytes.
#[derive(Debug, Clone)]
pub struct MessageRaw {
    pub meta: MsgMeta,
    pub payload: Vec<u8>,
    pub attachments_data: Vec<u8>,
}

/// Mathematical model of a [`MessageRaw`].
pub struct MessageRawView {
    pub meta: MsgMetaView,
    pub payload: Seq<u8>,
    pub attachments_data: Seq<u8>,
}

impl View for MessageRaw {
    type V = MessageRawView;

    open spec fn view(&self) -> MessageRawView {
        MessageRawView {
            meta: self.meta@,
            payload: self.payload@,
            attachments_data: self.attachments_data@,
        }
    }
}

/// Why the handler of an rpc request gives no response.
#[derive(Debug, Clone)]
pub struct HandlerError {
    pub message: String,
}

/// What the handler of an rpc request returns in full message mode.
#[derive(Debug, Clone)]
pub enum Response<T> {
    Simple(T),
    Full(T, Vec<(String, u64)>, Vec<u8>),
}

/// What the handler of an rpc request returns in raw mode.
#[derive(Debug, Clone)]
pub enum ResponseRaw {
    Simple(Vec<u8>),
    Full(Vec<u8>, Vec<(String, u64)>, Vec<u8>),
}

/// A response of a payload alone.
pub fn resp<T>(payload: T) -> (r: Result<Response<T>, HandlerError>)
    ensures
        r == Ok::<Response<T>, HandlerError>(Response::Simple(payload)),
{
    Ok(Response::Simple(payload))
}

/// A response of a payload, the names and lengths of its attachments, and
/// their bytes.
pub fn resp_full<T>(payload: T, attachments: Vec<(String, u64)>, attachments_data: Vec<u8>) -> (r:
    Result<Response<T>, HandlerError>)
    ensures
        r == Ok::<Response<T>, HandlerError>(
            Response::Full(payload, attachments, attachments_data),
        ),
{
    Ok(Response::Full(payload, attachments, attachments_data))
}

/// A raw response of a payload alone.
pub fn resp_raw(payload: Vec<u8>) -> (r: Result<ResponseRaw, HandlerError>)
    ensures
        r == Ok::<ResponseRaw, HandlerError>(ResponseRaw::Simple(payload)),
{
    Ok(ResponseRaw::Simple(payload))
}

/// A raw response of a payload, the names and lengths of its attachments,
/// and their bytes.
pub fn resp_raw_full(
    payload: Vec<u8>,
    attachments: Vec<(String, u64)>,
    attachments_data: Vec<u8>,
) -> (r: Result<ResponseRaw, HandlerError>)
    ensures
        r == Ok::<ResponseRaw, HandlerError>(
            ResponseRaw::Full(payload, attachments, attachments_data),
        ),
{
    Ok(ResponseRaw::Full(payload, attachments, attachments_data))
}

/// The models of attachments given with their bytes.
pub open spec fn inline_views(attachments: Seq<(String, Vec<u8>)>) -> Seq<(Seq<char>, Seq<u8>)> {
    attachments.map_values(|a: (String, Vec<u8>)| (a.0@, a.1@))
}

/// The models of attachments given with their lengths.
pub open spec fn later_views(attachments: Seq<(String, u64)>) -> Seq<(Seq<char>, u64)> {
    attachments.map_values(|a: (String, u64)| (a.0@, a.1))
}

/// Name and length of each attachment that is given with its bytes.
pub open spec fn inline_meta(attachments: Seq<(Seq<char>, Seq<u8>)>) -> Seq<AttachmentView> {
    attachments.map_values(
        |a: (Seq<char>, Seq<u8>)| AttachmentView { name: a.0, size: a.1.len() as u64 },
    )
}

/// The bytes of all attachments, one after the other.
pub open spec fn inline_data(attachments: Seq<(Seq<char>, Seq<u8>)>) -> Seq<u8>
    decreases attachments.len(),
{
    if attachments.len() == 0 {
        Seq::<u8>::empty()
    } else {
        inline_data(attachments.drop_last()) + attachments.last().1
    }
}

/// Name and length of each attachment whose bytes come later.
pub open spec fn later_meta(attachments: Seq<(Seq<char>, u64)>) -> Seq<AttachmentView> {
    attachments.map_values(|a: (Seq<char>, u64)| AttachmentView { name: a.0, size: a.1 })
}

/// The message of the given parts: its metadata announces the length of the
/// payload and the attachments as given.
pub open spec fn composed(
    msg_type: MsgType,
    correlation_id: u128,
    tx: Seq<char>,
    key: KeyView,
    payload: Seq<u8>,
    attachments: Seq<AttachmentView>,
    attachments_data: Seq<u8>,
    route: RouteView,
    auth_token: Option<Seq<char>>,
    auth_data: Option<serde_json::Value>,
) -> MessageRawView {
    MessageRawView {
        meta: MsgMetaView {
            tx,
            key,
            msg_type,
            correlation_id,
            route,
            payload_size: payload.len() as u64,
            auth_token,
            auth_data,
            attachments,
        },
        payload,
        attachments_data,
    }
}

/// The empty list of attachments.
pub fn no_attachments() -> (attachments: Vec<Attachment>)
    ensures
        attachment_views(attachments@) == Seq::<AttachmentView>::empty(),
{
    Vec::new()
}

/// Builds the message of the given parts.
pub fn compose(
    msg_type: MsgType,
    correlation_id: u128,
    tx: String,
    key: Key,
    payload: Vec<u8>,
    attachments: Vec<Attachment>,
    attachments_data: Vec<u8>,
    route: Route,
    auth_token: Option<String>,
    auth_data: Option<serde_json::Value>,
) -> (msg: MessageRaw)
    ensures
        msg@ == composed(
            msg_type,
            correlation_id,
            tx@,
            key@,
            payload@,
            attachment_views(attachments@),
            attachments_data@,
            route@,
            opt_str(auth_token),
            auth_data,
        ),
        msg.meta.payload_size == payload@.len(),
{
    let payload_size = payload.len() as u64;
    MessageRaw {
        meta: MsgMeta {
            tx,
            key,
            msg_type,
            correlation_id,
            route,
            payload_size,
            auth_token,
            auth_data,
            attachments,
        },
        payload,
        attachments_data,
    }
}

/// Names and lengths of attachments given with their bytes, and the bytes of
/// all of them, one after the other.
pub fn inline_attachments(attachments: &Vec<(String, Vec<u8>)>) -> (r: (Vec<Attachment>, Vec<u8>))
    ensures
        attachment_views(r.0@) == inline_meta(inline_views(attachments@)),
        r.1@ == inline_data(inline_views(attachments@)),
{
    let mut meta: Vec<Attachment> = Vec::new();
    let mut data: Vec<u8> = Vec::new();
    let ghost all = inline_views(attachments@);
    let mut i: usize = 0;
    while i < attachments.len()
        invariant
            i <= attachments.len(),
            all == inline_views(attachments@),
            attachment_views(meta@) == inline_meta(all.take(i as int)),
            data@ == inline_data(all.take(i as int)),
        decreases attachments.len() - i,
    {
        let ghost before = meta@;
        let name = attachments[i].0.clone();
        let size = attachments[i].1.len() as u64;
        meta.push(Attachment { name, size });
        data.extend_from_slice(attachments[i].1.as_slice());
        proof {
            assert(all.take(i + 1).drop_last() == all.take(i as int));
            assert(attachment_views(meta@) == attachment_views(before).push(meta@[i as int]@));
        }
        i = i + 1;
    }
    proof {
        assert(all.take(i as int) == all);
    }
    (meta, data)
}

/// Names and lengths of attachments whose bytes come later.
pub fn later_attachments(attachments: &Vec<(String, u64)>) -> (meta: Vec<Attachment>)
    ensures
        attachment_views(meta@) == later_meta(later_views(attachments@)),
{
    let mut meta: Vec<Attachment> = Vec::new();
    let ghost all = later_views(attachments@);
    let mut i: usize = 0;
    while i < attachments.len()
        invariant
            i <= attachments.len(),
            all == later_views(attachments@),
            attachment_views(meta@) == later_meta(all).take(i as int),
        decreases attachments.len() - i,
    {
        let ghost before = meta@;
        let name = attachments[i].0.clone();
        let size = attachments[i].1;
        meta.push(Attachment { name, size });
        proof {
            assert(attachment_views(meta@) == attachment_views(before).push(meta@[i as int]@));
        }
        i = i + 1;
    }
    meta
}

/// Whether `msg` is the message of the given parts under a correlation id
/// drawn for it.
pub open spec fn drawn(
    msg: MessageRawView,
    msg_type: MsgType,
    tx: Seq<char>,
    key: KeyView,
    payload: Seq<u8>,
    attachments: Seq<AttachmentView>,
    attachments_data: Seq<u8>,
    route: RouteView,
    auth_token: Option<Seq<char>>,
    auth_data: Option<serde_json::Value>,
) -> bool {
    &&& is_v4(msg.meta.correlation_id)
    &&& msg.meta.payload_size == payload.len()
    &&& msg == composed(
        msg_type,
        msg.meta.correlation_id,
        tx,
        key,
        payload,
        attachments,
        attachments_data,
        route,
        auth_token,
        auth_data,
    )
}

/// An event with a raw payload.
pub fn event_dto2(
    tx: String,
    key: Key,
    payload: Vec<u8>,
    route: Route,
    auth_token: Option<String>,
    auth_data: Option<serde_json::Value>,
) -> (msg: MessageRaw)
    ensures
        drawn(
            msg@,
            MsgType::Event,
            tx@,
            key@,
            payload@,
            Seq::empty(),
            Seq::empty(),
            route@,
            opt_str(auth_token),
            auth_data,
        ),
{
    let correlation_id = fresh_id();
    compose(
        MsgType::Event,
        correlation_id,
        tx,
        key,
        payload,
        no_attachments(),
        Vec::new(),
        route,
        auth_token,
        auth_data,
    )
}

/// An rpc request with a raw payload.
pub fn rpc_dto2(
    tx: String,
    key: Key,
    payload: Vec<u8>,
    route: Route,
    auth_token: Option<String>,
    auth_data: Option<serde_json::Value>,
) -> (msg: MessageRaw)
    ensures
        drawn(
            msg@,
            MsgType::RpcRequest,
            tx@,
            key@,
            payload@,
            Seq::empty(),
            Seq::empty(),
            route@,
            opt_str(auth_token),
            auth_data,
        ),
{
    let correlation_id = fresh_id();
    compose(
        MsgType::RpcRequest,
        correlation_id,
        tx,
        key,
        payload,
        no_attachments(),
        Vec::new(),
        route,
        auth_token,
        auth_data,
    )
}

/// An rpc request with a raw payload, and the correlation id drawn for it.
pub fn rpc_dto_with_correlation_id_2(
    tx: String,
    key: Key,
    payload: Vec<u8>,
    route: Route,
    auth_token: Option<String>,
    auth_data: Option<serde_json::Value>,
) -> (r: (u128, MessageRaw))
    ensures
        r.0 == r.1@.meta.correlation_id,
        drawn(
            r.1@,
            MsgType::RpcRequest,
            tx@,
            key@,
            payload@,
            Seq::empty(),
            Seq::empty(),
            route@,
            opt_str(auth_token),
            auth_data,
        ),
{
    let correlation_id = fresh_id();
    let msg = compose(
        MsgType::RpcRequest,
        correlation_id,
        tx,
        key,
        payload,
        no_attachments(),
        Vec::new(),
        route,
        auth_token,
        auth_data,
    );
    (correlation_id, msg)
}

/// An rpc request with a raw payload and attachments given with their
/// bytes.
pub fn rpc_dto_with_attachments2(
    tx: String,
    key: Key,
    payload: Vec<u8>,
    attachments: Vec<(String, Vec<u8>)>,
    route: Route,
    auth_token: Option<String>,
    auth_data: Option<serde_json::Value>,
) -> (msg: MessageRaw)
    ensures
        drawn(
            msg@,
            MsgType::RpcRequest,
            tx@,
            key@,
            payload@,
            inline_meta(inline_views(attachments@)),
            inline_data(inline_views(attachments@)),
            route@,
            opt_str(auth_token),
            auth_data,
        ),
{
    let correlation_id = fresh_id();
    let (attachments_meta, attachments_payload) = inline_attachments(&attachments);
    compose(
        MsgType::RpcRequest,
        correlation_id,
        tx,
        key,
        payload,
        attachments_meta,
        attachments_payload,
        route,
        auth_token,
        auth_data,
    )
}

/// An rpc request with a raw payload that announces attachments whose bytes
/// the caller appends later.
pub fn rpc_dto_with_later_attachments2(
    tx: String,
    key: Key,
    payload: Vec<u8>,
    attachments: Vec<(String, u64)>,
    route: Route,
    auth_token: Option<String>,
    auth_data: Option<serde_json::Value>,
) -> (msg: MessageRaw)
    ensures
        drawn(
            msg@,
            MsgType::RpcRequest,
            tx@,
            key@,
            payload@,
            later_meta(later_views(attachments@)),
            Seq::empty(),
            route@,
            opt_str(auth_token),
            auth_data,
        ),
{
    let correlation_id = fresh_id();
    let attachments_meta = later_attachments(&attachments);
    compose(
        MsgType::RpcRequest,
        correlation_id,
        tx,
        key,
        payload,
        attachments_meta,
        Vec::new(),
        route,
        auth_token,
        auth_data,
    )
}

/// The response to the rpc request of `correlation_id`, with a raw payload
/// and the bytes of its attachments, and with the lengths of the payload and
/// of each attachment.
pub fn reply_to_rpc_dto2_sizes(
    tx: String,
    key: Key,
    correlation_id: u128,
    payload: Vec<u8>,
    attachments: Vec<(String, u64)>,
    attachments_data: Vec<u8>,
    result: RpcResult,
    route: Route,
    auth_token: Option<String>,
    auth_data: Option<serde_json::Value>,
) -> (r: (MessageRaw, u64, Vec<u64>))
    ensures
        r.0@ == composed(
            MsgType::RpcResponse(result),
            correlation_id,
            tx@,
            key@,
            payload@,
            later_meta(later_views(attachments@)),
            attachments_data@,
            route@,
            opt_str(auth_token),
            auth_data,
        ),
        r.0.meta.payload_size == payload@.len(),
        r.1 == payload@.len(),
        r.2@ == sizes(later_meta(later_views(attachments@))),
{
    let attachments_meta = later_attachments(&attachments);
    let msg = compose(
        MsgType::RpcResponse(result),
        correlation_id,
        tx,
        key,
        payload,
        attachments_meta,
        attachments_data,
        route,
        auth_token,
        auth_data,
    );
    let payload_size = msg.meta.payload_size;
    let attachments_sizes = msg.meta.attachments_sizes();
    (msg, payload_size, attachments_sizes)
}

/// The response to the rpc request of `correlation_id`, with a raw payload,
/// that announces attachments whose bytes the caller appends later.
pub fn reply_to_rpc_dto_with_later_attachments2(
    tx: String,
    key: Key,
    correlation_id: u128,
    payload: Vec<u8>,
    attachments: Vec<(String, u64)>,
    result: RpcResult,
    route: Route,
    auth_token: Option<String>,
    auth_data: Option<serde_json::Value>,
) -> (msg: MessageRaw)
    ensures
        msg.meta.payload_size == payload@.len(),
        msg@ == composed(
            MsgType::RpcResponse(result),
            correlation_id,
            tx@,
            key@,
            payload@,
            later_meta(later_views(attachments@)),
            Seq::empty(),
            route@,
            opt_str(auth_token),
            auth_data,
        ),
{
    let attachments_meta = later_attachments(&attachments);
    compose(
        MsgType::RpcResponse(result),
        correlation_id,
        tx,
        key,
        payload,
        attachments_meta,
        Vec::new(),
        route,
        auth_token,
        auth_data,
    )
}

/// An event with a structured payload. Fails where the payload has no text.
pub fn event_dto(
    tx: String,
    key: Key,
    payload: serde_json::Value,
    route: Route,
    auth_token: Option<String>,
    auth_data: Option<serde_json::Value>,
) -> (r: Result<MessageRaw, CodecError>)
    ensures
        match encoded_payload(payload) {
            Ok(text) => r is Ok && drawn(
                r->Ok_0@,
                MsgType::Event,
                tx@,
                key@,
                text,
                Seq::empty(),
                Seq::empty(),
                route@,
                opt_str(auth_token),
                auth_data,
            ),
            Err(e) => r is Err && r->Err_0 == e,
        },
{
    match encode_payload(&payload) {
        Ok(text) => Ok(event_dto2(tx, key, text, route, auth_token, auth_data)),
        Err(e) => Err(e),
    }
}

/// An event with a structured payload, with the lengths of the payload and
/// of each attachment. Fails where the payload has no text.
pub fn event_dto_with_sizes(
    tx: String,
    key: Key,
    payload: serde_json::Value,
    route: Route,
    auth_token: Option<String>,
    auth_data: Option<serde_json::Value>,
) -> (r: Result<(MessageRaw, u64, Vec<u64>), CodecError>)
    ensures
        match encoded_payload(payload) {
            Ok(text) => r is Ok && drawn(
                r->Ok_0.0@,
                MsgType::Event,
                tx@,
                key@,
                text,
                Seq::empty(),
                Seq::empty(),
                route@,
                opt_str(auth_token),
                auth_data,
            ) && r->Ok_0.1 == text.len() && r->Ok_0.2@ == Seq::<u64>::empty(),
            Err(e) => r is Err && r->Err_0 == e,
        },
{
    match encode_payload(&payload) {
        Ok(text) => {
            let msg = event_dto2(tx, key, text, route, auth_token, auth_data);
            let payload_size = msg.meta.payload_size;
            let attachments_sizes = msg.meta.attachments_sizes();
            Ok((msg, payload_size, attachments_sizes))
        },
        Err(e) => Err(e),
    }
}

/// The response to the rpc request of `correlation_id`, with a structured
/// payload. Fails where the payload has no text.
pub fn reply_to_rpc_dto(
    tx: String,
    key: Key,
    correlation_id: u128,
    payload: serde_json::Value,
    result: RpcResult,
    route: Route,
    auth_token: Option<String>,
    auth_data: Option<serde_json::Value>,
) -> (r: Result<MessageRaw, CodecError>)
    ensures
        match encoded_payload(payload) {
            Ok(text) => r is Ok && r->Ok_0.meta.payload_size == text.len() && r->Ok_0@ == composed(
                MsgType::RpcResponse(result),
                correlation_id,
                tx@,
                key@,
                text,
                Seq::empty(),
                Seq::empty(),
                route@,
                opt_str(auth_token),
                auth_data,
            ),
            Err(e) => r is Err && r->Err_0 == e,
        },
{
    match encode_payload(&payload) {
        Ok(text) => Ok(
            compose(
                MsgType::RpcResponse(result),
                correlation_id,
                tx,
                key,
                text,
                no_attachments(),
                Vec::new(),
                route,
                auth_token,
                auth_data,
            ),
        ),
        Err(e) => Err(e),
    }
}

/// An rpc request with a structured payload. Fails where the payload has no
/// text.
pub fn rpc_dto(
    tx: String,
    key: Key,
    payload: serde_json::Value,
    route: Route,
    auth_token: Option<String>,
    auth_data: Option<serde_json::Value>,
) -> (r: Result<MessageRaw, CodecError>)
    ensures
        match encoded_payload(payload) {
            Ok(text) => r is Ok && drawn(
                r->Ok_0@,
                MsgType::RpcRequest,
                tx@,
                key@,
                text,
                Seq::empty(),
                Seq::empty(),
                route@,
                opt_str(auth_token),
                auth_data,
            ),
            Err(e) => r is Err && r->Err_0 == e,
        },
{
    match encode_payload(&payload) {
        Ok(text) => Ok(rpc_dto2(tx, key, text, route, auth_token, auth_data)),
        Err(e) => Err(e),
    }
}

/// An rpc request with a structured payload, with the lengths of the
/// payload and of each attachment. Fails where the payload has no text.
pub fn rpc_dto_with_sizes(
    tx: String,
    key: Key,
    payload: serde_json::Value,
    route: Route,
    auth_token: Option<String>,
    auth_data: Option<serde_json::Value>,
) -> (r: Result<(MessageRaw, u64, Vec<u64>), CodecError>)
    ensures
        match encoded_payload(payload) {
            Ok(text) => r is Ok && drawn(
                r->Ok_0.0@,
                MsgType::RpcRequest,
                tx@,
                key@,
                text,
                Seq::empty(),
                Seq::empty(),
                route@,
                opt_str(auth_token),
                auth_data,
            ) && r->Ok_0.1 == text.len() && r->Ok_0.2@ == Seq::<u64>::empty(),
            Err(e) => r is Err && r->Err_0 == e,
        },
{
    match encode_payload(&payload) {
        Ok(text) => {
            let msg = rpc_dto2(tx, key, text, route, auth_token, auth_data);
            let payload_size = msg.meta.payload_size;
            let attachments_sizes = msg.meta.attachments_sizes();
            Ok((msg, payload_size, attachments_sizes))
        },
        Err(e) => Err(e),
    }
}

/// An rpc request with a structured payload, and the correlation id drawn
/// for it. Fails where the payload has no text.
pub fn rpc_dto_with_correlation_id(
    tx: String,
    key: Key,
    payload: serde_json::Value,
    route: Route,
    auth_token: Option<String>,
    auth_data: Option<serde_json::Value>,
) -> (r: Result<(u128, MessageRaw), CodecError>)
    ensures
        match encoded_payload(payload) {
            Ok(text) => r is Ok && r->Ok_0.0 == r->Ok_0.1@.meta.correlation_id && drawn(
                r->Ok_0.1@,
                MsgType::RpcRequest,
                tx@,
                key@,
                text,
                Seq::empty(),
                Seq::empty(),
                route@,
                opt_str(auth_token),
                auth_data,
            ),
            Err(e) => r is Err && r->Err_0 == e,
        },
{
    match encode_payload(&payload) {
        Ok(text) => Ok(rpc_dto_with_correlation_id_2(tx, key, text, route, auth_token, auth_data)),
        Err(e) => Err(e),
    }
}

/// An rpc request with a structured payload, the correlation id drawn for
/// it, and the lengths of the payload and of each attachment. Fails where
/// the payload has no text.
pub fn rpc_dto_with_correlation_id_sizes(
    tx: String,
    key: Key,
    payload: serde_json::Value,
    route: Route,
    auth_token: Option<String>,
    auth_data: Option<serde_json::Value>,
) -> (r: Result<(u128, MessageRaw, u64, Vec<u64>), CodecError>)
    ensures
        match encoded_payload(payload) {
            Ok(text) => r is Ok && r->Ok_0.0 == r->Ok_0.1@.meta.correlation_id && drawn(
                r->Ok_0.1@,
                MsgType::RpcRequest,
                tx@,
                key@,
                text,
                Seq::empty(),
                Seq::empty(),
                route@,
                opt_str(auth_token),
                auth_data,
            ) && r->Ok_0.2 == text.len() && r->Ok_0.3@ == Seq::<u64>::empty(),
            Err(e) => r is Err && r->Err_0 == e,
        },
{
    match encode_payload(&payload) {
        Ok(text) => {
            let (correlation_id, msg) = rpc_dto_with_correlation_id_2(
                tx,
                key,
                text,
                route,
                auth_token,
                auth_data,
            );
            let payload_size = msg.meta.payload_size;
            let attachments_sizes = msg.meta.attachments_sizes();
            Ok((correlation_id, msg, payload_size, attachments_sizes))
        },
        Err(e) => Err(e),
    }
}

/// An rpc request with a structured payload and attachments given with
/// their bytes. Fails where the payload has no text.
pub fn rpc_dto_with_attachments(
    tx: String,
    key: Key,
    payload: serde_json::Value,
    attachments: Vec<(String, Vec<u8>)>,
    route: Route,
    auth_token: Option<String>,
    auth_data: Option<serde_json::Value>,
) -> (r: Result<MessageRaw, CodecError>)
    ensures
        match encoded_payload(payload) {
            Ok(text) => r is Ok && drawn(
                r->Ok_0@,
                MsgType::RpcRequest,
                tx@,
                key@,
                text,
                inline_meta(inline_views(attachments@)),
                inline_data(inline_views(attachments@)),
                route@,
                opt_str(auth_token),
                auth_data,
            ),
            Err(e) => r is Err && r->Err_0 == e,
        },
{
    match encode_payload(&payload) {
        Ok(text) => Ok(
            rpc_dto_with_attachments2(tx, key, text, attachments, route, auth_token, auth_data),
        ),
        Err(e) => Err(e),
    }
}

/// An rpc request with a structured payload that announces attachments
/// whose bytes the caller appends later. Fails where the payload has no
/// text.
pub fn rpc_dto_with_later_attachments(
    tx: String,
    key: Key,
    payload: serde_json::Value,
    attachments: Vec<(String, u64)>,
    route: Route,
    auth_token: Option<String>,
    auth_data: Option<serde_json::Value>,
) -> (r: Result<MessageRaw, CodecError>)
    ensures
        match encoded_payload(payload) {
            Ok(text) => r is Ok && drawn(
                r->Ok_0@,
                MsgType::RpcRequest,
                tx@,
                key@,
                text,
                later_meta(later_views(attachments@)),
                Seq::empty(),
                route@,
                opt_str(auth_token),
                auth_data,
            ),
            Err(e) => r is Err && r->Err_0 == e,
        },
{
    match encode_payload(&payload) {
        Ok(text) => Ok(
            rpc_dto_with_later_attachments2(
                tx,
                key,
                text,
                attachments,
                route,
                auth_token,
                auth_data,
            ),
        ),
        Err(e) => Err(e),
    }
}

impl MessageRaw {
    /// The frame of the message, given the encoded form of its metadata.
    pub fn into_frame(self, meta: &[u8]) -> (r: Result<Vec<u8>, CodecError>)
        ensures
            frame_view(r) == framed(meta@, self@.payload + self@.attachments_data),
    {
        encode_frame(meta, self.payload.as_slice(), self.attachments_data.as_slice())
    }

    /// The frame of the message, given the encoded form of its metadata, with
    /// the lengths of the metadata, of the payload and of each attachment.
    pub fn into_frame_with_sizes(self, meta: &[u8]) -> (r: Result<
        (Vec<u8>, u64, u64, Vec<u64>),
        CodecError,
    >)
        ensures
            meta@.len() <= u32::MAX ==> r is Ok && r->Ok_0.0@ == frame_of(
                meta@,
                self@.payload + self@.attachments_data,
            ) && r->Ok_0.1 == meta@.len() && r->Ok_0.2 == self@.meta.payload_size && r->Ok_0.3@
                == sizes(self@.meta.attachments),
            meta@.len() > u32::MAX ==> r is Err && r->Err_0 == CodecError::InvalidLength,
    {
        let payload_size = self.meta.payload_size;
        let attachments_sizes = self.meta.attachments_sizes();
        let meta_size = meta.len() as u64;
        match encode_frame(meta, self.payload.as_slice(), self.attachments_data.as_slice()) {
            Ok(buf) => Ok((buf, meta_size, payload_size, attachments_sizes)),
            Err(e) => Err(e),
        }
    }
}

} // verus!
