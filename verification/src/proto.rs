//! What the parties of the platform say to each other inside one process:
//! the roles of connections and the control messages of hub and client.

use vstd::prelude::*;
use vstd::slice::{slice_subrange, slice_to_vec};
use crate::frame::{CodecError, PREFIX_LEN};
use crate::ids::{fresh_id, is_v4};
use crate::json::{decode_payload, decoded_payload, encode_payload, encoded_payload};

verus! {

/// The role of a connection.
#[derive(Debug, Clone, Copy, PartialEq, Eq, Structural)]
pub enum ClientKind {
    /// A client that came with a cookie. Its traffic is tunneled upstream.
    App,
    /// A background service. It receives routed frames directly.
    Service,
    /// Another hub.
    Hub,
}

/// Control message to the owner of the hub's address table. `S` is the
/// handle through which frames are sent to a connection.
pub enum ServerMsg<S> {
    /// The connection of this address is admitted, and is reached through
    /// this handle.
    AddClient(String, S),
    /// The connection of this address is gone.
    RemoveClient(String),
    /// This frame goes to the connection of this address.
    SendMsg(String, Vec<u8>),
}

/// Control message to the owner of a client's table of pending rpc calls.
/// `W` is the handle through which a waiting caller gets its response.
pub enum ClientMsg<W> {
    /// A caller waits for the response to the call of this correlation id.
    AddRpc(u128, W),
    /// Nobody waits for the response to the call of this correlation id any
    /// more.
    RemoveRpc(u128),
    /// Data is asked for within the call of this correlation id. The pending
    /// calls stay as they are.
    RpcDataRequest(u128),
    /// Data is handed over within the call of this correlation id. The
    /// pending calls stay as they are.
    RpcDataResponse(u128, W),
}

/// The metadata of the flat protocol: sender, receiver, and the correlation
/// id of an rpc call.
#[derive(Debug, Clone)]
pub struct MsgMeta {
    pub tx: String,
    pub rx: String,
    pub correlation_id: Option<u128>,
}

/// Mathematical model of a [`MsgMeta`].
pub struct MsgMetaView {
    pub tx: Seq<char>,
    pub rx: Seq<char>,
    pub correlation_id: Option<u128>,
}

impl View for MsgMeta {
    type V = MsgMetaView;

    open spec fn view(&self) -> MsgMetaView {
        MsgMetaView { tx: self.tx@, rx: self.rx@, correlation_id: self.correlation_id }
    }
}

/// What was received: the metadata as it was decoded, the length of its
/// encoded form, and the whole frame.
pub struct Received {
    pub meta: MsgMeta,
    pub len: usize,
    pub data: Vec<u8>,
}

/// The payload of a received frame: what follows the prefix and the
/// metadata. The lengths are invalid where the frame is shorter than both.
pub open spec fn received_payload(len: usize, data: Seq<u8>) -> Result<Seq<u8>, CodecError> {
    if len + 4 <= data.len() {
        Ok(data.skip(len + 4))
    } else {
        Err(CodecError::InvalidLength)
    }
}

/// The raw payload of a received frame.
fn payload_after(len: usize, data: &Vec<u8>) -> (r: Result<Vec<u8>, CodecError>)
    ensures
        match received_payload(len, data@) {
            Ok(payload) => r is Ok && r->Ok_0@ == payload,
            Err(e) => r is Err && r->Err_0 == e,
        },
{
    if data.len() < PREFIX_LEN || len > data.len() - PREFIX_LEN {
        return Err(CodecError::InvalidLength);
    }
    let payload = slice_to_vec(slice_subrange(data.as_slice(), len + PREFIX_LEN, data.len()));
    Ok(payload)
}

/// The steps of one rpc call around the request itself: the caller
/// registers its reply handle before it sends the request, and takes it out
/// again when the wait is over, whether a response came or not.
pub struct RpcCall<W> {
    /// To the owner of the pending calls, before the request is sent.
    pub register: ClientMsg<W>,
    /// The metadata of the request.
    pub meta: MsgMeta,
    /// The payload of the request.
    pub payload: Vec<u8>,
    /// To the owner of the pending calls, when the wait is over.
    pub unregister: ClientMsg<W>,
}

/// Whether `call` is the rpc call of `id` from `tx` to `rx` with this
/// payload, whose response is awaited through `reply`.
pub open spec fn is_call<W>(
    call: RpcCall<W>,
    id: u128,
    tx: Seq<char>,
    rx: Seq<char>,
    payload: Seq<u8>,
    reply: W,
) -> bool {
    &&& call.register == ClientMsg::AddRpc(id, reply)
    &&& call.unregister == ClientMsg::<W>::RemoveRpc(id)
    &&& call.meta@ == (MsgMetaView { tx, rx, correlation_id: Some(id) })
    &&& call.payload@ == payload
}

/// The sending side of a connection for structured payloads: it knows the
/// address it sends from.
#[derive(Debug, Clone)]
pub struct MagicBall {
    addr: String,
}

/// The sending side of a connection for raw payloads: it knows the address
/// it sends from.
#[derive(Debug, Clone)]
pub struct MagicBall2 {
    addr: String,
}

impl MagicBall {
    /// The sending side of the connection of `addr`.
    pub fn new(addr: String) -> (ball: MagicBall)
        ensures
            ball.addr() == addr@,
    {
        MagicBall { addr }
    }

    /// The address it sends from.
    pub closed spec fn addr(&self) -> Seq<char> {
        self.addr@
    }

    /// The metadata and the encoded payload of a message to `addr`. Fails
    /// where the payload has no text.
    pub fn send(&self, addr: String, payload: serde_json::Value) -> (r: Result<
        (MsgMeta, Vec<u8>),
        CodecError,
    >)
        ensures
            match encoded_payload(payload) {
                Ok(text) => r is Ok && r->Ok_0.0@ == (MsgMetaView {
                    tx: self.addr(),
                    rx: addr@,
                    correlation_id: None,
                }) && r->Ok_0.1@ == text,
                Err(e) => r is Err && r->Err_0 == e,
            },
    {
        let text = match encode_payload(&payload) {
            Ok(text) => text,
            Err(e) => {
                return Err(e);
            },
        };
        Ok((MsgMeta { tx: self.addr.clone(), rx: addr, correlation_id: None }, text))
    }

    /// The metadata and the structured payload of what was received.
    pub fn recv(&self, received: Received) -> (r: Result<(MsgMeta, serde_json::Value), CodecError>)
        ensures
            match received_payload(received.len, received.data@) {
                Ok(text) => match decoded_payload(text) {
                    Ok(payload) => r is Ok && r->Ok_0.0 == received.meta && r->Ok_0.1 == payload,
                    Err(e) => r is Err && r->Err_0 == e,
                },
                Err(e) => r is Err && r->Err_0 == e,
            },
    {
        let text = match payload_after(received.len, &received.data) {
            Ok(text) => text,
            Err(e) => {
                return Err(e);
            },
        };
        match decode_payload(text.as_slice()) {
            Ok(payload) => Ok((received.meta, payload)),
            Err(e) => Err(e),
        }
    }
}

impl MagicBall2 {
    /// The sending side of the connection of `addr`.
    pub fn new(addr: String) -> (ball: MagicBall2)
        ensures
            ball.addr() == addr@,
    {
        MagicBall2 { addr }
    }

    /// The address it sends from.
    pub closed spec fn addr(&self) -> Seq<char> {
        self.addr@
    }

    /// The metadata and the payload of a message to `addr`.
    pub fn send(&self, addr: String, payload: Vec<u8>) -> (r: (MsgMeta, Vec<u8>))
        ensures
            r.0@ == (MsgMetaView { tx: self.addr(), rx: addr@, correlation_id: None }),
            r.1 == payload,
    {
        (MsgMeta { tx: self.addr.clone(), rx: addr, correlation_id: None }, payload)
    }

    /// The metadata and the raw payload of what was received.
    pub fn recv(&self, received: Received) -> (r: Result<(MsgMeta, Vec<u8>), CodecError>)
        ensures
            match received_payload(received.len, received.data@) {
                Ok(payload) => r is Ok && r->Ok_0.0 == received.meta && r->Ok_0.1@ == payload,
                Err(e) => r is Err && r->Err_0 == e,
            },
    {
        match payload_after(received.len, &received.data) {
            Ok(payload) => Ok((received.meta, payload)),
            Err(e) => Err(e),
        }
    }

    /// The rpc call of the correlation id `id` to `addr`, whose response is
    /// awaited through `reply`.
    pub fn rpc_as<W>(&self, id: u128, addr: String, payload: Vec<u8>, reply: W) -> (call: RpcCall<W>)
        ensures
            is_call(call, id, self.addr(), addr@, payload@, reply),
    {
        RpcCall {
            register: ClientMsg::AddRpc(id, reply),
            meta: MsgMeta { tx: self.addr.clone(), rx: addr, correlation_id: Some(id) },
            payload,
            unregister: ClientMsg::RemoveRpc(id),
        }
    }

    /// An rpc call to `addr` under a correlation id drawn for it, whose
    /// response is awaited through `reply`.
    pub fn rpc<W>(&self, addr: String, payload: Vec<u8>, reply: W) -> (call: RpcCall<W>)
        ensures
            call.meta.correlation_id is Some,
            is_v4(call.meta.correlation_id->0),
            is_call(
                call,
                call.meta.correlation_id->0,
                self.addr(),
                addr@,
                payload@,
                reply,
            ),
    {
        let id = fresh_id();
        self.rpc_as(id, addr, payload, reply)
    }

    /// What an rpc call returns once the wait is over: the metadata and the
    /// raw payload of the response.
    pub fn rpc_result(&self, response: Received) -> (r: Result<(MsgMeta, Vec<u8>), CodecError>)
        ensures
            match received_payload(response.len, response.data@) {
                Ok(payload) => r is Ok && r->Ok_0.0 == response.meta && r->Ok_0.1@ == payload,
                Err(e) => r is Err && r->Err_0 == e,
            },
    {
        self.recv(response)
    }
}

} // verus!
