//! The receiving side of a client: which stream an incoming frame belongs
//! to, and which waiting caller gets an rpc response.

use vstd::prelude::*;
use std::collections::HashMap;
use crate::meta::MsgType;
use crate::proto::ClientMsg;

verus! {

broadcast use vstd::std_specs::hash::group_hash_axioms;

/// Where an incoming frame goes.
pub enum Dispatch<W> {
    /// To the stream of events.
    Event,
    /// To the stream of rpc requests.
    RpcRequest,
    /// To the caller that waits for this response, through its handle.
    RpcResponse(W),
    /// To the stream of rpc responses that nobody waits for.
    Unmatched,
}

/// The pending calls after a control message: a call is added with its
/// handle, or taken out.
pub open spec fn after<W>(pending: Map<u128, W>, msg: ClientMsg<W>) -> Map<u128, W> {
    match msg {
        ClientMsg::AddRpc(id, reply) => pending.insert(id, reply),
        ClientMsg::RemoveRpc(id) => pending.remove(id),
        ClientMsg::RpcDataRequest(_) => pending,
        ClientMsg::RpcDataResponse(_, _) => pending,
    }
}

/// Where a frame of this kind and correlation id goes.
pub open spec fn dispatched<W>(pending: Map<u128, W>, msg_type: MsgType, correlation_id: u128)
    -> Dispatch<W> {
    match msg_type {
        MsgType::Event => Dispatch::Event,
        MsgType::RpcRequest => Dispatch::RpcRequest,
        MsgType::RpcResponse(_) => if pending.contains_key(correlation_id) {
            Dispatch::RpcResponse(pending[correlation_id])
        } else {
            Dispatch::Unmatched
        },
    }
}

/// The pending calls after a frame of this kind and correlation id came:
/// the call that an rpc response answers is pending no more.
pub open spec fn settled<W>(pending: Map<u128, W>, msg_type: MsgType, correlation_id: u128)
    -> Map<u128, W> {
    match msg_type {
        MsgType::RpcResponse(_) => pending.remove(correlation_id),
        _ => pending,
    }
}

/// The rpc calls of a client that wait for their response, each under its
/// correlation id with the handle of the waiting caller.
pub struct Correlator<W> {
    pending: HashMap<u128, W>,
}

impl<W> View for Correlator<W> {
    type V = Map<u128, W>;

    closed spec fn view(&self) -> Map<u128, W> {
        self.pending@
    }
}

impl<W> Correlator<W> {
    /// No call is pending.
    pub fn new() -> (c: Correlator<W>)
        ensures
            c@ == Map::<u128, W>::empty(),
    {
        Correlator { pending: HashMap::new() }
    }

    /// Whether the call of `correlation_id` is pending.
    pub fn is_pending(&self, correlation_id: u128) -> (r: bool)
        ensures
            r == self@.contains_key(correlation_id),
    {
        self.pending.contains_key(&correlation_id)
    }

    /// One control message: a call is added with its handle, or taken out.
    pub fn handle(&mut self, msg: ClientMsg<W>)
        ensures
            final(self)@ == after(old(self)@, msg),
    {
        match msg {
            ClientMsg::AddRpc(id, reply) => {
                self.pending.insert(id, reply);
            },
            ClientMsg::RemoveRpc(id) => {
                self.pending.remove(&id);
            },
            ClientMsg::RpcDataRequest(_) => {},
            ClientMsg::RpcDataResponse(_, _) => {},
        }
    }

    /// Where an incoming frame of this kind and correlation id goes. An rpc
    /// response goes to the caller that waits under its correlation id, and
    /// that call is pending no more.
    pub fn dispatch(&mut self, msg_type: MsgType, correlation_id: u128) -> (r: Dispatch<W>)
        ensures
            r == dispatched(old(self)@, msg_type, correlation_id),
            final(self)@ == settled(old(self)@, msg_type, correlation_id),
    {
        match msg_type {
            MsgType::Event => Dispatch::Event,
            MsgType::RpcRequest => Dispatch::RpcRequest,
            MsgType::RpcResponse(_) => {
                match self.pending.remove(&correlation_id) {
                    Some(reply) => Dispatch::RpcResponse(reply),
                    None => Dispatch::Unmatched,
                }
            },
        }
    }
}

/// A response reaches a waiting caller only under the correlation id under
/// which that caller registered: after a caller registered under `id`, a
/// response of `id` goes to that caller, and a response of another id goes
/// where it went before.
pub proof fn lemma_response_finds_its_caller<W>(
    pending: Map<u128, W>,
    id: u128,
    reply: W,
    result: crate::meta::RpcResult,
    correlation_id: u128,
)
    ensures
        dispatched(
            after(pending, ClientMsg::AddRpc(id, reply)),
            MsgType::RpcResponse(result),
            id,
        ) == Dispatch::RpcResponse(reply),
        correlation_id != id ==> dispatched(
            after(pending, ClientMsg::AddRpc(id, reply)),
            MsgType::RpcResponse(result),
            correlation_id,
        ) == dispatched(pending, MsgType::RpcResponse(result), correlation_id),
        !settled(
            after(pending, ClientMsg::AddRpc(id, reply)),
            MsgType::RpcResponse(result),
            id,
        ).contains_key(id),
        dispatched(
            after(pending, ClientMsg::<W>::RemoveRpc(id)),
            MsgType::RpcResponse(result),
            id,
        ) == Dispatch::<W>::Unmatched,
{
}

} // verus!
