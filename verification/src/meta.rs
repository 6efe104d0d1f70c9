//! The metadata record that every frame starts with.

use vstd::prelude::*;
use vstd::string::StringExecFns;
use crate::addr::{
    get_part, get_part_before_last, match_part, match_view, part_at, part_before_last,
    part_matches, part_view,
};
use crate::key::{Key, KeyView};
use crate::route::{opt_str, ParticipatorView, Participator, Route, RouteSpec, RouteSpecView, RouteView};

verus! {

/// How an rpc ended.
#[derive(Debug, Clone, Copy, PartialEq, Eq, Structural)]
pub enum RpcResult {
    Success,
    Failure,
}

/// What kind of message a frame carries.
#[derive(Debug, Clone, Copy, PartialEq, Eq, Structural)]
pub enum MsgType {
    Event,
    RpcRequest,
    RpcResponse(RpcResult),
}

/// Name and length of one attachment.
#[derive(Debug, Clone)]
pub struct Attachment {
    pub name: String,
    pub size: u64,
}

/// Mathematical model of an [`Attachment`].
pub struct AttachmentView {
    pub name: Seq<char>,
    pub size: u64,
}

impl View for Attachment {
    type V = AttachmentView;

    open spec fn view(&self) -> AttachmentView {
        AttachmentView { name: self.name@, size: self.size }
    }
}

/// Message meta data. The message passing protocol is built around this
/// structure.
#[derive(Debug, Clone)]
pub struct MsgMeta {
    /// Address of the message's sender.
    pub tx: String,
    /// Logic key for message processing.
    pub key: Key,
    /// What kind of message it is.
    pub msg_type: MsgType,
    /// Ties an rpc response to its request; a 128-bit UUID.
    pub correlation_id: u128,
    /// Logical message route.
    pub route: Route,
    /// Length of the payload in bytes.
    pub payload_size: u64,
    /// Authorization token.
    pub auth_token: Option<String>,
    /// Authorization data.
    pub auth_data: Option<serde_json::Value>,
    /// The attachments that follow the payload, in their order.
    pub attachments: Vec<Attachment>,
}

/// Mathematical model of a [`MsgMeta`].
pub struct MsgMetaView {
    pub tx: Seq<char>,
    pub key: KeyView,
    pub msg_type: MsgType,
    pub correlation_id: u128,
    pub route: RouteView,
    pub payload_size: u64,
    pub auth_token: Option<Seq<char>>,
    pub auth_data: Option<serde_json::Value>,
    pub attachments: Seq<AttachmentView>,
}

/// The models of a list of attachments.
pub open spec fn attachment_views(attachments: Seq<Attachment>) -> Seq<AttachmentView> {
    attachments.map_values(|a: Attachment| a@)
}

/// The sum of the lengths of a list of attachments.
pub open spec fn total_size(attachments: Seq<AttachmentView>) -> nat
    decreases attachments.len(),
{
    if attachments.len() == 0 {
        0
    } else {
        total_size(attachments.drop_last()) + attachments.last().size as nat
    }
}

/// The lengths of a list of attachments, in their order.
pub open spec fn sizes(attachments: Seq<AttachmentView>) -> Seq<u64> {
    attachments.map_values(|a: AttachmentView| a.size)
}

/// The message for a source that is no component.
pub open spec fn not_a_cmp_source() -> Seq<char> {
    "Not a cmp source"@
}

impl MsgMetaView {
    /// Length of the payload and of all attachments together.
    pub open spec fn content_len(self) -> nat {
        self.payload_size as nat + total_size(self.attachments)
    }

    /// The address of the source, where the source is a component.
    pub open spec fn source_cmp_addr(self) -> Option<Seq<char>> {
        match self.route.source {
            ParticipatorView::Component(addr, _, _) => Some(addr),
            ParticipatorView::Service(_) => None,
        }
    }

    /// The address of the source, where the source is a service.
    pub open spec fn source_svc_addr(self) -> Option<Seq<char>> {
        match self.route.source {
            ParticipatorView::Service(addr) => Some(addr),
            ParticipatorView::Component(_, _, _) => None,
        }
    }

    /// The address that rpc responses are redirected to, where that is a
    /// component.
    pub open spec fn client_cmp_addr(self) -> Option<Seq<char>> {
        match self.route.spec {
            RouteSpecView::Client(ParticipatorView::Component(addr, _, _)) => Some(addr),
            _ => None,
        }
    }

    /// The address that rpc responses are redirected to, where that is a
    /// service.
    pub open spec fn client_svc_addr(self) -> Option<Seq<char>> {
        match self.route.spec {
            RouteSpecView::Client(ParticipatorView::Service(addr)) => Some(addr),
            _ => None,
        }
    }

    /// The part at `index` of the source component's address, or the message
    /// that says why there is none.
    pub open spec fn source_cmp_part(self, index: usize) -> Result<Seq<char>, Seq<char>> {
        match self.source_cmp_addr() {
            Some(addr) => part_at(addr, index),
            None => Err(not_a_cmp_source()),
        }
    }

    /// Whether the part at `index` of the source component's address is
    /// `value`, or the message that says why there is no such part.
    pub open spec fn match_source_cmp_part(self, index: usize, value: Seq<char>) -> Result<
        bool,
        Seq<char>,
    > {
        match self.source_cmp_addr() {
            Some(addr) => part_matches(addr, index, value),
            None => Err(not_a_cmp_source()),
        }
    }

    /// The part before the last of the source component's address, or the
    /// message that says why there is none.
    pub open spec fn source_cmp_part_before_last(self) -> Result<Seq<char>, Seq<char>> {
        match self.source_cmp_addr() {
            Some(addr) => part_before_last(addr),
            None => Err(not_a_cmp_source()),
        }
    }
}

impl View for MsgMeta {
    type V = MsgMetaView;

    open spec fn view(&self) -> MsgMetaView {
        MsgMetaView {
            tx: self.tx@,
            key: self.key@,
            msg_type: self.msg_type,
            correlation_id: self.correlation_id,
            route: self.route@,
            payload_size: self.payload_size,
            auth_token: opt_str(self.auth_token),
            auth_data: self.auth_data,
            attachments: attachment_views(self.attachments@),
        }
    }
}

/// The sum of the lengths of a prefix is at most that of the whole list.
pub proof fn lemma_total_size_prefix(attachments: Seq<AttachmentView>, n: int)
    requires
        0 <= n <= attachments.len(),
    ensures
        total_size(attachments.take(n)) <= total_size(attachments),
    decreases attachments.len() - n,
{
    if n < attachments.len() {
        assert(attachments.take(n + 1).drop_last() == attachments.take(n));
        lemma_total_size_prefix(attachments, n + 1);
    } else {
        assert(attachments.take(n) == attachments);
    }
}

/// The text of a key as `Debug` prints it in its pretty form.
pub uninterp spec fn key_text(key: KeyView) -> Seq<char>;

/// `format!` with `{:#?}` on a key: the key as its derived `Debug` prints it
/// in the pretty form. The contract only gives the text its name,
/// [`key_text`].
#[verifier::external_body]
fn debug_key(key: &Key) -> (text: String)
    ensures
        text@ == key_text(key@),
{
    format!("{:#?}", key)
}

/// The text of the kind of a message.
pub open spec fn kind_text(msg_type: MsgType) -> Seq<char> {
    match msg_type {
        MsgType::Event => "Event"@,
        MsgType::RpcRequest => "RpcRequest"@,
        MsgType::RpcResponse(RpcResult::Success) => "RpcResponse(Ok)"@,
        MsgType::RpcResponse(RpcResult::Failure) => "RpcResponse(Err)"@,
    }
}

/// The short text that shows a message's sender, key and kind: the sender,
/// a comma and a blank, the key, a blank, the kind.
pub open spec fn display_text(tx: Seq<char>, key: KeyView, msg_type: MsgType) -> Seq<char> {
    tx + ", "@ + key_text(key) + " "@ + kind_text(msg_type)
}

impl MsgType {
    /// The text of the kind.
    pub fn text(&self) -> (text: String)
        ensures
            text@ == kind_text(*self),
    {
        match self {
            MsgType::Event => "Event".to_owned(),
            MsgType::RpcRequest => "RpcRequest".to_owned(),
            MsgType::RpcResponse(RpcResult::Success) => "RpcResponse(Ok)".to_owned(),
            MsgType::RpcResponse(RpcResult::Failure) => "RpcResponse(Err)".to_owned(),
        }
    }
}

impl MsgMeta {
    /// Payload plus attachments length.
    pub fn content_len(&self) -> (len: u64)
        requires
            self@.content_len() <= u64::MAX,
        ensures
            len == self@.content_len(),
    {
        self.payload_size + self.attachments_len()
    }

    /// Attachments length.
    pub fn attachments_len(&self) -> (len: u64)
        requires
            total_size(self@.attachments) <= u64::MAX,
        ensures
            len == total_size(self@.attachments),
    {
        let mut len: u64 = 0;
        let mut i: usize = 0;
        let ghost all = self@.attachments;
        while i < self.attachments.len()
            invariant
                i <= self.attachments.len(),
                all == attachment_views(self.attachments@),
                len == total_size(all.take(i as int)),
                total_size(all) <= u64::MAX,
            decreases self.attachments.len() - i,
        {
            proof {
                assert(all.take(i + 1).drop_last() == all.take(i as int));
                lemma_total_size_prefix(all, i + 1);
            }
            len = len + self.attachments[i].size;
            i = i + 1;
        }
        proof {
            assert(all.take(i as int) == all);
        }
        len
    }

    /// Attachments sizes, in the order of the attachments.
    pub fn attachments_sizes(&self) -> (res: Vec<u64>)
        ensures
            res@ == sizes(self@.attachments),
    {
        let mut res: Vec<u64> = Vec::new();
        let mut i: usize = 0;
        while i < self.attachments.len()
            invariant
                i <= self.attachments.len(),
                res@ == sizes(self@.attachments).take(i as int),
            decreases self.attachments.len() - i,
        {
            res.push(self.attachments[i].size);
            i = i + 1;
        }
        res
    }

    /// Short display of message meta data.
    pub fn display(&self) -> (text: String)
        ensures
            text@ == display_text(self@.tx, self@.key, self@.msg_type),
    {
        let key = debug_key(&self.key);
        let kind = self.msg_type.text();
        self.tx.clone().concat(", ").concat(key.as_str()).concat(" ").concat(kind.as_str())
    }

    /// Get key part, index is zero based, `.` is used as a separator.
    pub fn action_part(&self, index: usize) -> (r: Result<&str, String>)
        ensures
            part_view(r) == part_at(self@.key.action, index),
    {
        get_part(self.key.action.as_str(), index)
    }

    /// Compares key part with passed value, index is zero based, `.` is used
    /// as a separator.
    pub fn match_action_part(&self, index: usize, value: &str) -> (r: Result<bool, String>)
        ensures
            match_view(r) == part_matches(self@.key.action, index, value@),
    {
        match_part(self.key.action.as_str(), index, value)
    }

    /// Get tx part, index is zero based, `.` is used as a separator.
    pub fn tx_part(&self, index: usize) -> (r: Result<&str, String>)
        ensures
            part_view(r) == part_at(self@.tx, index),
    {
        get_part(self.tx.as_str(), index)
    }

    /// Compares tx part with passed value, index is zero based, `.` is used
    /// as a separator.
    pub fn match_tx_part(&self, index: usize, value: &str) -> (r: Result<bool, String>)
        ensures
            match_view(r) == part_matches(self@.tx, index, value@),
    {
        match_part(self.tx.as_str(), index, value)
    }

    /// The address of the source, where the source is a component.
    pub fn source_cmp_addr(&self) -> (r: Option<&str>)
        ensures
            r is Some == self@.source_cmp_addr() is Some,
            r is Some ==> r->0@ == self@.source_cmp_addr()->0,
    {
        match &self.route.source {
            Participator::Component(addr, _, _) => Some(addr.as_str()),
            _ => None,
        }
    }

    /// Get source cmp part, index is zero based, `.` is used as a separator.
    pub fn source_cmp_part(&self, index: usize) -> (r: Result<&str, String>)
        ensures
            part_view(r) == self@.source_cmp_part(index),
    {
        match self.source_cmp_addr() {
            Some(addr) => get_part(addr, index),
            None => Err("Not a cmp source".to_owned()),
        }
    }

    /// Compares source cmp part with passed value, index is zero based, `.`
    /// is used as a separator.
    pub fn match_source_cmp_part(&self, index: usize, value: &str) -> (r: Result<bool, String>)
        ensures
            match_view(r) == self@.match_source_cmp_part(index, value@),
    {
        match self.source_cmp_addr() {
            Some(addr) => match_part(addr, index, value),
            None => Err("Not a cmp source".to_owned()),
        }
    }

    /// Get source cmp part before last one, `.` is used as a separator.
    pub fn source_cmp_part_before_last(&self) -> (r: Result<&str, String>)
        ensures
            part_view(r) == self@.source_cmp_part_before_last(),
    {
        match self.source_cmp_addr() {
            Some(addr) => get_part_before_last(addr),
            None => Err("Not a cmp source".to_owned()),
        }
    }

    /// The address of the source, where the source is a service.
    pub fn source_svc_addr(&self) -> (r: Option<String>)
        ensures
            opt_str(r) == self@.source_svc_addr(),
    {
        match &self.route.source {
            Participator::Service(addr) => Some(addr.clone()),
            _ => None,
        }
    }

    /// The address that rpc responses are redirected to, where that is a
    /// component.
    pub fn client_cmp_addr(&self) -> (r: Option<String>)
        ensures
            opt_str(r) == self@.client_cmp_addr(),
    {
        match &self.route.spec {
            RouteSpec::Client(participator) => {
                match participator {
                    Participator::Component(addr, _, _) => Some(addr.clone()),
                    _ => None,
                }
            },
            _ => None,
        }
    }

    /// The address that rpc responses are redirected to, where that is a
    /// service.
    pub fn client_svc_addr(&self) -> (r: Option<String>)
        ensures
            opt_str(r) == self@.client_svc_addr(),
    {
        match &self.route.spec {
            RouteSpec::Client(participator) => {
                match participator {
                    Participator::Service(addr) => Some(addr.clone()),
                    _ => None,
                }
            },
            _ => None,
        }
    }
}

} // verus!
