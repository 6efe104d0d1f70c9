//! The decisions of a hub about one connection: which role its handshake
//! gives it, and what becomes of each message that comes in on it.

use vstd::prelude::*;
use vstd::string::{StringExecFns, StringSliceAdditionalSpecFns};
use vstd::utf8::{
    decode_utf8, encode_utf8, encode_utf8_decode_utf8, encode_utf8_valid_utf8, valid_utf8,
};
use crate::decode::{attachments_of, payload_of};
use crate::frame::{body_of, has_meta, lemma_replace_meta, meta_len, meta_of, with_meta};
use crate::ids::{fresh_id, id_address, is_v4, uuid_text};
use crate::meta::{MsgMeta, MsgMetaView};
use crate::proto::ClientKind;
use crate::route::{opt_str, Route, RouteView};

verus! {

/// Whether a character is white space, as Unicode has it.
pub open spec fn is_white_space(c: char) -> bool {
    let n = c as u32;
    ||| 0x09 <= n <= 0x0D
    ||| n == 0x20
    ||| n == 0x85
    ||| n == 0xA0
    ||| n == 0x1680
    ||| 0x2000 <= n <= 0x200A
    ||| n == 0x2028
    ||| n == 0x2029
    ||| n == 0x202F
    ||| n == 0x205F
    ||| n == 0x3000
}

/// Where `c` stands first in `s`, or the length of `s` where it stands
/// nowhere.
pub open spec fn first_index(s: Seq<char>, c: char) -> int
    decreases s.len(),
{
    if s.len() == 0 || s[0] == c {
        0
    } else {
        1 + first_index(s.drop_first(), c)
    }
}

/// `s` without the white space at its start.
pub open spec fn trimmed_start(s: Seq<char>) -> Seq<char>
    decreases s.len(),
{
    if s.len() > 0 && is_white_space(s[0]) {
        trimmed_start(s.drop_first())
    } else {
        s
    }
}

/// `s` without the white space at its end.
pub open spec fn trimmed_end(s: Seq<char>) -> Seq<char>
    decreases s.len(),
{
    if s.len() > 0 && is_white_space(s.last()) {
        trimmed_end(s.drop_last())
    } else {
        s
    }
}

/// The name of the cookie that a header holds: what stands before the first
/// `=` of the part before the first `;`, without the white space around it.
/// A header without `=` in that part, or with nothing but white space before
/// it, holds no cookie.
pub open spec fn cookie_name(header: Seq<char>) -> Option<Seq<char>> {
    let pair = header.take(first_index(header, ';'));
    let name = trimmed_end(trimmed_start(pair.take(first_index(pair, '='))));
    if first_index(pair, '=') < pair.len() && name.len() > 0 {
        Some(name)
    } else {
        None
    }
}

/// `cookie::Cookie::parse`, then `Cookie::name`: the name of the cookie that
/// the header holds, or `None` where the header is refused. The parser
/// splits at the first `;`, then at the first `=`, trims the name with
/// `str::trim` and refuses a header without `=` or with an empty name; what
/// follows the first `;` never makes it fail.
#[verifier::external_body]
fn parse_cookie_name(header: &str) -> (name: Option<String>)
    ensures
        opt_str(name) == cookie_name(header@),
{
    match cookie::Cookie::parse(header) {
        Ok(cookie) => Some(cookie.name().to_owned()),
        Err(_) => None,
    }
}

/// `std::str::from_utf8`: the string that the bytes are the UTF-8 encoding
/// of, or `None` where they are the encoding of none.
#[verifier::external_body]
fn utf8_text(bytes: &[u8]) -> (text: Option<&str>)
    ensures
        text is Some <==> valid_utf8(bytes@),
        text is Some ==> text.unwrap().spec_bytes() == bytes@,
{
    std::str::from_utf8(bytes).ok()
}

/// The text of a header, where the header is valid UTF-8.
fn header_text(bytes: &[u8]) -> (text: Option<&str>)
    ensures
        text is Some <==> valid_utf8(bytes@),
        text is Some ==> text.unwrap()@ == decode_utf8(bytes@),
{
    let text = utf8_text(bytes);
    proof {
        if text is Some {
            encode_utf8_decode_utf8(text.unwrap()@);
        }
    }
    text
}

/// The header by which a client presents its role and its address when it
/// opens a connection: its name and its value.
pub open spec fn role_header(kind: ClientKind, addr: Seq<char>) -> (Seq<char>, Seq<char>) {
    match kind {
        ClientKind::App => ("Cookie"@, "addr="@ + addr),
        ClientKind::Service => ("Service"@, addr),
        ClientKind::Hub => ("Hub"@, addr),
    }
}

/// The header by which a client presents its role and its address when it
/// opens a connection: its name and its value. A hub that links itself to a
/// hub above it presents itself as a hub under the name of the link.
pub fn handshake_header(kind: ClientKind, addr: &str) -> (header: (String, String))
    ensures
        (header.0@, header.1@) == role_header(kind, addr@),
{
    match kind {
        ClientKind::App => ("Cookie".to_owned(), "addr=".to_owned().concat(addr)),
        ClientKind::Service => ("Service".to_owned(), addr.to_owned()),
        ClientKind::Hub => ("Hub".to_owned(), addr.to_owned()),
    }
}

/// The name of the cookie that admits an app.
pub open spec fn addr_cookie() -> Seq<char> {
    "addr"@
}

/// The values of the three headers of a handshake that a hub looks at, as
/// they came.
pub struct Handshake<'a> {
    pub cookie: Option<&'a [u8]>,
    pub service: Option<&'a [u8]>,
    pub hub: Option<&'a [u8]>,
}

/// Mathematical model of a [`Handshake`].
pub struct HandshakeView {
    pub cookie: Option<Seq<u8>>,
    pub service: Option<Seq<u8>>,
    pub hub: Option<Seq<u8>>,
}

/// The model of an optional header value.
pub open spec fn opt_bytes(s: Option<&[u8]>) -> Option<Seq<u8>> {
    match s {
        Some(s) => Some(s@),
        None => None,
    }
}

impl<'a> View for Handshake<'a> {
    type V = HandshakeView;

    open spec fn view(&self) -> HandshakeView {
        HandshakeView {
            cookie: opt_bytes(self.cookie),
            service: opt_bytes(self.service),
            hub: opt_bytes(self.hub),
        }
    }
}

/// What a hub knows of one connection.
pub struct Connection {
    /// The role of the connection, once its handshake gave it one.
    pub client_kind: Option<ClientKind>,
    /// The address of the connection, once its handshake gave it one.
    pub addr: Option<String>,
    /// The name under which the hub tunnels the traffic of apps to the hub
    /// above it, where it is linked to one.
    pub link: Option<String>,
}

/// Mathematical model of a [`Connection`].
pub struct ConnectionView {
    pub client_kind: Option<ClientKind>,
    pub addr: Option<Seq<char>>,
    pub link: Option<Seq<char>>,
}

impl View for Connection {
    type V = ConnectionView;

    open spec fn view(&self) -> ConnectionView {
        ConnectionView {
            client_kind: self.client_kind,
            addr: opt_str(self.addr),
            link: opt_str(self.link),
        }
    }
}

/// What a handshake gives a connection: its role, its address, the
/// addresses under which it is announced to the owner of the address table,
/// in the order of the announcements, and whether the handshake fails.
pub struct Admission {
    pub client_kind: Option<ClientKind>,
    pub addr: Option<Seq<char>>,
    pub announced: Seq<Seq<char>>,
    pub failed: bool,
}

/// A handshake that gives nothing.
pub open spec fn nothing(failed: bool) -> Admission {
    Admission { client_kind: None, addr: None, announced: Seq::empty(), failed }
}

/// What a cookie header gives: a cookie named `addr` gives the role of an
/// app under the address that stands for `fresh`, any other cookie nothing.
/// A header that is no UTF-8 fails the handshake.
pub open spec fn by_cookie(header: Option<Seq<u8>>, fresh: u128) -> Admission {
    match header {
        None => nothing(false),
        Some(header) => if !valid_utf8(header) {
            nothing(true)
        } else if cookie_name(decode_utf8(header)) == Some(addr_cookie()) {
            Admission {
                client_kind: Some(ClientKind::App),
                addr: Some(uuid_text(fresh)),
                announced: seq![uuid_text(fresh)],
                failed: false,
            }
        } else {
            nothing(false)
        },
    }
}

/// What a header that names a role gives on top of what the headers before
/// it gave: the role `kind` under the header's value, announced after what
/// was announced before. A header that is no UTF-8 fails the handshake and
/// leaves what the headers before it gave.
pub open spec fn by_role(before: Admission, kind: ClientKind, header: Option<Seq<u8>>)
    -> Admission {
    match header {
        None => before,
        Some(header) => if valid_utf8(header) {
            Admission {
                client_kind: Some(kind),
                addr: Some(decode_utf8(header)),
                announced: before.announced.push(decode_utf8(header)),
                failed: false,
            }
        } else {
            Admission { failed: true, ..before }
        },
    }
}

/// What a service header gives on top of what the cookie header gave.
pub open spec fn by_service(before: Admission, header: Option<Seq<u8>>) -> Admission {
    by_role(before, ClientKind::Service, header)
}

/// What a hub header gives on top of what the headers before it gave.
pub open spec fn by_hub(before: Admission, header: Option<Seq<u8>>) -> Admission {
    by_role(before, ClientKind::Hub, header)
}

/// What the handshake `hs` gives a connection, where `fresh` is the
/// identifier drawn for it.
///
/// The headers are looked at in the order cookie, service, hub. Each that
/// gives a role overwrites role and address and is announced after those
/// before it, so that the last one stays. A header that is no UTF-8 ends
/// the handshake: the headers after it are not looked at.
pub open spec fn admission(hs: HandshakeView, fresh: u128) -> Admission {
    let cookie = by_cookie(hs.cookie, fresh);
    let service = by_service(cookie, hs.service);
    if cookie.failed {
        cookie
    } else if service.failed {
        service
    } else {
        by_hub(service, hs.hub)
    }
}

/// What the hub does after a handshake.
pub struct Opened {
    /// The addresses under which the connection is to be announced, in
    /// order.
    pub announced: Vec<String>,
    /// Whether the handshake fails: the connection is then torn down.
    pub failed: bool,
}

/// The models of a list of strings.
pub open spec fn str_views(list: Seq<String>) -> Seq<Seq<char>> {
    list.map_values(|s: String| s@)
}

/// What becomes of a message that came in on a connection, before its
/// metadata is read.
#[derive(Debug, Clone, Copy, PartialEq, Eq, Structural)]
pub enum Inbound {
    /// Dropped: the connection has no address.
    Unauthorized,
    /// Dropped: the connection has an address and no role.
    MissingKind,
    /// Ignored: the message is text, and frames are binary.
    Text,
    /// The prefix of the frame does not fit the bytes that came: the
    /// connection is torn down.
    FrameTruncated,
    /// The frame holds its metadata, which is to be decoded next.
    Frame,
}

/// What becomes of a frame once its metadata is read.
pub enum Forward {
    /// Dropped: the connection has no address.
    Unauthorized,
    /// Dropped: the connection has an address and no role.
    MissingKind,
    /// Dropped: the metadata could not be decoded.
    MetaDecodeFailed,
    /// Dropped: the frame came from an app and the hub is linked to no hub
    /// above it.
    NoLink,
    /// Dropped: the route of the frame names no next hop.
    NoRoute,
    /// The frame goes to the hub above under this metadata, with what
    /// followed its own metadata.
    Tunnel(MsgMeta, Vec<u8>),
    /// The frame goes, unchanged, to the connection of this address.
    SendMsg(String, Vec<u8>),
}

/// Mathematical model of a [`Forward`].
pub enum ForwardView {
    Unauthorized,
    MissingKind,
    MetaDecodeFailed,
    NoLink,
    NoRoute,
    Tunnel(MsgMetaView, Seq<u8>),
    SendMsg(Seq<char>, Seq<u8>),
}

impl View for Forward {
    type V = ForwardView;

    open spec fn view(&self) -> ForwardView {
        match *self {
            Forward::Unauthorized => ForwardView::Unauthorized,
            Forward::MissingKind => ForwardView::MissingKind,
            Forward::MetaDecodeFailed => ForwardView::MetaDecodeFailed,
            Forward::NoLink => ForwardView::NoLink,
            Forward::NoRoute => ForwardView::NoRoute,
            Forward::Tunnel(meta, data) => ForwardView::Tunnel(meta@, data@),
            Forward::SendMsg(addr, data) => ForwardView::SendMsg(addr@, data@),
        }
    }
}

/// The metadata under which a frame of an app is tunneled: the hub's name
/// is its sender, and a component as its source is reached through the
/// connection that the frame came in on. All else stays.
pub open spec fn tunneled(meta: MsgMetaView, hub_name: Seq<char>, client_addr: Seq<char>)
    -> MsgMetaView {
    MsgMetaView {
        tx: hub_name,
        route: RouteView { source: meta.route.source.with_client_addr(client_addr), ..meta.route },
        ..meta
    }
}

impl ConnectionView {
    /// The connection after a handshake that gave it `admission`: role and
    /// address are those given, where a role was given.
    pub open spec fn opened(self, admission: Admission) -> ConnectionView {
        if admission.client_kind is Some {
            ConnectionView {
                client_kind: admission.client_kind,
                addr: admission.addr,
                link: self.link,
            }
        } else {
            self
        }
    }

    /// What becomes of a binary message of the bytes `data`, or of a text
    /// message, before its metadata is read.
    pub open spec fn inbound(self, binary: bool, data: Seq<u8>) -> Inbound {
        if self.addr is None {
            Inbound::Unauthorized
        } else if self.client_kind is None {
            Inbound::MissingKind
        } else if !binary {
            Inbound::Text
        } else if !has_meta(data) {
            Inbound::FrameTruncated
        } else {
            Inbound::Frame
        }
    }

    /// What becomes of the frame `data` whose metadata was decoded to
    /// `meta`, or could not be decoded.
    pub open spec fn forward(self, meta: Option<MsgMetaView>, data: Seq<u8>) -> ForwardView {
        if self.addr is None {
            ForwardView::Unauthorized
        } else if self.client_kind is None {
            ForwardView::MissingKind
        } else if meta is None {
            ForwardView::MetaDecodeFailed
        } else if self.client_kind == Some(ClientKind::App) {
            match self.link {
                Some(hub_name) => ForwardView::Tunnel(
                    tunneled(meta->0, hub_name, self.addr->0),
                    data,
                ),
                None => ForwardView::NoLink,
            }
        } else {
            match meta->0.route.next_hop() {
                Some(addr) => ForwardView::SendMsg(addr, data),
                None => ForwardView::NoRoute,
            }
        }
    }
}

/// The model of optional metadata.
pub open spec fn opt_meta(meta: Option<MsgMeta>) -> Option<MsgMetaView> {
    match meta {
        Some(meta) => Some(meta@),
        None => None,
    }
}

/// The metadata under which a frame of an app is tunneled.
pub fn tunnel_meta(meta: MsgMeta, hub_name: String, client_addr: String) -> (r: MsgMeta)
    ensures
        r@ == tunneled(meta@, hub_name@, client_addr@),
{
    let MsgMeta {
        tx: _,
        key,
        msg_type,
        correlation_id,
        route,
        payload_size,
        auth_token,
        auth_data,
        attachments,
    } = meta;
    let Route { source, spec, points } = route;
    MsgMeta {
        tx: hub_name,
        key,
        msg_type,
        correlation_id,
        route: Route { source: source.with_client_addr(client_addr), spec, points },
        payload_size,
        auth_token,
        auth_data,
        attachments,
    }
}

impl Connection {
    /// A connection before its handshake, at a hub that tunnels the traffic
    /// of apps under the name `link`, where it is linked to a hub above it.
    pub fn new(link: Option<String>) -> (conn: Connection)
        ensures
            conn@ == (ConnectionView { client_kind: None, addr: None, link: opt_str(link) }),
    {
        Connection { client_kind: None, addr: None, link }
    }

    /// Gives the connection what the handshake `hs` gives it, with `fresh`
    /// as the identifier drawn for it.
    pub fn accept(&mut self, hs: &Handshake<'_>, fresh: u128) -> (r: Opened)
        ensures
            final(self)@ == old(self)@.opened(admission(hs@, fresh)),
            str_views(r.announced@) == admission(hs@, fresh).announced,
            r.failed == admission(hs@, fresh).failed,
    {
        proof {
            reveal_strlit("addr");
        }
        let mut announced: Vec<String> = Vec::new();
        assert(str_views(announced@) == Seq::<Seq<char>>::empty());
        match hs.cookie {
            Some(header) => {
                let text = match header_text(header) {
                    Some(text) => text,
                    None => {
                        return Opened { announced, failed: true };
                    },
                };
                match parse_cookie_name(text) {
                    Some(name) => {
                        if name.as_str().eq("addr") {
                            let addr = id_address(fresh);
                            self.client_kind = Some(ClientKind::App);
                            self.addr = Some(addr.clone());
                            announced.push(addr);
                            assert(str_views(announced@) == seq![uuid_text(fresh)]);
                        }
                    },
                    None => {},
                }
            },
            None => {},
        }
        let ghost cookie = by_cookie(hs@.cookie, fresh);
        assert(str_views(announced@) == cookie.announced);
        match hs.service {
            Some(header) => {
                let addr = match header_text(header) {
                    Some(addr) => addr,
                    None => {
                        return Opened { announced, failed: true };
                    },
                };
                self.client_kind = Some(ClientKind::Service);
                self.addr = Some(addr.to_owned());
                announced.push(addr.to_owned());
                assert(str_views(announced@) == cookie.announced.push(addr@));
            },
            None => {},
        }
        let ghost service = by_service(cookie, hs@.service);
        assert(str_views(announced@) == service.announced);
        match hs.hub {
            Some(header) => {
                let addr = match header_text(header) {
                    Some(addr) => addr,
                    None => {
                        return Opened { announced, failed: true };
                    },
                };
                self.client_kind = Some(ClientKind::Hub);
                self.addr = Some(addr.to_owned());
                announced.push(addr.to_owned());
                assert(str_views(announced@) == service.announced.push(addr@));
            },
            None => {},
        }
        Opened { announced, failed: false }
    }

    /// The handshake of the connection: gives it the role and the address
    /// that `hs` gives it. The address of an app stands for an identifier
    /// that is drawn here, a version 4 UUID.
    pub fn on_open(&mut self, hs: &Handshake<'_>) -> (r: Opened)
        ensures
            exists|fresh: u128|
                {
                    &&& hs@.cookie is Some ==> is_v4(fresh)
                    &&& final(self)@ == old(self)@.opened(#[trigger] admission(hs@, fresh))
                    &&& str_views(r.announced@) == admission(hs@, fresh).announced
                    &&& r.failed == admission(hs@, fresh).failed
                },
    {
        let fresh: u128 = if hs.cookie.is_some() {
            fresh_id()
        } else {
            0
        };
        self.accept(hs, fresh)
    }

    /// What becomes of a message that came in on the connection, before its
    /// metadata is read: `data` holds the bytes of a binary message,
    /// `binary` says whether the message is one.
    pub fn on_message(&self, binary: bool, data: &[u8]) -> (step: Inbound)
        ensures
            step == self@.inbound(binary, data@),
    {
        if self.addr.is_none() {
            return Inbound::Unauthorized;
        }
        if self.client_kind.is_none() {
            return Inbound::MissingKind;
        }
        if !binary {
            return Inbound::Text;
        }
        match meta_len(data) {
            Ok(_) => Inbound::Frame,
            Err(_) => Inbound::FrameTruncated,
        }
    }

    /// What becomes of the frame `data` whose metadata was decoded to
    /// `meta`, or could not be decoded. A frame of a service or a hub goes
    /// on unchanged; one of an app is tunneled under rewritten metadata.
    pub fn forward(&self, meta: Option<MsgMeta>, data: Vec<u8>) -> (r: Forward)
        ensures
            r@ == self@.forward(opt_meta(meta), data@),
    {
        let addr = match &self.addr {
            Some(addr) => addr,
            None => {
                return Forward::Unauthorized;
            },
        };
        let kind = match self.client_kind {
            Some(kind) => kind,
            None => {
                return Forward::MissingKind;
            },
        };
        let meta = match meta {
            Some(meta) => meta,
            None => {
                return Forward::MetaDecodeFailed;
            },
        };
        match kind {
            ClientKind::App => {
                match &self.link {
                    Some(hub_name) => Forward::Tunnel(
                        tunnel_meta(meta, hub_name.clone(), addr.clone()),
                        data,
                    ),
                    None => Forward::NoLink,
                }
            },
            ClientKind::Service | ClientKind::Hub => {
                match meta.route.next_hop() {
                    Some(dest) => Forward::SendMsg(dest, data),
                    None => Forward::NoRoute,
                }
            },
        }
    }

    /// The address to take out of the address table when the connection
    /// closes: its own, where it was admitted.
    pub fn on_close(&self) -> (addr: Option<String>)
        ensures
            opt_str(addr) == self@.addr,
    {
        match &self.addr {
            Some(addr) => Some(addr.clone()),
            None => None,
        }
    }
}

/// A frame that a service or a hub sent goes on byte for byte: it is handed
/// on with the bytes that came, to the first point of its route, or it is
/// dropped where the route has no point.
pub proof fn lemma_forward_keeps_bytes(conn: ConnectionView, meta: MsgMetaView, data: Seq<u8>)
    requires
        conn.addr is Some,
        conn.client_kind == Some(ClientKind::Service) || conn.client_kind == Some(ClientKind::Hub),
    ensures
        meta.route.points.len() > 0 ==> conn.forward(Some(meta), data) == ForwardView::SendMsg(
            meta.route.points[0].addr(),
            data,
        ),
        meta.route.points.len() == 0 ==> conn.forward(Some(meta), data) == ForwardView::NoRoute,
{
}

/// A frame that an app sent goes up under the hub's name, and nothing but
/// its metadata is rewritten: the tunneled metadata names the hub as sender
/// and the app's connection as the way back to a component, the new frame
/// holds the newly encoded metadata, and payload and attachments are, byte
/// for byte, those of the frame that came.
pub proof fn lemma_tunnel_keeps_content(
    conn: ConnectionView,
    meta: MsgMetaView,
    data: Seq<u8>,
    encoded: Seq<u8>,
)
    requires
        conn.client_kind == Some(ClientKind::App),
        conn.addr is Some,
        conn.link is Some,
        has_meta(data),
        encoded.len() <= u32::MAX,
    ensures
        conn.forward(Some(meta), data) == ForwardView::Tunnel(
            tunneled(meta, conn.link->0, conn.addr->0),
            data,
        ),
        tunneled(meta, conn.link->0, conn.addr->0).tx == conn.link->0,
        tunneled(meta, conn.link->0, conn.addr->0).route.source
            == meta.route.source.with_client_addr(conn.addr->0),
        with_meta(data, encoded) is Ok,
        meta_of(with_meta(data, encoded)->Ok_0) == encoded,
        body_of(with_meta(data, encoded)->Ok_0) == body_of(data),
        payload_of(tunneled(meta, conn.link->0, conn.addr->0), with_meta(data, encoded)->Ok_0)
            == payload_of(meta, data),
        attachments_of(tunneled(meta, conn.link->0, conn.addr->0), with_meta(data, encoded)->Ok_0)
            == attachments_of(meta, data),
{
    lemma_replace_meta(data, encoded);
}

/// A hub gives a client the role and the address that the client presents:
/// the header of a service alone admits a service under its address, and
/// the header of a hub alone a hub.
pub proof fn lemma_presented_role_is_given(addr: Seq<char>, fresh: u128)
    ensures
        admission(
            HandshakeView { cookie: None, service: Some(encode_utf8(addr)), hub: None },
            fresh,
        ) == (Admission {
            client_kind: Some(ClientKind::Service),
            addr: Some(addr),
            announced: seq![addr],
            failed: false,
        }),
        admission(
            HandshakeView { cookie: None, service: None, hub: Some(encode_utf8(addr)) },
            fresh,
        ) == (Admission {
            client_kind: Some(ClientKind::Hub),
            addr: Some(addr),
            announced: seq![addr],
            failed: false,
        }),
{
    encode_utf8_valid_utf8(addr);
    encode_utf8_decode_utf8(addr);
    assert(Seq::<Seq<char>>::empty().push(addr) == seq![addr]);
}

/// Later headers overwrite: where several headers of a handshake give a
/// role, the connection ends in the role and under the address of the last
/// of them, in the order cookie, service, hub, and each is announced, in
/// that order.
pub proof fn lemma_later_headers_overwrite(hs: HandshakeView, fresh: u128)
    requires
        !admission(hs, fresh).failed,
    ensures
        hs.hub is Some ==> admission(hs, fresh).client_kind == Some(ClientKind::Hub)
            && admission(hs, fresh).addr == Some(decode_utf8(hs.hub->0)),
        hs.hub is None && hs.service is Some ==> admission(hs, fresh).client_kind == Some(
            ClientKind::Service,
        ) && admission(hs, fresh).addr == Some(decode_utf8(hs.service->0)),
        hs.hub is None && hs.service is None ==> admission(hs, fresh) == by_cookie(
            hs.cookie,
            fresh,
        ),
        admission(hs, fresh).announced == by_cookie(hs.cookie, fresh).announced + (if hs.service
            is Some {
            seq![decode_utf8(hs.service->0)]
        } else {
            Seq::<Seq<char>>::empty()
        }) + (if hs.hub is Some {
            seq![decode_utf8(hs.hub->0)]
        } else {
            Seq::<Seq<char>>::empty()
        }),
{
}

/// `first_index` gives the first place where the character stands.
pub proof fn lemma_first_index(s: Seq<char>, c: char)
    ensures
        0 <= first_index(s, c) <= s.len(),
        forall|j: int| 0 <= j < first_index(s, c) ==> s[j] != c,
        first_index(s, c) < s.len() ==> s[first_index(s, c)] == c,
    decreases s.len(),
{
    if s.len() > 0 && s[0] != c {
        lemma_first_index(s.drop_first(), c);
        assert forall|j: int| 0 <= j < first_index(s, c) implies s[j] != c by {
            if j > 0 {
                assert(s.drop_first()[j - 1] == s[j]);
            }
        }
    }
}

/// The header by which a client presents itself as an app holds the cookie
/// that admits an app, whatever its address is: a hub that gets this header
/// alone admits an app, under the address that stands for the identifier it
/// draws.
pub proof fn lemma_app_header_holds_the_cookie(addr: Seq<char>, fresh: u128)
    ensures
        cookie_name(role_header(ClientKind::App, addr).1) == Some(addr_cookie()),
        admission(
            HandshakeView {
                cookie: Some(encode_utf8(role_header(ClientKind::App, addr).1)),
                service: None,
                hub: None,
            },
            fresh,
        ) == (Admission {
            client_kind: Some(ClientKind::App),
            addr: Some(uuid_text(fresh)),
            announced: seq![uuid_text(fresh)],
            failed: false,
        }),
{
    reveal_strlit("addr=");
    reveal_strlit("addr");
    let header = "addr="@ + addr;
    let pair = header.take(first_index(header, ';'));
    lemma_first_index(header, ';');
    assert(first_index(header, ';') >= 5) by {
        if first_index(header, ';') < 5 {
            assert(header[first_index(header, ';')] == ';');
        }
    }
    lemma_first_index(pair, '=');
    assert(pair[4] == '=');
    assert(first_index(pair, '=') == 4) by {
        if first_index(pair, '=') < 4 {
            assert(pair[first_index(pair, '=')] == '=');
        }
    }
    let name = pair.take(4);
    assert(name == "addr"@);
    assert(!is_white_space(name[0]));
    assert(!is_white_space(name.last()));
    encode_utf8_valid_utf8(header);
    encode_utf8_decode_utf8(header);
}

} // verus!
