//! Who sent a message, who answers it, and the hops it takes.

use vstd::prelude::*;

verus! {

/// The model of an optional string.
pub open spec fn opt_str(s: Option<String>) -> Option<Seq<char>> {
    match s {
        Some(s) => Some(s@),
        None => None,
    }
}

/// Origin or terminus of a message.
#[derive(Debug, Clone)]
pub enum Participator {
    /// UI component: its address, the address of its app, and the address of
    /// the client connection it is reached through.
    Component(String, Option<String>, Option<String>),
    /// Service process running in the background: its address.
    Service(String),
}

/// Mathematical model of a [`Participator`].
pub enum ParticipatorView {
    Component(Seq<char>, Option<Seq<char>>, Option<Seq<char>>),
    Service(Seq<char>),
}

impl ParticipatorView {
    /// The address that names the participator.
    pub open spec fn addr(self) -> Seq<char> {
        match self {
            ParticipatorView::Component(addr, _, _) => addr,
            ParticipatorView::Service(addr) => addr,
        }
    }

    /// The participator reached through the client connection `client_addr`,
    /// where it is a component; a service stays as it is.
    pub open spec fn with_client_addr(self, client_addr: Seq<char>) -> ParticipatorView {
        match self {
            ParticipatorView::Component(addr, app_addr, _) => ParticipatorView::Component(
                addr,
                app_addr,
                Some(client_addr),
            ),
            ParticipatorView::Service(addr) => ParticipatorView::Service(addr),
        }
    }
}

impl View for Participator {
    type V = ParticipatorView;

    open spec fn view(&self) -> ParticipatorView {
        match *self {
            Participator::Component(addr, app_addr, client_addr) => ParticipatorView::Component(
                addr@,
                opt_str(app_addr),
                opt_str(client_addr),
            ),
            Participator::Service(addr) => ParticipatorView::Service(addr@),
        }
    }
}

impl Participator {
    /// The address that names the participator.
    pub fn addr(&self) -> (addr: &String)
        ensures
            addr@ == self@.addr(),
    {
        match self {
            Participator::Component(addr, _, _) => addr,
            Participator::Service(addr) => addr,
        }
    }

    /// The participator reached through the client connection `client_addr`,
    /// where it is a component; a service stays as it is.
    pub fn with_client_addr(self, client_addr: String) -> (p: Participator)
        ensures
            p@ == self@.with_client_addr(client_addr@),
    {
        match self {
            Participator::Component(addr, app_addr, _) => Participator::Component(
                addr,
                app_addr,
                Some(client_addr),
            ),
            Participator::Service(addr) => Participator::Service(addr),
        }
    }
}

/// Whether the answer to an rpc request goes to someone else than its sender.
#[derive(Debug, Clone)]
pub enum RouteSpec {
    /// The answer goes back to the sender.
    Simple,
    /// The answer goes to this participator.
    Client(Participator),
}

/// Mathematical model of a [`RouteSpec`].
pub enum RouteSpecView {
    Simple,
    Client(ParticipatorView),
}

impl View for RouteSpec {
    type V = RouteSpecView;

    open spec fn view(&self) -> RouteSpecView {
        match *self {
            RouteSpec::Simple => RouteSpecView::Simple,
            RouteSpec::Client(p) => RouteSpecView::Client(p@),
        }
    }
}

/// Logical route of a message. Receivers are responsible for moving the
/// message on along `points`.
#[derive(Debug, Clone)]
pub struct Route {
    pub source: Participator,
    pub spec: RouteSpec,
    pub points: Vec<Participator>,
}

/// Mathematical model of a [`Route`].
pub struct RouteView {
    pub source: ParticipatorView,
    pub spec: RouteSpecView,
    pub points: Seq<ParticipatorView>,
}

impl RouteView {
    /// The address of the next hop: that of the first point, if there is one.
    pub open spec fn next_hop(self) -> Option<Seq<char>> {
        if self.points.len() > 0 {
            Some(self.points[0].addr())
        } else {
            None
        }
    }
}

impl View for Route {
    type V = RouteView;

    open spec fn view(&self) -> RouteView {
        RouteView {
            source: self.source@,
            spec: self.spec@,
            points: self.points@.map_values(|p: Participator| p@),
        }
    }
}

impl Route {
    /// The address of the next hop: that of the first point, if there is one.
    pub fn next_hop(&self) -> (addr: Option<String>)
        ensures
            opt_str(addr) == self@.next_hop(),
    {
        if self.points.len() > 0 {
            Some(self.points[0].addr().clone())
        } else {
            None
        }
    }
}

} // verus!
