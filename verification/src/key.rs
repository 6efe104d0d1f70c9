//! Routing keys and component specs.

use vstd::prelude::*;
use vstd::std_specs::cmp::PartialEqSpecImpl;
use vstd::string::StringExecFns;

verus! {

/// Message routing key. Used for delivering a message to its subscribers.
#[derive(Debug, Clone, Eq, Hash)]
pub struct Key {
    pub action: String,
    pub service: String,
    pub domain: String,
}

/// Mathematical model of a [`Key`].
pub struct KeyView {
    pub action: Seq<char>,
    pub service: Seq<char>,
    pub domain: Seq<char>,
}

impl View for Key {
    type V = KeyView;

    open spec fn view(&self) -> KeyView {
        KeyView { action: self.action@, service: self.service@, domain: self.domain@ }
    }
}

impl PartialEq for Key {
    fn eq(&self, other: &Key) -> (r: bool) {
        self.action == other.action && self.service == other.service && self.domain
            == other.domain
    }
}

impl PartialEqSpecImpl for Key {
    open spec fn obeys_eq_spec() -> bool {
        true
    }

    open spec fn eq_spec(&self, other: &Key) -> bool {
        self@ == other@
    }
}

impl Key {
    /// A key of all three parts.
    pub fn new(action: &str, service: &str, domain: &str) -> (key: Key)
        ensures
            key@ == (KeyView { action: action@, service: service@, domain: domain@ }),
    {
        Key { action: action.to_owned(), service: service.to_owned(), domain: domain.to_owned() }
    }

    /// A key of an action alone: service and domain are empty.
    pub fn simple(action: &str) -> (key: Key)
        ensures
            key@ == (KeyView {
                action: action@,
                service: Seq::<char>::empty(),
                domain: Seq::<char>::empty(),
            }),
    {
        Key { action: action.to_owned(), service: String::new(), domain: String::new() }
    }

    /// A copy of the key.
    pub fn duplicate(&self) -> (key: Key)
        ensures
            key@ == self@,
    {
        Key {
            action: self.action.clone(),
            service: self.service.clone(),
            domain: self.domain.clone(),
        }
    }
}

/// Address of a component and the address it transmits for.
#[derive(Debug, Clone)]
pub struct CmpSpec {
    pub addr: String,
    pub tx: String,
}

/// Mathematical model of a [`CmpSpec`].
pub struct CmpSpecView {
    pub addr: Seq<char>,
    pub tx: Seq<char>,
}

impl View for CmpSpec {
    type V = CmpSpecView;

    open spec fn view(&self) -> CmpSpecView {
        CmpSpecView { addr: self.addr@, tx: self.tx@ }
    }
}

impl PartialEq for CmpSpec {
    fn eq(&self, other: &CmpSpec) -> (r: bool) {
        self.addr == other.addr && self.tx == other.tx
    }
}

impl PartialEqSpecImpl for CmpSpec {
    open spec fn obeys_eq_spec() -> bool {
        true
    }

    open spec fn eq_spec(&self, other: &CmpSpec) -> bool {
        self@ == other@
    }
}

impl CmpSpec {
    /// The spec of a child component at `addr`: the parent becomes the
    /// child's transmit origin.
    pub fn new_addr(&self, addr: &str) -> (child: CmpSpec)
        ensures
            child@ == (CmpSpecView { addr: addr@, tx: self.addr@ }),
    {
        CmpSpec { addr: addr.to_owned(), tx: self.addr.clone() }
    }

    /// The spec of a child component whose address is the parent's, a dot and
    /// `delta`: the parent becomes the child's transmit origin.
    pub fn add_to_addr(&self, delta: &str) -> (child: CmpSpec)
        ensures
            child@ == (CmpSpecView { addr: self.addr@ + seq!['.'] + delta@, tx: self.addr@ }),
    {
        proof {
            reveal_strlit(".");
        }
        let addr = self.addr.clone().concat(".").concat(delta);
        assert("."@ == seq!['.']);
        CmpSpec { addr, tx: self.addr.clone() }
    }
}

impl Default for CmpSpec {
    fn default() -> (spec: CmpSpec)
        ensures
            spec@ == (CmpSpecView { addr: Seq::<char>::empty(), tx: Seq::<char>::empty() }),
    {
        CmpSpec { addr: String::new(), tx: String::new() }
    }
}

} // verus!
