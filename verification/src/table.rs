//! The address table of a hub: which connection is reached through which
//! handle. One thread owns it and changes it only on control messages.

use vstd::prelude::*;
use crate::proto::ServerMsg;

verus! {

/// The addresses of a list of entries, in their order.
pub open spec fn addrs_of<S>(entries: Seq<(String, S)>) -> Seq<Seq<char>> {
    entries.map_values(|e: (String, S)| e.0@)
}

/// The map that a list of entries with distinct addresses stands for.
pub open spec fn map_of<S>(entries: Seq<(String, S)>) -> Map<Seq<char>, S> {
    Map::new(
        |addr: Seq<char>| addrs_of(entries).contains(addr),
        |addr: Seq<char>| entries[addrs_of(entries).index_of(addr)].1,
    )
}

/// In a list of distinct addresses, an address stands where it is found.
proof fn lemma_index_of<S>(entries: Seq<(String, S)>, i: int)
    requires
        addrs_of(entries).no_duplicates(),
        0 <= i < entries.len(),
    ensures
        addrs_of(entries).contains(entries[i].0@),
        addrs_of(entries).index_of(entries[i].0@) == i,
{
    let addrs = addrs_of(entries);
    assert(addrs[i] == entries[i].0@);
}

/// Where the entry of `addr` stands, if there is one.
fn find<S>(entries: &Vec<(String, S)>, addr: &String) -> (r: Option<usize>)
    ensures
        r is Some ==> r->0 < entries.len() && entries[r->0 as int].0@ == addr@,
        r is None ==> !addrs_of(entries@).contains(addr@),
{
    let mut i: usize = 0;
    while i < entries.len()
        invariant
            i <= entries.len(),
            forall|j: int| 0 <= j < i ==> entries[j].0@ != addr@,
        decreases entries.len() - i,
    {
        if entries[i].0 == *addr {
            return Some(i);
        }
        i = i + 1;
    }
    proof {
        let addrs = addrs_of(entries@);
        assert forall|j: int| 0 <= j < addrs.len() implies addrs[j] != addr@ by {}
    }
    None
}

/// Puts the entry of `addr` into a list of distinct addresses, in place of
/// an earlier entry of that address.
fn put<S>(entries: &mut Vec<(String, S)>, addr: String, handle: S)
    requires
        addrs_of(old(entries)@).no_duplicates(),
    ensures
        addrs_of(final(entries)@).no_duplicates(),
        map_of(final(entries)@) == map_of(old(entries)@).insert(addr@, handle),
{
    let ghost before = entries@;
    match find(entries, &addr) {
        Some(i) => {
            entries[i] = (addr, handle);
            proof {
                let after = entries@;
                assert(addrs_of(after) =~= addrs_of(before));
                assert forall|a: Seq<char>| #[trigger]
                    map_of(after).contains_key(a) implies map_of(after)[a] == map_of(
                    before,
                ).insert(addr@, handle)[a] by {
                    let j = addrs_of(after).index_of(a);
                    lemma_index_of(after, j);
                    lemma_index_of(before, j);
                    lemma_index_of(before, i as int);
                }
                lemma_index_of(before, i as int);
            }
        },
        None => {
            entries.push((addr, handle));
            proof {
                let after = entries@;
                assert(addrs_of(after) =~= addrs_of(before).push(addr@));
                assert forall|a: Seq<char>| #[trigger]
                    map_of(after).contains_key(a) implies map_of(after)[a] == map_of(
                    before,
                ).insert(addr@, handle)[a] by {
                    let j = addrs_of(after).index_of(a);
                    lemma_index_of(after, j);
                    if j < before.len() {
                        lemma_index_of(before, j);
                    }
                }
                assert forall|a: Seq<char>|
                    map_of(before).insert(addr@, handle).contains_key(a) implies #[trigger]
                    map_of(after).contains_key(a) by {
                    if a == addr@ {
                        assert(addrs_of(after)[before.len() as int] == a);
                    } else {
                        let j = addrs_of(before).index_of(a);
                        assert(addrs_of(after)[j] == a);
                    }
                }
            }
        },
    }
}

/// Takes the entry of `addr` out of a list of distinct addresses.
fn take_out<S>(entries: &mut Vec<(String, S)>, addr: &String)
    requires
        addrs_of(old(entries)@).no_duplicates(),
    ensures
        addrs_of(final(entries)@).no_duplicates(),
        map_of(final(entries)@) == map_of(old(entries)@).remove(addr@),
{
    let ghost before = entries@;
    match find(entries, addr) {
        Some(i) => {
            entries.remove(i);
            proof {
                let after = entries@;
                assert(addrs_of(after) =~= addrs_of(before).remove(i as int));
                assert(addrs_of(after).no_duplicates()) by {
                    assert forall|x: int, y: int|
                        0 <= x < after.len() && 0 <= y < after.len() && x != y implies addrs_of(
                        after,
                    )[x] != addrs_of(after)[y] by {}
                }
                assert forall|a: Seq<char>| #[trigger]
                    map_of(after).contains_key(a) implies map_of(before).remove(
                    addr@,
                ).contains_key(a) && map_of(after)[a] == map_of(before)[a] by {
                    let j = addrs_of(after).index_of(a);
                    let jj = if j < i { j } else { j + 1 };
                    lemma_index_of(after, j);
                    lemma_index_of(before, jj);
                    lemma_index_of(before, i as int);
                }
                assert forall|a: Seq<char>|
                    map_of(before).remove(addr@).contains_key(a) implies #[trigger] map_of(
                    after,
                ).contains_key(a) by {
                    let jj = addrs_of(before).index_of(a);
                    lemma_index_of(before, jj);
                    let j = if jj < i { jj } else { jj - 1 };
                    assert(addrs_of(after)[j] == a);
                }
            }
        },
        None => {},
    }
}

/// Address table: from the address of a connection to its send handle.
///
/// The entries stand in a list whose addresses are distinct, which is the
/// invariant of the type, and the list is searched by comparing addresses:
/// the standard hash map has no specification for string keys. The view is
/// the map that the list stands for.
pub struct AddressTable<S> {
    entries: Vec<(String, S)>,
}

impl<S> View for AddressTable<S> {
    type V = Map<Seq<char>, S>;

    closed spec fn view(&self) -> Map<Seq<char>, S> {
        map_of(self.entries@)
    }
}

/// What the owner of the table does after a control message.
pub enum Delivery<'a, S> {
    /// Nothing is sent.
    Nothing,
    /// The frame is sent through the handle.
    Send(&'a S, Vec<u8>),
    /// The frame is discarded: nobody is reached under its address.
    Unknown(String),
}

impl<S> AddressTable<S> {
    #[verifier::type_invariant]
    spec fn wf(&self) -> bool {
        addrs_of(self.entries@).no_duplicates()
    }

    /// The empty table.
    pub fn new() -> (table: AddressTable<S>)
        ensures
            table@ == Map::<Seq<char>, S>::empty(),
    {
        let table = AddressTable { entries: Vec::new() };
        table
    }

    /// The handle of the connection of `addr`, if the table holds one.
    pub fn get(&self, addr: &String) -> (r: Option<&S>)
        ensures
            r == if self@.contains_key(addr@) {
                Some(&self@[addr@])
            } else {
                None
            },
    {
        proof {
            use_type_invariant(self);
        }
        match find(&self.entries, addr) {
            Some(i) => {
                proof {
                    lemma_index_of(self.entries@, i as int);
                }
                Some(&self.entries[i].1)
            },
            None => None,
        }
    }

    /// Admits the connection of `addr`: from now on it is reached through
    /// `handle`. An earlier handle of that address is dropped.
    pub fn add_client(&mut self, addr: String, handle: S)
        ensures
            final(self)@ == old(self)@.insert(addr@, handle),
    {
        proof {
            use_type_invariant(&*self);
        }
        let mut entries: Vec<(String, S)> = Vec::new();
        std::mem::swap(&mut entries, &mut self.entries);
        put(&mut entries, addr, handle);
        self.entries = entries;
    }

    /// Forgets the connection of `addr` and drops its handle.
    pub fn remove_client(&mut self, addr: &String)
        ensures
            final(self)@ == old(self)@.remove(addr@),
    {
        proof {
            use_type_invariant(&*self);
        }
        let mut entries: Vec<(String, S)> = Vec::new();
        std::mem::swap(&mut entries, &mut self.entries);
        take_out(&mut entries, addr);
        self.entries = entries;
    }

    /// One step of the table's owner: a connection is admitted or forgotten,
    /// or a frame is handed, unchanged, to the handle of its destination. A
    /// frame for an address that the table does not hold is discarded.
    pub fn handle(&mut self, msg: ServerMsg<S>) -> (r: Delivery<'_, S>)
        ensures
            match msg {
                ServerMsg::AddClient(addr, handle) => final(self)@ == old(self)@.insert(
                    addr@,
                    handle,
                ) && r is Nothing,
                ServerMsg::RemoveClient(addr) => final(self)@ == old(self)@.remove(addr@)
                    && r is Nothing,
                ServerMsg::SendMsg(addr, data) => final(self)@ == old(self)@ && if old(
                    self,
                )@.contains_key(addr@) {
                    r == Delivery::Send(&old(self)@[addr@], data)
                } else {
                    r == Delivery::<S>::Unknown(addr)
                },
            },
    {
        match msg {
            ServerMsg::AddClient(addr, handle) => {
                self.add_client(addr, handle);
                Delivery::Nothing
            },
            ServerMsg::RemoveClient(addr) => {
                self.remove_client(&addr);
                Delivery::Nothing
            },
            ServerMsg::SendMsg(addr, data) => {
                match self.get(&addr) {
                    Some(handle) => Delivery::Send(handle, data),
                    None => Delivery::Unknown(addr),
                }
            },
        }
    }
}

} // verus!
