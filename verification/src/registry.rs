//! The live connection registry.
//!
//! `Servers` owns the set of open connections: for each, its
//! process-unique id, the user bound to it once authentication
//! succeeds, and the delivery handle the transport layer supplied.
//! The handle type is a parameter: the registry never looks inside
//! it, it only stores it and hands it back for delivery.
//!
//! Ids come from a monotone counter and are never reused.  A bound
//! user id is set at most once per connection: a second bind on the
//! same connection is rejected, not overwritten.  Removal is
//! idempotent, so duplicate or late close events are no-ops.  The
//! surrounding process serializes writes; reads may run on a snapshot
//! that lags them, which the contracts here never exclude.

use vstd::prelude::*;

verus! {

/// One live connection: registry key, optional bound user, delivery
/// handle.
pub struct Server<H> {
    /// Process-unique connection id.
    pub id: u64,
    /// The user this connection authenticated as, if any.
    pub user_id: Option<u64>,
    /// The transport's delivery handle for this connection.
    pub socket: H,
}

/// The registry: connection table and id counter.
pub struct Servers<H> {
    /// The next id to allocate; all stored ids lie below it.
    pub current_id: u64,
    /// The live connections.
    pub servers: Vec<Server<H>>,
}

impl<H> Servers<H> {
    /// The connection table, as a sequence.
    pub open spec fn conns(self) -> Seq<Server<H>> {
        self.servers@
    }

    /// Well-formedness: connection ids unique and below the counter.
    pub open spec fn wf(self) -> bool {
        &&& forall|i: int|
            0 <= i < self.servers@.len() ==> (#[trigger] self.servers@[i]).id < self.current_id
        &&& forall|i: int, j: int|
            0 <= i < j < self.servers@.len() ==> (#[trigger] self.servers@[i]).id != (
            #[trigger] self.servers@[j]).id
    }

    /// Some connection carries this id.
    pub open spec fn has_conn(self, id: u64) -> bool {
        exists|i: int| 0 <= i < self.servers@.len() && (#[trigger] self.servers@[i]).id == id
    }

    /// The index of the connection with this id, when one exists.
    pub open spec fn conn_index(self, id: u64) -> int {
        choose|i: int| 0 <= i < self.servers@.len() && (#[trigger] self.servers@[i]).id == id
    }

    /// An empty registry.
    pub fn new() -> (s: Servers<H>)
        ensures
            s.wf(),
            s.conns().len() == 0,
            s.current_id == 0,
    {
        Servers { current_id: 0, servers: Vec::new() }
    }

    /// Finds the position of a connection id in the table; by id
    /// uniqueness it is the only one.
    fn index_of(&self, id: u64) -> (r: Option<usize>)
        requires
            self.wf(),
        ensures
            match r {
                Some(i) => i < self.servers@.len() && self.servers@[i as int].id == id && (forall|
                    j: int,
                |
                    0 <= j < self.servers@.len() && j != i ==> (#[trigger] self.servers@[j]).id
                        != id),
                None => !self.has_conn(id),
            },
    {
        let n = self.servers.len();
        let mut i: usize = 0;
        while i < n
            invariant
                self.wf(),
                n == self.servers@.len(),
                i <= n,
                forall|j: int| 0 <= j < i ==> (#[trigger] self.servers@[j]).id != id,
            decreases n - i,
        {
            if self.servers[i].id == id {
                proof {
                    let k = i as int;
                    assert forall|j: int|
                        0 <= j < self.servers@.len() && j != k implies (#[trigger] self.servers@[j]).id
                        != id by {
                        if j < k {
                            assert(self.servers@[j].id != self.servers@[k].id);
                        } else {
                            assert(self.servers@[k].id != self.servers@[j].id);
                        }
                    }
                }
                return Some(i);
            }
            i += 1;
        }
        None
    }

    /// Allocates the next connection id: strictly increasing, never
    /// reused.
    pub fn get_next_id(&mut self) -> (r: u64)
        requires
            old(self).wf(),
            old(self).current_id < u64::MAX,
        ensures
            final(self).wf(),
            r == old(self).current_id,
            final(self).current_id == old(self).current_id + 1,
            final(self).servers@ == old(self).servers@,
    {
        let id = self.current_id;
        self.current_id = self.current_id + 1;
        id
    }

    /// Publishes a connection under an allocated id: replaces the
    /// entry with that id, or appends one.
    pub fn update(&mut self, id: u64, server: Server<H>)
        requires
            old(self).wf(),
            server.id == id,
            id < old(self).current_id,
        ensures
            final(self).wf(),
            final(self).current_id == old(self).current_id,
            final(self).has_conn(id),
            old(self).has_conn(id) ==> final(self).servers@.len() == old(self).servers@.len()
                && (forall|j: int|
                0 <= j < old(self).servers@.len() && (#[trigger] old(self).servers@[j]).id != id
                    ==> final(self).servers@[j] == old(self).servers@[j]) && (forall|j: int|
                0 <= j < old(self).servers@.len() && (#[trigger] old(self).servers@[j]).id == id
                    ==> final(self).servers@[j] == server),
            !old(self).has_conn(id) ==> final(self).servers@ == old(self).servers@.push(server),
    {
        match self.index_of(id) {
            Some(i) => {
                self.servers[i] = server;
                proof {
                    assert(self.servers@[i as int].id == id);
                }
            },
            None => {
                self.servers.push(server);
                proof {
                    assert(self.servers@[old(self).servers@.len() as int].id == id);
                }
            },
        }
    }

    /// Removes the entry with this id.  Idempotent: removing an
    /// absent id changes nothing.
    pub fn empty(&mut self, id: u64)
        requires
            old(self).wf(),
        ensures
            final(self).wf(),
            final(self).current_id == old(self).current_id,
            !final(self).has_conn(id),
            !old(self).has_conn(id) ==> *final(self) == *old(self),
            old(self).has_conn(id) ==> final(self).servers@ == old(self).servers@.remove(
                old(self).conn_index(id),
            ),
    {
        match self.index_of(id) {
            Some(i) => {
                proof {
                    let k = i as int;
                    assert(old(self).conn_index(id) == k) by {
                        assert(old(self).servers@[k].id == id);
                        let c = old(self).conn_index(id);
                        if c != k {
                            assert(old(self).servers@[c].id != id);
                        }
                    }
                }
                self.servers.remove(i);
                proof {
                    if self.has_conn(id) {
                        let j = choose|j: int|
                            0 <= j < self.servers@.len() && (#[trigger] self.servers@[j]).id == id;
                        if j < i as int {
                            assert(old(self).servers@[j].id != id);
                        } else {
                            assert(old(self).servers@[j + 1].id != id);
                        }
                    }
                }
            },
            None => {},
        }
    }

    /// Point lookup: a snapshot of the entry with this id.
    pub fn get(&self, id: u64) -> (r: Option<&Server<H>>)
        requires
            self.wf(),
        ensures
            match r {
                Some(c) => c.id == id && exists|i: int|
                    0 <= i < self.conns().len() && self.conns()[i] == *c,
                None => !self.has_conn(id),
            },
    {
        match self.index_of(id) {
            Some(i) => {
                proof {
                    assert(0 <= (i as int) < self.conns().len() && self.conns()[i as int]
                        == self.servers@[i as int]);
                }
                Some(&self.servers[i])
            },
            None => None,
        }
    }

    /// The current table, for iteration during broadcast.
    pub fn read(&self) -> (r: &Vec<Server<H>>)
        ensures
            r@ == self.servers@,
    {
        &self.servers
    }

    /// Number of live connections.
    pub fn len(&self) -> (r: usize)
        ensures
            r == self.conns().len(),
    {
        self.servers.len()
    }

    /// Binds a user to a connection, once: rejected if the connection
    /// is gone or already bound.
    pub fn bind(&mut self, id: u64, user_id: u64) -> (r: bool)
        requires
            old(self).wf(),
        ensures
            final(self).wf(),
            final(self).current_id == old(self).current_id,
            final(self).servers@.len() == old(self).servers@.len(),
            r == exists|i: int|
                0 <= i < old(self).servers@.len() && (#[trigger] old(self).servers@[i]).id == id
                    && old(self).servers@[i].user_id is None,
            !r ==> *final(self) == *old(self),
            forall|j: int|
                0 <= j < old(self).servers@.len() && (#[trigger] old(self).servers@[j]).id != id
                    ==> final(self).servers@[j] == old(self).servers@[j],
            r ==> forall|j: int|
                0 <= j < old(self).servers@.len() && (#[trigger] old(self).servers@[j]).id == id
                    ==> final(self).servers@[j] == (Server {
                    user_id: Some(user_id),
                    ..old(self).servers@[j]
                }),
    {
        match self.index_of(id) {
            Some(i) => {
                if self.servers[i].user_id.is_none() {
                    self.servers[i].user_id = Some(user_id);
                    proof {
                        let k = i as int;
                        assert(self.servers@[k] == (Server {
                            user_id: Some(user_id),
                            ..old(self).servers@[k]
                        }));
                        assert(forall|j: int|
                            0 <= j < old(self).servers@.len() && j != k ==> self.servers@[j]
                                == old(self).servers@[j]);
                        assert(forall|j: int|
                            0 <= j < self.servers@.len() ==> (#[trigger] self.servers@[j]).id
                                == old(self).servers@[j].id);
                    }
                    true
                } else {
                    false
                }
            },
            None => false,
        }
    }
}

/// The id the registry would allocate next is carried by no live
/// connection: ids are handed out from a strictly increasing counter
/// and never repeat.
pub proof fn lemma_fresh_conn_id_unused<H>(s: Servers<H>)
    requires
        s.wf(),
    ensures
        !s.has_conn(s.current_id),
{
    if s.has_conn(s.current_id) {
        let i = choose|i: int|
            0 <= i < s.servers@.len() && (#[trigger] s.servers@[i]).id == s.current_id;
        assert(s.servers@[i].id < s.current_id);
    }
}

} // verus!
