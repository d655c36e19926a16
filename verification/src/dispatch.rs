//! Command dispatch: the worker pool's logic.
//!
//! The transport layer turns every client event into a `Message` and
//! queues it; a pool of workers pops one message at a time and runs
//! `Core::handle_message` on the shared state, holding its write
//! access for the duration of the call.  The contract of
//! `handle_message` pins down, per message kind, the reply that goes
//! back and the whole effect on the user store and the connection
//! registry.  Delivery itself stays outside: a broadcast returns the
//! recipients' connection ids and the serialized payload fields, and
//! the transport pushes them out, ignoring per-recipient failures.
//!
//! `route_inbound` is the decision half of the inbound handler: given
//! a parsed client payload and what is known of the connection, it
//! either produces the message to queue or drops the payload.

use vstd::prelude::*;

use crate::registry::{Server, Servers};
use crate::store::{registered_one, User, Users};

verus! {

/// Longest accepted chat payload, in characters; longer ones are
/// silently dropped.
pub const MAX_MESSAGE_LEN: usize = 300;

/// A parsed client payload, as the transport hands it over.
pub enum Inbound {
    /// A position report, microdegrees.
    Location { lat: i64, lon: i64 },
    /// A login attempt.
    Login { username: String, password: String },
    /// A registration attempt.
    Register { username: String, password: String },
    /// A chat message to broadcast.
    SendMessage { msg: String },
}

/// One queued command, as the workers consume it.
pub enum Message<H> {
    /// A connection opened; carries its delivery handle.
    Open { socket: H },
    /// A connection closed.
    Close { id: u64 },
    /// A login attempt on a connection.
    Login { id: u64, username: String, password: String },
    /// A registration attempt on a connection.
    Register { id: u64, username: String, password: String },
    /// A chat message from a bound user.
    Message { user_id: u64, msg: String },
    /// A position report from a bound user.
    Location { user_id: u64, lat: i64, lon: i64 },
}

/// What a worker hands back to the transport after one command.
pub enum Effect {
    /// Reply to `Open`: the allocated connection id.
    OpenedId { id: u64 },
    /// Reply to `Login`.
    LoginResponse { status: bool },
    /// Reply to `Register`.
    RegisterResponse { status: bool },
    /// A broadcast: deliver the named sender's message to every
    /// listed connection id, ignoring per-recipient failures.
    Deliver { username: String, msg: String, targets: Vec<u64> },
    /// Nothing to send.
    Silent,
}

/// Whether a connection receives a broadcast from this sender: it is
/// bound to a user in range of the sender.
pub open spec fn receives<H>(users: Users, sender_id: u64, conn: Server<H>) -> bool {
    conn.user_id matches Some(uid) && users.in_range_ids(sender_id, uid)
}

/// The recipient connection ids among the first `n` table entries, in
/// table order.
pub open spec fn targets_upto<H>(
    users: Users,
    conns: Seq<Server<H>>,
    sender_id: u64,
    n: int,
) -> Seq<u64>
    decreases n,
{
    if n <= 0 {
        Seq::empty()
    } else {
        let p = targets_upto(users, conns, sender_id, n - 1);
        if receives(users, sender_id, conns[n - 1]) {
            p.push(conns[n - 1].id)
        } else {
            p
        }
    }
}

/// The recipient connection ids of a broadcast, in table order.
pub open spec fn broadcast_targets<H>(users: Users, conns: Seq<Server<H>>, sender_id: u64) -> Seq<
    u64,
> {
    targets_upto(users, conns, sender_id, conns.len() as int)
}

/// A connection id is a broadcast target exactly when some table
/// entry carries it, is bound, and its user is in range of the
/// sender: the recipient set is precisely the in-range bound
/// connections, and no others.
pub proof fn lemma_targets_membership<H>(
    users: Users,
    conns: Seq<Server<H>>,
    sender_id: u64,
    n: int,
    x: u64,
)
    requires
        0 <= n <= conns.len(),
    ensures
        targets_upto(users, conns, sender_id, n).contains(x) <==> (exists|i: int|
            0 <= i < n && (#[trigger] conns[i]).id == x && receives(users, sender_id, conns[i])),
    decreases n,
{
    if n > 0 {
        lemma_targets_membership(users, conns, sender_id, n - 1, x);
        let p = targets_upto(users, conns, sender_id, n - 1);
        let t = targets_upto(users, conns, sender_id, n);
        if receives(users, sender_id, conns[n - 1]) {
            let e = conns[n - 1].id;
            assert(t == p.push(e));
            if t.contains(x) {
                let k = choose|k: int| 0 <= k < t.len() && t[k] == x;
                if k < p.len() {
                    assert(p[k] == x);
                    assert(p.contains(x));
                } else {
                    assert(x == e);
                }
            }
            if p.contains(x) {
                let k = choose|k: int| 0 <= k < p.len() && p[k] == x;
                assert(t[k] == x);
                assert(t.contains(x));
            }
            if x == e {
                assert(t[p.len() as int] == x);
                assert(t.contains(x));
            }
        } else {
            assert(t == p);
        }
    }
}

/// A connection absent from the registry is never a broadcast target:
/// once a close has removed it, later broadcasts cannot pick it.
pub proof fn lemma_closed_not_targeted<H>(
    users: Users,
    servers: Servers<H>,
    sender_id: u64,
    id: u64,
)
    requires
        !servers.has_conn(id),
    ensures
        !broadcast_targets(users, servers.conns(), sender_id).contains(id),
{
    let conns = servers.conns();
    lemma_targets_membership(users, conns, sender_id, conns.len() as int, id);
    if broadcast_targets(users, conns, sender_id).contains(id) {
        let i = choose|i: int|
            0 <= i < conns.len() && (#[trigger] conns[i]).id == id && receives(
                users,
                sender_id,
                conns[i],
            );
        assert(servers.servers@[i].id == id);
    }
}

/// The shared state a worker mutates: user store plus connection
/// registry.
pub struct Core<H> {
    /// The user record store.
    pub users: Users,
    /// The connection registry.
    pub servers: Servers<H>,
}

impl<H> Core<H> {
    /// Both halves are well-formed.
    pub open spec fn wf(self) -> bool {
        self.users.wf() && self.servers.wf()
    }

    /// Fresh state: no users, no connections.
    pub fn new() -> (c: Core<H>)
        ensures
            c.wf(),
            c.users.rows().len() == 0,
            c.servers.conns().len() == 0,
            c.users.spec_current_id() == 0,
            c.servers.current_id == 0,
    {
        Core { users: Users::new(), servers: Servers::new() }
    }

    /// The connection ids a broadcast from this sender reaches, in
    /// table order.
    pub fn recipients(&self, sender_id: u64) -> (r: Vec<u64>)
        requires
            self.wf(),
        ensures
            r@ == broadcast_targets(self.users, self.servers.conns(), sender_id),
    {
        let n = self.servers.len();
        let mut out: Vec<u64> = Vec::new();
        let mut i: usize = 0;
        while i < n
            invariant
                self.wf(),
                n == self.servers.servers@.len(),
                i <= n,
                out@ == targets_upto(self.users, self.servers.servers@, sender_id, i as int),
            decreases n - i,
        {
            let conn = &self.servers.read()[i];
            match conn.user_id {
                Some(uid) => {
                    if self.users.in_range(sender_id, uid) {
                        out.push(conn.id);
                    }
                },
                None => {},
            }
            proof {
                assert(out@ == targets_upto(
                    self.users,
                    self.servers.servers@,
                    sender_id,
                    i as int + 1,
                ));
            }
            i += 1;
        }
        out
    }

    /// Runs one command to completion against the shared state and
    /// returns what the transport owes the clients for it.
    pub fn handle_message(&mut self, msg: Message<H>) -> (r: Effect)
        requires
            old(self).wf(),
            old(self).users.spec_current_id() < u64::MAX,
            old(self).servers.current_id < u64::MAX,
        ensures
            final(self).wf(),
            (msg matches Message::Open { socket } ==> ({
                &&& r == (Effect::OpenedId { id: old(self).servers.current_id })
                &&& final(self).users == old(self).users
                &&& final(self).servers.current_id == old(self).servers.current_id + 1
                &&& final(self).servers.servers@ == old(self).servers.servers@.push(
                    (Server { id: old(self).servers.current_id, user_id: None, socket }),
                )
            })),
            (msg matches Message::Close { id } ==> ({
                &&& r == Effect::Silent
                &&& final(self).users == old(self).users
                &&& final(self).servers.current_id == old(self).servers.current_id
                &&& !final(self).servers.has_conn(id)
                &&& (!old(self).servers.has_conn(id) ==> final(self).servers == old(self).servers)
                &&& (old(self).servers.has_conn(id) ==> final(self).servers.servers@ == old(
                    self,
                ).servers.servers@.remove(old(self).servers.conn_index(id)))
            })),
            (msg matches Message::Login { id, username, password } ==> ({
                &&& r == (Effect::LoginResponse {
                    status: old(self).users.auth_ok(username@, password@),
                })
                &&& final(self).users == old(self).users
                &&& final(self).servers.current_id == old(self).servers.current_id
                &&& final(self).servers.servers@.len() == old(self).servers.servers@.len()
                &&& (!old(self).users.auth_ok(username@, password@) ==> final(self).servers == old(
                    self,
                ).servers)
                &&& (forall|j: int|
                    0 <= j < old(self).servers.servers@.len() && (#[trigger] old(
                        self,
                    ).servers.servers@[j]).id != id ==> final(self).servers.servers@[j] == old(
                        self,
                    ).servers.servers@[j])
                &&& (forall|j: int|
                    0 <= j < old(self).servers.servers@.len() && (#[trigger] old(
                        self,
                    ).servers.servers@[j]).id == id && old(self).servers.servers@[j].user_id
                        is Some ==> final(self).servers.servers@[j] == old(
                        self,
                    ).servers.servers@[j])
                &&& (old(self).users.auth_ok(username@, password@) ==> forall|j: int|
                    0 <= j < old(self).servers.servers@.len() && (#[trigger] old(
                        self,
                    ).servers.servers@[j]).id == id && old(self).servers.servers@[j].user_id
                        is None ==> (final(self).servers.servers@[j].user_id matches Some(uid)
                        && old(self).users.auth_ok_id(username@, password@, uid)
                        && final(self).servers.servers@[j] == (Server {
                        user_id: Some(uid),
                        ..old(self).servers.servers@[j]
                    })))
            })),
            (msg matches Message::Register { id, username, password } ==> ({
                &&& r is RegisterResponse
                &&& final(self).servers.current_id == old(self).servers.current_id
                &&& final(self).servers.servers@.len() == old(self).servers.servers@.len()
                &&& (old(self).users.has_name(username@) ==> r == (Effect::RegisterResponse {
                    status: false,
                }) && *final(self) == *old(self))
                &&& (r == (Effect::RegisterResponse { status: false }) ==> *final(self) == *old(
                    self,
                ))
                &&& (r == (Effect::RegisterResponse { status: true }) ==> ({
                    &&& !old(self).users.has_name(username@)
                    &&& registered_one(
                        old(self).users,
                        final(self).users,
                        username@,
                        password@,
                        old(self).users.spec_current_id(),
                    )
                    &&& (forall|j: int|
                        0 <= j < old(self).servers.servers@.len() && (#[trigger] old(
                            self,
                        ).servers.servers@[j]).id != id ==> final(self).servers.servers@[j] == old(
                            self,
                        ).servers.servers@[j])
                    &&& (forall|j: int|
                        0 <= j < old(self).servers.servers@.len() && (#[trigger] old(
                            self,
                        ).servers.servers@[j]).id == id ==> (if old(
                            self,
                        ).servers.servers@[j].user_id is None {
                            final(self).servers.servers@[j] == (Server {
                                user_id: Some(old(self).users.spec_current_id()),
                                ..old(self).servers.servers@[j]
                            })
                        } else {
                            final(self).servers.servers@[j] == old(self).servers.servers@[j]
                        }))
                }))
            })),
            (msg matches Message::Message { user_id, msg: m } ==> ({
                &&& *final(self) == *old(self)
                &&& (m@.len() > MAX_MESSAGE_LEN ==> r == Effect::Silent)
                &&& (!old(self).users.has_user_id(user_id) ==> r == Effect::Silent)
                &&& (m@.len() <= MAX_MESSAGE_LEN && old(self).users.has_user_id(user_id) ==> (
                r matches Effect::Deliver { username, msg: mm, targets } && username == old(
                    self,
                ).users.user_with_id(user_id).name && mm == m && targets@ == broadcast_targets(
                    old(self).users,
                    old(self).servers.conns(),
                    user_id,
                )))
            })),
            (msg matches Message::Location { user_id, lat, lon } ==> ({
                &&& r == Effect::Silent
                &&& final(self).servers == old(self).servers
                &&& final(self).users.spec_current_id() == old(self).users.spec_current_id()
                &&& final(self).users.rows().len() == old(self).users.rows().len()
                &&& (!old(self).users.has_user_id(user_id) ==> final(self).users == old(self).users)
                &&& (forall|i: int|
                    0 <= i < old(self).users.rows().len() && (#[trigger] old(
                        self,
                    ).users.rows()[i]).id != user_id ==> final(self).users.rows()[i] == old(
                        self,
                    ).users.rows()[i])
                &&& (forall|i: int|
                    0 <= i < old(self).users.rows().len() && (#[trigger] old(
                        self,
                    ).users.rows()[i]).id == user_id ==> final(self).users.rows()[i] == (User {
                        lat: crate::geo::clamp_lat_spec(lat as int) as i64,
                        lon: crate::geo::clamp_lon_spec(lon as int) as i64,
                        ..old(self).users.rows()[i]
                    }))
            })),
    {
        match msg {
            Message::Open { socket } => {
                let id = self.servers.get_next_id();
                proof {
                    if self.servers.has_conn(id) {
                        let i = choose|i: int|
                            0 <= i < self.servers.servers@.len() && (
                            #[trigger] self.servers.servers@[i]).id == id;
                        assert(old(self).servers.servers@[i].id < id);
                    }
                }
                self.servers.update(id, Server { id, user_id: None, socket });
                Effect::OpenedId { id }
            },
            Message::Close { id } => {
                self.servers.empty(id);
                Effect::Silent
            },
            Message::Login { id, username, password } => {
                let status = match self.users.authenticate(username.as_str(), password.as_str()) {
                    Some(uid) => {
                        let _ = self.servers.bind(id, uid);
                        true
                    },
                    None => false,
                };
                Effect::LoginResponse { status }
            },
            Message::Register { id, username, password } => {
                if self.users.contains_username(username.as_str()) {
                    Effect::RegisterResponse { status: false }
                } else {
                    match self.users.add(username.as_str(), password.as_str()) {
                        None => Effect::RegisterResponse { status: false },
                        Some(uid) => {
                            let _ = self.servers.bind(id, uid);
                            Effect::RegisterResponse { status: true }
                        },
                    }
                }
            },
            Message::Message { user_id, msg: m } => {
                if m.as_str().unicode_len() > MAX_MESSAGE_LEN {
                    return Effect::Silent;
                }
                let name = match self.users.get_by_id(user_id) {
                    None => {
                        return Effect::Silent;
                    },
                    Some(u) => {
                        proof {
                            let i = choose|i: int|
                                0 <= i < self.users.rows().len() && self.users.rows()[i] == *u;
                            let k = self.users.user_index_of(user_id);
                            assert(self.users.users@[k].id == user_id);
                            assert(i == k) by {
                                if i < k {
                                    assert(self.users.users@[i].id != self.users.users@[k].id);
                                } else if k < i {
                                    assert(self.users.users@[k].id != self.users.users@[i].id);
                                }
                            }
                        }
                        u.name.clone()
                    },
                };
                let targets = self.recipients(user_id);
                Effect::Deliver { username: name, msg: m, targets }
            },
            Message::Location { user_id, lat, lon } => {
                self.users.update_position(user_id, lat, lon);
                Effect::Silent
            },
        }
    }
}

/// The decision half of the inbound handler: which command, if any, a
/// parsed payload becomes on a connection in the given binding state.
/// Position reports and chat messages from unbound connections are
/// dropped, as are chat messages over the length cap.
pub fn route_inbound<H>(conn_id: u64, bound_user: Option<u64>, inbound: Inbound) -> (r: Option<
    Message<H>,
>)
    ensures
        (inbound matches Inbound::Location { lat, lon } ==> r == (match bound_user {
            Some(uid) => Some(Message::<H>::Location { user_id: uid, lat, lon }),
            None => None,
        })),
        (inbound matches Inbound::Login { username, password } ==> r == (Some(
            Message::<H>::Login { id: conn_id, username, password },
        ))),
        (inbound matches Inbound::Register { username, password } ==> r == (Some(
            Message::<H>::Register { id: conn_id, username, password },
        ))),
        (inbound matches Inbound::SendMessage { msg } ==> r == (if msg@.len() <= MAX_MESSAGE_LEN {
            match bound_user {
                Some(uid) => Some(Message::<H>::Message { user_id: uid, msg }),
                None => None,
            }
        } else {
            None
        })),
{
    match inbound {
        Inbound::Location { lat, lon } => match bound_user {
            Some(uid) => Some(Message::Location { user_id: uid, lat, lon }),
            None => None,
        },
        Inbound::Login { username, password } => Some(
            Message::Login { id: conn_id, username, password },
        ),
        Inbound::Register { username, password } => Some(
            Message::Register { id: conn_id, username, password },
        ),
        Inbound::SendMessage { msg } => {
            if msg.as_str().unicode_len() <= MAX_MESSAGE_LEN {
                match bound_user {
                    Some(uid) => Some(Message::Message { user_id: uid, msg }),
                    None => None,
                }
            } else {
                None
            }
        },
    }
}

} // verus!
