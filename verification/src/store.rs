//! The user record store.
//!
//! `Users` owns every registered account: id, unique display name,
//! stored password hash, and last reported position in microdegrees.
//! A name index (`users_by_name`) is maintained in lockstep with the
//! record table, entry by entry, so the two can never disagree about
//! the existence or the id of a name.  Ids come from a monotone
//! counter and are never reused.
//!
//! The surrounding process serializes mutation of the store (one
//! writer at a time); every method here takes the store by reference
//! accordingly, and its contract pins down the whole effect of the
//! call on the table.

use vstd::prelude::*;

use crate::auth::{check_password, hash_matches, hash_password};
use crate::geo::{
    distance_m, distance_m_spec, in_range_coords, in_range_spec, valid_lat, valid_lon,
    within_window, within_window_spec,
};

verus! {

/// Iteration count handed to the key-derivation function.
pub const PBKDF2_ITERATIONS: u32 = 1;

/// Compares two string slices character by character.
fn str_eq(a: &str, b: &str) -> (r: bool)
    ensures
        r == (a@ == b@),
{
    let n = a.unicode_len();
    let m = b.unicode_len();
    if n != m {
        proof {
            assert(a@ != b@) by {
                if a@ == b@ {
                    assert(a@.len() == b@.len());
                }
            }
        }
        return false;
    }
    let mut i: usize = 0;
    while i < n
        invariant
            n == a@.len(),
            n == b@.len(),
            i <= n,
            forall|j: int| 0 <= j < i ==> a@[j] == b@[j],
        decreases n - i,
    {
        if a.get_char(i) != b.get_char(i) {
            proof {
                assert(a@ != b@) by {
                    if a@ == b@ {
                        assert(a@[i as int] == b@[i as int]);
                    }
                }
            }
            return false;
        }
        i += 1;
    }
    proof {
        assert(a@ =~= b@);
    }
    true
}

/// One registered account.
pub struct User {
    /// Process-unique id, allocated by the store's counter.
    pub id: u64,
    /// Unique display name.
    pub name: String,
    /// Last reported latitude, microdegrees.
    pub lat: i64,
    /// Last reported longitude, microdegrees.
    pub lon: i64,
    /// Salted, iterated hash of the password.
    pub password: String,
}

impl User {
    /// The stored position lies on the globe.
    pub open spec fn valid_pos(self) -> bool {
        valid_lat(self.lat as int) && valid_lon(self.lon as int)
    }

    /// A fresh account at the default position.
    pub fn new(id: u64, name: String, password: String) -> (u: User)
        ensures
            u.id == id,
            u.name == name,
            u.password == password,
            u.lat == 0,
            u.lon == 0,
    {
        User { id, name, lat: 0, lon: 0, password }
    }

    /// Haversine distance to another user, metres.
    pub fn distance_to(&self, other: &User) -> (d: u64)
        requires
            self.valid_pos(),
            other.valid_pos(),
        ensures
            d == distance_m_spec(
                self.lat as int,
                self.lon as int,
                other.lat as int,
                other.lon as int,
            ),
    {
        distance_m(self.lat, self.lon, other.lat, other.lon)
    }

    /// The rectangular pre-filter against another user.
    pub fn within_bounds(&self, other: &User, diff: i64) -> (r: bool)
        requires
            self.valid_pos(),
            other.valid_pos(),
        ensures
            r == within_window_spec(
                self.lat as int,
                self.lon as int,
                other.lat as int,
                other.lon as int,
                diff as int,
            ),
    {
        within_window(self.lat, self.lon, other.lat, other.lon, diff)
    }
}

/// The store: record table, name index, id counter.
pub struct Users {
    /// The next id to allocate; all stored ids lie below it.
    pub current_id: u64,
    /// The record table.
    pub users: Vec<User>,
    /// The name index, in lockstep with the table.
    pub users_by_name: Vec<(String, u64)>,
}

/// The state change of one successful registration: one record is
/// appended, carrying the fresh id, the given name, the default
/// position, and a hash that the given password verifies against.
pub open spec fn registered_one(
    pre: Users,
    post: Users,
    username: Seq<char>,
    password: Seq<char>,
    id: u64,
) -> bool {
    &&& id == pre.spec_current_id()
    &&& post.spec_current_id() == pre.spec_current_id() + 1
    &&& post.rows().len() == pre.rows().len() + 1
    &&& post.rows().subrange(0, pre.rows().len() as int) == pre.rows()
    &&& post.rows().last().id == id
    &&& post.rows().last().name@ == username
    &&& post.rows().last().lat == 0
    &&& post.rows().last().lon == 0
    &&& hash_matches(password, post.rows().last().password@)
}

impl Users {
    /// The record table, as a sequence.
    pub open spec fn rows(self) -> Seq<User> {
        self.users@
    }

    /// The next id the store will allocate.
    pub open spec fn spec_current_id(self) -> u64 {
        self.current_id
    }

    /// Well-formedness: index in lockstep with the table, ids unique
    /// and below the counter, names unique, positions on the globe.
    pub open spec fn wf(self) -> bool {
        &&& self.users@.len() == self.users_by_name@.len()
        &&& forall|i: int|
            0 <= i < self.users@.len() ==> (#[trigger] self.users_by_name@[i]).0@
                == self.users@[i].name@ && self.users_by_name@[i].1 == self.users@[i].id
        &&& forall|i: int|
            0 <= i < self.users@.len() ==> (#[trigger] self.users@[i]).id < self.current_id
        &&& forall|i: int, j: int|
            0 <= i < j < self.users@.len() ==> (#[trigger] self.users@[i]).id != (
            #[trigger] self.users@[j]).id
        &&& forall|i: int, j: int|
            0 <= i < j < self.users@.len() ==> (#[trigger] self.users@[i]).name@ != (
            #[trigger] self.users@[j]).name@
        &&& forall|i: int| 0 <= i < self.users@.len() ==> (#[trigger] self.users@[i]).valid_pos()
    }

    /// Some record carries this name.
    pub open spec fn has_name(self, name: Seq<char>) -> bool {
        exists|i: int| 0 <= i < self.users@.len() && (#[trigger] self.users@[i]).name@ == name
    }

    /// Some record carries this id.
    pub open spec fn has_user_id(self, id: u64) -> bool {
        exists|i: int| 0 <= i < self.users@.len() && (#[trigger] self.users@[i]).id == id
    }

    /// Some record carries this name and a hash the password matches.
    pub open spec fn auth_ok(self, username: Seq<char>, password: Seq<char>) -> bool {
        exists|i: int|
            0 <= i < self.users@.len() && (#[trigger] self.users@[i]).name@ == username
                && hash_matches(password, self.users@[i].password@)
    }

    /// Some record carries this name, a hash the password matches,
    /// and this id.
    pub open spec fn auth_ok_id(self, username: Seq<char>, password: Seq<char>, uid: u64) -> bool {
        exists|i: int|
            0 <= i < self.users@.len() && (#[trigger] self.users@[i]).name@ == username
                && hash_matches(password, self.users@[i].password@) && self.users@[i].id == uid
    }

    /// The index of the record with this id, when one exists.
    pub open spec fn user_index_of(self, id: u64) -> int {
        choose|i: int| 0 <= i < self.users@.len() && (#[trigger] self.users@[i]).id == id
    }

    /// The record with this id, when one exists.
    pub open spec fn user_with_id(self, id: u64) -> User {
        self.users@[self.user_index_of(id)]
    }

    /// Both ids resolve to records whose positions pass the window
    /// pre-filter and the radius check.
    pub open spec fn in_range_ids(self, id_1: u64, id_2: u64) -> bool {
        exists|i: int, j: int|
            #![trigger self.users@[i], self.users@[j]]
            0 <= i < self.users@.len() && 0 <= j < self.users@.len() && self.users@[i].id == id_1
                && self.users@[j].id == id_2 && in_range_spec(
                self.users@[i].lat as int,
                self.users@[i].lon as int,
                self.users@[j].lat as int,
                self.users@[j].lon as int,
            )
    }

    /// An empty store.
    pub fn new() -> (s: Users)
        ensures
            s.wf(),
            s.rows().len() == 0,
            s.spec_current_id() == 0,
    {
        Users { current_id: 0, users: Vec::new(), users_by_name: Vec::new() }
    }

    /// Whether a name is already taken, answered from the name index.
    pub fn contains_username(&self, username: &str) -> (r: bool)
        requires
            self.wf(),
        ensures
            r == self.has_name(username@),
    {
        let n = self.users_by_name.len();
        let mut i: usize = 0;
        while i < n
            invariant
                self.wf(),
                n == self.users_by_name@.len(),
                i <= n,
                forall|j: int| 0 <= j < i ==> (#[trigger] self.users_by_name@[j]).0@ != username@,
            decreases n - i,
        {
            if str_eq(self.users_by_name[i].0.as_str(), username) {
                proof {
                    assert(self.users@[i as int].name@ == username@);
                }
                return true;
            }
            i += 1;
        }
        proof {
            if self.has_name(username@) {
                let k = choose|k: int|
                    0 <= k < self.users@.len() && (#[trigger] self.users@[k]).name@ == username@;
                assert(self.users_by_name@[k].0@ == self.users@[k].name@);
            }
        }
        false
    }

    /// Allocates a fresh id and inserts the record and its index
    /// entry, storing the password hash handed in.  This is the whole
    /// state change of a registration, given the hash.
    pub fn add_hashed(&mut self, username: &str, password_hash: String) -> (id: u64)
        requires
            old(self).wf(),
            !old(self).has_name(username@),
            old(self).spec_current_id() < u64::MAX,
        ensures
            final(self).wf(),
            id == old(self).spec_current_id(),
            final(self).spec_current_id() == old(self).spec_current_id() + 1,
            final(self).rows().len() == old(self).rows().len() + 1,
            final(self).rows().subrange(0, old(self).rows().len() as int) == old(self).rows(),
            final(self).rows().last().id == id,
            final(self).rows().last().name@ == username@,
            final(self).rows().last().lat == 0,
            final(self).rows().last().lon == 0,
            final(self).rows().last().password == password_hash,
    {
        let id = self.current_id;
        self.current_id = self.current_id + 1;
        let user = User::new(id, username.to_owned(), password_hash);
        self.users.push(user);
        self.users_by_name.push((username.to_owned(), id));
        proof {
            assert(self.users@.subrange(0, old(self).users@.len() as int) =~= old(self).users@);
        }
        id
    }

    /// Allocates a fresh id, hashes the password, and inserts record
    /// and index entry.  Returns `None` only when the randomness
    /// source behind the hash fails, in which case nothing changes.
    pub fn add(&mut self, username: &str, password: &str) -> (r: Option<u64>)
        requires
            old(self).wf(),
            !old(self).has_name(username@),
            old(self).spec_current_id() < u64::MAX,
        ensures
            final(self).wf(),
            r is None ==> *final(self) == *old(self),
            r matches Some(id) ==> registered_one(
                *old(self),
                *final(self),
                username@,
                password@,
                id,
            ),
    {
        match hash_password(password, PBKDF2_ITERATIONS) {
            None => None,
            Some(h) => Some(self.add_hashed(username, h)),
        }
    }

    /// Point lookup by id.
    pub fn get_by_id(&self, id: u64) -> (r: Option<&User>)
        requires
            self.wf(),
        ensures
            match r {
                Some(u) => u.id == id && exists|i: int|
                    0 <= i < self.rows().len() && self.rows()[i] == *u,
                None => !self.has_user_id(id),
            },
    {
        let n = self.users.len();
        let mut i: usize = 0;
        while i < n
            invariant
                self.wf(),
                n == self.users@.len(),
                i <= n,
                forall|j: int| 0 <= j < i ==> (#[trigger] self.users@[j]).id != id,
            decreases n - i,
        {
            if self.users[i].id == id {
                proof {
                    assert(0 <= (i as int) < self.rows().len() && self.rows()[i as int]
                        == self.users@[i as int]);
                }
                return Some(&self.users[i]);
            }
            i += 1;
        }
        None
    }

    /// Point lookup by name: the index gives the id, the table gives
    /// the record, exactly as registration wrote them.
    pub fn get_by_name(&self, username: &str) -> (r: Option<&User>)
        requires
            self.wf(),
        ensures
            match r {
                Some(u) => u.name@ == username@ && exists|i: int|
                    0 <= i < self.rows().len() && self.rows()[i] == *u,
                None => !self.has_name(username@),
            },
    {
        let n = self.users_by_name.len();
        let mut i: usize = 0;
        while i < n
            invariant
                self.wf(),
                n == self.users_by_name@.len(),
                i <= n,
                forall|j: int| 0 <= j < i ==> (#[trigger] self.users_by_name@[j]).0@ != username@,
            decreases n - i,
        {
            if str_eq(self.users_by_name[i].0.as_str(), username) {
                let id = self.users_by_name[i].1;
                let found = self.get_by_id(id);
                proof {
                    let k = i as int;
                    assert(self.users@[k].name@ == username@);
                    assert(self.users@[k].id == id);
                    match found {
                        Some(u) => {
                            let j = choose|j: int|
                                0 <= j < self.rows().len() && self.rows()[j] == *u;
                            assert(self.users@[j].id == id);
                            assert(j == k) by {
                                if j < k {
                                    assert(self.users@[j].id != self.users@[k].id);
                                } else if k < j {
                                    assert(self.users@[k].id != self.users@[j].id);
                                }
                            }
                        },
                        None => {
                            assert(self.has_user_id(id));
                        },
                    }
                }
                return found;
            }
            i += 1;
        }
        proof {
            if self.has_name(username@) {
                let k = choose|k: int|
                    0 <= k < self.users@.len() && (#[trigger] self.users@[k]).name@ == username@;
                assert(self.users_by_name@[k].0@ == self.users@[k].name@);
            }
        }
        None
    }

    /// Overwrites the stored position of an existing user, clamping
    /// the coordinates onto the globe.  A missing id is a no-op, not
    /// an error: a position update racing a removal must do nothing.
    pub fn update_position(&mut self, user_id: u64, lat: i64, lon: i64)
        requires
            old(self).wf(),
        ensures
            final(self).wf(),
            final(self).spec_current_id() == old(self).spec_current_id(),
            final(self).rows().len() == old(self).rows().len(),
            !old(self).has_user_id(user_id) ==> *final(self) == *old(self),
            forall|i: int|
                0 <= i < old(self).rows().len() && (#[trigger] old(self).rows()[i]).id != user_id
                    ==> final(self).rows()[i] == old(self).rows()[i],
            forall|i: int|
                0 <= i < old(self).rows().len() && (#[trigger] old(self).rows()[i]).id == user_id
                    ==> final(self).rows()[i] == (User {
                    lat: crate::geo::clamp_lat_spec(lat as int) as i64,
                    lon: crate::geo::clamp_lon_spec(lon as int) as i64,
                    ..old(self).rows()[i]
                }),
    {
        let lat_c = crate::geo::clamp_lat(lat);
        let lon_c = crate::geo::clamp_lon(lon);
        let n = self.users.len();
        let mut i: usize = 0;
        while i < n
            invariant
                old(self).wf(),
                n == self.users@.len(),
                i <= n,
                *self == *old(self),
                lat_c == crate::geo::clamp_lat_spec(lat as int),
                lon_c == crate::geo::clamp_lon_spec(lon as int),
                valid_lat(lat_c as int),
                valid_lon(lon_c as int),
                forall|j: int| 0 <= j < i ==> (#[trigger] self.users@[j]).id != user_id,
            decreases n - i,
        {
            if self.users[i].id == user_id {
                proof {
                    assert(old(self).users@[i as int].id == user_id);
                }
                self.users[i].lat = lat_c;
                self.users[i].lon = lon_c;
                proof {
                    let k = i as int;
                    assert(self.users@[k].lat == lat_c);
                    assert(self.users@[k].lon == lon_c);
                    assert forall|j: int| k < j < old(self).users@.len() implies (#[trigger] old(
                        self,
                    ).users@[j]).id != user_id by {
                        assert(old(self).users@[k].id != old(self).users@[j].id);
                    }
                    assert(forall|j: int|
                        0 <= j < old(self).users@.len() && j != k ==> self.users@[j] == old(
                            self,
                        ).users@[j]);
                    assert(self.users@[k].id == old(self).users@[k].id);
                    assert(self.users@[k].name@ == old(self).users@[k].name@);
                    assert(self.users@[k].valid_pos());
                    assert(self.users_by_name@ == old(self).users_by_name@);
                    assert(forall|j: int|
                        0 <= j < self.users@.len() ==> (#[trigger] self.users@[j]).id == old(
                            self,
                        ).users@[j].id);
                    assert(forall|j: int|
                        0 <= j < self.users@.len() ==> (#[trigger] self.users@[j]).name@ == old(
                            self,
                        ).users@[j].name@);
                    assert(forall|j: int|
                        0 <= j < self.users@.len() ==> (#[trigger] self.users@[j]).valid_pos());
                }
                return ;
            }
            i += 1;
        }
    }

    /// The range decision between two user ids: false unless both
    /// resolve, then pre-filter plus haversine radius check.
    pub fn in_range(&self, id_1: u64, id_2: u64) -> (r: bool)
        requires
            self.wf(),
        ensures
            r == self.in_range_ids(id_1, id_2),
    {
        match self.get_by_id(id_1) {
            None => false,
            Some(u1) => match self.get_by_id(id_2) {
                None => false,
                Some(u2) => {
                    let res = in_range_coords(u1.lat, u1.lon, u2.lat, u2.lon);
                    proof {
                        if res {
                            let i = choose|i: int|
                                0 <= i < self.rows().len() && self.rows()[i] == *u1;
                            let j = choose|j: int|
                                0 <= j < self.rows().len() && self.rows()[j] == *u2;
                            assert(self.users@[i] == *u1 && self.users@[j] == *u2);
                        } else {
                            if self.in_range_ids(id_1, id_2) {
                                let (i, j) = choose|i: int, j: int|
                                    #![trigger self.users@[i], self.users@[j]]
                                    0 <= i < self.users@.len() && 0 <= j < self.users@.len()
                                        && self.users@[i].id == id_1 && self.users@[j].id == id_2
                                        && in_range_spec(
                                        self.users@[i].lat as int,
                                        self.users@[i].lon as int,
                                        self.users@[j].lat as int,
                                        self.users@[j].lon as int,
                                    );
                                let iu = choose|iu: int|
                                    0 <= iu < self.rows().len() && self.rows()[iu] == *u1;
                                let ju = choose|ju: int|
                                    0 <= ju < self.rows().len() && self.rows()[ju] == *u2;
                                assert(self.users@[i].id == self.users@[iu].id);
                                assert(i == iu) by {
                                    if i < iu {
                                        assert(self.users@[i].id != self.users@[iu].id);
                                    } else if iu < i {
                                        assert(self.users@[iu].id != self.users@[i].id);
                                    }
                                }
                                assert(j == ju) by {
                                    if j < ju {
                                        assert(self.users@[j].id != self.users@[ju].id);
                                    } else if ju < j {
                                        assert(self.users@[ju].id != self.users@[j].id);
                                    }
                                }
                            }
                        }
                    }
                    res
                },
            },
        }
    }

    /// Name uniqueness check, then insertion: the registration rule.
    /// Exactly one of two same-name registrations can succeed, and a
    /// taken name changes nothing.  `None` on a free name happens only
    /// when the randomness source behind the hash fails.
    pub fn register(&mut self, username: &str, password: &str) -> (r: Option<u64>)
        requires
            old(self).wf(),
            old(self).spec_current_id() < u64::MAX,
        ensures
            final(self).wf(),
            old(self).has_name(username@) ==> r is None && *final(self) == *old(self),
            r is None ==> *final(self) == *old(self),
            r matches Some(id) ==> !old(self).has_name(username@) && registered_one(
                *old(self),
                *final(self),
                username@,
                password@,
                id,
            ),
    {
        if self.contains_username(username) {
            None
        } else {
            self.add(username, password)
        }
    }

    /// Credential check: the name must resolve and the password must
    /// verify against the stored hash; the two failures are
    /// indistinguishable in the result.
    pub fn authenticate(&self, username: &str, password: &str) -> (r: Option<u64>)
        requires
            self.wf(),
        ensures
            match r {
                Some(id) => exists|i: int|
                    0 <= i < self.rows().len() && (#[trigger] self.rows()[i]).name@ == username@
                        && self.rows()[i].id == id && hash_matches(
                        password@,
                        self.rows()[i].password@,
                    ),
                None => !self.auth_ok(username@, password@),
            },
    {
        match self.get_by_name(username) {
            None => {
                proof {
                    if self.auth_ok(username@, password@) {
                        let i = choose|i: int|
                            0 <= i < self.users@.len() && (#[trigger] self.users@[i]).name@
                                == username@ && hash_matches(password@, self.users@[i].password@);
                        assert(self.has_name(username@));
                    }
                }
                None
            },
            Some(u) => {
                if check_password(password, u.password.as_str()) {
                    Some(u.id)
                } else {
                    proof {
                        if self.auth_ok(username@, password@) {
                            let i = choose|i: int|
                                0 <= i < self.users@.len() && (#[trigger] self.users@[i]).name@
                                    == username@ && hash_matches(
                                    password@,
                                    self.users@[i].password@,
                                );
                            let j = choose|j: int|
                                0 <= j < self.rows().len() && self.rows()[j] == *u;
                            assert(self.users@[i].name@ == self.users@[j].name@);
                            assert(i == j) by {
                                if i < j {
                                    assert(self.users@[i].name@ != self.users@[j].name@);
                                } else if j < i {
                                    assert(self.users@[j].name@ != self.users@[i].name@);
                                }
                            }
                        }
                    }
                    None
                }
            },
        }
    }
}

/// Display names are unique: two rows that carry the same name are
/// the same row, so after any run of registrations at most one record
/// with a given name exists.
pub proof fn lemma_at_most_one_per_name(s: Users, i: int, j: int)
    requires
        s.wf(),
        0 <= i < s.rows().len(),
        0 <= j < s.rows().len(),
        s.rows()[i].name@ == s.rows()[j].name@,
    ensures
        i == j,
{
    if i < j {
        assert(s.users@[i].name@ != s.users@[j].name@);
    } else if j < i {
        assert(s.users@[j].name@ != s.users@[i].name@);
    }
}

/// Registration then authentication with the same password succeeds:
/// the record a registration appends carries a hash that the password
/// it was made with verifies against, so `authenticate` must accept
/// that name and password and return the id registration handed out.
pub proof fn lemma_register_then_authenticate(
    pre: Users,
    post: Users,
    username: Seq<char>,
    password: Seq<char>,
    id: u64,
)
    requires
        registered_one(pre, post, username, password, id),
    ensures
        post.auth_ok(username, password),
        post.auth_ok_id(username, password, id),
{
    let n = post.rows().len() - 1;
    assert(post.users@[n].name@ == username);
    assert(post.users@[n].id == id);
    assert(hash_matches(password, post.users@[n].password@));
}

/// After a registration succeeds its name is taken, so of two
/// registrations of one name, serialized in either order, exactly the
/// first can succeed: `register` guarantees that on a taken name it
/// returns `None` and leaves the store unchanged.
pub proof fn lemma_second_register_fails(
    pre: Users,
    post: Users,
    username: Seq<char>,
    password: Seq<char>,
    id: u64,
)
    requires
        registered_one(pre, post, username, password, id),
    ensures
        post.has_name(username),
{
    let n = post.rows().len() - 1;
    assert(post.users@[n].name@ == username);
}

/// The id the store would allocate next is carried by no record: ids
/// are handed out from a strictly increasing counter and never
/// repeat.
pub proof fn lemma_fresh_id_unused(s: Users)
    requires
        s.wf(),
    ensures
        !s.has_user_id(s.spec_current_id()),
{
    if s.has_user_id(s.spec_current_id()) {
        let i = choose|i: int|
            0 <= i < s.users@.len() && (#[trigger] s.users@[i]).id == s.spec_current_id();
        assert(s.users@[i].id < s.current_id);
    }
}

} // verus!
