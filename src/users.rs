use std::sync::{Arc, RwLock, RwLockReadGuard, RwLockWriteGuard};
use vstd::prelude::*;

use crate::auth::same_text;

verus! {

#[verifier::external_type_specification]
#[verifier::external_body]
#[verifier::reject_recursive_types(T)]
pub struct ExRwLock<T: ?Sized>(RwLock<T>);

#[verifier::external_type_specification]
#[verifier::external_body]
#[verifier::reject_recursive_types(T)]
pub struct ExRwLockReadGuard<'a, T: ?Sized>(RwLockReadGuard<'a, T>);

#[verifier::external_type_specification]
#[verifier::external_body]
#[verifier::reject_recursive_types(T)]
pub struct ExRwLockWriteGuard<'a, T: ?Sized + 'a>(RwLockWriteGuard<'a, T>);

/// A user of the system.
#[derive(Debug)]
pub struct User {
    pub id: String,
    pub name: String,
    pub age: u8,
}

/// What a record holds: its id, its name and its age.
impl View for User {
    type V = (Seq<char>, Seq<char>, u8);

    open spec fn view(&self) -> (Seq<char>, Seq<char>, u8) {
        (self.id@, self.name@, self.age)
    }
}

impl User {
    pub fn new(id: String, name: String, age: u8) -> (r: User)
        ensures
            r.id@ == id@,
            r.name@ == name@,
            r.age == age,
    {
        User { id, name, age }
    }

    /// A copy of the record, field for field.
    pub fn duplicate(&self) -> (r: User)
        ensures
            r@ == self@,
    {
        User { id: self.id.clone(), name: self.name.clone(), age: self.age }
    }
}

/// Why a directory operation failed.
#[derive(Clone, Copy, Debug, PartialEq, Eq, Structural)]
pub enum UserError {
    LockError,
    SerializationError,
    UnknownUser,
}

impl UserError {
    pub open spec fn message_spec(&self) -> Seq<char> {
        match self {
            UserError::LockError => "unable to lock user state"@,
            UserError::SerializationError => "failed to serialize user list"@,
            UserError::UnknownUser => "user does not exist for the given ID"@,
        }
    }

    /// The description of the error.
    pub fn message(&self) -> (r: String)
        ensures
            r@ == self.message_spec(),
    {
        match self {
            UserError::LockError => String::from_str("unable to lock user state"),
            UserError::SerializationError => String::from_str("failed to serialize user list"),
            UserError::UnknownUser => String::from_str("user does not exist for the given ID"),
        }
    }
}

/// Whether some record of `s` has the id `k`.
pub open spec fn has_id(s: Seq<User>, k: Seq<char>) -> bool {
    exists|i: int| 0 <= i < s.len() && s[i].id@ == k
}

/// No two records of `s` share an id.
pub open spec fn unique_ids(s: Seq<User>) -> bool {
    forall|i: int, j: int|
        0 <= i < s.len() && 0 <= j < s.len() && s[i].id@ == s[j].id@ ==> i == j
}

/// The map from id to (name, age) that the records of `s` spell out.
pub open spec fn map_of(s: Seq<User>) -> Map<Seq<char>, (Seq<char>, u8)> {
    Map::new(
        |k: Seq<char>| has_id(s, k),
        |k: Seq<char>|
            {
                let i = choose|i: int| 0 <= i < s.len() && s[i].id@ == k;
                (s[i].name@, s[i].age)
            },
    )
}

pub proof fn lemma_map_of_at(s: Seq<User>, i: int)
    requires
        unique_ids(s),
        0 <= i < s.len(),
    ensures
        map_of(s).contains_key(s[i].id@),
        map_of(s)[s[i].id@] == (s[i].name@, s[i].age),
{
    let k = s[i].id@;
    assert(has_id(s, k));
    let j = choose|j: int| 0 <= j < s.len() && s[j].id@ == k;
    assert(j == i);
}

/// The user directory: records keyed by their own id, each id at most once.
/// The records are kept in a vector under that invariant rather than in a
/// `HashMap<String, User>`: Verus models a hash map only for keys whose hashing
/// and equality it can view, which `String` keys are not.
pub struct UserDirectory {
    users: Vec<User>,
}

impl View for UserDirectory {
    type V = Map<Seq<char>, (Seq<char>, u8)>;

    closed spec fn view(&self) -> Map<Seq<char>, (Seq<char>, u8)> {
        map_of(self.users@)
    }
}

/// The shared directory that request handlers read and update under a lock.
pub type UserState = Arc<RwLock<UserDirectory>>;

impl UserDirectory {
    #[verifier::type_invariant]
    spec fn wf(&self) -> bool {
        unique_ids(self.users@)
    }

    /// An empty directory.
    pub fn new() -> (r: UserDirectory)
        ensures
            r@ == Map::<Seq<char>, (Seq<char>, u8)>::empty(),
    {
        let r = UserDirectory { users: Vec::new() };
        assert(r@ =~= Map::<Seq<char>, (Seq<char>, u8)>::empty());
        r
    }

    /// The position of the record with id `id`, if there is one.
    fn position(&self, id: &str) -> (r: Option<usize>)
        ensures
            r is Some ==> r->Some_0 < self.users@.len() && self.users@[r->Some_0 as int].id@
                == id@,
            r is None ==> !has_id(self.users@, id@),
    {
        let mut i: usize = 0;
        while i < self.users.len()
            invariant
                i <= self.users@.len(),
                forall|j: int| 0 <= j < i ==> self.users@[j].id@ != id@,
            decreases self.users@.len() - i,
        {
            if same_text(self.users[i].id.as_str(), id) {
                return Some(i);
            }
            i = i + 1;
        }
        None
    }

    /// Stores `user` under its own id, replacing in full any record that had
    /// that id.
    pub fn upsert(&mut self, user: User)
        ensures
            final(self)@ == old(self)@.insert(user.id@, (user.name@, user.age)),
    {
        proof {
            use_type_invariant(&*self);
        }
        let pos = self.position(user.id.as_str());
        let ghost u = user;
        let mut dir = UserDirectory { users: Vec::new() };
        core::mem::swap(self, &mut dir);
        let UserDirectory { users: mut v } = dir;
        let ghost s = v@;
        match pos {
            Some(i) => {
                v.set(i, user);
                proof {
                    lemma_update_keeps_map(s, i as int, u);
                }
            },
            None => {
                v.push(user);
                proof {
                    lemma_push_extends_map(s, u);
                }
            },
        }
        *self = UserDirectory { users: v };
    }

    /// The record with id `id`, or an unknown-user error when there is none.
    pub fn get(&self, id: &str) -> (r: Result<&User, UserError>)
        ensures
            (r is Ok) == self@.contains_key(id@),
            r is Ok ==> r->Ok_0.id@ == id@ && self@[id@] == (r->Ok_0.name@, r->Ok_0.age),
            r is Err ==> r->Err_0 == UserError::UnknownUser,
    {
        proof {
            use_type_invariant(self);
        }
        match self.position(id) {
            Some(i) => {
                proof {
                    lemma_map_of_at(self.users@, i as int);
                }
                Ok(&self.users[i])
            },
            None => Err(UserError::UnknownUser),
        }
    }

    /// Every record of the directory, each id exactly once.
    pub fn list(&self) -> (r: Vec<User>)
        ensures
            r@.len() == self@.len(),
            unique_ids(r@),
            forall|k: Seq<char>| self@.contains_key(k) <==> has_id(r@, k),
            forall|i: int|
                0 <= i < r@.len() ==> self@.contains_key(r@[i].id@) && self@[r@[i].id@] == (
                r@[i].name@,
                r@[i].age,
                ),
    {
        proof {
            use_type_invariant(self);
        }
        let mut out: Vec<User> = Vec::new();
        let mut i: usize = 0;
        while i < self.users.len()
            invariant
                i <= self.users@.len(),
                unique_ids(self.users@),
                out@.len() == i,
                forall|j: int| 0 <= j < i ==> out@[j]@ == self.users@[j]@,
            decreases self.users@.len() - i,
        {
            let u = self.users[i].duplicate();
            out.push(u);
            i = i + 1;
        }
        proof {
            let s = self.users@;
            assert forall|k: Seq<char>| self@.contains_key(k) <==> has_id(out@, k) by {
                if has_id(out@, k) {
                    let j = choose|j: int| 0 <= j < out@.len() && out@[j].id@ == k;
                    assert(s[j].id@ == k);
                }
                if has_id(s, k) {
                    let j = choose|j: int| 0 <= j < s.len() && s[j].id@ == k;
                    assert(out@[j].id@ == k);
                }
            }
            assert forall|i: int|
                0 <= i < out@.len() implies self@.contains_key(out@[i].id@) && self@[out@[i].id@]
                == (out@[i].name@, out@[i].age) by {
                lemma_map_of_at(s, i);
            }
            lemma_map_len(s);
        }
        out
    }
}

proof fn lemma_push_extends_map(s: Seq<User>, u: User)
    requires
        unique_ids(s),
        !has_id(s, u.id@),
    ensures
        unique_ids(s.push(u)),
        map_of(s.push(u)) == map_of(s).insert(u.id@, (u.name@, u.age)),
{
    let t = s.push(u);
    assert forall|i: int, j: int|
        0 <= i < t.len() && 0 <= j < t.len() && t[i].id@ == t[j].id@ implies i == j by {
        if i < s.len() && j == s.len() {
            assert(has_id(s, u.id@));
        }
        if j < s.len() && i == s.len() {
            assert(has_id(s, u.id@));
        }
    }
    let m = map_of(s).insert(u.id@, (u.name@, u.age));
    assert forall|k: Seq<char>| map_of(t).contains_key(k) <==> m.contains_key(k) by {
        if has_id(t, k) && k != u.id@ {
            let j = choose|j: int| 0 <= j < t.len() && t[j].id@ == k;
            assert(s[j].id@ == k);
        }
        if has_id(s, k) {
            let j = choose|j: int| 0 <= j < s.len() && s[j].id@ == k;
            assert(t[j].id@ == k);
        }
        if k == u.id@ {
            assert(t[s.len() as int].id@ == k);
        }
    }
    assert forall|k: Seq<char>| #[trigger] m.contains_key(k) implies map_of(t)[k] == m[k] by {
        if k == u.id@ {
            lemma_map_of_at(t, s.len() as int);
        } else {
            let j = choose|j: int| 0 <= j < s.len() && s[j].id@ == k;
            lemma_map_of_at(s, j);
            lemma_map_of_at(t, j);
        }
    }
    assert(map_of(t) =~= m);
}

proof fn lemma_update_keeps_map(s: Seq<User>, i: int, u: User)
    requires
        unique_ids(s),
        0 <= i < s.len(),
        s[i].id@ == u.id@,
    ensures
        unique_ids(s.update(i, u)),
        map_of(s.update(i, u)) == map_of(s).insert(u.id@, (u.name@, u.age)),
{
    let t = s.update(i, u);
    assert forall|a: int, b: int|
        0 <= a < t.len() && 0 <= b < t.len() && t[a].id@ == t[b].id@ implies a == b by {
        assert(t[a].id@ == s[a].id@);
        assert(t[b].id@ == s[b].id@);
    }
    let m = map_of(s).insert(u.id@, (u.name@, u.age));
    assert forall|k: Seq<char>| map_of(t).contains_key(k) <==> m.contains_key(k) by {
        if has_id(t, k) {
            let j = choose|j: int| 0 <= j < t.len() && t[j].id@ == k;
            assert(s[j].id@ == k);
        }
        if has_id(s, k) {
            let j = choose|j: int| 0 <= j < s.len() && s[j].id@ == k;
            assert(t[j].id@ == k);
        }
        if k == u.id@ {
            assert(t[i].id@ == k);
        }
    }
    assert forall|k: Seq<char>| #[trigger] m.contains_key(k) implies map_of(t)[k] == m[k] by {
        if k == u.id@ {
            lemma_map_of_at(t, i);
        } else {
            let j = choose|j: int| 0 <= j < s.len() && s[j].id@ == k;
            lemma_map_of_at(s, j);
            lemma_map_of_at(t, j);
        }
    }
    assert(map_of(t) =~= m);
}

/// With distinct ids, the map has one key per record.
proof fn lemma_map_len(s: Seq<User>)
    requires
        unique_ids(s),
    ensures
        map_of(s).dom().finite(),
        map_of(s).len() == s.len(),
    decreases s.len(),
{
    if s.len() == 0 {
        assert(map_of(s).dom() =~= Set::<Seq<char>>::empty());
    } else {
        let p = s.drop_last();
        let u = s.last();
        assert(unique_ids(p)) by {
            assert forall|i: int, j: int|
                0 <= i < p.len() && 0 <= j < p.len() && p[i].id@ == p[j].id@ implies i == j by {
                assert(s[i].id@ == s[j].id@);
            }
        }
        assert(!has_id(p, u.id@)) by {
            if has_id(p, u.id@) {
                let j = choose|j: int| 0 <= j < p.len() && p[j].id@ == u.id@;
                assert(s[j].id@ == s[s.len() - 1].id@);
            }
        }
        lemma_map_len(p);
        lemma_push_extends_map(p, u);
        assert(p.push(u) =~= s);
    }
}

/// The directory that a sequence of upserts builds from an empty one.
pub open spec fn after_upserts(ups: Seq<User>) -> Map<Seq<char>, (Seq<char>, u8)>
    decreases ups.len(),
{
    if ups.len() == 0 {
        Map::empty()
    } else {
        after_upserts(ups.drop_last()).insert(ups.last().id@, (ups.last().name@, ups.last().age))
    }
}

/// An upsert followed by a lookup of the same id finds the record as it was
/// upserted, whatever was stored under that id before.
pub proof fn lemma_upsert_then_get(before: Map<Seq<char>, (Seq<char>, u8)>, u: User)
    ensures
        before.insert(u.id@, (u.name@, u.age)).contains_key(u.id@),
        before.insert(u.id@, (u.name@, u.age))[u.id@] == (u.name@, u.age),
{
}

/// Upserting the same record twice leaves the directory as one upsert does.
pub proof fn lemma_upsert_repeat(before: Map<Seq<char>, (Seq<char>, u8)>, u: User)
    ensures
        before.insert(u.id@, (u.name@, u.age)).insert(u.id@, (u.name@, u.age)) == before.insert(
            u.id@,
            (u.name@, u.age),
        ),
{
    assert(before.insert(u.id@, (u.name@, u.age)).insert(u.id@, (u.name@, u.age)) =~= before.insert(
        u.id@,
        (u.name@, u.age),
    ));
}

/// Upserts of records with distinct ids give the same directory in either
/// order.
pub proof fn lemma_upserts_commute(before: Map<Seq<char>, (Seq<char>, u8)>, a: User, b: User)
    requires
        a.id@ != b.id@,
    ensures
        before.insert(a.id@, (a.name@, a.age)).insert(b.id@, (b.name@, b.age)) == before.insert(
            b.id@,
            (b.name@, b.age),
        ).insert(a.id@, (a.name@, a.age)),
{
    assert(before.insert(a.id@, (a.name@, a.age)).insert(b.id@, (b.name@, b.age)) =~= before.insert(
        b.id@,
        (b.name@, b.age),
    ).insert(a.id@, (a.name@, a.age)));
}

/// After a sequence of upserts from an empty directory, an id is present
/// exactly when it was upserted, so an id never upserted is unknown; and each
/// present id holds its most recent upsert.
pub proof fn lemma_upserts_model(ups: Seq<User>)
    ensures
        forall|k: Seq<char>| after_upserts(ups).contains_key(k) <==> has_id(ups, k),
        forall|j: int|
            0 <= j < ups.len() && (forall|l: int| j < l < ups.len() ==> ups[l].id@ != ups[j].id@)
                ==> after_upserts(ups)[ups[j].id@] == (ups[j].name@, ups[j].age),
    decreases ups.len(),
{
    if ups.len() > 0 {
        let p = ups.drop_last();
        lemma_upserts_model(p);
        assert forall|k: Seq<char>| after_upserts(ups).contains_key(k) <==> has_id(ups, k) by {
            if has_id(p, k) {
                let j = choose|j: int| 0 <= j < p.len() && p[j].id@ == k;
                assert(ups[j].id@ == k);
            }
            if has_id(ups, k) && k != ups.last().id@ {
                let j = choose|j: int| 0 <= j < ups.len() && ups[j].id@ == k;
                assert(p[j].id@ == k);
            }
            if k == ups.last().id@ {
                assert(ups[ups.len() - 1].id@ == k);
            }
        }
        assert forall|j: int|
            0 <= j < ups.len() && (forall|l: int| j < l < ups.len() ==> ups[l].id@ != ups[j].id@)
                implies after_upserts(ups)[ups[j].id@] == (ups[j].name@, ups[j].age) by {
            if j < ups.len() - 1 {
                assert(ups[ups.len() - 1].id@ != ups[j].id@);
                assert forall|l: int| j < l < p.len() implies p[l].id@ != p[j].id@ by {
                    assert(p[l] == ups[l]);
                    assert(p[j] == ups[j]);
                }
                assert(p[j] == ups[j]);
            }
        }
    }
}

/// Relies on RwLock::read: waits for shared access, and fails only when an
/// earlier writer panicked.
#[verifier::external_body]
fn read_users(l: &RwLock<UserDirectory>) -> (r: Option<RwLockReadGuard<'_, UserDirectory>>) {
    l.read().ok()
}

/// Relies on RwLock::write: waits for exclusive access, and fails only when an
/// earlier writer panicked.
#[verifier::external_body]
fn write_users(l: &RwLock<UserDirectory>) -> (r: Option<RwLockWriteGuard<'_, UserDirectory>>) {
    l.write().ok()
}

/// Relies on RwLockReadGuard's Deref: the directory behind the held lock.
#[verifier::external_body]
fn read_guarded<'a, 'b>(g: &'a RwLockReadGuard<'b, UserDirectory>) -> (r: &'a UserDirectory) {
    &**g
}

/// Relies on RwLockWriteGuard's DerefMut: the directory behind the held lock.
#[verifier::external_body]
fn write_guarded<'a, 'b>(g: &'a mut RwLockWriteGuard<'b, UserDirectory>) -> (r:
    &'a mut UserDirectory) {
    &mut **g
}

/// Lists the directory once its lock has been tried; `None` stands for a lock
/// that could not be taken.
pub fn list_locked(locked: Option<&UserDirectory>) -> (r: Result<Vec<User>, UserError>)
    ensures
        locked is None ==> r == Err::<Vec<User>, UserError>(UserError::LockError),
        locked is Some ==> {
            let d = locked->Some_0@;
            &&& r is Ok
            &&& r->Ok_0@.len() == d.len()
            &&& unique_ids(r->Ok_0@)
            &&& forall|k: Seq<char>| d.contains_key(k) <==> has_id(r->Ok_0@, k)
            &&& forall|i: int|
                0 <= i < r->Ok_0@.len() ==> d[r->Ok_0@[i].id@] == (
                r->Ok_0@[i].name@,
                r->Ok_0@[i].age,
                )
        },
{
    match locked {
        None => Err(UserError::LockError),
        Some(d) => Ok(d.list()),
    }
}

/// Looks up `id` once the directory's lock has been tried; `None` stands for a
/// lock that could not be taken.
pub fn get_locked(locked: Option<&UserDirectory>, id: &str) -> (r: Result<User, UserError>)
    ensures
        locked is None ==> r == Err::<User, UserError>(UserError::LockError),
        locked is Some ==> {
            let d = locked->Some_0@;
            &&& (r is Ok) == d.contains_key(id@)
            &&& r is Ok ==> r->Ok_0.id@ == id@ && d[id@] == (r->Ok_0.name@, r->Ok_0.age)
            &&& r is Err ==> r->Err_0 == UserError::UnknownUser
        },
{
    match locked {
        None => Err(UserError::LockError),
        Some(d) => match d.get(id) {
            Ok(u) => Ok(u.duplicate()),
            Err(e) => Err(e),
        },
    }
}

/// Upserts `user` once the directory's lock has been tried; `None` stands for
/// a lock that could not be taken, and nothing is stored then.
pub fn upsert_locked(locked: Option<&mut UserDirectory>, user: User) -> (r: Result<(), UserError>)
    ensures
        locked is None ==> r == Err::<(), UserError>(UserError::LockError),
        locked is Some ==> r == Ok::<(), UserError>(()) && (*final(locked->Some_0))@ == (
        *locked->Some_0)@.insert(user.id@, (user.name@, user.age)),
{
    match locked {
        None => Err(UserError::LockError),
        Some(d) => {
            d.upsert(user);
            Ok(())
        },
    }
}

/// All records of the shared directory, each id once; a lock error when the
/// lock is poisoned.
pub fn get_users(users: UserState) -> (r: Result<Vec<User>, UserError>)
    ensures
        r is Ok ==> unique_ids(r->Ok_0@),
        r is Err ==> r->Err_0 == UserError::LockError,
{
    match read_users(&*users) {
        None => list_locked(None),
        Some(guard) => list_locked(Some(read_guarded(&guard))),
    }
}

/// The record of the shared directory with id `id`: an unknown-user error when
/// there is none, a lock error when the lock is poisoned.
pub fn get_user(users: UserState, id: String) -> (r: Result<User, UserError>)
    ensures
        r is Ok ==> r->Ok_0.id@ == id@,
        r is Err ==> r->Err_0 == UserError::LockError || r->Err_0 == UserError::UnknownUser,
{
    match read_users(&*users) {
        None => get_locked(None, id.as_str()),
        Some(guard) => get_locked(Some(read_guarded(&guard)), id.as_str()),
    }
}

/// Stores `user` in the shared directory under its own id; a lock error when
/// the lock is poisoned.
pub fn update_user(users: UserState, user: User) -> (r: Result<(), UserError>)
    ensures
        r is Err ==> r->Err_0 == UserError::LockError,
{
    match write_users(&*users) {
        None => upsert_locked(None, user),
        Some(mut guard) => upsert_locked(Some(write_guarded(&mut guard)), user),
    }
}

} // verus!
