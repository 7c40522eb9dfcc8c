//! The store: the three containers, their invariants, and every operation.
//!
//! Each container is keyed — users by numeric id, collections by uuid —
//! and the store keeps those keys unique. The hitokoto container is a
//! plain list. Persistence is write-through and lives with the caller:
//! after a mutating operation the caller snapshots the touched container
//! through the persistence codec and writes the file, swallowing failures.

use vstd::prelude::*;
use crate::collection::Collection;
use crate::dec;
use crate::error::{AppError, AppResult};
use crate::hitokoto::{Hitokoto, NewHitokotoRequest};
use crate::text;
use crate::user::{CollectionWithDetails, CollectionWithDetailsView, User, UserWithDetails};

verus! {

#[verifier::external_type_specification]
#[verifier::external_body]
pub struct ExStdRng(rand::rngs::StdRng);

/// Relies on rand's SeedableRng::from_entropy: a generator freshly
/// seeded from the operating system.
#[verifier::external_body]
fn rng_from_entropy() -> (r: rand::rngs::StdRng) {
    <rand::rngs::StdRng as rand::SeedableRng>::from_entropy()
}

/// Relies on rand's Rng::gen_range over `0..n`: a uniform draw below
/// `n`; the range must be non-empty or the call would panic.
#[verifier::external_body]
fn rng_below(rng: &mut rand::rngs::StdRng, n: usize) -> (r: usize)
    requires
        n >= 1,
    ensures
        r < n,
{
    rand::Rng::gen_range(rng, 0..n)
}

/// Whether some user carries the numeric id.
pub open spec fn has_user(users: Seq<User>, user_id: u32) -> bool {
    exists|i: int| 0 <= i < users.len() && users[i].user_id == user_id
}

/// Whether some user carries the username, compared exactly.
pub open spec fn has_username(users: Seq<User>, name: Seq<char>) -> bool {
    exists|i: int| 0 <= i < users.len() && users[i].username@ == name
}

/// Whether some hitokoto carries the uuid.
pub open spec fn has_hitokoto(data: Seq<Hitokoto>, uuid: Seq<char>) -> bool {
    exists|i: int| 0 <= i < data.len() && data[i].uuid@ == uuid
}

/// The message of the error answered when a user id does not resolve.
pub open spec fn user_not_found_msg(user_id: u32) -> Seq<char> {
    "用户ID "@ + dec::dec_digits(user_id as nat) + " 不存在，请先注册用户"@
}

/// The container after inserting a user under its numeric id: an
/// existing entry with that id is replaced, else the user is appended.
pub open spec fn upsert_user(users: Seq<User>, u: User) -> Seq<User> {
    if has_user(users, u.user_id) {
        users.update(
            choose|i: int| 0 <= i < users.len() && users[i].user_id == u.user_id,
            u,
        )
    } else {
        users.push(u)
    }
}

/// Whether some collection carries the uuid.
pub open spec fn has_collection(cols: Seq<Collection>, uuid: Seq<char>) -> bool {
    exists|i: int| 0 <= i < cols.len() && cols[i].collection_uuid@ == uuid
}

/// The container after inserting a collection under its uuid: an
/// existing entry with that uuid is replaced, else the collection is
/// appended.
pub open spec fn upsert_collection(cols: Seq<Collection>, c: Collection) -> Seq<Collection> {
    if has_collection(cols, c.collection_uuid@) {
        cols.update(
            choose|i: int| 0 <= i < cols.len() && cols[i].collection_uuid@ == c.collection_uuid@,
            c,
        )
    } else {
        cols.push(c)
    }
}

/// The message of the error answered when a collection title is blank:
/// the collection error, wrapped once more as the creation path reports it.
pub open spec fn collection_title_error_msg() -> Seq<char> {
    "文集错误: "@ + "文集标题不能为空"@
}

/// The message of the error answered when a hitokoto uuid does not resolve.
pub open spec fn hitokoto_not_found_msg(uuid: Seq<char>) -> Seq<char> {
    "Hitokoto UUID "@ + uuid + " 不存在"@
}

/// The message of the error answered when a collection uuid does not resolve.
pub open spec fn collection_not_found_msg(uuid: Seq<char>) -> Seq<char> {
    "文集ID "@ + uuid + " 不存在"@
}

/// The in-memory store: three keyed containers and the random source.
pub struct AppState {
    pub data: Vec<Hitokoto>,
    pub users: Vec<User>,
    pub collections: Vec<Collection>,
    pub rng: rand::rngs::StdRng,
}

/// No two users share a numeric id.
pub open spec fn unique_user_ids(users: Seq<User>) -> bool {
    forall|i: int, j: int| 0 <= i < j < users.len() ==> users[i].user_id != users[j].user_id
}

/// No two collections share a uuid.
pub open spec fn unique_collection_uuids(cols: Seq<Collection>) -> bool {
    forall|i: int, j: int|
        0 <= i < j < cols.len() ==> cols[i].collection_uuid@ != cols[j].collection_uuid@
}

impl AppState {
    /// Keys are unique: no two users share an id, no two collections
    /// share a uuid. Every operation preserves this.
    pub open spec fn wf(&self) -> bool {
        unique_user_ids(self.users@) && unique_collection_uuids(self.collections@)
    }

    /// A fresh store: all containers empty, the random source seeded.
    pub fn new() -> (r: Self)
        ensures
            r.data@.len() == 0,
            r.users@.len() == 0,
            r.collections@.len() == 0,
            r.wf(),
    {
        AppState {
            data: Vec::new(),
            users: Vec::new(),
            collections: Vec::new(),
            rng: rng_from_entropy(),
        }
    }
}

impl Default for AppState {
    fn default() -> (r: Self)
        ensures
            r.data@.len() == 0,
            r.users@.len() == 0,
            r.collections@.len() == 0,
            r.wf(),
    {
        AppState::new()
    }
}

/// The position of the first user with the username, if any.
fn user_index_by_name(users: &Vec<User>, name: &str) -> (r: Option<usize>)
    ensures
        r is Some <==> has_username(users@, name@),
        r matches Some(i) ==> 0 <= i < users@.len() && users@[i as int].username@ == name@,
{
    let mut i: usize = 0;
    while i < users.len()
        invariant
            0 <= i <= users@.len(),
            forall|j: int| 0 <= j < i ==> users@[j].username@ != name@,
        decreases users@.len() - i,
    {
        if text::str_eq(users[i].username.as_str(), name) {
            return Some(i);
        }
        i += 1;
    }
    None
}

/// The position of the first user with the numeric id, if any.
fn user_index_by_id(users: &Vec<User>, user_id: u32) -> (r: Option<usize>)
    ensures
        r is Some <==> has_user(users@, user_id),
        r matches Some(i) ==> 0 <= i < users@.len() && users@[i as int].user_id == user_id
            && (forall|j: int| 0 <= j < i ==> users@[j].user_id != user_id),
{
    let mut i: usize = 0;
    while i < users.len()
        invariant
            0 <= i <= users@.len(),
            forall|j: int| 0 <= j < i ==> users@[j].user_id != user_id,
        decreases users@.len() - i,
    {
        if users[i].user_id == user_id {
            return Some(i);
        }
        i += 1;
    }
    None
}

/// Inserts a user under its numeric id: the entry with that id is
/// replaced, else the user is appended.
fn upsert_user_vec(users: &mut Vec<User>, u: User)
    requires
        unique_user_ids(old(users)@),
    ensures
        final(users)@ == upsert_user(old(users)@, u),
        unique_user_ids(final(users)@),
{
    let ghost users0 = users@;
    match user_index_by_id(users, u.user_id) {
        Some(i) => {
            users.set(i, u);
            proof {
                let ci = choose|k: int|
                    0 <= k < users0.len() && users0[k].user_id == users@[i as int].user_id;
                assert(ci == i as int);
                assert(users@ == upsert_user(users0, users@[i as int]));
            }
        },
        None => {
            users.push(u);
        },
    }
}

/// Registers a user: rejects a username equal to an existing one, else
/// inserts under the numeric id and hands back a copy. The caller then
/// snapshots the user container for the write-through save.
pub fn add_user_to_state(state: &mut AppState, user: User) -> (r: AppResult<User>)
    requires
        old(state).wf(),
    ensures
        final(state).wf(),
        final(state).data == old(state).data,
        final(state).collections == old(state).collections,
        final(state).rng == old(state).rng,
        has_username(old(state).users@, user.username@) ==> (r matches Err(
            AppError::AlreadyExists(m),
        ) && m@ == "用户名已存在"@ && final(state).users == old(state).users),
        !has_username(old(state).users@, user.username@) ==> (r matches Ok(u) && u@ == user@
            && final(state).users@ == upsert_user(old(state).users@, user)),
{
    if user_index_by_name(&state.users, user.username.as_str()).is_some() {
        return Err(AppError::AlreadyExists("用户名已存在".to_owned()));
    }

    let ret = user.duplicate();
    upsert_user_vec(&mut state.users, user);
    Ok(ret)
}

/// Resolves a user id to its username, or answers `NotFound`.
pub fn get_username_by_id(state: &AppState, user_id: u32) -> (r: AppResult<String>)
    ensures
        r is Ok <==> has_user(state.users@, user_id),
        r matches Ok(name) ==> exists|i: int|
            0 <= i < state.users@.len() && state.users@[i].user_id == user_id && name@
                == state.users@[i].username@ && (forall|j: int|
                0 <= j < i ==> state.users@[j].user_id != user_id),
        r matches Err(e) ==> (e matches AppError::NotFound(m) && m@ == user_not_found_msg(
            user_id,
        )),
{
    match user_index_by_id(&state.users, user_id) {
        Some(i) => Ok(state.users[i].username.clone()),
        None => Err(AppError::NotFound(not_found_user_message(user_id))),
    }
}

/// The message answered when a user id does not resolve.
fn not_found_user_message(user_id: u32) -> (r: String)
    ensures
        r@ == user_not_found_msg(user_id),
{
    "用户ID ".to_owned().concat(dec::u64_to_string(user_id as u64).as_str()).concat(
        " 不存在，请先注册用户",
    )
}

/// A copy of the user with the numeric id, if any.
pub fn get_user_by_id(state: &AppState, user_id: u32) -> (r: Option<User>)
    ensures
        r is Some <==> has_user(state.users@, user_id),
        r matches Some(u) ==> exists|i: int|
            0 <= i < state.users@.len() && state.users@[i].user_id == user_id && u@
                == state.users@[i]@ && (forall|j: int|
                0 <= j < i ==> state.users@[j].user_id != user_id),
{
    match user_index_by_id(&state.users, user_id) {
        Some(i) => Some(state.users[i].duplicate()),
        None => None,
    }
}

/// Whether a hitokoto with the uuid is stored.
pub fn hitokoto_exists(state: &AppState, uuid: &str) -> (r: bool)
    ensures
        r == has_hitokoto(state.data@, uuid@),
{
    let mut i: usize = 0;
    while i < state.data.len()
        invariant
            0 <= i <= state.data@.len(),
            forall|j: int| 0 <= j < i ==> state.data@[j].uuid@ != uuid@,
        decreases state.data@.len() - i,
    {
        if text::str_eq(state.data[i].uuid.as_str(), uuid) {
            return true;
        }
        i += 1;
    }
    false
}

/// A copy of one uniformly drawn hitokoto, or nothing from an empty
/// container; never an error. Each call draws independently.
pub fn get_random_hitokoto(state: &mut AppState) -> (r: Option<Hitokoto>)
    ensures
        final(state).data == old(state).data,
        final(state).users == old(state).users,
        final(state).collections == old(state).collections,
        r is Some <==> old(state).data@.len() > 0,
        r matches Some(q) ==> exists|i: int|
            0 <= i < old(state).data@.len() && q@ == old(state).data@[i]@,
{
    if state.data.len() == 0 {
        return None;
    }
    let n = state.data.len();
    let i = rng_below(&mut state.rng, n);
    Some(state.data[i].duplicate())
}

/// The hitokotos whose uuid is among the requested ones, in the
/// container's own order.
pub open spec fn quotes_with_uuids(data: Seq<Hitokoto>, uuids: Seq<String>) -> Seq<Hitokoto> {
    data.filter(|h: Hitokoto| text::contains_string(uuids, h.uuid@))
}

/// Copies of the hitokotos whose uuid is in the requested list, keeping
/// the store's internal order, not the caller's.
pub fn get_hitokotos_by_uuids(state: &AppState, uuids: &[String]) -> (r: Vec<Hitokoto>)
    ensures
        crate::deep_seq(r@) == crate::deep_seq(quotes_with_uuids(state.data@, uuids@)),
{
    let mut out: Vec<Hitokoto> = Vec::new();
    let mut i: usize = 0;
    while i < state.data.len()
        invariant
            0 <= i <= state.data@.len(),
            crate::deep_seq(out@) == crate::deep_seq(
                quotes_with_uuids(state.data@.take(i as int), uuids@),
            ),
        decreases state.data@.len() - i,
    {
        let ghost pre = out@;
        let ghost t0 = state.data@.take(i as int);
        let ghost t1 = state.data@.take(i as int + 1);
        if text::str_slice_contains(uuids, state.data[i].uuid.as_str()) {
            let d = state.data[i].duplicate();
            out.push(d);
            proof {
                reveal(Seq::filter);
                assert(t1.drop_last() =~= t0);
                assert(t1.last() == state.data@[i as int]);
                assert(quotes_with_uuids(t1, uuids@) == quotes_with_uuids(t0, uuids@).push(
                    state.data@[i as int],
                ));
                let lhs = crate::deep_seq(out@);
                let rhs = crate::deep_seq(quotes_with_uuids(t1, uuids@));
                assert(out@ == pre.push(d));
                assert(crate::deep_seq(pre) == crate::deep_seq(quotes_with_uuids(t0, uuids@)));
                assert(crate::deep_seq(pre).len() == pre.len());
                assert(crate::deep_seq(quotes_with_uuids(t0, uuids@)).len() == quotes_with_uuids(
                    t0,
                    uuids@,
                ).len());
                assert(lhs.len() == rhs.len());
                assert forall|k: int| 0 <= k < lhs.len() implies lhs[k] == rhs[k] by {
                    if k < pre.len() {
                        assert(lhs[k] == pre[k].deep_view());
                        assert(crate::deep_seq(pre)[k] == pre[k].deep_view());
                        assert(crate::deep_seq(quotes_with_uuids(t0, uuids@))[k]
                            == quotes_with_uuids(t0, uuids@)[k].deep_view());
                    } else {
                        assert(lhs[k] == d.deep_view());
                        assert(rhs[k] == state.data@[i as int].deep_view());
                    }
                }
                assert(lhs =~= rhs);
            }
        } else {
            proof {
                reveal(Seq::filter);
                assert(t1.drop_last() =~= t0);
                assert(t1.last() == state.data@[i as int]);
                assert(quotes_with_uuids(t1, uuids@) == quotes_with_uuids(t0, uuids@));
            }
        }
        i += 1;
    }
    proof {
        assert(state.data@.take(state.data@.len() as int) =~= state.data@);
    }
    out
}

/// Runs an operation on the user with the id, under exclusive access to
/// that record; answers `NotFound` without touching anything when the id
/// does not resolve. The operation takes the record and hands back its
/// replacement together with its own result.
pub fn with_user_mut<F: FnOnce(User) -> (User, R), R>(
    state: &mut AppState,
    user_id: u32,
    operation: F,
) -> (r: AppResult<R>)
    requires
        forall|u: User| call_requires(operation, (u,)),
    ensures
        final(state).data == old(state).data,
        final(state).collections == old(state).collections,
        final(state).rng == old(state).rng,
        r is Ok <==> has_user(old(state).users@, user_id),
        r matches Err(e) ==> (e matches AppError::NotFound(m) && m@ == user_not_found_msg(user_id)
            && final(state).users == old(state).users),
        r matches Ok(rv) ==> exists|i: int, u2: User|
            0 <= i < old(state).users@.len() && old(state).users@[i].user_id == user_id && (forall|
                j: int,
            |
                0 <= j < i ==> old(state).users@[j].user_id != user_id) && call_ensures(
                operation,
                (old(state).users@[i],),
                (u2, rv),
            ) && final(state).users@ == old(state).users@.update(i, u2),
{
    let ghost users0 = state.users@;
    match user_index_by_id(&state.users, user_id) {
        Some(i) => {
            let u = state.users.remove(i);
            let (u2, rv) = operation(u);
            state.users.insert(i, u2);
            proof {
                assert(state.users@ =~= users0.update(i as int, state.users@[i as int]));
            }
            Ok(rv)
        },
        None => Err(AppError::NotFound(not_found_user_message(user_id))),
    }
}

/// Creates a hitokoto from a submission: resolves the creator, builds
/// the record with a fresh uuid and derived length, appends it, and
/// hands back a copy. The caller then snapshots the hitokoto container
/// for the write-through save.
pub fn add_hitokoto_to_data(state: &mut AppState, new_hitokoto: NewHitokotoRequest) -> (r:
    AppResult<Hitokoto>)
    requires
        new_hitokoto.hitokoto@.len() <= u32::MAX,
    ensures
        final(state).users == old(state).users,
        final(state).collections == old(state).collections,
        final(state).rng == old(state).rng,
        old(state).wf() ==> final(state).wf(),
        !has_user(old(state).users@, new_hitokoto.user_id) ==> (r matches Err(AppError::NotFound(m))
            && m@ == user_not_found_msg(new_hitokoto.user_id)
            && final(state).data == old(state).data),
        has_user(old(state).users@, new_hitokoto.user_id) ==> (r matches Ok(q)
            && q.hitokoto@ == new_hitokoto.hitokoto@
            && q.hitokoto_type@ == new_hitokoto.hitokoto_type@
            && q.from@ == new_hitokoto.from@
            && q.from_who.deep_view() == new_hitokoto.from_who.deep_view()
            && q.user_id == new_hitokoto.user_id
            && (exists|i: int|
                0 <= i < old(state).users@.len()
                && old(state).users@[i].user_id == new_hitokoto.user_id
                && q.user@ == old(state).users@[i].username@)
            && q.length as nat == new_hitokoto.hitokoto@.len()
            && final(state).data@.len() == old(state).data@.len() + 1
            && final(state).data@.drop_last() == old(state).data@
            && final(state).data@.last()@ == q@),
{
    let username = match get_username_by_id(&*state, new_hitokoto.user_id) {
        Ok(n) => n,
        Err(e) => {
            return Err(e);
        },
    };

    let ghost data0 = state.data@;
    let NewHitokotoRequest { hitokoto, hitokoto_type, from, from_who, user_id } = new_hitokoto;
    let full_hitokoto = Hitokoto::new(hitokoto, hitokoto_type, from, from_who, username, user_id);
    let result = full_hitokoto.duplicate();
    state.data.push(full_hitokoto);
    proof {
        assert(state.data@.drop_last() =~= data0);
    }
    Ok(result)
}

/// The position of the first collection with the uuid, if any.
fn collection_index_by_uuid(cols: &Vec<Collection>, uuid: &str) -> (r: Option<usize>)
    ensures
        r is Some <==> has_collection(cols@, uuid@),
        r matches Some(i) ==> 0 <= i < cols@.len() && cols@[i as int].collection_uuid@ == uuid@
            && (forall|j: int| 0 <= j < i ==> cols@[j].collection_uuid@ != uuid@),
{
    let mut i: usize = 0;
    while i < cols.len()
        invariant
            0 <= i <= cols@.len(),
            forall|j: int| 0 <= j < i ==> cols@[j].collection_uuid@ != uuid@,
        decreases cols@.len() - i,
    {
        if text::str_eq(cols[i].collection_uuid.as_str(), uuid) {
            return Some(i);
        }
        i += 1;
    }
    None
}

/// What the record-ownership step of collection creation does to the
/// user record: the collection id is added to the user's list unless
/// already present, everything else is kept.
pub open spec fn user_with_collection(u: User, cid: String, r: (User, ())) -> bool {
    r.0.user_id == u.user_id && r.0.username == u.username && r.0.hitokotos == u.hitokotos
        && r.0.collections@ == text::add_unique(u.collections@, cid)
}

/// Creates a collection owned by the user: rejects a blank title, then
/// resolves the user and records the new id on it atomically with the
/// existence check, then inserts the collection under its uuid and hands
/// back a copy. The caller then snapshots the user container and the
/// collection container for the write-through saves.
pub fn create_collection(
    state: &mut AppState,
    user_id: u32,
    title: String,
    description: Option<String>,
) -> (r: AppResult<Collection>)
    requires
        old(state).wf(),
    ensures
        final(state).wf(),
        final(state).data == old(state).data,
        final(state).rng == old(state).rng,
        text::is_blank(title@) ==> (r matches Err(AppError::Collection(m)) && m@
            == collection_title_error_msg() && final(state).users == old(state).users
            && final(state).collections == old(state).collections),
        !text::is_blank(title@) && !has_user(old(state).users@, user_id) ==> (r matches Err(
            AppError::NotFound(m),
        ) && m@ == user_not_found_msg(user_id) && final(state).users == old(state).users
            && final(state).collections == old(state).collections),
        !text::is_blank(title@) && has_user(old(state).users@, user_id) ==> (r matches Ok(c)
            && c.title@ == title@
            && c.description.deep_view() == description.deep_view()
            && c.user_id == user_id
            && c.hitokoto_uuids@.len() == 0
            && c.collection_uuid@.len() == 36
            && (exists|i: int, u2: User, cid: String|
                0 <= i < old(state).users@.len()
                && old(state).users@[i].user_id == user_id
                && cid@ == c.collection_uuid@
                && user_with_collection(old(state).users@[i], cid, (u2, ()))
                && final(state).users@ == old(state).users@.update(i, u2))
            && (exists|c2: Collection|
                c2@ == c@ && final(state).collections@ == upsert_collection(
                    old(state).collections@,
                    c2,
                ))),
{
    let ghost users0 = state.users@;
    let ghost title0 = title@;
    let ghost desc0 = description.deep_view();
    let collection = match Collection::new(title, description, user_id) {
        Ok(c) => c,
        Err(e) => {
            let msg = e.display_string();
            return Err(AppError::Collection(msg));
        },
    };

    let collection_uuid = collection.collection_uuid.clone();
    let ghost cid_ghost = collection_uuid;
    let op = move |u: User| -> (r: (User, ()))
        ensures
            user_with_collection(u, cid_ghost, r),
        {
            let mut u2 = u;
            u2.add_collection_id(collection_uuid);
            (u2, ())
        };
    match with_user_mut(state, user_id, op) {
        Ok(()) => {},
        Err(e) => {
            return Err(e);
        },
    }

    proof {
        let (i, u2) = choose|i: int, u2: User|
            0 <= i < users0.len() && users0[i].user_id == user_id && (forall|j: int|
                0 <= j < i ==> users0[j].user_id != user_id) && call_ensures(
                op,
                (users0[i],),
                (u2, ()),
            ) && state.users@ == users0.update(i, u2);
        assert(user_with_collection(users0[i], cid_ghost, (u2, ())));
        assert(0 <= i < users0.len() && users0[i].user_id == user_id && cid_ghost@
            == collection.collection_uuid@ && user_with_collection(users0[i], cid_ghost, (u2, ()))
            && state.users@ == users0.update(i, u2));
    }

    let ret = collection.duplicate();
    let ghost cols0 = state.collections@;
    let ghost inserted = collection;
    match collection_index_by_uuid(&state.collections, ret.collection_uuid.as_str()) {
        Some(i) => {
            state.collections.set(i, collection);
            proof {
                let ci = choose|k: int|
                    0 <= k < cols0.len() && cols0[k].collection_uuid@ == state.collections@[
                        i as int
                    ].collection_uuid@;
                assert(ci == i as int);
                assert(state.collections@ == upsert_collection(
                    cols0,
                    state.collections@[i as int],
                ));
            }
        },
        None => {
            state.collections.push(collection);
        },
    }
    proof {
        assert(inserted@ == ret@);
        assert(state.collections@ == upsert_collection(cols0, inserted));
        assert(ret.title@ == title0);
        assert(ret.description.deep_view() == desc0);
        assert(ret.user_id == user_id);
        assert(ret.hitokoto_uuids.deep_view().len() == 0);
        assert(ret.hitokoto_uuids@.len() == ret.hitokoto_uuids.deep_view().len());
        assert(ret.collection_uuid@.len() == 36);
        assert(cid_ghost@ == ret.collection_uuid@);
    }
    Ok(ret)
}

/// Adds a hitokoto to a collection: both must exist, and re-adding an
/// existing member leaves the membership as it is. The caller then
/// snapshots the collection container for the write-through save.
pub fn add_hitokoto_to_collection(
    state: &mut AppState,
    collection_uuid: String,
    hitokoto_uuid: String,
) -> (r: AppResult<()>)
    requires
        old(state).wf(),
    ensures
        final(state).wf(),
        final(state).data == old(state).data,
        final(state).users == old(state).users,
        final(state).rng == old(state).rng,
        !has_hitokoto(old(state).data@, hitokoto_uuid@) ==> (r matches Err(AppError::NotFound(m))
            && m@ == hitokoto_not_found_msg(hitokoto_uuid@)
            && final(state).collections == old(state).collections),
        has_hitokoto(old(state).data@, hitokoto_uuid@) && !has_collection(
            old(state).collections@,
            collection_uuid@,
        ) ==> (r matches Err(AppError::NotFound(m)) && m@ == collection_not_found_msg(
            collection_uuid@,
        ) && final(state).collections == old(state).collections),
        has_hitokoto(old(state).data@, hitokoto_uuid@) && has_collection(
            old(state).collections@,
            collection_uuid@,
        ) ==> (r is Ok && exists|i: int, x: String|
            0 <= i < old(state).collections@.len()
            && old(state).collections@[i].collection_uuid@ == collection_uuid@
            && x@ == hitokoto_uuid@
            && collection_with_member(old(state).collections@[i], x, final(state).collections@[i])
            && final(state).collections@ == old(state).collections@.update(
                i,
                final(state).collections@[i],
            )),
{
    if !hitokoto_exists(&*state, hitokoto_uuid.as_str()) {
        let msg = "Hitokoto UUID ".to_owned().concat(hitokoto_uuid.as_str()).concat(" 不存在");
        return Err(AppError::NotFound(msg));
    }

    let ghost cols0 = state.collections@;
    match collection_index_by_uuid(&state.collections, collection_uuid.as_str()) {
        Some(i) => {
            let mut c = state.collections.remove(i);
            let ghost hx = hitokoto_uuid;
            c.add_hitokoto(hitokoto_uuid);
            state.collections.insert(i, c);
            proof {
                assert(state.collections@ =~= cols0.update(
                    i as int,
                    state.collections@[i as int],
                ));
                assert(state.collections@[i as int] == c);
                assert(collection_with_member(cols0[i as int], hx, c));
                assert(0 <= (i as int) < cols0.len() && cols0[i as int].collection_uuid@
                    == collection_uuid@ && hx@ == hx@ && collection_with_member(
                    cols0[i as int],
                    hx,
                    state.collections@[i as int],
                ) && state.collections@ == cols0.update(i as int, state.collections@[i as int]));
            }
            Ok(())
        },
        None => {
            let msg = "文集ID ".to_owned().concat(collection_uuid.as_str()).concat(" 不存在");
            Err(AppError::NotFound(msg))
        },
    }
}

/// What adding one member does to a collection record: the uuid is
/// appended unless already present, everything else is kept.
pub open spec fn collection_with_member(c: Collection, x: String, c2: Collection) -> bool {
    c2.collection_uuid == c.collection_uuid && c2.title == c.title && c2.description
        == c.description && c2.user_id == c.user_id && c2.created_at == c.created_at
        && c2.hitokoto_uuids@ == text::add_unique(c.hitokoto_uuids@, x)
}

/// The resolved view of the collection with the given uuid: its own
/// fields, with every member reference resolved through the hitokoto
/// container.
pub open spec fn collection_details_view(
    cols: Seq<Collection>,
    data: Seq<Hitokoto>,
    uuid: Seq<char>,
) -> CollectionWithDetailsView
    recommends
        has_collection(cols, uuid),
{
    let c = cols[choose|i: int| 0 <= i < cols.len() && cols[i].collection_uuid@ == uuid];
    CollectionWithDetailsView {
        collection_uuid: c.collection_uuid@,
        title: c.title@,
        description: c.description.deep_view(),
        user_id: c.user_id,
        hitokotos: crate::deep_seq(quotes_with_uuids(data, c.hitokoto_uuids@)),
        created_at: c.created_at,
    }
}

/// The collection with the uuid, its member references resolved; absent
/// uuid yields an absent result, not an error.
pub fn get_collection_with_details(state: &AppState, collection_uuid: &str) -> (r: Option<
    CollectionWithDetails,
>)
    requires
        state.wf(),
    ensures
        r is Some <==> has_collection(state.collections@, collection_uuid@),
        r matches Some(d) ==> d@ == collection_details_view(
            state.collections@,
            state.data@,
            collection_uuid@,
        ),
{
    match collection_index_by_uuid(&state.collections, collection_uuid) {
        Some(i) => {
            let hitokotos = get_hitokotos_by_uuids(
                state,
                state.collections[i].hitokoto_uuids.as_slice(),
            );
            let c = &state.collections[i];
            let d = CollectionWithDetails {
                collection_uuid: c.collection_uuid.clone(),
                title: c.title.clone(),
                description: c.description.clone(),
                user_id: c.user_id,
                hitokotos,
                created_at: c.created_at,
            };
            proof {
                let ci = choose|k: int|
                    0 <= k < state.collections@.len() && state.collections@[k].collection_uuid@
                        == collection_uuid@;
                assert(ci == i as int);
                assert(d.hitokotos.deep_view() =~= crate::deep_seq(d.hitokotos@));
                assert(d@ == collection_details_view(
                    state.collections@,
                    state.data@,
                    collection_uuid@,
                ));
            }
            Some(d)
        },
        None => None,
    }
}

/// The resolved views of the collections the ids name, in order,
/// skipping ids that do not resolve.
pub open spec fn resolve_collections_view(
    cols: Seq<Collection>,
    data: Seq<Hitokoto>,
    ids: Seq<String>,
) -> Seq<CollectionWithDetailsView>
    decreases ids.len(),
{
    if ids.len() == 0 {
        Seq::empty()
    } else {
        let rest = resolve_collections_view(cols, data, ids.drop_last());
        if has_collection(cols, ids.last()@) {
            rest.push(collection_details_view(cols, data, ids.last()@))
        } else {
            rest
        }
    }
}

/// The user with the id, with every owned reference resolved: the
/// directly owned hitokotos, and each owned collection with its member
/// hitokotos. An absent id yields an absent result, not an error.
pub fn get_user_with_details(state: &AppState, user_id: u32) -> (r: Option<UserWithDetails>)
    requires
        state.wf(),
    ensures
        r is Some <==> has_user(state.users@, user_id),
        r matches Some(d) ==> exists|i: int|
            0 <= i < state.users@.len() && state.users@[i].user_id == user_id
            && d.user_id == user_id
            && d.username@ == state.users@[i].username@
            && crate::deep_seq(d.hitokotos@) == crate::deep_seq(
                quotes_with_uuids(state.data@, state.users@[i].hitokotos@),
            )
            && crate::deep_seq(d.collections@) == resolve_collections_view(
                state.collections@,
                state.data@,
                state.users@[i].collections@,
            ),
{
    let idx = match user_index_by_id(&state.users, user_id) {
        Some(i) => i,
        None => {
            return None;
        },
    };

    let username = state.users[idx].username.clone();
    let user_hitokotos = get_hitokotos_by_uuids(state, state.users[idx].hitokotos.as_slice());

    let ids = &state.users[idx].collections;
    let mut user_collections: Vec<CollectionWithDetails> = Vec::new();
    let mut k: usize = 0;
    while k < ids.len()
        invariant
            state.wf(),
            0 <= k <= ids@.len(),
            ids@ == state.users@[idx as int].collections@,
            idx < state.users@.len(),
            crate::deep_seq(user_collections@) == resolve_collections_view(
                state.collections@,
                state.data@,
                ids@.take(k as int),
            ),
        decreases ids@.len() - k,
    {
        let ghost pre = user_collections@;
        let ghost t0 = ids@.take(k as int);
        let ghost t1 = ids@.take(k as int + 1);
        let found = get_collection_with_details(state, ids[k].as_str());
        match found {
            Some(cd) => {
                proof {
                    crate::lemma_deep_seq_push(pre, cd);
                }
                user_collections.push(cd);
            },
            None => {},
        }
        proof {
            assert(t1.drop_last() =~= t0);
            assert(t1.last() == ids@[k as int]);
        }
        k += 1;
    }
    proof {
        assert(ids@.take(ids@.len() as int) =~= ids@);
    }

    Some(
        UserWithDetails {
            user_id,
            username,
            hitokotos: user_hitokotos,
            collections: user_collections,
        },
    )
}

/// Replaces the hitokoto container wholesale, as the startup load does
/// after decoding the hitokoto file.
pub fn install_data(state: &mut AppState, data: Vec<Hitokoto>)
    ensures
        final(state).data == data,
        final(state).users == old(state).users,
        final(state).collections == old(state).collections,
        final(state).rng == old(state).rng,
{
    state.data = data;
}

/// The user container after inserting each decoded user in order under
/// its numeric id.
pub open spec fn install_users_seq(acc: Seq<User>, us: Seq<User>) -> Seq<User>
    decreases us.len(),
{
    if us.len() == 0 {
        acc
    } else {
        install_users_seq(upsert_user(acc, us[0]), us.drop_first())
    }
}

/// Inserts each decoded user in order under its numeric id, as the
/// startup load does after decoding the user file.
pub fn install_users(state: &mut AppState, users: Vec<User>)
    requires
        old(state).wf(),
    ensures
        final(state).wf(),
        final(state).users@ == install_users_seq(old(state).users@, users@),
        final(state).data == old(state).data,
        final(state).collections == old(state).collections,
        final(state).rng == old(state).rng,
{
    let ghost acc0 = state.users@;
    let ghost us0 = users@;
    let ghost data0 = state.data;
    let ghost cols0 = state.collections;
    let ghost rng0 = state.rng;
    let mut users = users;
    while users.len() > 0
        invariant
            unique_user_ids(state.users@),
            unique_collection_uuids(state.collections@),
            state.data == data0,
            state.collections == cols0,
            state.rng == rng0,
            install_users_seq(state.users@, users@) == install_users_seq(acc0, us0),
        decreases users@.len(),
    {
        let ghost accpre = state.users@;
        let ghost uspre = users@;
        let u = users.remove(0);
        upsert_user_vec(&mut state.users, u);
        proof {
            assert(uspre[0] == u);
            assert(users@ =~= uspre.drop_first());
            assert(install_users_seq(accpre, uspre) == install_users_seq(
                upsert_user(accpre, u),
                uspre.drop_first(),
            ));
        }
    }
    proof {
        assert(install_users_seq(state.users@, users@) == state.users@);
    }
}

/// Inserts a collection under its uuid: the entry with that uuid is
/// replaced, else the collection is appended.
fn upsert_collection_vec(cols: &mut Vec<Collection>, c: Collection)
    requires
        unique_collection_uuids(old(cols)@),
    ensures
        final(cols)@ == upsert_collection(old(cols)@, c),
        unique_collection_uuids(final(cols)@),
{
    let ghost cols0 = cols@;
    match collection_index_by_uuid(cols, c.collection_uuid.as_str()) {
        Some(i) => {
            cols.set(i, c);
            proof {
                let ci = choose|k: int|
                    0 <= k < cols0.len() && cols0[k].collection_uuid@ == cols@[
                        i as int
                    ].collection_uuid@;
                assert(ci == i as int);
                assert(cols@ == upsert_collection(cols0, cols@[i as int]));
            }
        },
        None => {
            cols.push(c);
        },
    }
}

/// The collection container after inserting each decoded collection in
/// order under its uuid.
pub open spec fn install_collections_seq(acc: Seq<Collection>, cs: Seq<Collection>) -> Seq<
    Collection,
>
    decreases cs.len(),
{
    if cs.len() == 0 {
        acc
    } else {
        install_collections_seq(upsert_collection(acc, cs[0]), cs.drop_first())
    }
}

/// Inserts each decoded collection in order under its uuid, as the
/// startup load does after decoding the collection file.
pub fn install_collections(state: &mut AppState, collections: Vec<Collection>)
    requires
        old(state).wf(),
    ensures
        final(state).wf(),
        final(state).collections@ == install_collections_seq(
            old(state).collections@,
            collections@,
        ),
        final(state).data == old(state).data,
        final(state).users == old(state).users,
        final(state).rng == old(state).rng,
{
    let ghost acc0 = state.collections@;
    let ghost cs0 = collections@;
    let ghost data0 = state.data;
    let ghost users0 = state.users;
    let ghost rng0 = state.rng;
    let mut collections = collections;
    while collections.len() > 0
        invariant
            unique_user_ids(state.users@),
            unique_collection_uuids(state.collections@),
            state.data == data0,
            state.users == users0,
            state.rng == rng0,
            install_collections_seq(state.collections@, collections@) == install_collections_seq(
                acc0,
                cs0,
            ),
        decreases collections@.len(),
    {
        let ghost accpre = state.collections@;
        let ghost cspre = collections@;
        let c = collections.remove(0);
        upsert_collection_vec(&mut state.collections, c);
        proof {
            assert(cspre[0] == c);
            assert(collections@ =~= cspre.drop_first());
            assert(install_collections_seq(accpre, cspre) == install_collections_seq(
                upsert_collection(accpre, c),
                cspre.drop_first(),
            ));
        }
    }
    proof {
        assert(install_collections_seq(state.collections@, collections@) == state.collections@);
    }
}

/// Reloading a saved user container restores it: inserting users whose
/// ids are pairwise distinct, and distinct from those already held,
/// appends them all in order. Starting from an empty container — the
/// simulated restart — the loaded container equals the decoded file,
/// which by the persistence round trip equals the saved one.
pub proof fn lemma_install_users_fresh(acc: Seq<User>, us: Seq<User>)
    requires
        unique_user_ids(acc + us),
    ensures
        install_users_seq(acc, us) == acc + us,
    decreases us.len(),
{
    if us.len() == 0 {
        assert(acc + us =~= acc);
    } else {
        let u = us[0];
        assert(!has_user(acc, u.user_id)) by {
            if has_user(acc, u.user_id) {
                let i = choose|i: int| 0 <= i < acc.len() && acc[i].user_id == u.user_id;
                assert((acc + us)[i].user_id == (acc + us)[acc.len() as int].user_id);
            }
        }
        assert(upsert_user(acc, u) == acc.push(u));
        assert(acc.push(u) + us.drop_first() =~= acc + us);
        lemma_install_users_fresh(acc.push(u), us.drop_first());
    }
}

/// Reloading a saved collection container restores it, as
/// `lemma_install_users_fresh` does for users.
pub proof fn lemma_install_collections_fresh(acc: Seq<Collection>, cs: Seq<Collection>)
    requires
        unique_collection_uuids(acc + cs),
    ensures
        install_collections_seq(acc, cs) == acc + cs,
    decreases cs.len(),
{
    if cs.len() == 0 {
        assert(acc + cs =~= acc);
    } else {
        let c = cs[0];
        assert(!has_collection(acc, c.collection_uuid@)) by {
            if has_collection(acc, c.collection_uuid@) {
                let i = choose|i: int|
                    0 <= i < acc.len() && acc[i].collection_uuid@ == c.collection_uuid@;
                assert((acc + cs)[i].collection_uuid@ == (acc + cs)[acc.len() as int].collection_uuid@);
            }
        }
        assert(upsert_collection(acc, c) == acc.push(c));
        assert(acc.push(c) + cs.drop_first() =~= acc + cs);
        lemma_install_collections_fresh(acc.push(c), cs.drop_first());
    }
}

/// A simulated restart restores the user container: the saved file's
/// text decodes to the very records that were written, and loading them
/// into a fresh store keeps them all, in order. Order is preserved here,
/// so the contents are in particular element-set-equal.
pub proof fn lemma_user_container_restart(users: Seq<User>)
    requires
        unique_user_ids(users),
    ensures
        crate::persist::parse_users_text(crate::persist::enc_users(crate::deep_seq(users)))
            == Some(crate::deep_seq(users)),
        install_users_seq(Seq::empty(), users) == users,
{
    crate::persist::lemma_users_round_trip(crate::deep_seq(users));
    assert(Seq::empty() + users =~= users);
    lemma_install_users_fresh(Seq::empty(), users);
}

/// A simulated restart restores the collection container, as
/// `lemma_user_container_restart` does for users.
pub proof fn lemma_collection_container_restart(cols: Seq<Collection>)
    requires
        unique_collection_uuids(cols),
    ensures
        crate::persist::parse_collections_text(
            crate::persist::enc_collections(crate::deep_seq(cols)),
        ) == Some(crate::deep_seq(cols)),
        install_collections_seq(Seq::empty(), cols) == cols,
{
    crate::persist::lemma_collections_round_trip(crate::deep_seq(cols));
    assert(Seq::empty() + cols =~= cols);
    lemma_install_collections_fresh(Seq::empty(), cols);
}

/// Registering a fresh username leaves the container with exactly one
/// user carrying that name. A second registration of the same name then
/// fails `AlreadyExists` and leaves the container unchanged, by
/// `add_user_to_state`'s contract, since the name is now taken.
pub proof fn lemma_register_same_username_twice(users: Seq<User>, u: User)
    requires
        !has_username(users, u.username@),
    ensures
        has_username(upsert_user(users, u), u.username@),
        exists|i: int|
            0 <= i < upsert_user(users, u).len() && upsert_user(users, u)[i].username@
                == u.username@ && (forall|j: int|
                0 <= j < upsert_user(users, u).len() && j != i ==> upsert_user(
                    users,
                    u,
                )[j].username@ != u.username@),
{
    let after = upsert_user(users, u);
    if has_user(users, u.user_id) {
        let ci = choose|i: int| 0 <= i < users.len() && users[i].user_id == u.user_id;
        assert(after[ci].username@ == u.username@);
        assert(forall|j: int| 0 <= j < after.len() && j != ci ==> after[j] == users[j]);
    } else {
        let last = users.len() as int;
        assert(after[last].username@ == u.username@);
        assert(forall|j: int| 0 <= j < last ==> after[j] == users[j]);
    }
}

/// A hitokoto created with a fresh uuid is afterwards retrieved exactly
/// once: looking the extended container up by that one uuid yields
/// exactly the new record. Together with `add_hitokoto_to_data`'s
/// contract — which appends the record and derives its length from the
/// text — and `get_hitokotos_by_uuids`' contract, a created quote's
/// length is the character count of its text and a lookup by its uuid
/// returns it alone.
pub proof fn lemma_created_quote_retrieved(data: Seq<Hitokoto>, q: Hitokoto, ids: Seq<String>)
    requires
        !has_hitokoto(data, q.uuid@),
        ids.len() == 1,
        ids[0]@ == q.uuid@,
    ensures
        quotes_with_uuids(data.push(q), ids) == seq![q],
{
    reveal(Seq::filter);
    let pred = |h: Hitokoto| text::contains_string(ids, h.uuid@);
    assert forall|h: Hitokoto| data.contains(h) implies !pred(h) by {
        let k = choose|k: int| 0 <= k < data.len() && data[k] == h;
        assert(data[k].uuid@ != q.uuid@);
    }
    assert(data.all(|h: Hitokoto| !pred(h)));
    data.lemma_all_neg_filter_empty(pred);
    assert(data.push(q).drop_last() =~= data);
    assert(data.push(q).last() == q);
    assert(text::contains_string(ids, q.uuid@));
    assert(quotes_with_uuids(data.push(q), ids) =~= seq![q]);
}

} // verus!
