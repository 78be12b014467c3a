//! The users table: a user is created on first contact, and points at the reading
//! session it has open.

use vstd::prelude::*;
use crate::db::{first_index, lemma_first_index, lemma_first_index_is, lemma_first_index_take, Database, DbError, DbView};
use crate::models::{NewUser, User, UserView};

verus! {

broadcast use vstd::seq_lib::group_seq_properties;

/// Holds of the users with identifier `uid`.
pub open spec fn uid_is(uid: i64) -> spec_fn(UserView) -> bool {
    |u: UserView| u.uid == uid
}

/// The store and the user after looking `uid` up among the users, inserting a user
/// with the given name and open session when none has it. A user that exists is
/// returned as stored: neither its name nor its session is changed.
pub open spec fn create_or_get_user_spec(db: DbView, uid: i64, username: Seq<char>, current_rid: Option<i64>) -> (
    DbView,
    UserView,
) {
    match first_index(db.users, uid_is(uid)) {
        Some(i) => (db, db.users[i]),
        None => {
            let u = UserView { uid: uid, username: username, current_rid: current_rid };
            (DbView { users: db.users.push(u), ..db }, u)
        },
    }
}

/// A user whose open session is set to `rid` when its identifier is `uid`, unchanged otherwise.
pub open spec fn set_current_if(uid: i64, rid: Option<i64>) -> spec_fn(UserView) -> UserView {
    |u: UserView| if u.uid == uid { UserView { current_rid: rid, ..u } } else { u }
}

/// The store after setting the open session of every user with identifier `uid` to `rid`.
pub open spec fn update_current_record_spec(db: DbView, uid: i64, rid: Option<i64>) -> DbView {
    DbView { users: db.users.map_values(set_current_if(uid, rid)), ..db }
}

/// The index of the first user with identifier `uid`.
fn find_user(users: &Vec<User>, uid: i64) -> (res: Option<usize>)
    ensures
        res matches Some(i) ==> i < users.len()
            && first_index(users@.map_values(|u: User| u@), uid_is(uid)) == Some(i as int),
        res is None ==> first_index(users@.map_values(|u: User| u@), uid_is(uid)) is None,
{
    let ghost view = users@.map_values(|u: User| u@);
    let mut i: usize = 0;
    while i < users.len()
        invariant
            i <= users.len(),
            view == users@.map_values(|u: User| u@),
            first_index(view.take(i as int), uid_is(uid)) is None,
        decreases users.len() - i,
    {
        proof {
            lemma_first_index_take(view, i as int, uid_is(uid));
        }
        if users[i].uid == uid {
            proof {
                lemma_first_index(view.take(i as int), uid_is(uid));
                assert forall|j: int| 0 <= j < i implies !uid_is(uid)(#[trigger] view[j]) by {
                    assert(view.take(i as int)[j] == view[j]);
                }
                lemma_first_index_is(view, uid_is(uid), i as int);
            }
            return Some(i);
        }
        i = i + 1;
    }
    assert(view.take(users.len() as int) =~= view);
    None
}

/// Returns the user with identifier `data.uid`, first inserting it from `data` when
/// there is none.
pub fn create_or_get_user<'a>(conn: &mut Database, data: NewUser<'a>) -> (res: Result<User, DbError>)
    ensures
        res matches Ok(u) && create_or_get_user_spec(old(conn)@, data.uid, data.username@, data.current_rid)
            == (final(conn)@, u@),
{
    match find_user(&conn.users, data.uid) {
        Some(i) => {
            let u = conn.users[i].clone();
            Ok(u)
        },
        None => {
            let ghost before = conn.users@;
            let row = User { uid: data.uid, username: data.username.clone(), current_rid: data.current_rid };
            let u = row.clone();
            conn.users.push(row);
            assert(conn.users@.map_values(|u: User| u@) =~= before.map_values(|u: User| u@).push(u@));
            Ok(u)
        },
    }
}

/// Sets the open session of the user with identifier `uid` to `rid`.
pub fn update_current_record(conn: &mut Database, uid: i64, rid: Option<i64>) -> (res: Result<(), DbError>)
    ensures
        res is Ok,
        final(conn)@ == update_current_record_spec(old(conn)@, uid, rid),
{
    let mut users: Vec<User> = Vec::new();
    std::mem::swap(&mut users, &mut conn.users);
    let ghost before = users@.map_values(|u: User| u@);
    let mut i: usize = 0;
    while i < users.len()
        invariant
            i <= users.len(),
            users.len() == before.len(),
            forall|k: int| 0 <= k < i ==> (#[trigger] users@[k])@ == set_current_if(uid, rid)(before[k]),
            forall|k: int| i <= k < before.len() ==> (#[trigger] users@[k])@ == before[k],
        decreases users.len() - i,
    {
        if users[i].uid == uid {
            let u = User { uid: users[i].uid, username: users[i].username.clone(), current_rid: rid };
            users.set(i, u);
        }
        i = i + 1;
    }
    assert(users@.map_values(|u: User| u@) =~= before.map_values(set_current_if(uid, rid)));
    std::mem::swap(&mut users, &mut conn.users);
    Ok(())
}

/// All users, in table order.
pub fn get_all_users(conn: &Database) -> (res: Result<Vec<User>, DbError>)
    ensures
        res matches Ok(v) && v@.map_values(|u: User| u@) == conn@.users,
{
    let mut v: Vec<User> = Vec::new();
    let mut i: usize = 0;
    while i < conn.users.len()
        invariant
            i <= conn.users.len(),
            v@.map_values(|u: User| u@) =~= conn@.users.take(i as int),
        decreases conn.users.len() - i,
    {
        let u = conn.users[i].clone();
        let ghost prev = v@;
        v.push(u);
        assert(v@.map_values(|u: User| u@) =~= prev.map_values(|u: User| u@).push(conn@.users[i as int]));
        assert(conn@.users.take(i + 1) =~= conn@.users.take(i as int).push(conn@.users[i as int]));
        i = i + 1;
    }
    Ok(v)
}

} // verus!
