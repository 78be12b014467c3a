//! Properties that relate several operations of the store and of the bot.

use vstd::prelude::*;
use crate::bot::{
    biecuiwole_spec, me_spec, remind_text, reminder_interval, total_text,
    abandon_spec, abandoned_text, answer_spec, checkin_spec, checkin_transaction_spec, checkout_spec, finished_text,
    new_session, session_open_text, startup_plan, Command, Failure, ReplyView, Sender,
};
use crate::db::keys::{
    book_clash, chap_clash, keys_unique, lemma_filter_unique, lemma_next_id_above, no_two, law_book_keeps_keys_unique, law_chap_keeps_keys_unique,
    law_record_delete_keeps_keys_unique, law_record_finish_keeps_keys_unique, law_record_insert_keeps_keys_unique,
    law_reminder_delete_keeps_keys_unique, law_reminder_insert_keeps_keys_unique, law_update_current_keeps_keys_unique,
    law_user_keeps_keys_unique, record_ids_unique,
};
use crate::db::{next_id, first_index, lemma_first_index, lemma_first_index_push, lemma_next_id_fresh, DbError, DbView};
use crate::db::book::{book_ids, create_or_get_book_spec, title_is};
use crate::db::chap::{chap_ids, chap_key_is, create_or_get_chap_spec};
use crate::db::record::{
    close_if, counts_for, create_and_get_record_spec, delete_record_spec, elapsed_secs, finish_record_spec,
    get_record_spec, record_ids, rid_is, rid_is_not, total_defined, total_secs, unsigned_secs,
};
use crate::db::reminder::{create_reminder_spec, default_of, delete_reminder_spec, get_default_reminders_spec, not_of_user};
use crate::db::user::{create_or_get_user_spec, set_current_if, uid_is, update_current_record_spec};
use crate::models::{NewRecord, Record, ReminderView, UserView};
use crate::text::{split_on, trim};

verus! {

broadcast use vstd::seq_lib::group_seq_properties;

/// Looking a title up a second time gives the same book and changes nothing.
pub proof fn law_book_idempotent(db: DbView, title: Seq<char>)
    requires
        create_or_get_book_spec(db, title).1 is Ok,
    ensures
        ({
            let (db1, b1) = create_or_get_book_spec(db, title);
            let (db2, b2) = create_or_get_book_spec(db1, title);
            db2 == db1 && b2 == b1
        }),
{
    let (db1, b1) = create_or_get_book_spec(db, title);
    if first_index(db.books, title_is(title)) is None {
        let b = b1->Ok_0;
        lemma_first_index_push(db.books, crate::models::BookView { bid: Some(b), title: title }, title_is(title));
    }
}

/// Looking a chapter up a second time gives the same chapter and changes nothing.
pub proof fn law_chap_idempotent(db: DbView, bid: i64, creator_uid: i64, heading: Seq<char>)
    requires
        create_or_get_chap_spec(db, None, bid, creator_uid, heading).1 is Ok,
    ensures
        ({
            let (db1, c1) = create_or_get_chap_spec(db, None, bid, creator_uid, heading);
            let (db2, c2) = create_or_get_chap_spec(db1, None, bid, creator_uid, heading);
            db2 == db1 && c2 == c1
        }),
{
    let (db1, c1) = create_or_get_chap_spec(db, None, bid, creator_uid, heading);
    if first_index(db.chaps, chap_key_is(bid, heading)) is None {
        let c = c1->Ok_0;
        lemma_first_index_push(
            db.chaps,
            crate::models::ChapView { cid: Some(c), bid: bid, creator_uid: creator_uid, heading: heading },
            chap_key_is(bid, heading),
        );
    }
}

/// A user is created once: looking it up again, with any name and session, gives the
/// same user and changes nothing.
pub proof fn law_user_idempotent(db: DbView, uid: i64, name1: Seq<char>, rid1: Option<i64>, name2: Seq<char>, rid2: Option<i64>)
    ensures
        ({
            let (db1, u1) = create_or_get_user_spec(db, uid, name1, rid1);
            let (db2, u2) = create_or_get_user_spec(db1, uid, name2, rid2);
            db2 == db1 && u2 == u1 && u1.uid == uid
        }),
{
    let (db1, u1) = create_or_get_user_spec(db, uid, name1, rid1);
    lemma_first_index(db.users, uid_is(uid));
    if first_index(db.users, uid_is(uid)) is None {
        lemma_first_index_push(db.users, u1, uid_is(uid));
    }
}

/// A record that was inserted is found under its identifier, as inserted.
pub proof fn law_record_read_after_insert(db: DbView, data: NewRecord)
    requires
        create_and_get_record_spec(db, data).1 is Ok,
    ensures
        ({
            let (db1, r) = create_and_get_record_spec(db, data);
            r->Ok_0.rid is Some && get_record_spec(db1, r->Ok_0.rid->0) == Ok::<Record, DbError>(r->Ok_0)
        }),
{
    let (db1, r) = create_and_get_record_spec(db, data);
    let row = r->Ok_0;
    let rid = row.rid->0;
    lemma_next_id_fresh(record_ids(db.records));
    assert forall|j: int| 0 <= j < db.records.len() implies !rid_is(rid)(#[trigger] db.records[j]) by {
        assert(record_ids(db.records)[j] == db.records[j].rid);
    }
    crate::db::lemma_first_index_is(db1.records, rid_is(rid), db.records.len() as int);
}

/// A record that was closed is found closed, with its start time kept.
pub proof fn law_record_read_after_finish(db: DbView, rid: i64, totime: i64)
    requires
        finish_record_spec(db, rid, totime).1 is Ok,
    ensures
        ({
            let (db1, f) = finish_record_spec(db, rid, totime);
            get_record_spec(db1, rid) matches Ok(r) && r.totime == Some(totime) && r.fromtime == f->Ok_0
                && r.rid == Some(rid)
        }),
{
    let (db1, f) = finish_record_spec(db, rid, totime);
    lemma_first_index(db.records, rid_is(rid));
    let i = first_index(db.records, rid_is(rid))->0;
    assert forall|j: int| 0 <= j < i implies !rid_is(rid)(#[trigger] db1.records[j]) by {
        assert(!rid_is(rid)(db.records[j]));
    }
    crate::db::lemma_first_index_is(db1.records, rid_is(rid), i);
}

/// A record that was deleted is found no more.
pub proof fn law_record_gone_after_delete(db: DbView, rid: i64)
    ensures
        get_record_spec(delete_record_spec(db, rid), rid) == Err::<Record, DbError>(DbError::NotFound),
{
    let kept = db.records.filter(rid_is_not(rid));
    lemma_first_index(kept, rid_is(rid));
    if first_index(kept, rid_is(rid)) is Some {
        let i = first_index(kept, rid_is(rid))->0;
        db.records.lemma_filter_pred(rid_is_not(rid), i);
    }
}

/// After a user's open session is set, looking the user up gives that session.
pub proof fn law_current_record_read_after_update(db: DbView, uid: i64, rid: Option<i64>, name: Seq<char>)
    requires
        first_index(db.users, uid_is(uid)) is Some,
    ensures
        create_or_get_user_spec(update_current_record_spec(db, uid, rid), uid, name, None).1.current_rid == rid,
{
    let db1 = update_current_record_spec(db, uid, rid);
    lemma_first_index(db.users, uid_is(uid));
    let i = first_index(db.users, uid_is(uid))->0;
    assert forall|j: int| 0 <= j < i implies !uid_is(uid)(#[trigger] db1.users[j]) by {
        assert(!uid_is(uid)(db.users[j]));
    }
    crate::db::lemma_first_index_is(db1.users, uid_is(uid), i);
}

/// Once a user's reminders are deleted, the user has no default reminder.
pub proof fn law_no_reminder_after_delete(db: DbView, uid: i64)
    ensures
        get_default_reminders_spec(delete_reminder_spec(db, uid).0, uid) == Err::<ReminderView, DbError>(DbError::NotFound),
{
    let kept = db.reminders.filter(not_of_user(uid));
    lemma_first_index(kept, default_of(uid));
    if first_index(kept, default_of(uid)) is Some {
        let i = first_index(kept, default_of(uid))->0;
        db.reminders.lemma_filter_pred(not_of_user(uid), i);
    }
}

/// Replacing a user's reminders by one without a book makes it the user's default
/// reminder.
pub proof fn law_reminder_replaced(db: DbView, data: ReminderView)
    requires
        data.bid is None,
        create_reminder_spec(delete_reminder_spec(db, data.uid).0, data).1 is Ok,
    ensures
        ({
            let db1 = delete_reminder_spec(db, data.uid).0;
            let db2 = create_reminder_spec(db1, data).0;
            get_default_reminders_spec(db2, data.uid) matches Ok(r) && r.interval == data.interval
                && r.cron == data.cron && r.uid == data.uid
        }),
{
    let db1 = delete_reminder_spec(db, data.uid).0;
    law_no_reminder_after_delete(db, data.uid);
    lemma_first_index(db1.reminders, default_of(data.uid));
    let db2 = create_reminder_spec(db1, data).0;
    let row = db2.reminders.last();
    assert(db2.reminders =~= db1.reminders.push(row));
    lemma_first_index_push(db1.reminders, row, default_of(data.uid));
}

/// Session `rid` exists, belongs to user `uid`, and is not finished.
pub open spec fn open_session_of(records: Seq<Record>, uid: i64, rid: i64) -> bool {
    exists|k: int| 0 <= k < records.len() && #[trigger] records[k].rid == Some(rid) && records[k].uid == uid
        && records[k].totime is None
}

/// Each user's open session, if any, is an unfinished session of that user.
pub open spec fn sessions_open(db: DbView) -> bool {
    forall|i: int| 0 <= i < db.users.len() ==> ((#[trigger] db.users[i]).current_rid matches Some(r) ==> open_session_of(db.records, db.users[i].uid, r))
}

/// The sessions are consistent: records are identified uniquely, and the open
/// session of each user is an unfinished session of that user.
pub open spec fn sessions_consistent_in(records: Seq<Record>, users: Seq<UserView>) -> bool {
    &&& record_ids_unique(records)
    &&& forall|i: int| 0 <= i < users.len() ==> ((#[trigger] users[i]).current_rid matches Some(r) ==> open_session_of(records, users[i].uid, r))
}

/// The sessions of the store are consistent.
pub open spec fn sessions_consistent(db: DbView) -> bool {
    sessions_consistent_in(db.records, db.users)
}

/// Appending a record with an unused identifier keeps the sessions consistent.
proof fn lemma_push_record(records: Seq<Record>, users: Seq<UserView>, row: Record)
    requires
        sessions_consistent_in(records, users),
        row.rid is Some,
        !record_ids(records).contains(row.rid),
    ensures
        sessions_consistent_in(records.push(row), users),
{
    let rs = records.push(row);
    assert forall|i: int, j: int|
        0 <= i < rs.len() && 0 <= j < rs.len() && i != j && (#[trigger] rs[i]).rid is Some implies rs[i].rid != (
        #[trigger] rs[j]).rid by {
        if i == records.len() {
            assert(record_ids(records)[j] == records[j].rid);
        } else if j == records.len() {
            assert(record_ids(records)[i] == records[i].rid);
        } else {
            assert(rs[i] == records[i] && rs[j] == records[j]);
        }
    }
    assert forall|i: int| 0 <= i < users.len() implies ((#[trigger] users[i]).current_rid matches Some(r) ==> open_session_of(rs, users[i].uid, r)) by {
        if let Some(r) = users[i].current_rid {
            let k = choose|k: int| 0 <= k < records.len() && #[trigger] records[k].rid == Some(r) && records[k].uid == users[i].uid
                && records[k].totime is None;
            assert(rs[k] == records[k]);
        }
    }
}

/// Adding a user without an open session keeps the sessions consistent.
proof fn lemma_push_user(records: Seq<Record>, users: Seq<UserView>, u: UserView)
    requires
        sessions_consistent_in(records, users),
        u.current_rid is None,
    ensures
        sessions_consistent_in(records, users.push(u)),
{
    assert forall|i: int| 0 <= i < users.len() + 1 implies ((#[trigger] users.push(u)[i]).current_rid matches Some(r) ==> open_session_of(records, users.push(u)[i].uid, r)) by {
        if i < users.len() {
            assert(users.push(u)[i] == users[i]);
        }
    }
}

/// Setting the open session of a user to one of its unfinished sessions, or to none,
/// keeps the sessions consistent.
proof fn lemma_set_current(records: Seq<Record>, users: Seq<UserView>, uid: i64, rid: Option<i64>)
    requires
        sessions_consistent_in(records, users),
        rid matches Some(r) ==> open_session_of(records, uid, r),
    ensures
        sessions_consistent_in(records, users.map_values(set_current_if(uid, rid))),
{
    let us = users.map_values(set_current_if(uid, rid));
    assert forall|i: int| 0 <= i < us.len() implies ((#[trigger] us[i]).current_rid matches Some(r) ==> open_session_of(records, us[i].uid, r)) by {
        assert(us[i] == set_current_if(uid, rid)(users[i]));
    }
}

/// The creation of a user, new or not, keeps the sessions consistent.
proof fn lemma_user_created(db: DbView, uid: i64, name: Seq<char>)
    requires
        sessions_consistent(db),
    ensures
        sessions_consistent(create_or_get_user_spec(db, uid, name, None).0),
        create_or_get_user_spec(db, uid, name, None).1.uid == uid,
        create_or_get_user_spec(db, uid, name, None).1.current_rid matches Some(r) ==> open_session_of(
            create_or_get_user_spec(db, uid, name, None).0.records,
            uid,
            r,
        ),
{
    lemma_first_index(db.users, uid_is(uid));
    if first_index(db.users, uid_is(uid)) is None {
        lemma_push_user(db.records, db.users, UserView { uid: uid, username: name, current_rid: None });
    } else {
        let i = first_index(db.users, uid_is(uid))->0;
    }
}

/// Closing a user's open session and clearing it keeps the sessions consistent.
proof fn lemma_close_session(records: Seq<Record>, users: Seq<UserView>, uid: i64, rid: i64, totime: i64)
    requires
        sessions_consistent_in(records, users),
        open_session_of(records, uid, rid),
    ensures
        sessions_consistent_in(records.map_values(close_if(rid, totime)), users.map_values(set_current_if(uid, None))),
{
    let rs = records.map_values(close_if(rid, totime));
    let us = users.map_values(set_current_if(uid, None));
    let k0 = choose|k: int| 0 <= k < records.len() && #[trigger] records[k].rid == Some(rid) && records[k].uid == uid
        && records[k].totime is None;
    assert forall|i: int, j: int|
        0 <= i < rs.len() && 0 <= j < rs.len() && i != j && (#[trigger] rs[i]).rid is Some implies rs[i].rid != (
        #[trigger] rs[j]).rid by {
        assert(rs[i].rid == records[i].rid && rs[j].rid == records[j].rid);
    }
    assert forall|i: int| 0 <= i < us.len() implies ((#[trigger] us[i]).current_rid matches Some(r) ==> open_session_of(rs, us[i].uid, r)) by {
        assert(us[i] == set_current_if(uid, None)(users[i]));
        if users[i].uid != uid {
            if let Some(r) = users[i].current_rid {
                let k = choose|k: int| 0 <= k < records.len() && #[trigger] records[k].rid == Some(r) && records[k].uid == users[i].uid
                    && records[k].totime is None;
                if r == rid {
                    assert(k == k0);
                }
                assert(rs[k] == records[k]);
            }
        }
    }
}

/// Deleting a user's open session and clearing it keeps the sessions consistent.
proof fn lemma_delete_session(records: Seq<Record>, users: Seq<UserView>, uid: i64, rid: i64)
    requires
        sessions_consistent_in(records, users),
        open_session_of(records, uid, rid),
    ensures
        sessions_consistent_in(records.filter(rid_is_not(rid)), users.map_values(set_current_if(uid, None))),
{
    let rs = records.filter(rid_is_not(rid));
    let us = users.map_values(set_current_if(uid, None));
    lemma_filter_unique(records, rid_is_not(rid));
    let k0 = choose|k: int| 0 <= k < records.len() && #[trigger] records[k].rid == Some(rid) && records[k].uid == uid
        && records[k].totime is None;
    assert forall|i: int| 0 <= i < us.len() implies ((#[trigger] us[i]).current_rid matches Some(r) ==> open_session_of(rs, us[i].uid, r)) by {
        assert(us[i] == set_current_if(uid, None)(users[i]));
        if users[i].uid != uid {
            if let Some(r) = users[i].current_rid {
                let k = choose|k: int| 0 <= k < records.len() && #[trigger] records[k].rid == Some(r) && records[k].uid == users[i].uid
                    && records[k].totime is None;
                if r == rid {
                    assert(k == k0);
                }
                records.lemma_filter_contains(rid_is_not(rid), k);
                let m = choose|m: int| 0 <= m < rs.len() && rs[m] == records[k];
                assert(rs[m].rid == Some(r));
            }
        }
    }
}

/// A successful checkin transaction keeps the sessions consistent, and leaves the
/// user with an unfinished session of its own.
proof fn lemma_checkin_transaction(db: DbView, uid: i64, major: Seq<char>, minor: Seq<char>, now: i64)
    requires
        sessions_consistent(db),
    ensures
        checkin_transaction_spec(db, uid, major, minor, now) matches Ok((db2, bid, cid, rid)) ==> sessions_consistent(db2)
            && open_session_of(db2.records, uid, rid),
{
    if checkin_transaction_spec(db, uid, major, minor, now) is Ok {
        let (db1, b) = create_or_get_book_spec(db, major);
        let bid = b->Ok_0;
        let (db2, c) = create_or_get_chap_spec(db1, None, bid, uid, minor);
        let cid = c->Ok_0;
        let (db3, r) = create_and_get_record_spec(db2, new_session(uid, cid, now));
        let row = r->Ok_0;
        lemma_next_id_fresh(record_ids(db2.records));
        let rid = row.rid->0;
        assert forall|j: int| 0 <= j < record_ids(db2.records).len() implies record_ids(db2.records)[j] != row.rid by {}
        assert(db2.records == db.records && db2.users == db.users);
        lemma_push_record(db.records, db.users, row);
        assert(db3.records =~= db.records.push(row));
        assert(db3.records[db.records.len() as int] == row);
        assert(open_session_of(db3.records, uid, rid));
        lemma_set_current(db3.records, db3.users, uid, row.rid);
    }
}

/// Every command keeps the sessions consistent.
proof fn lemma_answer_keeps_sessions_consistent(db: DbView, sender: Option<Sender>, cmd: Command, now: i64)
    requires
        sessions_consistent(db),
    ensures
        sessions_consistent(answer_spec(db, sender, cmd, now).0),
{
    match sender {
        None => {},
        Some(s) => {
            lemma_user_created(db, s.uid, s.username@);
            let (db1, user) = create_or_get_user_spec(db, s.uid, s.username@, None);
            match cmd {
                Command::Checkin(arg) => {
                    if user.current_rid is None {
                        lemma_checkin_transaction(db1, s.uid, crate::text::trim(crate::text::split_on(arg@, '\n')[0]), crate::text::trim(crate::text::split_on(arg@, '\n')[1]), now);
                    }
                },
                Command::Checkout => {
                    if let Some(rid) = user.current_rid {
                        lemma_first_index(db1.records, rid_is(rid));
                        let k = choose|k: int| 0 <= k < db1.records.len() && #[trigger] db1.records[k].rid == Some(rid) && db1.records[k].uid == s.uid
                            && db1.records[k].totime is None;
                        assert(rid_is(rid)(db1.records[k]));
                        lemma_close_session(db1.records, db1.users, s.uid, rid, now);
                    }
                },
                Command::Abandon => {
                    if let Some(rid) = user.current_rid {
                        lemma_delete_session(db1.records, db1.users, s.uid, rid);
                    }
                },
                _ => {},
            }
        },
    }
}

/// On a store with unique keys whose open sessions are unfinished sessions of their
/// users, a checkout never fails on the store: the open session it closes exists.
pub proof fn law_checkout_finds_open_session(db: DbView, sender: Option<Sender>, now: i64)
    requires
        keys_unique(db),
        sessions_open(db),
    ensures
        !(checkout_spec(db, sender, now).1 matches Err(Failure::Db(_))),
{
    if let Some(s) = sender {
        lemma_user_created(db, s.uid, s.username@);
        let (db1, user) = create_or_get_user_spec(db, s.uid, s.username@, None);
        if let Some(rid) = user.current_rid {
            lemma_first_index(db1.records, rid_is(rid));
            let k = choose|k: int| 0 <= k < db1.records.len() && #[trigger] db1.records[k].rid == Some(rid) && db1.records[k].uid == s.uid
                && db1.records[k].totime is None;
            assert(rid_is(rid)(db1.records[k]));
        }
    }
}

/// A checkin that opens a session for the sender, followed by a checkout of the same
/// sender: the checkout answers with the time between the two, and that time is
/// added to the sender's time read.
pub proof fn law_checkin_then_checkout(db: DbView, s1: Sender, s2: Sender, arg: Seq<char>, t1: i64, t2: i64)
    requires
        keys_unique(db),
        sessions_open(db),
        s1.uid == s2.uid,
        split_on(arg, '\n').len() == 2,
        create_or_get_user_spec(db, s1.uid, s1.username@, None).1.current_rid is None,
        checkin_transaction_spec(
            create_or_get_user_spec(db, s1.uid, s1.username@, None).0,
            s1.uid,
            trim(split_on(arg, '\n')[0]),
            trim(split_on(arg, '\n')[1]),
            t1,
        ) is Ok,
        i64::MIN <= t2 - t1 <= i64::MAX,
    ensures
        ({
            let db1 = checkin_spec(db, Some(s1), arg, t1).0;
            let (db2, reply) = checkout_spec(db1, Some(s2), t2);
            &&& reply == Ok::<ReplyView, Failure>(ReplyView::Text(finished_text(unsigned_secs(t2 - t1) as u64)))
            &&& total_secs(db2.records, s1.uid) == total_secs(db.records, s1.uid) + unsigned_secs(t2 - t1)
            &&& keys_unique(db2)
            &&& sessions_open(db2)
        }),
{
    let uid = s1.uid;
    lemma_user_created(db, uid, s1.username@);
    let (dbu, user) = create_or_get_user_spec(db, uid, s1.username@, None);
    let major = trim(split_on(arg, '\n')[0]);
    let minor = trim(split_on(arg, '\n')[1]);
    let (dbb, b) = create_or_get_book_spec(dbu, major);
    let bid = b->Ok_0;
    let (dbc, c) = create_or_get_chap_spec(dbb, None, bid, uid, minor);
    let cid = c->Ok_0;
    let (dbr, r) = create_and_get_record_spec(dbc, new_session(uid, cid, t1));
    let row = r->Ok_0;
    let rid = row.rid->0;
    let records = dbu.records;
    assert(dbc.records == records && dbc.users == dbu.users);
    lemma_next_id_fresh(record_ids(records));
    assert forall|j: int| 0 <= j < records.len() implies !rid_is(rid)(#[trigger] records[j]) by {
        assert(record_ids(records)[j] == records[j].rid);
    }
    let db1 = checkin_spec(db, Some(s1), arg, t1).0;
    assert(db1 == update_current_record_spec(dbr, uid, Some(rid)));
    // The sender is found again, with the new session open.
    lemma_first_index(dbu.users, uid_is(uid));
    law_current_record_read_after_update(dbr, uid, Some(rid), s2.username@);
    law_user_idempotent(dbu, uid, s1.username@, None, s2.username@, None);
    lemma_first_index(db1.users, uid_is(uid));
    let (dbv, user2) = create_or_get_user_spec(db1, uid, s2.username@, None);
    assert(dbv == db1);
    assert(user2.current_rid == Some(rid));
    // The session is the last record, and the only one with its identifier.
    assert(db1.records =~= records.push(row));
    crate::db::lemma_first_index_is(db1.records, rid_is(rid), records.len() as int);
    let closed = Record { totime: Some(t2), ..row };
    assert(db1.records.map_values(close_if(rid, t2)) =~= records.push(closed));
    let (db2, reply) = checkout_spec(db1, Some(s2), t2);
    assert(db2.records == records.push(closed));
    assert(records.push(closed).drop_last() =~= records);
    assert(counts_for(uid)(closed));
    assert(elapsed_secs(closed) == unsigned_secs(t2 - t1));
    lemma_checkin_transaction(dbu, uid, major, minor, t1);
    lemma_checkin_keeps_keys_unique(db, s1, arg, t1);
    lemma_answer_keeps_sessions_consistent(db1, Some(s2), Command::Checkout, t2);
    law_answer_keeps_keys_unique(db1, Some(s2), Command::Checkout, t2);
}

/// A checkin from a user with an open session changes nothing and says so.
pub proof fn law_checkin_refused_while_open(db: DbView, s: Sender, arg: Seq<char>, now: i64)
    requires
        split_on(arg, '\n').len() == 2,
        create_or_get_user_spec(db, s.uid, s.username@, None).1.current_rid is Some,
    ensures
        checkin_spec(db, Some(s), arg, now) == (db, Ok::<ReplyView, Failure>(ReplyView::Text(session_open_text()))),
{
    lemma_first_index(db.users, uid_is(s.uid));
}

/// Opening a session adds nothing to anybody's time read: only finished sessions count.
pub proof fn law_checkin_keeps_time_read(db: DbView, s: Sender, arg: Seq<char>, now: i64, uid: i64)
    ensures
        total_secs(checkin_spec(db, Some(s), arg, now).0.records, uid) == total_secs(db.records, uid),
{
    let (dbu, user) = create_or_get_user_spec(db, s.uid, s.username@, None);
    let parts = split_on(arg, '\n');
    if parts.len() == 2 && user.current_rid is None {
        let major = trim(parts[0]);
        let minor = trim(parts[1]);
        if checkin_transaction_spec(dbu, s.uid, major, minor, now) is Ok {
            let (dbb, b) = create_or_get_book_spec(dbu, major);
            let (dbc, c) = create_or_get_chap_spec(dbb, None, b->Ok_0, s.uid, minor);
            let (dbr, r) = create_and_get_record_spec(dbc, new_session(s.uid, c->Ok_0, now));
            let row = r->Ok_0;
            assert(dbr.records =~= db.records.push(row));
            assert(db.records.push(row).drop_last() =~= db.records);
        }
    }
}

/// The reminders started when the bot starts come at most once an hour.
pub proof fn law_startup_reminders_hourly(db: DbView, users: Seq<UserView>)
    ensures
        forall|k: int| 0 <= k < startup_plan(db, users).len() ==> (#[trigger] startup_plan(db, users)[k]).1 >= 3600,
    decreases users.len(),
{
    if users.len() > 0 {
        law_startup_reminders_hourly(db, users.drop_last());
        let rest = startup_plan(db, users.drop_last());
        let u = users.last();
        if let Ok(r) = get_default_reminders_spec(db, u.uid) {
            if let Some(i) = r.interval {
                let v: i64 = if i < 3600 { 3600 } else { i };
                assert(v >= 3600);
                assert((v as u64) >= 3600);
                let plan = rest.push((u, v as u64));
                assert forall|k: int| 0 <= k < plan.len() implies (#[trigger] plan[k]).1 >= 3600 by {
                    if k < rest.len() {
                        assert(plan[k] == rest[k]);
                    }
                }
            }
        }
    }
}

/// Keeping the elements that all satisfy `p` keeps everything.
proof fn lemma_filter_all<T>(s: Seq<T>, p: spec_fn(T) -> bool)
    requires
        forall|j: int| 0 <= j < s.len() ==> p(#[trigger] s[j]),
    ensures
        s.filter(p) == s,
    decreases s.len(),
{
    reveal(Seq::filter);
    if s.len() > 0 {
        assert forall|j: int| 0 <= j < s.len() - 1 implies p(#[trigger] s.drop_last()[j]) by {
            assert(s.drop_last()[j] == s[j]);
        }
        lemma_filter_all(s.drop_last(), p);
        assert(s.drop_last().push(s.last()) =~= s);
    }
}

/// An abandon right after a checkin that opened a session undoes the session: the
/// records are as before the checkin, and the sender has no open session.
pub proof fn law_checkin_then_abandon(db: DbView, s1: Sender, s2: Sender, arg: Seq<char>, t: i64)
    requires
        s1.uid == s2.uid,
        split_on(arg, '\n').len() == 2,
        create_or_get_user_spec(db, s1.uid, s1.username@, None).1.current_rid is None,
        checkin_transaction_spec(
            create_or_get_user_spec(db, s1.uid, s1.username@, None).0,
            s1.uid,
            trim(split_on(arg, '\n')[0]),
            trim(split_on(arg, '\n')[1]),
            t,
        ) is Ok,
    ensures
        ({
            let db1 = checkin_spec(db, Some(s1), arg, t).0;
            let (db2, reply) = abandon_spec(db1, Some(s2));
            &&& reply == Ok::<ReplyView, Failure>(ReplyView::Text(abandoned_text()))
            &&& db2.records == db.records
            &&& create_or_get_user_spec(db2, s1.uid, s2.username@, None).1.current_rid is None
        }),
{
    let uid = s1.uid;
    let (dbu, user) = create_or_get_user_spec(db, uid, s1.username@, None);
    let major = trim(split_on(arg, '\n')[0]);
    let minor = trim(split_on(arg, '\n')[1]);
    let (dbb, b) = create_or_get_book_spec(dbu, major);
    let (dbc, c) = create_or_get_chap_spec(dbb, None, b->Ok_0, uid, minor);
    let (dbr, r) = create_and_get_record_spec(dbc, new_session(uid, c->Ok_0, t));
    let row = r->Ok_0;
    let rid = row.rid->0;
    let records = db.records;
    lemma_next_id_fresh(record_ids(records));
    assert forall|j: int| 0 <= j < records.len() implies rid_is_not(rid)(#[trigger] records[j]) by {
        assert(record_ids(records)[j] == records[j].rid);
    }
    let db1 = checkin_spec(db, Some(s1), arg, t).0;
    assert(db1 == update_current_record_spec(dbr, uid, Some(rid)));
    lemma_first_index(dbu.users, uid_is(uid));
    law_current_record_read_after_update(dbr, uid, Some(rid), s2.username@);
    law_user_idempotent(dbu, uid, s1.username@, None, s2.username@, None);
    let (dbv, user2) = create_or_get_user_spec(db1, uid, s2.username@, None);
    assert(dbv == db1);
    assert(db1.records =~= records.push(row));
    records.lemma_filter_push(row, rid_is_not(rid));
    lemma_filter_all(records, rid_is_not(rid));
    let db2 = abandon_spec(db1, Some(s2)).0;
    assert(db2.records == records);
    law_current_record_read_after_update(delete_record_spec(db1, rid), uid, None, s2.username@);
}

/// A checkin keeps the keys of the tables unique.
proof fn lemma_checkin_keeps_keys_unique(db: DbView, s: Sender, arg: Seq<char>, now: i64)
    requires
        keys_unique(db),
    ensures
        keys_unique(checkin_spec(db, Some(s), arg, now).0),
{
    law_user_keeps_keys_unique(db, s.uid, s.username@, None);
    let (db1, user) = create_or_get_user_spec(db, s.uid, s.username@, None);
    let parts = split_on(arg, '\n');
    if parts.len() == 2 && user.current_rid is None {
        let major = trim(parts[0]);
        let minor = trim(parts[1]);
        law_book_keeps_keys_unique(db1, major);
        let (dbb, b) = create_or_get_book_spec(db1, major);
        if let Ok(bid) = b {
            law_chap_keeps_keys_unique(dbb, None, bid, s.uid, minor);
            let (dbc, c) = create_or_get_chap_spec(dbb, None, bid, s.uid, minor);
            if let Ok(cid) = c {
                law_record_insert_keeps_keys_unique(dbc, new_session(s.uid, cid, now));
                let (dbr, r) = create_and_get_record_spec(dbc, new_session(s.uid, cid, now));
                if let Ok(rec) = r {
                    law_update_current_keeps_keys_unique(dbr, s.uid, rec.rid);
                }
            }
        }
    }
}

/// Every command keeps the keys of the tables unique.
pub proof fn law_answer_keeps_keys_unique(db: DbView, sender: Option<Sender>, cmd: Command, now: i64)
    requires
        keys_unique(db),
    ensures
        keys_unique(answer_spec(db, sender, cmd, now).0),
{
    if let Some(s) = sender {
        law_user_keeps_keys_unique(db, s.uid, s.username@, None);
        let (db1, user) = create_or_get_user_spec(db, s.uid, s.username@, None);
        match cmd {
            Command::Checkin(arg) => {
                lemma_checkin_keeps_keys_unique(db, s, arg@, now);
            },
            Command::Checkout => {
                if let Some(rid) = user.current_rid {
                    law_record_finish_keeps_keys_unique(db1, rid, now);
                    let db2 = finish_record_spec(db1, rid, now).0;
                    law_update_current_keeps_keys_unique(db2, s.uid, None);
                }
            },
            Command::Abandon => {
                if let Some(rid) = user.current_rid {
                    law_record_delete_keeps_keys_unique(db1, rid);
                    law_update_current_keeps_keys_unique(delete_record_spec(db1, rid), s.uid, None);
                }
            },
            Command::Cuiwo(secs) => {
                law_reminder_delete_keeps_keys_unique(db1, s.uid);
                law_reminder_insert_keeps_keys_unique(
                    delete_reminder_spec(db1, s.uid).0,
                    crate::bot::interval_reminder(s.uid, secs),
                );
            },
            Command::Biecuiwole => {
                law_reminder_delete_keeps_keys_unique(db, s.uid);
            },
            _ => {},
        }
    }
}

/// Every command keeps the store consistent: the keys of the tables stay unique, and
/// each user's open session stays an unfinished session of that user. So a user's
/// open session is only ever set by a checkin, to the session it opens, and cleared
/// by a checkout (after closing it) or an abandon (after deleting it).
pub proof fn law_answer_keeps_sessions_open(db: DbView, sender: Option<Sender>, cmd: Command, now: i64)
    requires
        keys_unique(db),
        sessions_open(db),
    ensures
        keys_unique(answer_spec(db, sender, cmd, now).0),
        sessions_open(answer_spec(db, sender, cmd, now).0),
{
    law_answer_keeps_keys_unique(db, sender, cmd, now);
    lemma_answer_keeps_sessions_consistent(db, sender, cmd, now);
}

/// The empty store has unique keys and no open session.
pub proof fn law_empty_store_consistent(db: DbView)
    requires
        db.books.len() == 0,
        db.chaps.len() == 0,
        db.records.len() == 0,
        db.reminders.len() == 0,
        db.users.len() == 0,
    ensures
        keys_unique(db),
        sessions_open(db),
{
}

/// Two different titles, looked up or created one after the other, get different
/// book identifiers.
pub proof fn law_book_distinct_titles(db: DbView, t1: Seq<char>, t2: Seq<char>)
    requires
        keys_unique(db),
        t1 != t2,
        create_or_get_book_spec(db, t1).1 is Ok,
        create_or_get_book_spec(create_or_get_book_spec(db, t1).0, t2).1 is Ok,
    ensures
        create_or_get_book_spec(db, t1).1 != create_or_get_book_spec(create_or_get_book_spec(db, t1).0, t2).1,
{
    let (db1, r1) = create_or_get_book_spec(db, t1);
    let b1 = r1->Ok_0;
    let (db2, r2) = create_or_get_book_spec(db1, t2);
    let b2 = r2->Ok_0;
    lemma_first_index(db.books, title_is(t1));
    lemma_first_index(db1.books, title_is(t2));
    lemma_next_id_above(book_ids(db.books));
    lemma_next_id_above(book_ids(db1.books));
    match first_index(db.books, title_is(t1)) {
        Some(i) => {
            assert(db1 == db);
            match first_index(db1.books, title_is(t2)) {
                Some(j) => {
                    assert(i != j);
                    assert(!book_clash()(db.books[i], db.books[j]));
                },
                None => {
                    assert(book_ids(db.books)[i] == Some(b1));
                },
            }
        },
        None => {
            let x = crate::models::BookView { bid: Some(b1), title: t1 };
            assert(db1.books == db.books.push(x));
            match first_index(db1.books, title_is(t2)) {
                Some(j) => {
                    assert(j < db.books.len());
                    assert(db1.books[j] == db.books[j]);
                    assert(book_ids(db.books)[j] == Some(b2));
                },
                None => {
                    assert(book_ids(db1.books)[db.books.len() as int] == Some(b1));
                },
            }
        },
    }
}

/// A chapter is looked up by its book and heading alone: a second lookup, by any
/// creator, gives the same chapter and changes nothing.
pub proof fn law_chap_any_creator(db: DbView, bid: i64, a: i64, b: i64, heading: Seq<char>)
    requires
        create_or_get_chap_spec(db, None, bid, a, heading).1 is Ok,
    ensures
        ({
            let (db1, c1) = create_or_get_chap_spec(db, None, bid, a, heading);
            let (db2, c2) = create_or_get_chap_spec(db1, None, bid, b, heading);
            db2 == db1 && c2 == c1
        }),
{
    let (db1, c1) = create_or_get_chap_spec(db, None, bid, a, heading);
    if first_index(db.chaps, chap_key_is(bid, heading)) is None {
        lemma_first_index_push(
            db.chaps,
            crate::models::ChapView { cid: Some(c1->Ok_0), bid: bid, creator_uid: a, heading: heading },
            chap_key_is(bid, heading),
        );
    }
}

/// Two chapters with different books or headings, looked up or created one after the
/// other, get different identifiers.
pub proof fn law_chap_distinct_keys(db: DbView, bid1: i64, h1: Seq<char>, bid2: i64, h2: Seq<char>, a: i64, b: i64)
    requires
        keys_unique(db),
        bid1 != bid2 || h1 != h2,
        create_or_get_chap_spec(db, None, bid1, a, h1).1 is Ok,
        create_or_get_chap_spec(create_or_get_chap_spec(db, None, bid1, a, h1).0, None, bid2, b, h2).1 is Ok,
    ensures
        create_or_get_chap_spec(db, None, bid1, a, h1).1 != create_or_get_chap_spec(
            create_or_get_chap_spec(db, None, bid1, a, h1).0,
            None,
            bid2,
            b,
            h2,
        ).1,
{
    let (db1, r1) = create_or_get_chap_spec(db, None, bid1, a, h1);
    let c1 = r1->Ok_0;
    let (db2, r2) = create_or_get_chap_spec(db1, None, bid2, b, h2);
    let c2 = r2->Ok_0;
    lemma_first_index(db.chaps, chap_key_is(bid1, h1));
    lemma_first_index(db1.chaps, chap_key_is(bid2, h2));
    lemma_next_id_above(chap_ids(db.chaps));
    lemma_next_id_above(chap_ids(db1.chaps));
    match first_index(db.chaps, chap_key_is(bid1, h1)) {
        Some(i) => {
            assert(db1 == db);
            assert(chap_ids(db.chaps)[i] == Some(c1));
            match first_index(db1.chaps, chap_key_is(bid2, h2)) {
                Some(j) => {
                    assert(i != j);
                    assert(!chap_clash()(db.chaps[i], db.chaps[j]));
                },
                None => {
                    let n2 = next_id(chap_ids(db1.chaps))->0;
                    let y = crate::models::ChapView { cid: Some(n2), bid: bid2, creator_uid: b, heading: h2 };
                    assert(db2.chaps == db1.chaps.push(y));
                    lemma_first_index_push(db1.chaps, y, chap_key_is(bid2, h2));
                },
            }
        },
        None => {
            let n1 = next_id(chap_ids(db.chaps))->0;
            let x = crate::models::ChapView { cid: Some(n1), bid: bid1, creator_uid: a, heading: h1 };
            assert(db1.chaps == db.chaps.push(x));
            lemma_first_index_push(db.chaps, x, chap_key_is(bid1, h1));
            assert(c1 == n1);
            match first_index(db1.chaps, chap_key_is(bid2, h2)) {
                Some(j) => {
                    assert(j < db.chaps.len());
                    assert(db1.chaps[j] == db.chaps[j]);
                    assert(chap_ids(db.chaps)[j] == Some(c2));
                },
                None => {
                    let n2 = next_id(chap_ids(db1.chaps))->0;
                    let y = crate::models::ChapView { cid: Some(n2), bid: bid2, creator_uid: b, heading: h2 };
                    assert(db2.chaps == db1.chaps.push(y));
                    lemma_first_index_push(db1.chaps, y, chap_key_is(bid2, h2));
                    assert(chap_ids(db1.chaps)[db.chaps.len() as int] == Some(c1));
                },
            }
        },
    }
}

/// What a record adds to the time read by user `uid`.
spec fn added_secs(r: Record, uid: i64) -> int {
    if counts_for(uid)(r) {
        elapsed_secs(r)
    } else {
        0
    }
}

/// Replacing one record changes a user's time read by the difference of what the
/// two records add.
proof fn lemma_total_update(s: Seq<Record>, k: int, y: Record, uid: i64)
    requires
        0 <= k < s.len(),
    ensures
        total_secs(s.update(k, y), uid) == total_secs(s, uid) - added_secs(s[k], uid) + added_secs(y, uid),
    decreases s.len(),
{
    let t = s.update(k, y);
    if k == s.len() - 1 {
        assert(t.drop_last() =~= s.drop_last());
    } else {
        assert(t.drop_last() =~= s.drop_last().update(k, y));
        lemma_total_update(s.drop_last(), k, y, uid);
    }
}

/// Closing an unfinished session adds its length to its user's time read, and
/// changes nobody else's.
pub proof fn law_finish_adds_to_time_read(db: DbView, rid: i64, totime: i64, uid: i64)
    requires
        keys_unique(db),
        finish_record_spec(db, rid, totime).1 is Ok,
    ensures
        ({
            let r = db.records[first_index(db.records, rid_is(rid))->0];
            let db1 = finish_record_spec(db, rid, totime).0;
            &&& uid != r.uid ==> total_secs(db1.records, uid) == total_secs(db.records, uid)
            &&& (uid == r.uid && r.totime is None) ==> total_secs(db1.records, uid) == total_secs(db.records, uid)
                + unsigned_secs(totime - r.fromtime)
        }),
{
    lemma_first_index(db.records, rid_is(rid));
    let k = first_index(db.records, rid_is(rid))->0;
    let r = db.records[k];
    let closed = Record { totime: Some(totime), ..r };
    let db1 = finish_record_spec(db, rid, totime).0;
    assert forall|j: int| 0 <= j < db.records.len() && j != k implies #[trigger] db.records[j].rid != Some(rid) by {
        assert(db.records[k].rid is Some);
    }
    assert(db1.records =~= db.records.update(k, closed));
    lemma_total_update(db.records, k, closed, uid);
    assert(counts_for(r.uid)(closed));
    assert(elapsed_secs(closed) == unsigned_secs(totime - r.fromtime));
}

/// Inserting a session adds its length to its user's time read when it is
/// finished, and changes nothing else: an unfinished session adds nothing, and other
/// users' time read stays as it was.
pub proof fn law_insert_adds_to_time_read(db: DbView, data: NewRecord, uid: i64)
    requires
        create_and_get_record_spec(db, data).1 is Ok,
    ensures
        total_secs(create_and_get_record_spec(db, data).0.records, uid) == total_secs(db.records, uid) + if uid
            == data.uid && data.totime is Some {
            unsigned_secs(data.totime->0 - data.fromtime)
        } else {
            0
        },
{
    let (db1, r) = create_and_get_record_spec(db, data);
    let row = r->Ok_0;
    assert(db1.records == db.records.push(row));
    assert(db.records.push(row).drop_last() =~= db.records);
}

/// `secs` is `m` whole minutes and `sec` seconds.
pub open spec fn minutes_and_seconds(secs: int, m: int, sec: int) -> bool {
    0 <= m && 0 <= sec < 60 && m * 60 + sec == secs
}

proof fn lemma_split_minutes(secs: int, m: int, sec: int)
    requires
        secs >= 0,
        minutes_and_seconds(secs, m, sec),
    ensures
        secs / 60 == m,
        secs % 60 == sec,
{
    vstd::arithmetic::div_mod::lemma_fundamental_div_mod_converse(secs, 60, m, sec);
}

/// A checkout reports a session of `secs` seconds as its whole minutes and the
/// seconds left over: the minutes times 60 plus the seconds is the length.
pub proof fn law_finished_text_minutes_seconds(secs: u64, m: int, sec: int)
    requires
        minutes_and_seconds(secs as int, m, sec),
    ensures
        finished_text(secs) == "你结束了本次阅读，共计 "@ + crate::text::decimal(m as nat) + " 分 "@ + crate::text::decimal(
            sec as nat,
        ) + " 秒"@,
{
    lemma_split_minutes(secs as int, m, sec);
}

/// The time read is reported as its whole minutes and the seconds left over: the
/// minutes times 60 plus the seconds is the total.
pub proof fn law_total_text_minutes_seconds(secs: u64, m: int, sec: int)
    requires
        minutes_and_seconds(secs as int, m, sec),
    ensures
        total_text(secs) == "你总共阅读了 "@ + crate::text::decimal(m as nat) + " 分 "@ + crate::text::decimal(sec as nat)
            + " 秒"@,
{
    lemma_split_minutes(secs as int, m, sec);
}

/// A request to be reminded every `secs` seconds names the interval in whole
/// minutes: `m` with `m * 60 <= secs < (m + 1) * 60`.
pub proof fn law_remind_text_minutes(secs: u32, m: int)
    requires
        0 <= m,
        m * 60 <= secs < m * 60 + 60,
    ensures
        remind_text(secs) == "好的，我会在 "@ + crate::text::decimal(m as nat) + " 分钟后提醒你读书"@,
{
    lemma_split_minutes(secs as int, m, secs - m * 60);
}

/// The answer to `/me` tells the sender's time read, the sum of the lengths of the
/// sender's finished sessions, as whole minutes and seconds left over.
pub proof fn law_me_reports_time_read(db: DbView, s: Sender, m: int, sec: int)
    requires
        total_defined(db.records, s.uid),
        minutes_and_seconds(total_secs(db.records, s.uid), m, sec),
    ensures
        me_spec(db, Some(s)).1 == Ok::<ReplyView, Failure>(
            ReplyView::Text(
                "你总共阅读了 "@ + crate::text::decimal(m as nat) + " 分 "@ + crate::text::decimal(sec as nat) + " 秒"@,
            ),
        ),
{
    lemma_user_created_uid(db, s.uid, s.username@);
    law_total_text_minutes_seconds(total_secs(db.records, s.uid) as u64, m, sec);
}

/// Looking up or creating a user gives a user with that identifier and leaves the
/// records alone.
proof fn lemma_user_created_uid(db: DbView, uid: i64, name: Seq<char>)
    ensures
        create_or_get_user_spec(db, uid, name, None).1.uid == uid,
        create_or_get_user_spec(db, uid, name, None).0.records == db.records,
{
    lemma_first_index(db.users, uid_is(uid));
}

/// A checkin followed by a checkout of the same sender reports the time between them
/// as whole minutes and seconds left over.
pub proof fn law_checkin_then_checkout_minutes(db: DbView, s1: Sender, s2: Sender, arg: Seq<char>, t1: i64, t2: i64, m: int, sec: int)
    requires
        keys_unique(db),
        sessions_open(db),
        s1.uid == s2.uid,
        split_on(arg, '\n').len() == 2,
        create_or_get_user_spec(db, s1.uid, s1.username@, None).1.current_rid is None,
        checkin_transaction_spec(
            create_or_get_user_spec(db, s1.uid, s1.username@, None).0,
            s1.uid,
            trim(split_on(arg, '\n')[0]),
            trim(split_on(arg, '\n')[1]),
            t1,
        ) is Ok,
        0 <= t2 - t1 <= i64::MAX,
        minutes_and_seconds(t2 - t1, m, sec),
    ensures
        checkout_spec(checkin_spec(db, Some(s1), arg, t1).0, Some(s2), t2).1 == Ok::<ReplyView, Failure>(
            ReplyView::Text(
                "你结束了本次阅读，共计 "@ + crate::text::decimal(m as nat) + " 分 "@ + crate::text::decimal(sec as nat)
                    + " 秒"@,
            ),
        ),
{
    law_checkin_then_checkout(db, s1, s2, arg, t1, t2);
    law_finished_text_minutes_seconds((t2 - t1) as u64, m, sec);
}

/// The reminders started when the bot starts: for each entry, the user has a default
/// reminder with an interval, and the entry's interval is that one, or an hour when it
/// is shorter.
pub proof fn law_startup_interval_is_reminder_interval(db: DbView, users: Seq<UserView>)
    ensures
        forall|k: int| 0 <= k < startup_plan(db, users).len() ==> {
            let (u, i) = #[trigger] startup_plan(db, users)[k];
            get_default_reminders_spec(db, u.uid) matches Ok(r) && r.interval matches Some(v) && i as int == (if v
                < 3600 {
                3600
            } else {
                v as int
            })
        },
    decreases users.len(),
{
    if users.len() > 0 {
        law_startup_interval_is_reminder_interval(db, users.drop_last());
        let rest = startup_plan(db, users.drop_last());
        let u = users.last();
        if let Ok(r) = get_default_reminders_spec(db, u.uid) {
            if let Some(v) = r.interval {
                let w: i64 = if v < 3600 { 3600 } else { v };
                assert((w as u64) as int == w as int);
                let plan = rest.push((u, w as u64));
                assert(startup_plan(db, users) == plan);
                assert forall|k: int| 0 <= k < plan.len() implies {
                    let (u, i) = #[trigger] plan[k];
                    get_default_reminders_spec(db, u.uid) matches Ok(r) && r.interval matches Some(v) && i as int == (if v
                        < 3600 {
                        3600
                    } else {
                        v as int
                    })
                } by {
                    if k < rest.len() {
                        assert(plan[k] == rest[k]);
                    }
                }
            }
        }
    }
}

/// Deleting the records with identifier `rid` keeps every other record: each record
/// with another identifier is still there, and every record left has another
/// identifier and was there before.
pub proof fn law_delete_keeps_other_records(db: DbView, rid: i64)
    ensures
        forall|j: int| 0 <= j < db.records.len() && (#[trigger] db.records[j]).rid != Some(rid)
            ==> delete_record_spec(db, rid).records.contains(db.records[j]),
        forall|k: int| 0 <= k < delete_record_spec(db, rid).records.len() ==> (#[trigger] delete_record_spec(db, rid).records[k]).rid
            != Some(rid) && db.records.contains(delete_record_spec(db, rid).records[k]),
{
    let kept = delete_record_spec(db, rid).records;
    assert forall|j: int| 0 <= j < db.records.len() && (#[trigger] db.records[j]).rid != Some(rid) implies kept.contains(db.records[j]) by {
        db.records.lemma_filter_contains(rid_is_not(rid), j);
    }
    assert forall|k: int| 0 <= k < kept.len() implies (#[trigger] kept[k]).rid != Some(rid) && db.records.contains(kept[k]) by {
        db.records.lemma_filter_pred(rid_is_not(rid), k);
        assert(kept.contains(kept[k]));
        db.records.lemma_filter_contains_rev(rid_is_not(rid), kept[k]);
    }
}

/// Deleting session `rid` leaves the time read of every user unchanged unless a
/// record with that identifier counted for the user.
pub proof fn law_delete_keeps_time_read(db: DbView, rid: i64, uid: i64)
    requires
        forall|j: int| 0 <= j < db.records.len() && (#[trigger] db.records[j]).rid == Some(rid) ==> !counts_for(uid)(
            db.records[j],
        ),
    ensures
        total_secs(delete_record_spec(db, rid).records, uid) == total_secs(db.records, uid),
{
    lemma_delete_total(db.records, rid, uid);
}

proof fn lemma_delete_total(records: Seq<Record>, rid: i64, uid: i64)
    requires
        forall|j: int| 0 <= j < records.len() && (#[trigger] records[j]).rid == Some(rid) ==> !counts_for(uid)(records[j]),
    ensures
        total_secs(records.filter(rid_is_not(rid)), uid) == total_secs(records, uid),
    decreases records.len(),
{
    reveal(Seq::filter);
    if records.len() > 0 {
        let rest = records.drop_last();
        assert forall|j: int| 0 <= j < rest.len() && (#[trigger] rest[j]).rid == Some(rid) implies !counts_for(uid)(rest[j]) by {
            assert(rest[j] == records[j]);
        }
        lemma_delete_total(rest, rid, uid);
        let last = records.last();
        assert(records[records.len() - 1] == last);
        let f = rest.filter(rid_is_not(rid));
        if rid_is_not(rid)(last) {
            assert(f.push(last).drop_last() =~= f);
        }
    }
}

/// An abandon leaves the time read of every user unchanged: the session it deletes
/// was unfinished, and every other record stays.
pub proof fn law_abandon_keeps_time_read(db: DbView, s: Sender, uid: i64)
    requires
        keys_unique(db),
        sessions_open(db),
    ensures
        total_secs(abandon_spec(db, Some(s)).0.records, uid) == total_secs(db.records, uid),
{
    lemma_user_created(db, s.uid, s.username@);
    let (db1, user) = create_or_get_user_spec(db, s.uid, s.username@, None);
    if let Some(rid) = user.current_rid {
        let k0 = choose|k: int| 0 <= k < db1.records.len() && #[trigger] db1.records[k].rid == Some(rid) && db1.records[k].uid == s.uid
            && db1.records[k].totime is None;
        assert forall|j: int| 0 <= j < db1.records.len() && (#[trigger] db1.records[j]).rid == Some(rid) implies !counts_for(uid)(db1.records[j]) by {
            assert(db1.records[k0].rid is Some);
            if j != k0 {
                assert(db1.records[j].rid != db1.records[k0].rid);
            }
        }
        law_delete_keeps_time_read(db1, rid, uid);
    }
}

} // verus!
