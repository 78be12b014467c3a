//! Key uniqueness of the five tables: no two rows share a primary key, no two
//! books a title, and no two chapters of a book a heading. Every operation keeps it.

use vstd::prelude::*;
use crate::db::{first_index, lemma_first_index, lemma_max_id, lemma_next_id_fresh, next_id, DbView};
use crate::db::book::{book_ids, create_or_get_book_spec, title_is};
use crate::db::chap::{chap_ids, chap_key_is, create_or_get_chap_spec, insert_or_ignore_chap};
use crate::db::record::{close_if, create_and_get_record_spec, delete_record_spec, finish_record_spec, record_ids, rid_is_not};
use crate::db::reminder::{create_reminder_spec, delete_reminder_spec, not_of_user, reminder_ids};
use crate::db::user::{create_or_get_user_spec, set_current_if, uid_is, update_current_record_spec};
use crate::models::{BookView, ChapView, Record, ReminderView, UserView};

verus! {

broadcast use vstd::seq_lib::group_seq_properties;

/// No two records share an identifier.
pub open spec fn record_ids_unique(records: Seq<Record>) -> bool {
    forall|i: int, j: int|
        0 <= i < records.len() && 0 <= j < records.len() && i != j && (#[trigger] records[i]).rid is Some
            ==> records[i].rid != (#[trigger] records[j]).rid
}

/// Uniquely identified records stay so when some are left out.
pub proof fn lemma_filter_unique(records: Seq<Record>, p: spec_fn(Record) -> bool)
    requires
        record_ids_unique(records),
    ensures
        record_ids_unique(records.filter(p)),
    decreases records.len(),
{
    reveal(Seq::filter);
    if records.len() > 0 {
        let rest = records.drop_last();
        let last = records.last();
        assert forall|i: int, j: int|
            0 <= i < rest.len() && 0 <= j < rest.len() && i != j && (#[trigger] rest[i]).rid is Some implies rest[i].rid != (
            #[trigger] rest[j]).rid by {
            assert(rest[i] == records[i] && rest[j] == records[j]);
        }
        lemma_filter_unique(rest, p);
        let f = rest.filter(p);
        if p(last) {
            let g = f.push(last);
            assert forall|i: int, j: int|
                0 <= i < g.len() && 0 <= j < g.len() && i != j && (#[trigger] g[i]).rid is Some implies g[i].rid != (
                #[trigger] g[j]).rid by {
                if i == f.len() || j == f.len() {
                    let o = if i == f.len() { j } else { i };
                    assert(f.contains(f[o]));
                    rest.lemma_filter_contains_rev(p, f[o]);
                    let k = choose|k: int| 0 <= k < rest.len() && rest[k] == f[o];
                    assert(records[k] == rest[k]);
                    assert(records[records.len() - 1] == last);
                } else {
                    assert(g[i] == f[i] && g[j] == f[j]);
                }
            }
        }
    }
}

/// No two elements of `s`, at different positions, clash.
pub open spec fn no_two<T>(s: Seq<T>, clash: spec_fn(T, T) -> bool) -> bool {
    forall|i: int, j: int| 0 <= i < s.len() && 0 <= j < s.len() && i != j ==> !clash(#[trigger] s[i], #[trigger] s[j])
}

/// Two books clash when they share an identifier or a title.
pub open spec fn book_clash() -> spec_fn(BookView, BookView) -> bool {
    |a: BookView, b: BookView| (a.bid is Some && a.bid == b.bid) || a.title == b.title
}

/// Two chapters clash when they share an identifier, or a book and a heading.
pub open spec fn chap_clash() -> spec_fn(ChapView, ChapView) -> bool {
    |a: ChapView, b: ChapView| (a.cid is Some && a.cid == b.cid) || (a.bid == b.bid && a.heading == b.heading)
}

/// Two reminders clash when they share an identifier.
pub open spec fn reminder_clash() -> spec_fn(ReminderView, ReminderView) -> bool {
    |a: ReminderView, b: ReminderView| a.id is Some && a.id == b.id
}

/// Two users clash when they share an identifier.
pub open spec fn user_clash() -> spec_fn(UserView, UserView) -> bool {
    |a: UserView, b: UserView| a.uid == b.uid
}

/// No two rows of a table share a key.
pub open spec fn keys_unique(db: DbView) -> bool {
    &&& no_two(db.books, book_clash())
    &&& no_two(db.chaps, chap_clash())
    &&& record_ids_unique(db.records)
    &&& no_two(db.reminders, reminder_clash())
    &&& no_two(db.users, user_clash())
}

/// The empty store has unique keys.
pub proof fn law_empty_keys_unique(db: DbView)
    requires
        db.books.len() == 0,
        db.chaps.len() == 0,
        db.records.len() == 0,
        db.reminders.len() == 0,
        db.users.len() == 0,
    ensures
        keys_unique(db),
{
}

/// Appending an element that clashes with none keeps a sequence clash-free.
pub proof fn lemma_no_two_push<T>(s: Seq<T>, x: T, clash: spec_fn(T, T) -> bool)
    requires
        no_two(s, clash),
        forall|j: int| 0 <= j < s.len() ==> !clash(#[trigger] s[j], x) && !clash(x, s[j]),
    ensures
        no_two(s.push(x), clash),
{
    let t = s.push(x);
    assert forall|i: int, j: int| 0 <= i < t.len() && 0 <= j < t.len() && i != j implies !clash(#[trigger] t[i], #[trigger] t[j]) by {
        if i < s.len() && j < s.len() {
            assert(t[i] == s[i] && t[j] == s[j]);
        } else if i < s.len() {
            assert(t[i] == s[i]);
        } else {
            assert(t[j] == s[j]);
        }
    }
}

/// Leaving elements out keeps a sequence clash-free.
pub proof fn lemma_no_two_filter<T>(s: Seq<T>, p: spec_fn(T) -> bool, clash: spec_fn(T, T) -> bool)
    requires
        no_two(s, clash),
    ensures
        no_two(s.filter(p), clash),
    decreases s.len(),
{
    reveal(Seq::filter);
    if s.len() > 0 {
        let rest = s.drop_last();
        let last = s.last();
        assert forall|i: int, j: int| 0 <= i < rest.len() && 0 <= j < rest.len() && i != j implies !clash(#[trigger] rest[i], #[trigger] rest[j]) by {
            assert(rest[i] == s[i] && rest[j] == s[j]);
        }
        lemma_no_two_filter(rest, p, clash);
        let f = rest.filter(p);
        if p(last) {
            assert forall|j: int| 0 <= j < f.len() implies !clash(#[trigger] f[j], last) && !clash(last, f[j]) by {
                assert(f.contains(f[j]));
                rest.lemma_filter_contains_rev(p, f[j]);
                let k = choose|k: int| 0 <= k < rest.len() && rest[k] == f[j];
                assert(s[k] == rest[k]);
                assert(s[s.len() - 1] == last);
            }
            lemma_no_two_push(f, last, clash);
        }
    }
}

/// A map that creates no clash keeps a sequence clash-free.
pub proof fn lemma_no_two_map<T>(s: Seq<T>, f: spec_fn(T) -> T, clash: spec_fn(T, T) -> bool)
    requires
        no_two(s, clash),
        forall|a: T, b: T| #[trigger] clash(f(a), f(b)) ==> clash(a, b),
    ensures
        no_two(s.map_values(f), clash),
{
    let t = s.map_values(f);
    assert forall|i: int, j: int| 0 <= i < t.len() && 0 <= j < t.len() && i != j implies !clash(#[trigger] t[i], #[trigger] t[j]) by {
        assert(t[i] == f(s[i]) && t[j] == f(s[j]));
        assert(!clash(s[i], s[j]));
    }
}

/// A fresh identifier is larger than every identifier in use.
pub proof fn lemma_next_id_above(ids: Seq<Option<i64>>)
    ensures
        next_id(ids) matches Some(n) ==> forall|j: int| 0 <= j < ids.len() && (#[trigger] ids[j]) is Some ==> ids[j]->0 < n,
{
    lemma_max_id(ids);
}

/// Looking up or creating a book keeps the keys unique.
pub proof fn law_book_keeps_keys_unique(db: DbView, title: Seq<char>)
    requires
        keys_unique(db),
    ensures
        keys_unique(create_or_get_book_spec(db, title).0),
{
    if first_index(db.books, title_is(title)) is None {
        if let Some(b) = next_id(book_ids(db.books)) {
            lemma_first_index(db.books, title_is(title));
            lemma_next_id_fresh(book_ids(db.books));
            let x = BookView { bid: Some(b), title: title };
            assert forall|j: int| 0 <= j < db.books.len() implies !book_clash()(#[trigger] db.books[j], x) && !book_clash()(x, db.books[j]) by {
                assert(book_ids(db.books)[j] == db.books[j].bid);
                assert(!title_is(title)(db.books[j]));
            }
            lemma_no_two_push(db.books, x, book_clash());
        }
    }
}

/// Looking up or creating a chapter keeps the keys unique.
pub proof fn law_chap_keeps_keys_unique(db: DbView, cid: Option<i64>, bid: i64, creator_uid: i64, heading: Seq<char>)
    requires
        keys_unique(db),
    ensures
        keys_unique(create_or_get_chap_spec(db, cid, bid, creator_uid, heading).0),
{
    if let Ok(after) = insert_or_ignore_chap(db, cid, bid, creator_uid, heading) {
        if after != db {
            lemma_first_index(db.chaps, chap_key_is(bid, heading));
            lemma_next_id_fresh(chap_ids(db.chaps));
            let c = match cid {
                Some(c) => c,
                None => next_id(chap_ids(db.chaps))->0,
            };
            let x = ChapView { cid: Some(c), bid: bid, creator_uid: creator_uid, heading: heading };
            assert(after.chaps == db.chaps.push(x));
            assert forall|j: int| 0 <= j < db.chaps.len() implies !chap_clash()(#[trigger] db.chaps[j], x) && !chap_clash()(x, db.chaps[j]) by {
                assert(chap_ids(db.chaps)[j] == db.chaps[j].cid);
                assert(!chap_key_is(bid, heading)(db.chaps[j]));
            }
            lemma_no_two_push(db.chaps, x, chap_clash());
        }
    }
}

/// Appending a record with an unused identifier keeps record identifiers unique.
pub proof fn lemma_record_push_unique(records: Seq<Record>, row: Record)
    requires
        record_ids_unique(records),
        !record_ids(records).contains(row.rid),
    ensures
        record_ids_unique(records.push(row)),
{
    let rs = records.push(row);
    assert forall|i: int, j: int|
        0 <= i < rs.len() && 0 <= j < rs.len() && i != j && (#[trigger] rs[i]).rid is Some implies rs[i].rid != (
        #[trigger] rs[j]).rid by {
        if i == records.len() {
            assert(record_ids(records)[j] == records[j].rid);
        } else if j == records.len() {
            assert(record_ids(records)[i] == records[i].rid);
        } else {
            assert(rs[i] == records[i] && rs[j] == records[j]);
        }
    }
}

/// Inserting a record keeps the keys unique.
pub proof fn law_record_insert_keeps_keys_unique(db: DbView, data: crate::models::NewRecord)
    requires
        keys_unique(db),
    ensures
        keys_unique(create_and_get_record_spec(db, data).0),
{
    let (db1, r) = create_and_get_record_spec(db, data);
    if let Ok(row) = r {
        lemma_next_id_fresh(record_ids(db.records));
        assert(db1.records == db.records.push(row));
        lemma_record_push_unique(db.records, row);
    }
}

/// Deleting records keeps the keys unique.
pub proof fn law_record_delete_keeps_keys_unique(db: DbView, rid: i64)
    requires
        keys_unique(db),
    ensures
        keys_unique(delete_record_spec(db, rid)),
{
    lemma_filter_unique(db.records, rid_is_not(rid));
}

/// Closing records keeps the keys unique.
pub proof fn law_record_finish_keeps_keys_unique(db: DbView, rid: i64, totime: i64)
    requires
        keys_unique(db),
    ensures
        keys_unique(finish_record_spec(db, rid, totime).0),
{
    let rs = db.records.map_values(close_if(rid, totime));
    assert forall|i: int, j: int|
        0 <= i < rs.len() && 0 <= j < rs.len() && i != j && (#[trigger] rs[i]).rid is Some implies rs[i].rid != (
        #[trigger] rs[j]).rid by {
        assert(rs[i].rid == db.records[i].rid && rs[j].rid == db.records[j].rid);
    }
}

/// Inserting a reminder keeps the keys unique.
pub proof fn law_reminder_insert_keeps_keys_unique(db: DbView, data: ReminderView)
    requires
        keys_unique(db),
    ensures
        keys_unique(create_reminder_spec(db, data).0),
{
    let (db1, r) = create_reminder_spec(db, data);
    if r is Ok {
        lemma_next_id_fresh(reminder_ids(db.reminders));
        let id = match data.id {
            Some(id) => id,
            None => next_id(reminder_ids(db.reminders))->0,
        };
        let x = ReminderView { id: Some(id), ..data };
        assert(db1.reminders == db.reminders.push(x));
        assert forall|j: int| 0 <= j < db.reminders.len() implies !reminder_clash()(#[trigger] db.reminders[j], x)
            && !reminder_clash()(x, db.reminders[j]) by {
            assert(reminder_ids(db.reminders)[j] == db.reminders[j].id);
        }
        lemma_no_two_push(db.reminders, x, reminder_clash());
    }
}

/// Deleting reminders keeps the keys unique.
pub proof fn law_reminder_delete_keeps_keys_unique(db: DbView, uid: i64)
    requires
        keys_unique(db),
    ensures
        keys_unique(delete_reminder_spec(db, uid).0),
{
    lemma_no_two_filter(db.reminders, not_of_user(uid), reminder_clash());
}

/// Looking up or creating a user keeps the keys unique.
pub proof fn law_user_keeps_keys_unique(db: DbView, uid: i64, name: Seq<char>, rid: Option<i64>)
    requires
        keys_unique(db),
    ensures
        keys_unique(create_or_get_user_spec(db, uid, name, rid).0),
{
    lemma_first_index(db.users, uid_is(uid));
    if first_index(db.users, uid_is(uid)) is None {
        let x = UserView { uid: uid, username: name, current_rid: rid };
        assert forall|j: int| 0 <= j < db.users.len() implies !user_clash()(#[trigger] db.users[j], x) && !user_clash()(x, db.users[j]) by {
            assert(!uid_is(uid)(db.users[j]));
        }
        lemma_no_two_push(db.users, x, user_clash());
    }
}

/// Setting open sessions keeps the keys unique.
pub proof fn law_update_current_keeps_keys_unique(db: DbView, uid: i64, rid: Option<i64>)
    requires
        keys_unique(db),
    ensures
        keys_unique(update_current_record_spec(db, uid, rid)),
{
    lemma_no_two_map(db.users, set_current_if(uid, rid), user_clash());
}

} // verus!
