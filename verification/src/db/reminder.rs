//! The reminders table: how often a user asked to be reminded to read.

use vstd::prelude::*;
use crate::db::{first_index, fresh_id, id_in_use, lemma_first_index, lemma_first_index_is, lemma_first_index_take, next_id, Database, DbError, DbView};
use crate::models::{opt_string_view, NewReminder, Reminder, ReminderView};

verus! {

broadcast use vstd::seq_lib::group_seq_properties;

/// The identifiers of the reminders, in table order.
pub open spec fn reminder_ids(reminders: Seq<ReminderView>) -> Seq<Option<i64>> {
    reminders.map_values(|r: ReminderView| r.id)
}

/// The row that an insertion of `data` with identifier `id` creates.
pub open spec fn reminder_row(data: ReminderView, id: i64) -> ReminderView {
    ReminderView { id: Some(id), ..data }
}

/// The store after inserting the reminder `data`: with its own identifier unless a
/// reminder has it (`Err(UniqueViolation)`), else with a fresh one unless none is
/// left (`Err(Full)`). A failed insertion leaves the store as it was.
pub open spec fn create_reminder_spec(db: DbView, data: ReminderView) -> (DbView, Result<(), DbError>) {
    match data.id {
        Some(id) => if reminder_ids(db.reminders).contains(Some(id)) {
            (db, Err(DbError::UniqueViolation))
        } else {
            (DbView { reminders: db.reminders.push(reminder_row(data, id)), ..db }, Ok(()))
        },
        None => match next_id(reminder_ids(db.reminders)) {
            Some(id) => (DbView { reminders: db.reminders.push(reminder_row(data, id)), ..db }, Ok(())),
            None => (db, Err(DbError::Full)),
        },
    }
}

/// Holds of the reminders that do not belong to user `uid`.
pub open spec fn not_of_user(uid: i64) -> spec_fn(ReminderView) -> bool {
    |r: ReminderView| r.uid != uid
}

/// The store and the number of deleted rows after deleting every reminder of user `uid`.
pub open spec fn delete_reminder_spec(db: DbView, uid: i64) -> (DbView, nat) {
    let kept = db.reminders.filter(not_of_user(uid));
    (DbView { reminders: kept, ..db }, (db.reminders.len() - kept.len()) as nat)
}

/// Holds of the default reminders of user `uid`: those tied to no book.
pub open spec fn default_of(uid: i64) -> spec_fn(ReminderView) -> bool {
    |r: ReminderView| r.uid == uid && r.bid is None
}

/// The first default reminder of user `uid`, or `Err(NotFound)`.
pub open spec fn get_default_reminders_spec(db: DbView, uid: i64) -> Result<ReminderView, DbError> {
    match first_index(db.reminders, default_of(uid)) {
        Some(i) => Ok(db.reminders[i]),
        None => Err(DbError::NotFound),
    }
}

/// The mathematical value of a reminder to insert.
pub open spec fn new_reminder_view(data: NewReminder) -> ReminderView {
    ReminderView { id: data.id, uid: data.uid, bid: data.bid, cron: opt_string_view(data.cron), interval: data.interval }
}

/// Inserts a reminder: with the identifier of `data`, or a fresh one when it has none.
pub fn create_reminder(conn: &mut Database, data: NewReminder) -> (res: Result<(), DbError>)
    ensures
        create_reminder_spec(old(conn)@, new_reminder_view(data)) == (final(conn)@, res),
{
    let mut ids: Vec<Option<i64>> = Vec::new();
    let mut i: usize = 0;
    while i < conn.reminders.len()
        invariant
            i <= conn.reminders.len(),
            ids@ =~= reminder_ids(conn@.reminders).take(i as int),
        decreases conn.reminders.len() - i,
    {
        ids.push(conn.reminders[i].id);
        i = i + 1;
    }
    assert(ids@ =~= reminder_ids(conn@.reminders));
    let id = match data.id {
        Some(id) => {
            if id_in_use(&ids, id) {
                return Err(DbError::UniqueViolation);
            }
            id
        },
        None => match fresh_id(&ids) {
            Some(id) => id,
            None => {
                return Err(DbError::Full);
            },
        },
    };
    let row = Reminder { id: Some(id), uid: data.uid, bid: data.bid, cron: data.cron, interval: data.interval };
    let ghost before = conn.reminders@;
    conn.reminders.push(row);
    assert(conn.reminders@.map_values(|r: Reminder| r@) =~= before.map_values(|r: Reminder| r@).push(
        reminder_row(new_reminder_view(data), id),
    ));
    Ok(())
}

/// Deletes every reminder of user `uid` and returns how many there were.
pub fn delete_reminder(conn: &mut Database, uid: i64) -> (res: Result<usize, DbError>)
    ensures
        res matches Ok(n) && delete_reminder_spec(old(conn)@, uid) == (final(conn)@, n as nat),
{
    let mut reminders: Vec<Reminder> = Vec::new();
    std::mem::swap(&mut reminders, &mut conn.reminders);
    let ghost before = reminders@.map_values(|r: Reminder| r@);
    assert(before.len() == reminders.len());
    let mut i: usize = 0;
    let mut removed: usize = 0;
    let ghost mut j: int = 0;
    while i < reminders.len()
        invariant
            0 <= j <= before.len(),
            before.len() <= usize::MAX,
            i == before.take(j).filter(not_of_user(uid)).len(),
            removed == j - i,
            reminders@.map_values(|r: Reminder| r@) =~= before.take(j).filter(not_of_user(uid)) + before.skip(j),
        decreases reminders.len() - i,
    {
        let ghost kept = before.take(j).filter(not_of_user(uid));
        proof {
            assert(before.take(j + 1) =~= before.take(j).push(before[j]));
            before.take(j).lemma_filter_push(before[j], not_of_user(uid));
            assert(reminders@.map_values(|r: Reminder| r@)[i as int] == before[j]);
            assert(before.skip(j) =~= seq![before[j]] + before.skip(j + 1));
        }
        let ghost prev = reminders@;
        if reminders[i].uid == uid {
            assert(!not_of_user(uid)(before[j]));
            reminders.remove(i);
            removed = removed + 1;
            assert(reminders@.map_values(|r: Reminder| r@) =~= prev.map_values(|r: Reminder| r@).remove(i as int));
            assert(reminders@.map_values(|r: Reminder| r@) =~= kept + before.skip(j + 1));
        } else {
            assert(not_of_user(uid)(before[j]));
            i = i + 1;
            assert(reminders@.map_values(|r: Reminder| r@) =~= kept.push(before[j]) + before.skip(j + 1));
        }
        proof {
            j = j + 1;
        }
    }
    proof {
        assert(j == before.len());
        assert(before.take(j) =~= before);
    }
    std::mem::swap(&mut reminders, &mut conn.reminders);
    Ok(removed)
}

/// The first reminder of user `uid` that is tied to no book; `Err(NotFound)` when there is none.
pub fn get_default_reminders(conn: &Database, uid: i64) -> (res: Result<Reminder, DbError>)
    ensures
        match (res, get_default_reminders_spec(conn@, uid)) {
            (Ok(r), Ok(v)) => r@ == v,
            (Err(e), Err(f)) => e == f,
            _ => false,
        },
{
    let ghost view = conn@.reminders;
    let mut i: usize = 0;
    while i < conn.reminders.len()
        invariant
            i <= conn.reminders.len(),
            view == conn@.reminders,
            first_index(view.take(i as int), default_of(uid)) is None,
        decreases conn.reminders.len() - i,
    {
        proof {
            lemma_first_index_take(view, i as int, default_of(uid));
        }
        if conn.reminders[i].uid == uid && conn.reminders[i].bid.is_none() {
            proof {
                lemma_first_index(view.take(i as int), default_of(uid));
                assert forall|j: int| 0 <= j < i implies !default_of(uid)(#[trigger] view[j]) by {
                    assert(view.take(i as int)[j] == view[j]);
                }
                lemma_first_index_is(view, default_of(uid), i as int);
            }
            return Ok(conn.reminders[i].clone());
        }
        i = i + 1;
    }
    assert(view.take(conn.reminders.len() as int) =~= view);
    Err(DbError::NotFound)
}

} // verus!
