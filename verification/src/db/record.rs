//! The records table: reading sessions, and the time read that they add up to.

use vstd::prelude::*;
use crate::db::{first_index, fresh_id, id_in_use, lemma_first_index, lemma_first_index_is, lemma_first_index_take, next_id, Database, DbError, DbView};
use crate::models::{NewRecord, Record, User};

verus! {

broadcast use vstd::seq_lib::group_seq_properties;

/// Holds of the records with identifier `rid`.
pub open spec fn rid_is(rid: i64) -> spec_fn(Record) -> bool {
    |r: Record| r.rid == Some(rid)
}

/// Holds of the records that `rid` does not identify.
pub open spec fn rid_is_not(rid: i64) -> spec_fn(Record) -> bool {
    |r: Record| r.rid != Some(rid)
}

/// The identifiers of the records, in table order.
pub open spec fn record_ids(records: Seq<Record>) -> Seq<Option<i64>> {
    records.map_values(|r: Record| r.rid)
}

/// The row that an insertion of `data` with identifier `rid` creates.
pub open spec fn record_row(data: NewRecord, rid: i64) -> Record {
    Record { rid: Some(rid), uid: data.uid, cid: data.cid, fromtime: data.fromtime, totime: data.totime }
}

/// The store and the inserted row after inserting `data`: with its own identifier
/// unless a record has it (`Err(UniqueViolation)`), else with a fresh one unless
/// none is left (`Err(Full)`). A failed insertion leaves the store as it was.
pub open spec fn create_and_get_record_spec(db: DbView, data: NewRecord) -> (DbView, Result<Record, DbError>) {
    match data.rid {
        Some(r) => if record_ids(db.records).contains(Some(r)) {
            (db, Err(DbError::UniqueViolation))
        } else {
            (DbView { records: db.records.push(record_row(data, r)), ..db }, Ok(record_row(data, r)))
        },
        None => match next_id(record_ids(db.records)) {
            Some(r) => (DbView { records: db.records.push(record_row(data, r)), ..db }, Ok(record_row(data, r))),
            None => (db, Err(DbError::Full)),
        },
    }
}

/// The store after deleting every record with identifier `rid`.
pub open spec fn delete_record_spec(db: DbView, rid: i64) -> DbView {
    DbView { records: db.records.filter(rid_is_not(rid)), ..db }
}

/// A record closed at `totime` when `rid` identifies it, unchanged otherwise.
pub open spec fn close_if(rid: i64, totime: i64) -> spec_fn(Record) -> Record {
    |r: Record| if r.rid == Some(rid) { Record { totime: Some(totime), ..r } } else { r }
}

/// The store and the start time after closing at `totime` every record with
/// identifier `rid`; the start time is that of the first such record, and
/// `Err(NotFound)` with the store unchanged when there is none.
pub open spec fn finish_record_spec(db: DbView, rid: i64, totime: i64) -> (DbView, Result<i64, DbError>) {
    match first_index(db.records, rid_is(rid)) {
        Some(i) => (
            DbView { records: db.records.map_values(close_if(rid, totime)), ..db },
            Ok(db.records[i].fromtime),
        ),
        None => (db, Err(DbError::NotFound)),
    }
}

/// The first record with identifier `rid`, or `Err(NotFound)`.
pub open spec fn get_record_spec(db: DbView, rid: i64) -> Result<Record, DbError> {
    match first_index(db.records, rid_is(rid)) {
        Some(i) => Ok(db.records[i]),
        None => Err(DbError::NotFound),
    }
}

/// Holds of the finished records of user `uid`: those that count towards the time read.
pub open spec fn counts_for(uid: i64) -> spec_fn(Record) -> bool {
    |r: Record| r.uid == uid && r.totime is Some
}

/// The length of a finished session, end minus start.
pub open spec fn elapsed(r: Record) -> int {
    r.totime->0 - r.fromtime
}

/// A length of time in seconds read as an unsigned 64-bit number, as a cast does:
/// a negative length `d` becomes `d + 2^64`.
pub open spec fn unsigned_secs(d: int) -> int {
    if d >= 0 {
        d
    } else {
        d + 0x1_0000_0000_0000_0000
    }
}

/// The seconds that a finished session adds: its length, read as an unsigned
/// 64-bit number.
pub open spec fn elapsed_secs(r: Record) -> int {
    unsigned_secs(elapsed(r))
}

/// The seconds from `from` to `to`, read as an unsigned 64-bit number; `None` when
/// the difference does not fit in an `i64`.
pub fn secs_between(from: i64, to: i64) -> (res: Option<u64>)
    ensures
        res matches Some(s) ==> i64::MIN <= to - from <= i64::MAX && s == unsigned_secs(to - from),
        res is None ==> !(i64::MIN <= to - from <= i64::MAX),
{
    match to.checked_sub(from) {
        Some(d) => if d >= 0 {
            Some(d as u64)
        } else {
            Some(u64::MAX - ((-(d + 1)) as u64))
        },
        None => None,
    }
}

/// The seconds that the finished records of user `uid` add up to.
pub open spec fn total_secs(records: Seq<Record>, uid: i64) -> int
    decreases records.len(),
{
    if records.len() == 0 {
        0
    } else {
        total_secs(records.drop_last(), uid) + if counts_for(uid)(records.last()) {
            elapsed_secs(records.last())
        } else {
            0
        }
    }
}

/// The time read by user `uid` can be computed: each finished session's length fits in
/// an `i64`, and the sum fits in a `u64`.
pub open spec fn total_defined(records: Seq<Record>, uid: i64) -> bool {
    &&& forall|j: int| 0 <= j < records.len() && counts_for(uid)(#[trigger] records[j])
        ==> i64::MIN <= elapsed(records[j]) <= i64::MAX
    &&& total_secs(records, uid) <= u64::MAX
}

/// The total of a prefix extended by the next record.
proof fn lemma_total_take(records: Seq<Record>, uid: i64, i: int)
    requires
        0 <= i < records.len(),
    ensures
        total_secs(records.take(i + 1), uid) == total_secs(records.take(i), uid) + if counts_for(uid)(
            records[i],
        ) {
            elapsed_secs(records[i])
        } else {
            0
        },
{
    assert(records.take(i + 1).drop_last() =~= records.take(i));
}

/// Totals never decrease along prefixes, and are never negative.
proof fn lemma_total_monotone(records: Seq<Record>, uid: i64, i: int)
    requires
        0 <= i <= records.len(),
    ensures
        0 <= total_secs(records.take(i), uid) <= total_secs(records, uid),
    decreases records.len() - i,
{
    lemma_total_nonneg(records.take(i), uid);
    if i < records.len() {
        lemma_total_take(records, uid, i);
        lemma_total_monotone(records, uid, i + 1);
    } else {
        assert(records.take(i) =~= records);
    }
}

proof fn lemma_total_nonneg(records: Seq<Record>, uid: i64)
    ensures
        total_secs(records, uid) >= 0,
    decreases records.len(),
{
    if records.len() > 0 {
        lemma_total_nonneg(records.drop_last(), uid);
    }
}

/// The time read by user `uid`, in seconds, or `None` when a session's length or
/// the sum overflows.
pub fn checked_duration_sum(conn: &Database, uid: i64) -> (res: Option<u64>)
    ensures
        res matches Some(s) ==> total_defined(conn@.records, uid) && s == total_secs(conn@.records, uid),
        res is None ==> !total_defined(conn@.records, uid),
{
    let records = &conn.records;
    let mut sum: u64 = 0;
    let mut i: usize = 0;
    while i < records.len()
        invariant
            i <= records.len(),
            records@ == conn@.records,
            sum == total_secs(records@.take(i as int), uid),
            forall|j: int| 0 <= j < i && counts_for(uid)(#[trigger] records@[j])
                ==> i64::MIN <= elapsed(records@[j]) <= i64::MAX,
        decreases records.len() - i,
    {
        proof {
            lemma_total_take(records@, uid, i as int);
        }
        let r = records[i];
        if r.uid == uid && r.totime.is_some() {
            let secs = match secs_between(r.fromtime, r.totime.unwrap()) {
                Some(d) => d,
                None => {
                    return None;
                },
            };
            sum = match sum.checked_add(secs) {
                Some(s) => s,
                None => {
                    proof {
                        lemma_total_monotone(records@, uid, i + 1);
                    }
                    return None;
                },
            };
        }
        i = i + 1;
    }
    assert(records@.take(records.len() as int) =~= records@);
    Some(sum)
}

/// Inserts a reading session and returns the row as stored: with the identifier of
/// `data`, or a fresh one when `data` has none.
pub fn create_and_get_record(conn: &mut Database, data: NewRecord) -> (res: Result<Record, DbError>)
    ensures
        create_and_get_record_spec(old(conn)@, data) == (final(conn)@, res),
{
    let mut ids: Vec<Option<i64>> = Vec::new();
    let mut i: usize = 0;
    while i < conn.records.len()
        invariant
            i <= conn.records.len(),
            ids@ =~= record_ids(conn.records@).take(i as int),
        decreases conn.records.len() - i,
    {
        ids.push(conn.records[i].rid);
        i = i + 1;
    }
    assert(ids@ =~= record_ids(conn.records@));
    let rid = match data.rid {
        Some(r) => {
            if id_in_use(&ids, r) {
                return Err(DbError::UniqueViolation);
            }
            r
        },
        None => match fresh_id(&ids) {
            Some(r) => r,
            None => {
                return Err(DbError::Full);
            },
        },
    };
    let row = Record { rid: Some(rid), uid: data.uid, cid: data.cid, fromtime: data.fromtime, totime: data.totime };
    let ghost before = conn@;
    conn.records.push(row);
    assert(row == record_row(data, rid));
    assert(conn@.records =~= before.records.push(row));
    assert(conn@ == DbView { records: before.records.push(row), ..before });
    Ok(row)
}

/// Deletes every record with identifier `rid`.
pub fn delete_record(conn: &mut Database, rid: i64) -> (res: Result<(), DbError>)
    ensures
        res is Ok,
        final(conn)@ == delete_record_spec(old(conn)@, rid),
{
    let mut records: Vec<Record> = Vec::new();
    std::mem::swap(&mut records, &mut conn.records);
    let ghost before = records@;
    
    let mut i: usize = 0;
    let ghost mut j: int = 0;
    while i < records.len()
        invariant
            0 <= j <= before.len(),
            i == before.take(j).filter(rid_is_not(rid)).len(),
            records@ =~= before.take(j).filter(rid_is_not(rid)) + before.skip(j),
        decreases records.len() - i,
    {
        proof {
            assert(before.take(j + 1) =~= before.take(j).push(before[j]));
            before.take(j).lemma_filter_push(before[j], rid_is_not(rid));
            assert(records@[i as int] == before[j]);
        }
        let ghost prev = records@;
        let ghost kept = before.take(j).filter(rid_is_not(rid));
        assert(before.skip(j) =~= seq![before[j]] + before.skip(j + 1));
        if records[i].rid == Some(rid) {
            assert(!rid_is_not(rid)(before[j]));
            assert(before.take(j + 1).filter(rid_is_not(rid)) == kept);
            records.remove(i);
            assert(records@ =~= kept + before.skip(j + 1));
        } else {
            assert(rid_is_not(rid)(before[j]));
            assert(before.take(j + 1).filter(rid_is_not(rid)) == kept.push(before[j]));
            i = i + 1;
            assert(records@ =~= kept.push(before[j]) + before.skip(j + 1));
        }
        proof {
            j = j + 1;
        }
    }
    proof {
        assert(j == before.len());
        assert(before.take(j) =~= before);
    }
    std::mem::swap(&mut records, &mut conn.records);
    Ok(())
}

/// Closes at `totime` every record with identifier `rid`, and returns the start time
/// of the first of them; `Err(NotFound)` when there is none.
pub fn finish_record(conn: &mut Database, rid: i64, totime: i64) -> (res: Result<i64, DbError>)
    ensures
        finish_record_spec(old(conn)@, rid, totime) == (final(conn)@, res),
{
    let mut records: Vec<Record> = Vec::new();
    std::mem::swap(&mut records, &mut conn.records);
    let ghost before = records@;
    let mut found: Option<i64> = None;
    let mut i: usize = 0;
    while i < records.len()
        invariant
            i <= records.len(),
            records.len() == before.len(),
            forall|k: int| 0 <= k < i ==> records@[k] == close_if(rid, totime)(before[k]),
            forall|k: int| i <= k < before.len() ==> records@[k] == before[k],
            found == (match first_index(before.take(i as int), rid_is(rid)) {
                Some(k) => Some(before[k].fromtime),
                None => None::<i64>,
            }),
        decreases records.len() - i,
    {
        proof {
            lemma_first_index_take(before, i as int, rid_is(rid));
        }
        let r = records[i];
        if r.rid == Some(rid) {
            if found.is_none() {
                found = Some(r.fromtime);
            }
            records.set(i, Record { totime: Some(totime), ..r });
        }
        i = i + 1;
    }
    assert(before.take(before.len() as int) =~= before);
    match found {
        Some(f) => {
            assert(records@ =~= before.map_values(close_if(rid, totime)));
            std::mem::swap(&mut records, &mut conn.records);
            Ok(f)
        },
        None => {
            proof {
                lemma_first_index(before, rid_is(rid));
            }
            assert(records@ =~= before);
            std::mem::swap(&mut records, &mut conn.records);
            Err(DbError::NotFound)
        },
    }
}

/// The first record with identifier `rid`; `Err(NotFound)` when there is none.
pub fn get_record(conn: &Database, rid: i64) -> (res: Result<Record, DbError>)
    ensures
        res == get_record_spec(conn@, rid),
{
    let records = &conn.records;
    let mut i: usize = 0;
    while i < records.len()
        invariant
            i <= records.len(),
            records@ == conn@.records,
            first_index(records@.take(i as int), rid_is(rid)) is None,
        decreases records.len() - i,
    {
        proof {
            lemma_first_index_take(records@, i as int, rid_is(rid));
        }
        if records[i].rid == Some(rid) {
            proof {
                lemma_first_index(records@.take(i as int), rid_is(rid));
                assert forall|j: int| 0 <= j < i implies !rid_is(rid)(#[trigger] records@[j]) by {
                    assert(records@.take(i as int)[j] == records@[j]);
                }
                lemma_first_index_is(records@, rid_is(rid), i as int);
            }
            return Ok(records[i]);
        }
        i = i + 1;
    }
    assert(records@.take(records.len() as int) =~= records@);
    Err(DbError::NotFound)
}

/// The time read by user `uid`, in seconds: the sum, over the user's finished
/// sessions, of end minus start.
pub fn get_duration_sum(conn: &Database, uid: i64) -> (res: Result<u64, DbError>)
    requires
        total_defined(conn@.records, uid),
    ensures
        res == Ok::<u64, DbError>(total_secs(conn@.records, uid) as u64),
{
    Ok(checked_duration_sum(conn, uid).unwrap())
}

/// The time read by each user, paired with the user, in the order of the users table.
pub fn get_duration_sum_rank(conn: &Database, _uid: i64) -> (res: Result<Vec<(u64, User)>, DbError>)
    requires
        forall|k: int| 0 <= k < conn@.users.len() ==> total_defined(conn@.records, #[trigger] conn@.users[k].uid),
    ensures
        res matches Ok(v) && v@.len() == conn@.users.len() && forall|k: int|
            0 <= k < v@.len() ==> (#[trigger] v@[k]).0 == total_secs(conn@.records, conn@.users[k].uid)
                && v@[k].1@ == conn@.users[k],
{
    let mut res: Vec<(u64, User)> = Vec::new();
    let mut i: usize = 0;
    while i < conn.users.len()
        invariant
            i <= conn.users.len(),
            forall|k: int| 0 <= k < conn@.users.len() ==> total_defined(conn@.records, #[trigger] conn@.users[k].uid),
            res@.len() == i,
            forall|k: int|
                0 <= k < i ==> (#[trigger] res@[k]).0 == total_secs(conn@.records, conn@.users[k].uid)
                    && res@[k].1@ == conn@.users[k],
        decreases conn.users.len() - i,
    {
        let user = conn.users[i].clone();
        assert(conn@.users[i as int] == conn.users@[i as int]@);
        assert(user.uid == conn@.users[i as int].uid);
        assert(total_defined(conn@.records, user.uid));
        let secs = checked_duration_sum(conn, user.uid).unwrap();
        res.push((secs, user));
        i = i + 1;
    }
    Ok(res)
}

} // verus!
