//! The chapters table: a chapter is created on first mention of its heading within a book.

use vstd::prelude::*;
use crate::db::{first_index, fresh_id, id_in_use, lemma_first_index, lemma_first_index_is, lemma_first_index_push, lemma_first_index_take, next_id, Database, DbError, DbView};
use crate::models::{Chap, ChapView, NewChap};

verus! {

broadcast use vstd::seq_lib::group_seq_properties;

/// Holds of the chapters of book `bid` headed `heading`.
pub open spec fn chap_key_is(bid: i64, heading: Seq<char>) -> spec_fn(ChapView) -> bool {
    |c: ChapView| c.bid == bid && c.heading == heading
}

/// The identifiers of the chapters, in table order.
pub open spec fn chap_ids(chaps: Seq<ChapView>) -> Seq<Option<i64>> {
    chaps.map_values(|c: ChapView| c.cid)
}

/// The store after inserting a chapter unless it would repeat a chapter of the same
/// book and heading or an identifier in use (then nothing happens). Without an
/// identifier the chapter gets a fresh one; `Err(Full)` when none is left.
pub open spec fn insert_or_ignore_chap(db: DbView, cid: Option<i64>, bid: i64, creator_uid: i64, heading: Seq<char>) -> Result<
    DbView,
    DbError,
> {
    let row = |id: i64| ChapView { cid: Some(id), bid: bid, creator_uid: creator_uid, heading: heading };
    if first_index(db.chaps, chap_key_is(bid, heading)) is Some {
        Ok(db)
    } else {
        match cid {
            Some(c) => if chap_ids(db.chaps).contains(Some(c)) {
                Ok(db)
            } else {
                Ok(DbView { chaps: db.chaps.push(row(c)), ..db })
            },
            None => match next_id(chap_ids(db.chaps)) {
                Some(c) => Ok(DbView { chaps: db.chaps.push(row(c)), ..db }),
                None => Err(DbError::Full),
            },
        }
    }
}

/// The store and the identifier after inserting the chapter as `insert_or_ignore_chap`
/// does and then looking up the first chapter of that book and heading;
/// `Err(NotFound)` when the insertion was ignored for its identifier alone.
pub open spec fn create_or_get_chap_spec(db: DbView, cid: Option<i64>, bid: i64, creator_uid: i64, heading: Seq<char>) -> (
    DbView,
    Result<i64, DbError>,
) {
    match insert_or_ignore_chap(db, cid, bid, creator_uid, heading) {
        Err(e) => (db, Err(e)),
        Ok(after) => match first_index(after.chaps, chap_key_is(bid, heading)) {
            Some(i) => match after.chaps[i].cid {
                Some(c) => (after, Ok(c)),
                None => (after, Err(DbError::NotFound)),
            },
            None => (after, Err(DbError::NotFound)),
        },
    }
}

/// The first chapter of book `bid` headed `heading` exists and has no identifier
/// (which a table keyed by identifier cannot hold).
pub open spec fn chap_found_without_id(db: DbView, bid: i64, heading: Seq<char>) -> bool {
    first_index(db.chaps, chap_key_is(bid, heading)) matches Some(i) && db.chaps[i].cid is None
}

/// The index of the first chapter of book `bid` headed `heading`.
fn find_chap(chaps: &Vec<Chap>, bid: i64, heading: &String) -> (res: Option<usize>)
    ensures
        res matches Some(i) ==> i < chaps.len()
            && first_index(chaps@.map_values(|c: Chap| c@), chap_key_is(bid, heading@)) == Some(i as int),
        res is None ==> first_index(chaps@.map_values(|c: Chap| c@), chap_key_is(bid, heading@)) is None,
{
    let ghost view = chaps@.map_values(|c: Chap| c@);
    let ghost p = chap_key_is(bid, heading@);
    let mut i: usize = 0;
    while i < chaps.len()
        invariant
            i <= chaps.len(),
            view == chaps@.map_values(|c: Chap| c@),
            p == chap_key_is(bid, heading@),
            first_index(view.take(i as int), p) is None,
        decreases chaps.len() - i,
    {
        proof {
            lemma_first_index_take(view, i as int, p);
        }
        if chaps[i].bid == bid && chaps[i].heading == *heading {
            proof {
                lemma_first_index(view.take(i as int), p);
                assert forall|j: int| 0 <= j < i implies !p(#[trigger] view[j]) by {
                    assert(view.take(i as int)[j] == view[j]);
                }
                lemma_first_index_is(view, p, i as int);
            }
            return Some(i);
        }
        i = i + 1;
    }
    assert(view.take(chaps.len() as int) =~= view);
    None
}

/// What `create_or_get_chap` would return on this store and chapter, without changing
/// the store; `Err(NotFound)` too when the chapter found has no identifier.
pub fn chap_outcome(conn: &Database, cid: Option<i64>, bid: i64, heading: &String) -> (res: Result<i64, DbError>)
    ensures
        forall|creator_uid: i64| res == #[trigger] create_or_get_chap_spec(conn@, cid, bid, creator_uid, heading@).1,
        res is Ok ==> !chap_found_without_id(conn@, bid, heading@),
{
    let ghost p = chap_key_is(bid, heading@);
    match find_chap(&conn.chaps, bid, heading) {
        Some(i) => {
            return match conn.chaps[i].cid {
                Some(c) => Ok(c),
                None => Err(DbError::NotFound),
            };
        },
        None => {},
    }
    let mut ids: Vec<Option<i64>> = Vec::new();
    let mut k: usize = 0;
    while k < conn.chaps.len()
        invariant
            k <= conn.chaps.len(),
            ids@ =~= chap_ids(conn@.chaps).take(k as int),
        decreases conn.chaps.len() - k,
    {
        ids.push(conn.chaps[k].cid);
        k = k + 1;
    }
    assert(ids@ =~= chap_ids(conn@.chaps));
    let c = match cid {
        Some(c) => {
            if id_in_use(&ids, c) {
                return Err(DbError::NotFound);
            }
            c
        },
        None => match fresh_id(&ids) {
            Some(c) => c,
            None => {
                return Err(DbError::Full);
            },
        },
    };
    assert forall|creator_uid: i64| #[trigger] create_or_get_chap_spec(conn@, cid, bid, creator_uid, heading@).1
        == Ok::<i64, DbError>(c) by {
        let new_row = ChapView { cid: Some(c), bid: bid, creator_uid: creator_uid, heading: heading@ };
        lemma_first_index_push(conn@.chaps, new_row, p);
    }
    Ok(c)
}

/// Returns the identifier of the first chapter of book `data.bid` headed
/// `data.heading`, first inserting the chapter described by `data` when there is none.
pub fn create_or_get_chap<'a>(conn: &mut Database, data: NewChap<'a>) -> (res: Result<i64, DbError>)
    requires
        !chap_found_without_id(old(conn)@, data.bid, data.heading@),
    ensures
        create_or_get_chap_spec(old(conn)@, data.cid, data.bid, data.creator_uid, data.heading@) == (
            final(conn)@,
            res,
        ),
{
    let ghost db = conn@;
    let ghost p = chap_key_is(data.bid, data.heading@);
    match find_chap(&conn.chaps, data.bid, data.heading) {
        Some(i) => {
            return Ok(conn.chaps[i].cid.unwrap());
        },
        None => {},
    }
    let mut ids: Vec<Option<i64>> = Vec::new();
    let mut k: usize = 0;
    while k < conn.chaps.len()
        invariant
            k <= conn.chaps.len(),
            ids@ =~= chap_ids(conn@.chaps).take(k as int),
        decreases conn.chaps.len() - k,
    {
        ids.push(conn.chaps[k].cid);
        k = k + 1;
    }
    assert(ids@ =~= chap_ids(conn@.chaps));
    let cid = match data.cid {
        Some(c) => {
            if id_in_use(&ids, c) {
                return Err(DbError::NotFound);
            }
            c
        },
        None => match fresh_id(&ids) {
            Some(c) => c,
            None => {
                return Err(DbError::Full);
            },
        },
    };
    let row = Chap { cid: Some(cid), bid: data.bid, creator_uid: data.creator_uid, heading: data.heading.clone() };
    let ghost before = conn.chaps@;
    conn.chaps.push(row);
    let ghost new_row = ChapView { cid: Some(cid), bid: data.bid, creator_uid: data.creator_uid, heading: data.heading@ };
    assert(conn@.chaps =~= db.chaps.push(new_row));
    proof {
        lemma_first_index_push(db.chaps, new_row, p);
    }
    Ok(cid)
}

} // verus!
