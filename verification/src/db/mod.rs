//! The store of the five tables and what its operations share: errors, the
//! assignment of fresh identifiers, and the search for the first matching row.

use vstd::prelude::*;
use crate::models::{Book, BookView, Chap, ChapView, Record, Reminder, ReminderView, User, UserView};

pub mod book;
pub mod chap;
pub mod keys;
pub mod record;
pub mod reminder;
pub mod user;

verus! {

/// Why an operation on the store failed.
#[derive(Clone, Copy, PartialEq, Eq, Structural, Debug)]
pub enum DbError {
    /// A query that must yield a row yielded none.
    NotFound,
    /// An insertion gave a primary key that a row already has.
    UniqueViolation,
    /// A table holds a row with the largest identifier, so none can follow it.
    Full,
}

/// The five tables, rows in the order in which they were inserted.
pub struct Database {
    pub books: Vec<Book>,
    pub chaps: Vec<Chap>,
    pub records: Vec<Record>,
    pub reminders: Vec<Reminder>,
    pub users: Vec<User>,
}

/// The mathematical value of the store.
pub struct DbView {
    pub books: Seq<BookView>,
    pub chaps: Seq<ChapView>,
    pub records: Seq<Record>,
    pub reminders: Seq<ReminderView>,
    pub users: Seq<UserView>,
}

impl View for Database {
    type V = DbView;

    open spec fn view(&self) -> DbView {
        DbView {
            books: self.books@.map_values(|b: Book| b@),
            chaps: self.chaps@.map_values(|c: Chap| c@),
            records: self.records@,
            reminders: self.reminders@.map_values(|r: Reminder| r@),
            users: self.users@.map_values(|u: User| u@),
        }
    }
}

/// The index of the first element of `s` that satisfies `p`, if any.
pub open spec fn first_index<T>(s: Seq<T>, p: spec_fn(T) -> bool) -> Option<int>
    decreases s.len(),
{
    if s.len() == 0 {
        None
    } else {
        match first_index(s.drop_last(), p) {
            Some(i) => Some(i),
            None => if p(s.last()) {
                Some(s.len() - 1)
            } else {
                None
            },
        }
    }
}

/// `first_index` names the first element that satisfies `p`, and is `None` when none does.
pub proof fn lemma_first_index<T>(s: Seq<T>, p: spec_fn(T) -> bool)
    ensures
        first_index(s, p) matches Some(i) ==> 0 <= i < s.len() && p(s[i])
            && forall|j: int| 0 <= j < i ==> !p(#[trigger] s[j]),
        first_index(s, p) is None ==> forall|j: int| 0 <= j < s.len() ==> !p(#[trigger] s[j]),
    decreases s.len(),
{
    if s.len() > 0 {
        lemma_first_index(s.drop_last(), p);
        assert forall|j: int| 0 <= j < s.len() - 1 implies s.drop_last()[j] == s[j] by {}
    }
}

/// An element that satisfies `p`, with none before it that does, is the first.
pub proof fn lemma_first_index_is<T>(s: Seq<T>, p: spec_fn(T) -> bool, i: int)
    requires
        0 <= i < s.len(),
        p(s[i]),
        forall|j: int| 0 <= j < i ==> !p(#[trigger] s[j]),
    ensures
        first_index(s, p) == Some(i),
    decreases s.len(),
{
    if i < s.len() - 1 {
        let pre = s.drop_last();
        assert forall|j: int| 0 <= j < i implies !p(#[trigger] pre[j]) by {
            assert(pre[j] == s[j]);
        }
        lemma_first_index_is(pre, p, i);
    } else {
        let pre = s.drop_last();
        lemma_first_index(pre, p);
        if first_index(pre, p) is Some {
            let k = first_index(pre, p)->0;
            assert(pre[k] == s[k]);
        }
    }
}

/// The first index of a sequence extended by one element.
pub proof fn lemma_first_index_push<T>(s: Seq<T>, x: T, p: spec_fn(T) -> bool)
    ensures
        first_index(s.push(x), p) == (match first_index(s, p) {
            Some(i) => Some(i),
            None => if p(x) {
                Some(s.len() as int)
            } else {
                None
            },
        }),
{
    assert(s.push(x).drop_last() =~= s);
}

/// The first index of a prefix extended by the next element of the whole.
pub proof fn lemma_first_index_take<T>(s: Seq<T>, i: int, p: spec_fn(T) -> bool)
    requires
        0 <= i < s.len(),
    ensures
        first_index(s.take(i + 1), p) == (match first_index(s.take(i), p) {
            Some(k) => Some(k),
            None => if p(s[i]) {
                Some(i)
            } else {
                None
            },
        }),
{
    assert(s.take(i + 1).drop_last() =~= s.take(i));
}

/// The largest identifier among the present ones.
pub open spec fn max_id(ids: Seq<Option<i64>>) -> Option<i64>
    decreases ids.len(),
{
    if ids.len() == 0 {
        None
    } else {
        match (max_id(ids.drop_last()), ids.last()) {
            (None, x) => x,
            (Some(m), None) => Some(m),
            (Some(m), Some(x)) => if x > m {
                Some(x)
            } else {
                Some(m)
            },
        }
    }
}

/// The identifier that the store gives a row inserted without one: one more than
/// the largest in the table, 1 in a table without identifiers, and none when the
/// largest is `i64::MAX`.
pub open spec fn next_id(ids: Seq<Option<i64>>) -> Option<i64> {
    match max_id(ids) {
        None => Some(1),
        Some(m) => if m < i64::MAX {
            Some((m + 1) as i64)
        } else {
            None
        },
    }
}

/// The largest identifier is at least every present identifier.
pub proof fn lemma_max_id(ids: Seq<Option<i64>>)
    ensures
        max_id(ids) is None <==> forall|j: int| 0 <= j < ids.len() ==> #[trigger] ids[j] is None,
        max_id(ids) matches Some(m) ==> exists|j: int| 0 <= j < ids.len() && ids[j] == Some(m),
        max_id(ids) matches Some(m) ==> forall|j: int|
            0 <= j < ids.len() && #[trigger] ids[j] is Some ==> ids[j]->0 <= m,
    decreases ids.len(),
{
    if ids.len() > 0 {
        let pre = ids.drop_last();
        lemma_max_id(pre);
        assert forall|j: int| 0 <= j < ids.len() - 1 implies pre[j] == ids[j] by {}
        match max_id(pre) {
            Some(m) => {
                let j = choose|j: int| 0 <= j < pre.len() && pre[j] == Some(m);
                assert(ids[j] == Some(m));
            },
            None => {},
        }
        if ids.last() is Some {
            assert(ids[ids.len() - 1] == ids.last());
        }
    }
}

/// A fresh identifier is used by no row of the table.
pub proof fn lemma_next_id_fresh(ids: Seq<Option<i64>>)
    ensures
        next_id(ids) matches Some(n) ==> forall|j: int| 0 <= j < ids.len() ==> ids[j] != Some(n),
{
    lemma_max_id(ids);
}

/// Computes the identifier that a row inserted without one receives; `None` when
/// the table is full.
pub fn fresh_id(ids: &Vec<Option<i64>>) -> (res: Option<i64>)
    ensures
        res == next_id(ids@),
{
    let mut m: Option<i64> = None;
    let mut i: usize = 0;
    while i < ids.len()
        invariant
            i <= ids.len(),
            m == max_id(ids@.take(i as int)),
        decreases ids.len() - i,
    {
        assert(ids@.take(i + 1).drop_last() =~= ids@.take(i as int));
        let x = ids[i];
        m = match (m, x) {
            (None, x) => x,
            (Some(a), None) => Some(a),
            (Some(a), Some(b)) => if b > a {
                Some(b)
            } else {
                Some(a)
            },
        };
        i = i + 1;
    }
    assert(ids@.take(ids.len() as int) =~= ids@);
    match m {
        None => Some(1),
        Some(a) => if a < i64::MAX {
            Some(a + 1)
        } else {
            None
        },
    }
}

/// Whether some row has identifier `id`.
pub fn id_in_use(ids: &Vec<Option<i64>>, id: i64) -> (res: bool)
    ensures
        res == ids@.contains(Some(id)),
{
    let mut j: usize = 0;
    while j < ids.len()
        invariant
            j <= ids.len(),
            forall|k: int| 0 <= k < j ==> ids@[k] != Some(id),
        decreases ids.len() - j,
    {
        if ids[j] == Some(id) {
            assert(ids@[j as int] == Some(id));
            return true;
        }
        j = j + 1;
    }
    false
}

impl Database {
    /// An empty store.
    pub fn new() -> (res: Database)
        ensures
            res@.books.len() == 0,
            res@.chaps.len() == 0,
            res@.records.len() == 0,
            res@.reminders.len() == 0,
            res@.users.len() == 0,
    {
        Database {
            books: Vec::new(),
            chaps: Vec::new(),
            records: Vec::new(),
            reminders: Vec::new(),
            users: Vec::new(),
        }
    }
}

} // verus!
