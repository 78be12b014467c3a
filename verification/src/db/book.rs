//! The books table: a book is created on first mention of its title.

use vstd::prelude::*;
use crate::db::{first_index, lemma_first_index_is, fresh_id, lemma_first_index, lemma_first_index_take, next_id, Database, DbError, DbView};
use crate::models::{Book, BookView, NewBook};

verus! {

/// Holds of the books with the given title.
pub open spec fn title_is(title: Seq<char>) -> spec_fn(BookView) -> bool {
    |b: BookView| b.title == title
}

/// The identifiers of the books, in table order.
pub open spec fn book_ids(books: Seq<BookView>) -> Seq<Option<i64>> {
    books.map_values(|b: BookView| b.bid)
}

/// The store and the identifier after looking a title up among the books, and
/// inserting a book with that title and a fresh identifier when none has it.
/// `Err(Full)` when a book must be inserted and no identifier is left;
/// `Err(NotFound)` when the book found has no identifier.
pub open spec fn create_or_get_book_spec(db: DbView, title: Seq<char>) -> (DbView, Result<i64, DbError>) {
    match first_index(db.books, title_is(title)) {
        Some(i) => match db.books[i].bid {
            Some(b) => (db, Ok(b)),
            None => (db, Err(DbError::NotFound)),
        },
        None => match next_id(book_ids(db.books)) {
            Some(b) => (
                DbView { books: db.books.push(BookView { bid: Some(b), title: title }), ..db },
                Ok(b),
            ),
            None => (db, Err(DbError::Full)),
        },
    }
}

/// The index of the first book whose title is `title`.
fn find_book(books: &Vec<Book>, title: &String) -> (res: Option<usize>)
    ensures
        res matches Some(i) ==> i < books.len() && books[i as int].title@ == title@
            && first_index(books@.map_values(|b: Book| b@), title_is(title@)) == Some(i as int),
        res is None ==> first_index(books@.map_values(|b: Book| b@), title_is(title@)) is None,
{
    let ghost view = books@.map_values(|b: Book| b@);
    let mut i: usize = 0;
    while i < books.len()
        invariant
            i <= books.len(),
            view == books@.map_values(|b: Book| b@),
            first_index(view.take(i as int), title_is(title@)) is None,
        decreases books.len() - i,
    {
        proof {
            lemma_first_index_take(view, i as int, title_is(title@));
        }
        if books[i].title == *title {
            proof {
                lemma_first_index(view.take(i as int), title_is(title@));
                assert forall|j: int| 0 <= j < i implies !title_is(title@)(#[trigger] view[j]) by {
                    assert(view.take(i as int)[j] == view[j]);
                }
                lemma_first_index_is(view, title_is(title@), i as int);
            }
            return Some(i);
        }
        i = i + 1;
    }
    assert(view.take(books.len() as int) =~= view);
    None
}

/// The identifiers of the books, in table order.
fn collect_book_ids(books: &Vec<Book>) -> (res: Vec<Option<i64>>)
    ensures
        res@ == book_ids(books@.map_values(|b: Book| b@)),
{
    let mut res: Vec<Option<i64>> = Vec::new();
    let mut i: usize = 0;
    while i < books.len()
        invariant
            i <= books.len(),
            res@ =~= book_ids(books@.map_values(|b: Book| b@)).take(i as int),
        decreases books.len() - i,
    {
        res.push(books[i].bid);
        i = i + 1;
    }
    res
}

/// What `create_or_get_book` would return on this store and title, without changing
/// the store.
pub fn book_outcome(conn: &Database, major: &str) -> (res: Result<i64, DbError>)
    ensures
        res == create_or_get_book_spec(conn@, major@).1,
{
    let title = major.to_owned();
    match find_book(&conn.books, &title) {
        Some(i) => match conn.books[i].bid {
            Some(b) => Ok(b),
            None => Err(DbError::NotFound),
        },
        None => match fresh_id(&collect_book_ids(&conn.books)) {
            Some(b) => Ok(b),
            None => Err(DbError::Full),
        },
    }
}

/// Returns the identifier of the first book titled `major`, first inserting such a
/// book with a fresh identifier when there is none.
pub fn create_or_get_book(conn: &mut Database, major: &str) -> (bid: i64)
    requires
        create_or_get_book_spec(old(conn)@, major@).1 is Ok,
    ensures
        create_or_get_book_spec(old(conn)@, major@) == (final(conn)@, Ok::<i64, DbError>(bid)),
{
    let title = major.to_owned();
    match find_book(&conn.books, &title) {
        Some(i) => conn.books[i].bid.unwrap(),
        None => {
            let ids = collect_book_ids(&conn.books);
            let bid = fresh_id(&ids).unwrap();
            let book = NewBook { bid: None, title: &title };
            let row = Book { bid: Some(bid), title: book.title.clone() };
            let ghost before = conn.books@;
            conn.books.push(row);
            proof {
                assert(conn.books@.map_values(|b: Book| b@) =~= before.map_values(|b: Book| b@).push(
                    BookView { bid: Some(bid), title: major@ },
                ));
            }
            bid
        },
    }
}

} // verus!
