//! Rows of the five tables, and the values handed over to create rows.

use vstd::prelude::*;

verus! {

/// A book, identified by its title.
#[derive(Debug)]
pub struct Book {
    pub bid: Option<i64>,
    pub title: String,
}

/// The values of a book to insert; the identifier is assigned on insertion when absent.
#[derive(Debug)]
pub struct NewBook<'a> {
    pub bid: Option<i64>,
    pub title: &'a String,
}

/// A chapter (or any named section) of a book.
#[derive(Debug)]
pub struct Chap {
    pub cid: Option<i64>,
    pub bid: i64,
    pub creator_uid: i64,
    pub heading: String,
}

/// The values of a chapter to insert.
#[derive(Debug)]
pub struct NewChap<'a> {
    pub cid: Option<i64>,
    pub bid: i64,
    pub creator_uid: i64,
    pub heading: &'a String,
}

/// A reading session: who read which chapter, from when, and (once finished) until when.
/// Times are seconds since the Unix epoch.
#[derive(Clone, Copy, PartialEq, Eq, Structural, Debug)]
pub struct Record {
    pub rid: Option<i64>,
    pub uid: i64,
    pub cid: i64,
    pub fromtime: i64,
    pub totime: Option<i64>,
}

/// The values of a reading session to insert.
#[derive(Clone, Copy, PartialEq, Eq, Structural, Debug)]
pub struct NewRecord {
    pub rid: Option<i64>,
    pub uid: i64,
    pub cid: i64,
    pub fromtime: i64,
    pub totime: Option<i64>,
}

/// A reminder of a user; the default reminder is the one without a book.
/// `interval` is in seconds.
#[derive(Debug)]
pub struct Reminder {
    pub id: Option<i64>,
    pub uid: i64,
    pub bid: Option<i64>,
    pub cron: Option<String>,
    pub interval: Option<i64>,
}

/// The values of a reminder to insert.
#[derive(Debug)]
pub struct NewReminder {
    pub id: Option<i64>,
    pub uid: i64,
    pub bid: Option<i64>,
    pub cron: Option<String>,
    pub interval: Option<i64>,
}

/// A user of the bot, with the reading session that is currently open, if any.
#[derive(Debug)]
pub struct User {
    pub uid: i64,
    pub username: String,
    pub current_rid: Option<i64>,
}

/// The values of a user to insert.
#[derive(Debug)]
pub struct NewUser<'a> {
    pub uid: i64,
    pub username: &'a String,
    pub current_rid: Option<i64>,
}

/// The mathematical value of a book.
pub struct BookView {
    pub bid: Option<i64>,
    pub title: Seq<char>,
}

/// The mathematical value of a chapter.
pub struct ChapView {
    pub cid: Option<i64>,
    pub bid: i64,
    pub creator_uid: i64,
    pub heading: Seq<char>,
}

/// The mathematical value of a reminder.
pub struct ReminderView {
    pub id: Option<i64>,
    pub uid: i64,
    pub bid: Option<i64>,
    pub cron: Option<Seq<char>>,
    pub interval: Option<i64>,
}

/// The mathematical value of a user.
pub struct UserView {
    pub uid: i64,
    pub username: Seq<char>,
    pub current_rid: Option<i64>,
}

impl View for Book {
    type V = BookView;

    open spec fn view(&self) -> BookView {
        BookView { bid: self.bid, title: self.title@ }
    }
}

impl View for Chap {
    type V = ChapView;

    open spec fn view(&self) -> ChapView {
        ChapView { cid: self.cid, bid: self.bid, creator_uid: self.creator_uid, heading: self.heading@ }
    }
}

impl View for Record {
    type V = Record;

    open spec fn view(&self) -> Record {
        *self
    }
}

pub open spec fn opt_string_view(s: Option<String>) -> Option<Seq<char>> {
    match s {
        Some(s) => Some(s@),
        None => None,
    }
}

impl View for Reminder {
    type V = ReminderView;

    open spec fn view(&self) -> ReminderView {
        ReminderView {
            id: self.id,
            uid: self.uid,
            bid: self.bid,
            cron: opt_string_view(self.cron),
            interval: self.interval,
        }
    }
}

impl View for User {
    type V = UserView;

    open spec fn view(&self) -> UserView {
        UserView { uid: self.uid, username: self.username@, current_rid: self.current_rid }
    }
}

impl Clone for User {
    fn clone(&self) -> (res: Self)
        ensures
            res@ == self@,
    {
        User { uid: self.uid, username: self.username.clone(), current_rid: self.current_rid }
    }
}

impl Clone for Reminder {
    fn clone(&self) -> (res: Self)
        ensures
            res@ == self@,
    {
        let cron = match &self.cron {
            Some(c) => Some(c.clone()),
            None => None,
        };
        Reminder { id: self.id, uid: self.uid, bid: self.bid, cron: cron, interval: self.interval }
    }
}

} // verus!
