//! What the bot answers to each command, and what it does to the store meanwhile.
//! Every reply is computed here; sending it, and keeping the store on disk, is
//! left to the caller.

use vstd::prelude::*;
use crate::db::{fresh_id, Database, DbError, DbView};
use crate::db::book::{book_outcome, create_or_get_book, create_or_get_book_spec};
use crate::db::chap::{chap_outcome, create_or_get_chap, create_or_get_chap_spec};
use crate::db::record::{
    checked_duration_sum, create_and_get_record, create_and_get_record_spec, delete_record, delete_record_spec,
    finish_record, finish_record_spec, record_ids, secs_between, total_defined, total_secs, unsigned_secs,
};
use crate::db::reminder::{
    create_reminder, create_reminder_spec, delete_reminder, delete_reminder_spec, get_default_reminders,
    get_default_reminders_spec,
};
use crate::db::user::{
    create_or_get_user, create_or_get_user_spec, get_all_users, update_current_record, update_current_record_spec,
};
use crate::models::{NewChap, NewRecord, NewReminder, NewUser, Record, ReminderView, User, UserView};
use crate::text::{decimal, push_i64, push_u64, signed_decimal, split, split_on, trim, trim_text};

verus! {

broadcast use vstd::seq_lib::group_seq_properties;

/// The commands that the bot understands.
#[derive(Debug)]
pub enum Command {
    /// Greets the user.
    Start,
    /// Lists the commands.
    Help,
    /// Starts a reading session; the text names the book, a line break, then the chapter.
    Checkin(String),
    /// Ends the open reading session and records it.
    Checkout,
    /// Discards the open reading session.
    Abandon,
    /// Sets a goal for a book.
    Flag,
    /// Shows the user's goals.
    MyFlags,
    /// Shows the other users' goals.
    OthersFlags,
    /// Compares the time read by each user.
    Board,
    /// Shows the time read by the user.
    Me,
    /// Asks to be reminded to read, every so many seconds.
    Cuiwo(u32),
    /// Asks to be reminded no more.
    Biecuiwole,
}

/// The user who sent a command.
#[derive(Debug)]
pub struct Sender {
    pub uid: i64,
    pub username: String,
}

/// What the bot answers.
#[derive(Debug)]
pub enum Reply {
    /// The list of commands.
    Help,
    /// A text message.
    Text(String),
    /// A text message, after starting to remind `user` every `interval_secs` seconds.
    Remind { text: String, user: User, interval_secs: u64 },
    /// A text message, after stopping every reminder of the user with identifier `uid`.
    Unremind { text: String, uid: i64 },
}

/// The mathematical value of a reply.
pub enum ReplyView {
    Help,
    Text(Seq<char>),
    Remind(Seq<char>, UserView, u64),
    Unremind(Seq<char>, i64),
}

impl View for Reply {
    type V = ReplyView;

    open spec fn view(&self) -> ReplyView {
        match self {
            Reply::Help => ReplyView::Help,
            Reply::Text(t) => ReplyView::Text(t@),
            Reply::Remind { text, user, interval_secs } => ReplyView::Remind(text@, user@, *interval_secs),
            Reply::Unremind { text, uid } => ReplyView::Unremind(text@, *uid),
        }
    }
}

/// The mathematical value of an answer.
pub open spec fn answer_view(res: Result<Reply, Failure>) -> Result<ReplyView, Failure> {
    match res {
        Ok(r) => Ok(r@),
        Err(f) => Err(f),
    }
}

/// Why the bot gives up on a command without answering.
#[derive(Clone, Copy, PartialEq, Eq, Structural, Debug)]
pub enum Failure {
    /// The command needs its sender, and the message has none.
    NoSender,
    /// An operation on the store failed.
    Db(DbError),
    /// A time read does not fit the numbers it is computed in.
    Overflow,
}

/// The reply to a checkin whose text is not a book and a chapter on two lines.
pub open spec fn checkin_format_text() -> Seq<char> {
    "请使用正确的格式：/checkin 书名\\n章节名\n\n书名和章节名之间用一个换行符分隔"@
}

/// The reply to a checkin while a session is open.
pub open spec fn session_open_text() -> Seq<char> {
    "你有未结束的阅读记录，请先结束或放弃当前的计时"@
}

/// The reply to a checkin that opened session `rid` on chapter `cid` of book `bid`.
pub open spec fn started_text(major: Seq<char>, minor: Seq<char>, bid: i64, cid: i64, rid: i64) -> Seq<char> {
    "你开始阅读了 "@ + major + " 书 ("@ + signed_decimal(bid as int) + ") 的 "@ + minor + " 章节 (["@
        + signed_decimal(cid as int) + "])，记录编号为 "@ + signed_decimal(rid as int)
}

/// The reply to a checkout that closed a session of `secs` seconds.
pub open spec fn finished_text(secs: u64) -> Seq<char> {
    "你结束了本次阅读，共计 "@ + decimal((secs / 60) as nat) + " 分 "@ + decimal((secs % 60) as nat) + " 秒"@
}

/// The reply to a checkout without an open session.
pub open spec fn checkout_idle_text() -> Seq<char> {
    "结束计时"@
}

/// The reply to an abandon that discarded the open session.
pub open spec fn abandoned_text() -> Seq<char> {
    "你放弃了当前的计时"@
}

/// The reply to an abandon without an open session.
pub open spec fn abandon_idle_text() -> Seq<char> {
    "你没有正在进行的计时"@
}

/// The reply to a request to be reminded every `secs` seconds.
pub open spec fn remind_text(secs: u32) -> Seq<char> {
    "好的，我会在 "@ + decimal((secs / 60) as nat) + " 分钟后提醒你读书"@
}

/// The reply to a request to be reminded no more.
pub open spec fn unremind_text() -> Seq<char> {
    "好的，我不会再提醒你读书了"@
}

/// The reply to a user who read `secs` seconds in all.
pub open spec fn total_text(secs: u64) -> Seq<char> {
    "你总共阅读了 "@ + decimal((secs / 60) as nat) + " 分 "@ + decimal((secs % 60) as nat) + " 秒"@
}

/// The greeting.
pub open spec fn start_text() -> Seq<char> {
    "你好，我是阅读计时机器人。你可以使用 /help 查看支持的命令。和我聊天吧！"@
}

/// The reply to the commands that do nothing yet.
pub open spec fn unimplemented_text() -> Seq<char> {
    "Unimplemented…"@
}

/// The reminder sent to a user every `secs` seconds: it mentions the user by name
/// and identifier, and says in how many minutes the next one comes.
pub open spec fn reminder_message(username: Seq<char>, uid: i64, secs: u64) -> Seq<char> {
    "["@ + username + "](tg://user?id="@ + signed_decimal(uid as int) + ")，你该读书了！\n\n下次提醒将在 "@
        + decimal((secs / 60) as nat) + " 分钟后"@
}

/// The reminder sent to `user` every `interval_secs` seconds.
pub fn reminder_text(user: &User, interval_secs: u64) -> (res: String)
    ensures
        res@ == reminder_message(user.username@, user.uid, interval_secs),
{
    let mut s = String::new();
    s.append("[");
    s.append(user.username.as_str());
    s.append("](tg://user?id=");
    push_i64(&mut s, user.uid);
    s.append(")，你该读书了！\n\n下次提醒将在 ");
    push_u64(&mut s, interval_secs / 60);
    s.append(" 分钟后");
    assert(s@ =~= reminder_message(user.username@, user.uid, interval_secs));
    s
}

/// The session that a checkin opens for user `uid` at time `now` on chapter `cid`.
pub open spec fn new_session(uid: i64, cid: i64, now: i64) -> NewRecord {
    NewRecord { rid: None, uid: uid, cid: cid, fromtime: now, totime: None }
}

/// The store and the identifiers of book, chapter and session after user `uid`
/// opens, at time `now`, a session on chapter `minor` of book `major`: the book and
/// chapter are looked up or created, a session is inserted and becomes the user's
/// open session. All of it happens, or, with the first error, nothing.
pub open spec fn checkin_transaction_spec(db: DbView, uid: i64, major: Seq<char>, minor: Seq<char>, now: i64) -> Result<
    (DbView, i64, i64, i64),
    DbError,
> {
    let (db1, b) = create_or_get_book_spec(db, major);
    match b {
        Err(e) => Err(e),
        Ok(bid) => {
            let (db2, c) = create_or_get_chap_spec(db1, None, bid, uid, minor);
            match c {
                Err(e) => Err(e),
                Ok(cid) => {
                    let (db3, r) = create_and_get_record_spec(db2, new_session(uid, cid, now));
                    match r {
                        Err(e) => Err(e),
                        Ok(rec) => Ok((update_current_record_spec(db3, uid, rec.rid), bid, cid, rec.rid->0)),
                    }
                },
            }
        },
    }
}

/// Opens, at time `now`, a session of user `uid` on chapter `minor` of book `major`,
/// creating the book and the chapter when they are new; returns the identifiers of
/// book, chapter and session. On an error the store is left as it was.
pub fn checkin_transaction(conn: &mut Database, uid: i64, major: &str, minor: &String, now: i64) -> (res: Result<
    (i64, i64, i64),
    DbError,
>)
    ensures
        match checkin_transaction_spec(old(conn)@, uid, major@, minor@, now) {
            Err(e) => res == Err::<(i64, i64, i64), DbError>(e) && final(conn)@ == old(conn)@,
            Ok((db, bid, cid, rid)) => res == Ok::<(i64, i64, i64), DbError>((bid, cid, rid)) && final(conn)@ == db,
        },
{
    let ghost db0 = conn@;
    let bid = match book_outcome(conn, major) {
        Ok(b) => b,
        Err(e) => {
            return Err(e);
        },
    };
    let cid = match chap_outcome(conn, None, bid, minor) {
        Ok(c) => c,
        Err(e) => {
            assert(create_or_get_chap_spec(db0, None, bid, uid, minor@).1 == Err::<i64, DbError>(e));
            return Err(e);
        },
    };
    let mut ids: Vec<Option<i64>> = Vec::new();
    let mut k: usize = 0;
    while k < conn.records.len()
        invariant
            k <= conn.records.len(),
            ids@ =~= record_ids(conn@.records).take(k as int),
        decreases conn.records.len() - k,
    {
        ids.push(conn.records[k].rid);
        k = k + 1;
    }
    assert(ids@ =~= record_ids(conn@.records));
    if fresh_id(&ids).is_none() {
        return Err(DbError::Full);
    }
    let b = create_or_get_book(conn, major);
    let ghost db1 = conn@;
    assert(create_or_get_chap_spec(db1, None, bid, uid, minor@).1 == Ok::<i64, DbError>(cid));
    let c = create_or_get_chap(conn, NewChap { cid: None, bid: b, creator_uid: uid, heading: minor }).unwrap();
    let rec = create_and_get_record(conn, NewRecord { rid: None, uid: uid, cid: c, fromtime: now, totime: None });
    let rec = match rec {
        Ok(r) => r,
        Err(e) => {
            return Err(e);
        },
    };
    let _ = update_current_record(conn, uid, rec.rid);
    Ok((b, c, rec.rid.unwrap()))
}

/// The store and the answer after a checkin with text `arg`, at time `now`: the text
/// must be two lines, a book and a chapter (each trimmed); the sender is created as
/// a user when new; a session is opened unless the sender has one open.
pub open spec fn checkin_spec(db: DbView, sender: Option<Sender>, arg: Seq<char>, now: i64) -> (
    DbView,
    Result<ReplyView, Failure>,
) {
    let parts = split_on(arg, '\n');
    if parts.len() != 2 {
        (db, Ok(ReplyView::Text(checkin_format_text())))
    } else {
        match sender {
            None => (db, Err(Failure::NoSender)),
            Some(s) => {
                let (db1, user) = create_or_get_user_spec(db, s.uid, s.username@, None);
                if user.current_rid is Some {
                    (db1, Ok(ReplyView::Text(session_open_text())))
                } else {
                    let major = trim(parts[0]);
                    let minor = trim(parts[1]);
                    match checkin_transaction_spec(db1, s.uid, major, minor, now) {
                        Err(e) => (db1, Err(Failure::Db(e))),
                        Ok((db2, bid, cid, rid)) => (
                            db2,
                            Ok(ReplyView::Text(started_text(major, minor, bid, cid, rid))),
                        ),
                    }
                }
            },
        }
    }
}

/// The user record of the sender, created when new; the sender's name is used for a
/// new user only.
fn sender_user(conn: &mut Database, sender: &Sender) -> (res: User)
    ensures
        create_or_get_user_spec(old(conn)@, sender.uid, sender.username@, None) == (final(conn)@, res@),
{
    create_or_get_user(conn, NewUser { uid: sender.uid, username: &sender.username, current_rid: None }).unwrap()
}

/// Answers a checkin with text `arg`, received at time `now`.
pub fn checkin(conn: &mut Database, sender: &Option<Sender>, arg: &str, now: i64) -> (res: Result<Reply, Failure>)
    ensures
        checkin_spec(old(conn)@, *sender, arg@, now) == (final(conn)@, answer_view(res)),
{
    let parts = split(arg, '\n');
    if parts.len() != 2 {
        let mut t = String::new();
        t.append("请使用正确的格式：/checkin 书名\\n章节名\n\n书名和章节名之间用一个换行符分隔");
        assert(t@ =~= checkin_format_text());
        return Ok(Reply::Text(t));
    }
    assert(parts@[0]@ == split_on(arg@, '\n')[0]);
    assert(parts@[1]@ == split_on(arg@, '\n')[1]);
    let s = match sender {
        Some(s) => s,
        None => {
            return Err(Failure::NoSender);
        },
    };
    let major = trim_text(parts[0].as_str());
    let minor = trim_text(parts[1].as_str());
    let user = sender_user(conn, s);
    if user.current_rid.is_some() {
        let mut t = String::new();
        t.append("你有未结束的阅读记录，请先结束或放弃当前的计时");
        assert(t@ =~= session_open_text());
        return Ok(Reply::Text(t));
    }
    match checkin_transaction(conn, s.uid, major.as_str(), &minor, now) {
        Err(e) => Err(Failure::Db(e)),
        Ok((bid, cid, rid)) => {
            let mut t = String::new();
            t.append("你开始阅读了 ");
            t.append(major.as_str());
            t.append(" 书 (");
            push_i64(&mut t, bid);
            t.append(") 的 ");
            t.append(minor.as_str());
            t.append(" 章节 ([");
            push_i64(&mut t, cid);
            t.append("])，记录编号为 ");
            push_i64(&mut t, rid);
            assert(t@ =~= started_text(major@, minor@, bid, cid, rid));
            Ok(Reply::Text(t))
        },
    }
}

/// The store and the answer after a checkout at time `now`: the sender's open
/// session, if any, is closed at `now` and no longer open, and the answer tells its
/// length in minutes and seconds.
pub open spec fn checkout_spec(db: DbView, sender: Option<Sender>, now: i64) -> (DbView, Result<ReplyView, Failure>) {
    match sender {
        None => (db, Err(Failure::NoSender)),
        Some(s) => {
            let (db1, user) = create_or_get_user_spec(db, s.uid, s.username@, None);
            match user.current_rid {
                None => (db1, Ok(ReplyView::Text(checkout_idle_text()))),
                Some(rid) => {
                    let (db2, f) = finish_record_spec(db1, rid, now);
                    match f {
                        Err(e) => (db1, Err(Failure::Db(e))),
                        Ok(fromtime) => {
                            let db3 = update_current_record_spec(db2, s.uid, None);
                            if i64::MIN <= now - fromtime <= i64::MAX {
                                (db3, Ok(ReplyView::Text(finished_text(unsigned_secs(now - fromtime) as u64))))
                            } else {
                                (db3, Err(Failure::Overflow))
                            }
                        },
                    }
                },
            }
        },
    }
}

/// Answers a checkout received at time `now`.
pub fn checkout(conn: &mut Database, sender: &Option<Sender>, now: i64) -> (res: Result<Reply, Failure>)
    ensures
        checkout_spec(old(conn)@, *sender, now) == (final(conn)@, answer_view(res)),
{
    let s = match sender {
        Some(s) => s,
        None => {
            return Err(Failure::NoSender);
        },
    };
    let user = sender_user(conn, s);
    match user.current_rid {
        None => {
            let mut t = String::new();
            t.append("结束计时");
            assert(t@ =~= checkout_idle_text());
            Ok(Reply::Text(t))
        },
        Some(rid) => {
            let fromtime = match finish_record(conn, rid, now) {
                Ok(f) => f,
                Err(e) => {
                    return Err(Failure::Db(e));
                },
            };
            let _ = update_current_record(conn, s.uid, None);
            match secs_between(fromtime, now) {
                None => Err(Failure::Overflow),
                Some(secs) => {
                    let mut t = String::new();
                    t.append("你结束了本次阅读，共计 ");
                    push_u64(&mut t, secs / 60);
                    t.append(" 分 ");
                    push_u64(&mut t, secs % 60);
                    t.append(" 秒");
                    assert(t@ =~= finished_text(secs));
                    Ok(Reply::Text(t))
                },
            }
        },
    }
}

/// The store and the answer after an abandon: the sender's open session, if any, is
/// deleted and no longer open.
pub open spec fn abandon_spec(db: DbView, sender: Option<Sender>) -> (DbView, Result<ReplyView, Failure>) {
    match sender {
        None => (db, Err(Failure::NoSender)),
        Some(s) => {
            let (db1, user) = create_or_get_user_spec(db, s.uid, s.username@, None);
            match user.current_rid {
                None => (db1, Ok(ReplyView::Text(abandon_idle_text()))),
                Some(rid) => (
                    update_current_record_spec(delete_record_spec(db1, rid), s.uid, None),
                    Ok(ReplyView::Text(abandoned_text())),
                ),
            }
        },
    }
}

/// Answers an abandon.
pub fn abandon(conn: &mut Database, sender: &Option<Sender>) -> (res: Result<Reply, Failure>)
    ensures
        abandon_spec(old(conn)@, *sender) == (final(conn)@, answer_view(res)),
{
    let s = match sender {
        Some(s) => s,
        None => {
            return Err(Failure::NoSender);
        },
    };
    let user = sender_user(conn, s);
    match user.current_rid {
        None => {
            let mut t = String::new();
            t.append("你没有正在进行的计时");
            assert(t@ =~= abandon_idle_text());
            Ok(Reply::Text(t))
        },
        Some(rid) => {
            let _ = delete_record(conn, rid);
            let _ = update_current_record(conn, s.uid, None);
            let mut t = String::new();
            t.append("你放弃了当前的计时");
            assert(t@ =~= abandoned_text());
            Ok(Reply::Text(t))
        },
    }
}

/// The reminder that a request to be reminded every `secs` seconds inserts for user `uid`.
pub open spec fn interval_reminder(uid: i64, secs: u32) -> ReminderView {
    ReminderView { id: None, uid: uid, bid: None, cron: None, interval: Some(secs as i64) }
}

/// The store and the answer after a request to be reminded every `secs` seconds: the
/// sender's reminders are replaced by one with that interval, and reminding starts
/// for the sender as the store had it before the request.
pub open spec fn cuiwo_spec(db: DbView, sender: Option<Sender>, secs: u32) -> (DbView, Result<ReplyView, Failure>) {
    match sender {
        None => (db, Err(Failure::NoSender)),
        Some(s) => {
            let (db1, user) = create_or_get_user_spec(db, s.uid, s.username@, None);
            let db2 = delete_reminder_spec(db1, s.uid).0;
            let (db3, r) = create_reminder_spec(db2, interval_reminder(s.uid, secs));
            match r {
                Err(e) => (db2, Err(Failure::Db(e))),
                Ok(_) => (db3, Ok(ReplyView::Remind(remind_text(secs), user, secs as u64))),
            }
        },
    }
}

/// Answers a request to be reminded every `secs` seconds.
pub fn cuiwo(conn: &mut Database, sender: &Option<Sender>, secs: u32) -> (res: Result<Reply, Failure>)
    ensures
        cuiwo_spec(old(conn)@, *sender, secs) == (final(conn)@, answer_view(res)),
{
    let s = match sender {
        Some(s) => s,
        None => {
            return Err(Failure::NoSender);
        },
    };
    let user = sender_user(conn, s);
    let _ = delete_reminder(conn, s.uid);
    let reminder = NewReminder { id: None, uid: s.uid, bid: None, cron: None, interval: Some(secs as i64) };
    match create_reminder(conn, reminder) {
        Err(e) => Err(Failure::Db(e)),
        Ok(()) => {
            let mut t = String::new();
            t.append("好的，我会在 ");
            push_u64(&mut t, (secs / 60) as u64);
            t.append(" 分钟后提醒你读书");
            assert(t@ =~= remind_text(secs));
            Ok(Reply::Remind { text: t, user: user, interval_secs: secs as u64 })
        },
    }
}

/// The store and the answer after a request to be reminded no more: the sender's
/// reminders are deleted, and reminding stops for the sender.
pub open spec fn biecuiwole_spec(db: DbView, sender: Option<Sender>) -> (DbView, Result<ReplyView, Failure>) {
    match sender {
        None => (db, Err(Failure::NoSender)),
        Some(s) => (delete_reminder_spec(db, s.uid).0, Ok(ReplyView::Unremind(unremind_text(), s.uid))),
    }
}

/// Answers a request to be reminded no more.
pub fn biecuiwole(conn: &mut Database, sender: &Option<Sender>) -> (res: Result<Reply, Failure>)
    ensures
        biecuiwole_spec(old(conn)@, *sender) == (final(conn)@, answer_view(res)),
{
    let s = match sender {
        Some(s) => s,
        None => {
            return Err(Failure::NoSender);
        },
    };
    let _ = delete_reminder(conn, s.uid);
    let mut t = String::new();
    t.append("好的，我不会再提醒你读书了");
    assert(t@ =~= unremind_text());
    Ok(Reply::Unremind { text: t, uid: s.uid })
}

/// The store and the answer after a request for the time read: the sender is
/// created as a user when new, and the answer tells the sender's time read in
/// minutes and seconds.
pub open spec fn me_spec(db: DbView, sender: Option<Sender>) -> (DbView, Result<ReplyView, Failure>) {
    match sender {
        None => (db, Err(Failure::NoSender)),
        Some(s) => {
            let (db1, user) = create_or_get_user_spec(db, s.uid, s.username@, None);
            if total_defined(db1.records, user.uid) {
                (db1, Ok(ReplyView::Text(total_text(total_secs(db1.records, user.uid) as u64))))
            } else {
                (db1, Err(Failure::Overflow))
            }
        },
    }
}

/// Answers a request for the time read.
pub fn me(conn: &mut Database, sender: &Option<Sender>) -> (res: Result<Reply, Failure>)
    ensures
        me_spec(old(conn)@, *sender) == (final(conn)@, answer_view(res)),
{
    let s = match sender {
        Some(s) => s,
        None => {
            return Err(Failure::NoSender);
        },
    };
    let user = sender_user(conn, s);
    match checked_duration_sum(conn, user.uid) {
        None => Err(Failure::Overflow),
        Some(sum) => {
            let mut t = String::new();
            t.append("你总共阅读了 ");
            push_u64(&mut t, sum / 60);
            t.append(" 分 ");
            push_u64(&mut t, sum % 60);
            t.append(" 秒");
            assert(t@ =~= total_text(sum));
            Ok(Reply::Text(t))
        },
    }
}

/// The name under which the board shows a user: the user's name, or a stand-in for
/// an empty one.
pub open spec fn display_name(username: Seq<char>) -> Seq<char> {
    if username.len() == 0 {
        "无名氏"@
    } else {
        username
    }
}

/// The board's line for a user who read `secs` seconds.
pub open spec fn board_line(u: UserView, secs: u64) -> Seq<char> {
    display_name(u.username) + " ["@ + signed_decimal(u.uid as int) + "]: "@ + decimal((secs / 60) as nat)
        + " 分 "@ + decimal((secs % 60) as nat) + " 秒\n"@
}

/// The board: one line per user, in the order of the users table, with the time
/// each has read.
pub open spec fn board_text(users: Seq<UserView>, records: Seq<Record>) -> Seq<char>
    decreases users.len(),
{
    if users.len() == 0 {
        Seq::empty()
    } else {
        board_text(users.drop_last(), records) + board_line(users.last(), total_secs(records, users.last().uid) as u64)
    }
}

/// The answer to a request for the board; the store does not change.
pub open spec fn board_spec(db: DbView) -> Result<ReplyView, Failure> {
    if forall|k: int| 0 <= k < db.users.len() ==> total_defined(db.records, #[trigger] db.users[k].uid) {
        Ok(ReplyView::Text(board_text(db.users, db.records)))
    } else {
        Err(Failure::Overflow)
    }
}

/// Answers a request for the board.
pub fn board(conn: &Database) -> (res: Result<Reply, Failure>)
    ensures
        board_spec(conn@) == answer_view(res),
{
    let ghost users = conn@.users;
    let mut t = String::new();
    let mut i: usize = 0;
    while i < conn.users.len()
        invariant
            i <= conn.users.len(),
            users == conn@.users,
            forall|k: int| 0 <= k < i ==> total_defined(conn@.records, #[trigger] users[k].uid),
            t@ == board_text(users.take(i as int), conn@.records),
        decreases conn.users.len() - i,
    {
        let u = &conn.users[i];
        assert(users[i as int] == u@);
        let secs = match checked_duration_sum(conn, u.uid) {
            Some(secs) => secs,
            None => {
                assert(!total_defined(conn@.records, users[i as int].uid));
                return Err(Failure::Overflow);
            },
        };
        let ghost prev = t@;
        proof {
            reveal_strlit("");
        }
        if u.username.as_str().is_empty() {
            t.append("无名氏");
        } else {
            t.append(u.username.as_str());
        }
        t.append(" [");
        push_i64(&mut t, u.uid);
        t.append("]: ");
        push_u64(&mut t, secs / 60);
        t.append(" 分 ");
        push_u64(&mut t, secs % 60);
        t.append(" 秒\n");
        assert(users.take(i + 1).drop_last() =~= users.take(i as int));
        assert(t@ =~= prev + board_line(u@, secs));
        i = i + 1;
    }
    assert(users.take(conn.users.len() as int) =~= users);
    Ok(Reply::Text(t))
}

/// The store and the answer after command `cmd`, sent by `sender` at time `now`.
pub open spec fn answer_spec(db: DbView, sender: Option<Sender>, cmd: Command, now: i64) -> (
    DbView,
    Result<ReplyView, Failure>,
) {
    match cmd {
        Command::Start => (db, Ok(ReplyView::Text(start_text()))),
        Command::Help => (db, Ok(ReplyView::Help)),
        Command::Checkin(arg) => checkin_spec(db, sender, arg@, now),
        Command::Checkout => checkout_spec(db, sender, now),
        Command::Abandon => abandon_spec(db, sender),
        Command::Board => (db, board_spec(db)),
        Command::Me => me_spec(db, sender),
        Command::Cuiwo(secs) => cuiwo_spec(db, sender, secs),
        Command::Biecuiwole => biecuiwole_spec(db, sender),
        Command::Flag | Command::MyFlags | Command::OthersFlags => (
            db,
            Ok(ReplyView::Text(unimplemented_text())),
        ),
    }
}

/// Answers command `cmd`, sent by `sender` (when the message has one) at time `now`.
/// An `Err` is a command the bot gives up on; the store then holds what was done
/// before the failure.
pub fn answer(conn: &mut Database, sender: &Option<Sender>, cmd: Command, now: i64) -> (res: Result<Reply, Failure>)
    ensures
        answer_spec(old(conn)@, *sender, cmd, now) == (final(conn)@, answer_view(res)),
{
    match cmd {
        Command::Start => {
            let mut t = String::new();
            t.append("你好，我是阅读计时机器人。你可以使用 /help 查看支持的命令。和我聊天吧！");
            assert(t@ =~= start_text());
            Ok(Reply::Text(t))
        },
        Command::Help => Ok(Reply::Help),
        Command::Checkin(arg) => checkin(conn, sender, arg.as_str(), now),
        Command::Checkout => checkout(conn, sender, now),
        Command::Abandon => abandon(conn, sender),
        Command::Board => board(conn),
        Command::Me => me(conn, sender),
        Command::Cuiwo(secs) => cuiwo(conn, sender, secs),
        Command::Biecuiwole => biecuiwole(conn, sender),
        Command::Flag | Command::MyFlags | Command::OthersFlags => {
            let mut t = String::new();
            t.append("Unimplemented…");
            assert(t@ =~= unimplemented_text());
            Ok(Reply::Text(t))
        },
    }
}

/// How often a default reminder reminds: its interval, but never more often than
/// once an hour; `None` when it has no interval.
pub open spec fn reminder_interval(r: ReminderView) -> Option<u64> {
    match r.interval {
        Some(i) => Some((if i < 3600 { 3600 } else { i }) as u64),
        None => None,
    }
}

/// The reminders to start when the bot starts: for each user, in table order, whose
/// first default reminder has an interval, the user and that interval (at least an hour).
pub open spec fn startup_plan(db: DbView, users: Seq<UserView>) -> Seq<(UserView, u64)>
    decreases users.len(),
{
    if users.len() == 0 {
        Seq::empty()
    } else {
        let rest = startup_plan(db, users.drop_last());
        let u = users.last();
        match get_default_reminders_spec(db, u.uid) {
            Ok(r) => match reminder_interval(r) {
                Some(i) => rest.push((u, i)),
                None => rest,
            },
            Err(_) => rest,
        }
    }
}

/// The mathematical value of a list of users with intervals.
pub open spec fn plan_view(v: Seq<(User, u64)>) -> Seq<(UserView, u64)> {
    v.map_values(|p: (User, u64)| (p.0@, p.1))
}

/// The reminders to start when the bot starts.
pub fn startup_reminders(conn: &Database) -> (res: Vec<(User, u64)>)
    ensures
        plan_view(res@) == startup_plan(conn@, conn@.users),
{
    let users = match get_all_users(conn) {
        Ok(u) => u,
        Err(_) => Vec::new(),
    };
    let ghost uv = conn@.users;
    assert(users@.map_values(|u: User| u@) == uv);
    let mut res: Vec<(User, u64)> = Vec::new();
    let mut i: usize = 0;
    while i < users.len()
        invariant
            i <= users.len(),
            users@.map_values(|u: User| u@) == uv,
            plan_view(res@) == startup_plan(conn@, uv.take(i as int)),
        decreases users.len() - i,
    {
        let u = &users[i];
        assert(uv[i as int] == u@);
        assert(uv.take(i + 1).drop_last() =~= uv.take(i as int));
        let ghost prev = res@;
        match get_default_reminders(conn, u.uid) {
            Ok(r) => match r.interval {
                Some(iv) => {
                    let secs: i64 = if iv < 3600 { 3600 } else { iv };
                    res.push((u.clone(), secs as u64));
                    assert(plan_view(res@) =~= plan_view(prev).push((u@, secs as u64)));
                },
                None => {},
            },
            Err(_) => {},
        }
        i = i + 1;
    }
    assert(uv.take(users.len() as int) =~= uv);
    res
}

} // verus!
