use reading_bot::bot::{answer, board, reminder_text, startup_reminders, Command, Failure, Reply, Sender};
use reading_bot::db::book::create_or_get_book;
use reading_bot::db::chap::create_or_get_chap;
use reading_bot::db::record::{create_and_get_record, finish_record, get_duration_sum};
use reading_bot::db::reminder::create_reminder;
use reading_bot::db::user::create_or_get_user;
use reading_bot::db::{Database, DbError};
use reading_bot::models::{NewChap, NewRecord, NewReminder, NewUser, User};

fn sender(uid: i64, name: &str) -> Option<Sender> {
    Some(Sender { uid, username: name.to_string() })
}

fn text(r: Result<Reply, Failure>) -> String {
    match r {
        Ok(Reply::Text(t)) => t,
        other => panic!("not a text reply: {:?}", other),
    }
}

#[test]
fn start_help_and_unimplemented() {
    let mut db = Database::new();
    assert_eq!(
        text(answer(&mut db, &None, Command::Start, 0)),
        "你好，我是阅读计时机器人。你可以使用 /help 查看支持的命令。和我聊天吧！"
    );
    assert!(matches!(answer(&mut db, &None, Command::Help, 0), Ok(Reply::Help)));
    assert_eq!(text(answer(&mut db, &None, Command::Flag, 0)), "Unimplemented…");
    assert_eq!(text(answer(&mut db, &None, Command::MyFlags, 0)), "Unimplemented…");
    assert_eq!(text(answer(&mut db, &None, Command::OthersFlags, 0)), "Unimplemented…");
    assert_eq!(db.users.len(), 0);
}

#[test]
fn checkin_needs_two_lines() {
    let mut db = Database::new();
    let hint = "请使用正确的格式：/checkin 书名\\n章节名\n\n书名和章节名之间用一个换行符分隔";
    assert_eq!(text(answer(&mut db, &None, Command::Checkin("Dune".to_string()), 0)), hint);
    assert_eq!(text(answer(&mut db, &sender(1, "a"), Command::Checkin("a\nb\nc".to_string()), 0)), hint);
    assert_eq!(db.users.len(), 0);
    assert_eq!(db.books.len(), 0);
}

#[test]
fn commands_without_sender_fail() {
    let mut db = Database::new();
    assert_eq!(answer(&mut db, &None, Command::Checkin("a\nb".to_string()), 0).err(), Some(Failure::NoSender));
    assert_eq!(answer(&mut db, &None, Command::Checkout, 0).err(), Some(Failure::NoSender));
    assert_eq!(answer(&mut db, &None, Command::Abandon, 0).err(), Some(Failure::NoSender));
    assert_eq!(answer(&mut db, &None, Command::Me, 0).err(), Some(Failure::NoSender));
    assert_eq!(answer(&mut db, &None, Command::Cuiwo(60), 0).err(), Some(Failure::NoSender));
    assert_eq!(answer(&mut db, &None, Command::Biecuiwole, 0).err(), Some(Failure::NoSender));
}

#[test]
fn checkin_then_checkout_reports_the_time_between() {
    let mut db = Database::new();
    let s = sender(42, "reader");
    let started = text(answer(&mut db, &s, Command::Checkin("  Dune \n Chapter 1\t".to_string()), 1000));
    assert_eq!(started, "你开始阅读了 Dune 书 (1) 的 Chapter 1 章节 ([1])，记录编号为 1");
    assert_eq!(db.users[0].current_rid, Some(1));
    assert_eq!(db.chaps[0].creator_uid, 42);
    let refused = text(answer(&mut db, &s, Command::Checkin("Emma\nOne".to_string()), 1010));
    assert_eq!(refused, "你有未结束的阅读记录，请先结束或放弃当前的计时");
    assert_eq!(db.books.len(), 1);
    assert_eq!(get_duration_sum(&db, 42), Ok(0));
    let done = text(answer(&mut db, &s, Command::Checkout, 1065));
    assert_eq!(done, "你结束了本次阅读，共计 1 分 5 秒");
    assert_eq!(db.users[0].current_rid, None);
    assert_eq!(db.records[0].totime, Some(1065));
    assert_eq!(get_duration_sum(&db, 42), Ok(65));
    assert_eq!(text(answer(&mut db, &s, Command::Me, 2000)), "你总共阅读了 1 分 5 秒");
    assert_eq!(text(answer(&mut db, &s, Command::Checkout, 2000)), "结束计时");
}

#[test]
fn second_checkin_reuses_book_and_chapter() {
    let mut db = Database::new();
    let s = sender(1, "a");
    answer(&mut db, &s, Command::Checkin("Dune\nOne".to_string()), 0).unwrap();
    answer(&mut db, &s, Command::Checkout, 10).unwrap();
    let t = text(answer(&mut db, &s, Command::Checkin("Dune\nTwo".to_string()), 20));
    assert_eq!(t, "你开始阅读了 Dune 书 (1) 的 Two 章节 ([2])，记录编号为 2");
    answer(&mut db, &s, Command::Abandon, 30).unwrap();
    let t = text(answer(&mut db, &s, Command::Checkin("Dune\nOne".to_string()), 40));
    assert_eq!(t, "你开始阅读了 Dune 书 (1) 的 One 章节 ([1])，记录编号为 2");
}

#[test]
fn abandon_discards_the_open_session() {
    let mut db = Database::new();
    let s = sender(7, "x");
    assert_eq!(text(answer(&mut db, &s, Command::Abandon, 0)), "你没有正在进行的计时");
    answer(&mut db, &s, Command::Checkin("B\nC".to_string()), 0).unwrap();
    assert_eq!(text(answer(&mut db, &s, Command::Abandon, 50)), "你放弃了当前的计时");
    assert_eq!(db.records.len(), 0);
    assert_eq!(db.users[0].current_rid, None);
    assert_eq!(get_duration_sum(&db, 7), Ok(0));
}

#[test]
fn checkout_failures() {
    let mut db = Database::new();
    let name = "u".to_string();
    create_or_get_user(&mut db, NewUser { uid: 1, username: &name, current_rid: Some(9) }).unwrap();
    assert_eq!(answer(&mut db, &sender(1, "u"), Command::Checkout, 5).err(), Some(Failure::Db(DbError::NotFound)));
    let mut db = Database::new();
    create_or_get_user(&mut db, NewUser { uid: 1, username: &name, current_rid: Some(1) }).unwrap();
    create_and_get_record(&mut db, NewRecord { rid: Some(1), uid: 1, cid: 1, fromtime: i64::MIN, totime: None }).unwrap();
    assert_eq!(answer(&mut db, &sender(1, "u"), Command::Checkout, 5).err(), Some(Failure::Overflow));
    assert_eq!(db.records[0].totime, Some(5));
    assert_eq!(db.users[0].current_rid, None);
}

#[test]
fn checkin_fails_when_no_record_identifier_is_left() {
    let mut db = Database::new();
    create_and_get_record(&mut db, NewRecord { rid: Some(i64::MAX), uid: 3, cid: 1, fromtime: 0, totime: Some(1) }).unwrap();
    let r = answer(&mut db, &sender(1, "a"), Command::Checkin("B\nC".to_string()), 0);
    assert_eq!(r.err(), Some(Failure::Db(DbError::Full)));
    assert_eq!(db.books.len(), 0);
    assert_eq!(db.chaps.len(), 0);
    assert_eq!(db.users.len(), 1);
    assert_eq!(db.users[0].current_rid, None);
}

#[test]
fn me_reports_overflow() {
    let mut db = Database::new();
    create_and_get_record(&mut db, NewRecord { rid: None, uid: 1, cid: 1, fromtime: 10, totime: Some(0) }).unwrap();
    create_and_get_record(&mut db, NewRecord { rid: None, uid: 1, cid: 1, fromtime: 0, totime: Some(20) }).unwrap();
    assert_eq!(answer(&mut db, &sender(1, "a"), Command::Me, 0).err(), Some(Failure::Overflow));
    assert_eq!(answer(&mut db, &None, Command::Board, 0).err(), Some(Failure::Overflow));
}

#[test]
fn board_lists_every_user_in_table_order() {
    let mut db = Database::new();
    let (a, b) = ("".to_string(), "bob".to_string());
    create_or_get_user(&mut db, NewUser { uid: 2, username: &a, current_rid: None }).unwrap();
    create_or_get_user(&mut db, NewUser { uid: -3, username: &b, current_rid: None }).unwrap();
    create_and_get_record(&mut db, NewRecord { rid: None, uid: 2, cid: 1, fromtime: 0, totime: Some(3725) }).unwrap();
    let t = text(board(&db));
    assert_eq!(t, "无名氏 [2]: 62 分 5 秒\nbob [-3]: 0 分 0 秒\n");
    assert_eq!(text(answer(&mut db, &None, Command::Board, 0)), t);
    assert_eq!(text(board(&Database::new())), "");
}

#[test]
fn cuiwo_replaces_reminders_and_starts_reminding() {
    let mut db = Database::new();
    let s = sender(5, "eve");
    create_reminder(&mut db, NewReminder { id: None, uid: 5, bid: None, cron: None, interval: Some(10) }).unwrap();
    match answer(&mut db, &s, Command::Cuiwo(150), 0) {
        Ok(Reply::Remind { text, user, interval_secs }) => {
            assert_eq!(text, "好的，我会在 2 分钟后提醒你读书");
            assert_eq!(user.uid, 5);
            assert_eq!(user.username, "eve");
            assert_eq!(interval_secs, 150);
        }
        other => panic!("unexpected {:?}", other),
    }
    assert_eq!(db.reminders.len(), 1);
    assert_eq!(db.reminders[0].interval, Some(150));
    assert_eq!(db.reminders[0].id, Some(1));
    match answer(&mut db, &s, Command::Biecuiwole, 0) {
        Ok(Reply::Unremind { text, uid }) => {
            assert_eq!(text, "好的，我不会再提醒你读书了");
            assert_eq!(uid, 5);
        }
        other => panic!("unexpected {:?}", other),
    }
    assert_eq!(db.reminders.len(), 0);
}

#[test]
fn reminder_message_mentions_user() {
    let u = User { uid: 12, username: "amy".to_string(), current_rid: None };
    assert_eq!(reminder_text(&u, 7200), "[amy](tg://user?id=12)，你该读书了！\n\n下次提醒将在 120 分钟后");
    assert_eq!(reminder_text(&u, 59), "[amy](tg://user?id=12)，你该读书了！\n\n下次提醒将在 0 分钟后");
}

#[test]
fn startup_reminders_are_at_least_hourly() {
    let mut db = Database::new();
    let n = "n".to_string();
    for uid in 1..=4 {
        create_or_get_user(&mut db, NewUser { uid, username: &n, current_rid: None }).unwrap();
    }
    let r = |uid: i64, bid: Option<i64>, interval: Option<i64>| NewReminder { id: None, uid, bid, cron: None, interval };
    create_reminder(&mut db, r(1, None, Some(60))).unwrap();
    create_reminder(&mut db, r(2, None, Some(7200))).unwrap();
    create_reminder(&mut db, r(3, Some(1), Some(100))).unwrap();
    create_reminder(&mut db, r(4, None, None)).unwrap();
    let plan = startup_reminders(&db);
    let got: Vec<(i64, u64)> = plan.iter().map(|(u, i)| (u.uid, *i)).collect();
    assert_eq!(got, vec![(1, 3600), (2, 7200)]);
}

fn sessions_consistent(db: &Database) -> bool {
    let ids: Vec<Option<i64>> = db.records.iter().map(|r| r.rid).collect();
    let unique = ids.iter().enumerate().all(|(i, a)| {
        a.is_none() || ids.iter().enumerate().all(|(j, b)| i == j || a != b)
    });
    let open = db.users.iter().all(|u| match u.current_rid {
        None => true,
        Some(r) => db.records.iter().any(|rec| rec.rid == Some(r) && rec.uid == u.uid && rec.totime.is_none()),
    });
    unique && open
}

#[test]
fn sessions_stay_consistent_over_a_conversation() {
    let mut db = Database::new();
    let steps: Vec<(Option<Sender>, Command)> = vec![
        (sender(1, "a"), Command::Checkin("B1\nC1".to_string())),
        (sender(2, "b"), Command::Checkin("B1\nC2".to_string())),
        (sender(1, "a"), Command::Checkin("B2\nC1".to_string())),
        (sender(2, "b"), Command::Abandon),
        (sender(1, "a"), Command::Checkout),
        (sender(2, "b"), Command::Checkin("B2\nC2".to_string())),
        (sender(2, "b"), Command::Cuiwo(3600)),
        (sender(1, "a"), Command::Me),
        (None, Command::Board),
        (sender(2, "b"), Command::Checkout),
        (sender(1, "a"), Command::Abandon),
    ];
    let ids_unique = |db: &Database| {
        let b = db.books.iter().enumerate().all(|(i, x)| db.books.iter().enumerate().all(|(j, y)| i == j || (x.bid != y.bid && x.title != y.title)));
        let c = db.chaps.iter().enumerate().all(|(i, x)| db.chaps.iter().enumerate().all(|(j, y)| i == j || (x.cid != y.cid && (x.bid, &x.heading) != (y.bid, &y.heading))));
        let r = db.reminders.iter().enumerate().all(|(i, x)| db.reminders.iter().enumerate().all(|(j, y)| i == j || x.id != y.id));
        let u = db.users.iter().enumerate().all(|(i, x)| db.users.iter().enumerate().all(|(j, y)| i == j || x.uid != y.uid));
        b && c && r && u
    };
    for (i, (s, cmd)) in steps.into_iter().enumerate() {
        let r = answer(&mut db, &s, cmd, 100 * i as i64);
        assert!(r.is_ok());
        assert!(sessions_consistent(&db));
        assert!(ids_unique(&db));
    }
    assert_eq!(get_duration_sum(&db, 1), Ok(400));
    assert_eq!(get_duration_sum(&db, 2), Ok(400));
}

#[test]
fn distinct_titles_and_chapters_get_distinct_ids() {
    let mut db = Database::new();
    let a = create_or_get_book(&mut db, "A");
    let b = create_or_get_book(&mut db, "B");
    assert_ne!(a, b);
    let h = "H".to_string();
    let c1 = create_or_get_chap(&mut db, NewChap { cid: None, bid: a, creator_uid: 1, heading: &h });
    let c2 = create_or_get_chap(&mut db, NewChap { cid: None, bid: b, creator_uid: 1, heading: &h });
    let c3 = create_or_get_chap(&mut db, NewChap { cid: None, bid: a, creator_uid: 2, heading: &h });
    assert_ne!(c1, c2);
    assert_eq!(c1, c3);
}

#[test]
fn finishing_adds_only_to_its_user() {
    let mut db = Database::new();
    create_and_get_record(&mut db, NewRecord { rid: None, uid: 1, cid: 1, fromtime: 0, totime: Some(10) }).unwrap();
    create_and_get_record(&mut db, NewRecord { rid: None, uid: 2, cid: 1, fromtime: 0, totime: Some(7) }).unwrap();
    create_and_get_record(&mut db, NewRecord { rid: None, uid: 1, cid: 1, fromtime: 100, totime: None }).unwrap();
    assert_eq!(finish_record(&mut db, 3, 130), Ok(100));
    assert_eq!(get_duration_sum(&db, 1), Ok(40));
    assert_eq!(get_duration_sum(&db, 2), Ok(7));
}

#[test]
fn inserting_a_finished_session_adds_to_its_user_only() {
    let mut db = Database::new();
    create_and_get_record(&mut db, NewRecord { rid: None, uid: 1, cid: 1, fromtime: 0, totime: Some(10) }).unwrap();
    assert_eq!(get_duration_sum(&db, 1), Ok(10));
    create_and_get_record(&mut db, NewRecord { rid: None, uid: 1, cid: 1, fromtime: 20, totime: Some(45) }).unwrap();
    assert_eq!(get_duration_sum(&db, 1), Ok(35));
    create_and_get_record(&mut db, NewRecord { rid: None, uid: 1, cid: 1, fromtime: 50, totime: None }).unwrap();
    assert_eq!(get_duration_sum(&db, 1), Ok(35));
    assert_eq!(get_duration_sum(&db, 2), Ok(0));
}
