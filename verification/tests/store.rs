use reading_bot::db::book::{book_outcome, create_or_get_book};
use reading_bot::db::chap::{chap_outcome, create_or_get_chap};
use reading_bot::db::record::{
    checked_duration_sum, create_and_get_record, delete_record, finish_record, get_duration_sum,
    get_duration_sum_rank, get_record, secs_between,
};
use reading_bot::db::reminder::{create_reminder, delete_reminder, get_default_reminders};
use reading_bot::db::user::{create_or_get_user, get_all_users, update_current_record};
use reading_bot::db::{fresh_id, id_in_use, Database, DbError};
use reading_bot::models::{Book, NewChap, NewRecord, NewReminder, NewUser, Record};

fn record(rid: Option<i64>, uid: i64, from: i64, to: Option<i64>) -> NewRecord {
    NewRecord { rid, uid, cid: 1, fromtime: from, totime: to }
}

#[test]
fn fresh_ids_follow_the_largest() {
    assert_eq!(fresh_id(&vec![]), Some(1));
    assert_eq!(fresh_id(&vec![None]), Some(1));
    assert_eq!(fresh_id(&vec![Some(3), None, Some(7), Some(5)]), Some(8));
    assert_eq!(fresh_id(&vec![Some(-5)]), Some(-4));
    assert_eq!(fresh_id(&vec![Some(i64::MAX)]), None);
    assert!(id_in_use(&vec![Some(1), Some(4)], 4));
    assert!(!id_in_use(&vec![Some(1), None], 2));
}

#[test]
fn book_is_created_once() {
    let mut db = Database::new();
    let a = create_or_get_book(&mut db, "Dune");
    let b = create_or_get_book(&mut db, "Emma");
    let c = create_or_get_book(&mut db, "Dune");
    assert_eq!((a, b, c), (1, 2, 1));
    assert_eq!(db.books.len(), 2);
    assert_eq!(db.books[1].title, "Emma");
}

#[test]
fn book_outcome_reports_full_and_missing_ids() {
    let mut db = Database::new();
    db.books.push(Book { bid: Some(i64::MAX), title: "A".to_string() });
    db.books.push(Book { bid: None, title: "B".to_string() });
    assert_eq!(book_outcome(&db, "A"), Ok(i64::MAX));
    assert_eq!(book_outcome(&db, "B"), Err(DbError::NotFound));
    assert_eq!(book_outcome(&db, "C"), Err(DbError::Full));
}

#[test]
fn chapter_is_created_once_per_book() {
    let mut db = Database::new();
    let h1 = "Ch 1".to_string();
    let c1 = create_or_get_chap(&mut db, NewChap { cid: None, bid: 1, creator_uid: 9, heading: &h1 });
    let c2 = create_or_get_chap(&mut db, NewChap { cid: None, bid: 2, creator_uid: 9, heading: &h1 });
    let c3 = create_or_get_chap(&mut db, NewChap { cid: None, bid: 1, creator_uid: 5, heading: &h1 });
    assert_eq!((c1, c2, c3), (Ok(1), Ok(2), Ok(1)));
    assert_eq!(db.chaps.len(), 2);
    assert_eq!(db.chaps[0].creator_uid, 9);
}

#[test]
fn chapter_with_taken_identifier_is_not_found() {
    let mut db = Database::new();
    let h1 = "Ch 1".to_string();
    let h2 = "Ch 2".to_string();
    assert_eq!(create_or_get_chap(&mut db, NewChap { cid: Some(4), bid: 1, creator_uid: 9, heading: &h1 }), Ok(4));
    assert_eq!(chap_outcome(&db, Some(4), 1, &h2), Err(DbError::NotFound));
    assert_eq!(create_or_get_chap(&mut db, NewChap { cid: Some(4), bid: 1, creator_uid: 9, heading: &h2 }), Err(DbError::NotFound));
    assert_eq!(db.chaps.len(), 1);
    assert_eq!(create_or_get_chap(&mut db, NewChap { cid: None, bid: 1, creator_uid: 9, heading: &h2 }), Ok(5));
}

#[test]
fn record_insertion_errors() {
    let mut db = Database::new();
    let r = create_and_get_record(&mut db, record(Some(i64::MAX), 1, 10, None)).unwrap();
    assert_eq!(r.rid, Some(i64::MAX));
    assert_eq!(create_and_get_record(&mut db, record(Some(i64::MAX), 1, 10, None)), Err(DbError::UniqueViolation));
    assert_eq!(create_and_get_record(&mut db, record(None, 1, 10, None)), Err(DbError::Full));
    assert_eq!(db.records.len(), 1);
}

#[test]
fn record_read_after_insert_finish_and_delete() {
    let mut db = Database::new();
    let r = create_and_get_record(&mut db, record(None, 7, 100, None)).unwrap();
    assert_eq!(r, Record { rid: Some(1), uid: 7, cid: 1, fromtime: 100, totime: None });
    assert_eq!(get_record(&db, 1), Ok(r));
    assert_eq!(finish_record(&mut db, 1, 160), Ok(100));
    assert_eq!(get_record(&db, 1).unwrap().totime, Some(160));
    assert_eq!(finish_record(&mut db, 2, 160), Err(DbError::NotFound));
    assert_eq!(delete_record(&mut db, 1), Ok(()));
    assert_eq!(get_record(&db, 1), Err(DbError::NotFound));
    assert_eq!(db.records.len(), 0);
}

#[test]
fn delete_record_keeps_others_in_order() {
    let mut db = Database::new();
    for i in 0..4 {
        create_and_get_record(&mut db, record(None, 1, i, None)).unwrap();
    }
    delete_record(&mut db, 2).unwrap();
    let ids: Vec<Option<i64>> = db.records.iter().map(|r| r.rid).collect();
    assert_eq!(ids, vec![Some(1), Some(3), Some(4)]);
}

#[test]
fn duration_sum_counts_finished_sessions_of_the_user() {
    let mut db = Database::new();
    create_and_get_record(&mut db, record(None, 1, 0, Some(65))).unwrap();
    create_and_get_record(&mut db, record(None, 1, 100, Some(200))).unwrap();
    create_and_get_record(&mut db, record(None, 1, 300, None)).unwrap();
    create_and_get_record(&mut db, record(None, 2, 0, Some(1000))).unwrap();
    assert_eq!(get_duration_sum(&db, 1), Ok(165));
    assert_eq!(get_duration_sum(&db, 2), Ok(1000));
    assert_eq!(get_duration_sum(&db, 3), Ok(0));
}

#[test]
fn negative_session_wraps_and_overflow_is_reported() {
    assert_eq!(secs_between(10, 5), Some(u64::MAX - 4));
    assert_eq!(secs_between(i64::MIN, 0), None);
    assert_eq!(secs_between(0, i64::MAX), Some(i64::MAX as u64));
    let mut db = Database::new();
    create_and_get_record(&mut db, record(None, 1, 10, Some(5))).unwrap();
    assert_eq!(checked_duration_sum(&db, 1), Some(u64::MAX - 4));
    create_and_get_record(&mut db, record(None, 1, 0, Some(5))).unwrap();
    assert_eq!(checked_duration_sum(&db, 1), None);
    let mut db2 = Database::new();
    create_and_get_record(&mut db2, record(None, 1, i64::MIN, Some(1))).unwrap();
    assert_eq!(checked_duration_sum(&db2, 1), None);
}

#[test]
fn rank_pairs_every_user_with_its_time() {
    let mut db = Database::new();
    let a = "a".to_string();
    let b = "b".to_string();
    create_or_get_user(&mut db, NewUser { uid: 5, username: &a, current_rid: None }).unwrap();
    create_or_get_user(&mut db, NewUser { uid: 3, username: &b, current_rid: None }).unwrap();
    create_and_get_record(&mut db, record(None, 3, 0, Some(30))).unwrap();
    let rank = get_duration_sum_rank(&db, 0).unwrap();
    assert_eq!(rank.len(), 2);
    assert_eq!((rank[0].0, rank[0].1.uid), (0, 5));
    assert_eq!((rank[1].0, rank[1].1.uid), (30, 3));
}

#[test]
fn user_is_created_once_and_keeps_its_data() {
    let mut db = Database::new();
    let a = "alice".to_string();
    let b = "bob".to_string();
    let u1 = create_or_get_user(&mut db, NewUser { uid: 1, username: &a, current_rid: Some(4) }).unwrap();
    let u2 = create_or_get_user(&mut db, NewUser { uid: 1, username: &b, current_rid: None }).unwrap();
    assert_eq!(u1.username, "alice");
    assert_eq!(u2.username, "alice");
    assert_eq!(u2.current_rid, Some(4));
    assert_eq!(db.users.len(), 1);
    update_current_record(&mut db, 1, None).unwrap();
    let u3 = create_or_get_user(&mut db, NewUser { uid: 1, username: &b, current_rid: None }).unwrap();
    assert_eq!(u3.current_rid, None);
    assert_eq!(get_all_users(&db).unwrap().len(), 1);
}

#[test]
fn reminders_are_replaced_and_deleted() {
    let mut db = Database::new();
    let r = |uid: i64, bid: Option<i64>, interval: i64| NewReminder { id: None, uid, bid, cron: None, interval: Some(interval) };
    create_reminder(&mut db, r(1, Some(3), 60)).unwrap();
    create_reminder(&mut db, r(1, None, 120)).unwrap();
    create_reminder(&mut db, r(2, None, 180)).unwrap();
    let d = get_default_reminders(&db, 1).unwrap();
    assert_eq!((d.id, d.interval), (Some(2), Some(120)));
    assert_eq!(delete_reminder(&mut db, 1), Ok(2));
    assert_eq!(get_default_reminders(&db, 1).map(|r| r.id), Err(DbError::NotFound));
    assert_eq!(get_default_reminders(&db, 2).unwrap().interval, Some(180));
    assert_eq!(delete_reminder(&mut db, 1), Ok(0));
    let taken = NewReminder { id: Some(3), uid: 4, bid: None, cron: None, interval: None };
    assert_eq!(create_reminder(&mut db, taken), Err(DbError::UniqueViolation));
    create_reminder(&mut db, r(4, None, 10)).unwrap();
    assert_eq!(get_default_reminders(&db, 4).unwrap().id, Some(4));
}
