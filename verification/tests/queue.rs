use slack_deputy::db::{Db, DbError, Message};

fn empty() -> Db {
    Db::open(Vec::new(), 0, Vec::new()).ok().unwrap()
}

fn put(db: &mut Db, thread: Option<&str>, ts: &str, status: &str) -> i64 {
    db.insert_with_status("message", Some("C1"), thread, ts, "{}", status, "now").ok().unwrap()
}

fn status(db: &Db, pk: i64) -> String {
    db.rows().iter().find(|m| m.pk == pk).unwrap().status.clone()
}

fn row(pk: i64) -> Message {
    Message {
        pk,
        kind: "message".to_string(),
        channel: None,
        thread_ts: None,
        ts: "1.0".to_string(),
        body: "{}".to_string(),
        status: "pending".to_string(),
        created_at: "now".to_string(),
    }
}

#[test]
fn an_empty_store_has_nothing_to_claim() {
    let mut db = empty();
    assert!(!db.has_claimable());
    assert!(db.claim_next().is_none());
    assert_eq!(db.max_pk(), 0);
    assert!(db.rows_after(0).is_empty());
}

#[test]
fn an_inserted_row_reads_back() {
    let mut db = empty();
    let pk = db.insert("reaction", None, Some("1.0"), "2.0", "{\"a\":1}", "t").ok().unwrap();
    assert_eq!(pk, 1);
    assert_eq!(db.get_body(1), Some("{\"a\":1}".to_string()));
    assert_eq!(db.get_body(2), None);
    assert_eq!(db.get_body(-1), None);
    let m = &db.rows()[0];
    assert_eq!(m.kind, "reaction");
    assert_eq!(m.channel, None);
    assert_eq!(m.thread_ts, Some("1.0".to_string()));
    assert_eq!(m.ts, "2.0");
    assert_eq!(m.status, "pending");
    assert_eq!(m.created_at, "t");
    assert_eq!(put(&mut db, None, "3.0", "ambient"), 2);
    assert_eq!(db.get_body(1), Some("{\"a\":1}".to_string()));
    assert_eq!(db.max_pk(), 2);
}

#[test]
fn the_oldest_timestamp_is_claimed_first() {
    let mut db = empty();
    put(&mut db, Some("a"), "2.0", "pending");
    put(&mut db, Some("b"), "1.0", "pending");
    put(&mut db, None, "1.0", "pending");
    assert_eq!(db.claim_next(), Some((2, Some("b".to_string()))));
    assert_eq!(db.claim_next(), Some((3, None)));
    assert_eq!(db.claim_next(), Some((1, Some("a".to_string()))));
    assert_eq!(db.claim_next(), None);
    assert_eq!(status(&db, 2), "dispatched");
}

#[test]
fn rows_of_one_thread_are_handled_one_at_a_time_and_in_order() {
    let mut db = empty();
    put(&mut db, Some("a"), "2.0", "pending");
    put(&mut db, Some("a"), "1.0", "pending");
    assert_eq!(db.claim_next(), Some((2, Some("a".to_string()))));
    assert!(!db.has_claimable());
    assert_eq!(db.claim_next(), None);
    assert_eq!(db.set_status(2, "done"), 1);
    assert!(db.has_claimable());
    assert_eq!(db.claim_next(), Some((1, Some("a".to_string()))));
}

#[test]
fn rows_without_a_thread_do_not_wait_for_each_other() {
    let mut db = empty();
    put(&mut db, None, "1.0", "pending");
    put(&mut db, None, "2.0", "pending");
    assert_eq!(db.claim_next(), Some((1, None)));
    assert_eq!(db.claim_next(), Some((2, None)));
}

#[test]
fn only_pending_rows_are_claimed() {
    let mut db = empty();
    for s in ["ambient", "done", "skipped", "awaiting_human", "dispatched"] {
        put(&mut db, Some(s), "1.0", s);
    }
    assert!(!db.has_claimable());
    assert_eq!(db.claim_next(), None);
    put(&mut db, Some("ambient"), "9.0", "pending");
    assert!(db.has_claimable());
    assert_eq!(db.claim_next(), Some((6, Some("ambient".to_string()))));
}

#[test]
fn a_status_is_set_by_key() {
    let mut db = empty();
    put(&mut db, None, "1.0", "pending");
    assert_eq!(db.set_status(7, "done"), 0);
    assert_eq!(status(&db, 1), "pending");
    assert_eq!(db.set_status(1, "awaiting_human"), 1);
    assert_eq!(status(&db, 1), "awaiting_human");
}

#[test]
fn skipping_one_touches_a_pending_row_only() {
    let mut db = empty();
    put(&mut db, None, "1.0", "pending");
    put(&mut db, None, "2.0", "dispatched");
    assert_eq!(db.skip(2), 0);
    assert_eq!(status(&db, 2), "dispatched");
    assert_eq!(db.skip(1), 1);
    assert_eq!(status(&db, 1), "skipped");
    assert_eq!(db.skip(1), 0);
    assert_eq!(db.skip(9), 0);
}

#[test]
fn skipping_all_empties_the_queue() {
    let mut db = empty();
    for s in ["pending", "dispatched", "ambient", "pending", "done"] {
        put(&mut db, None, "1.0", s);
    }
    assert_eq!(db.skip_pending(), 2);
    let got: Vec<String> = db.rows().iter().map(|m| m.status.clone()).collect();
    assert_eq!(got, vec!["skipped", "dispatched", "ambient", "skipped", "done"]);
    assert!(!db.has_claimable());
    assert_eq!(db.skip_pending(), 0);
}

#[test]
fn a_thread_is_on_record_by_its_root_or_a_reply() {
    let mut db = empty();
    put(&mut db, Some("5.0"), "6.0", "ambient");
    assert!(db.thread_tracked("5.0"));
    assert!(db.thread_tracked("6.0"));
    assert!(!db.thread_tracked("7.0"));
    // Watching does not make a thread directed.
    assert!(!db.thread_has_directed("5.0"));
    put(&mut db, Some("5.0"), "8.0", "pending");
    assert!(db.thread_has_directed("5.0"));
    assert!(db.thread_has_directed("8.0"));
    assert!(!db.thread_has_directed("6.0"));
    // It stays directed once the row is settled, and on record after more rows.
    db.set_status(2, "done");
    put(&mut db, None, "9.0", "ambient");
    assert!(db.thread_has_directed("5.0"));
    assert!(db.thread_tracked("5.0"));
}

#[test]
fn rows_are_followed_by_key() {
    let mut db = empty();
    put(&mut db, None, "3.0", "pending");
    put(&mut db, None, "2.0", "ambient");
    put(&mut db, None, "1.0", "done");
    let keys = |after: i64| -> Vec<i64> { db.rows_after(after).iter().map(|r| r.pk).collect() };
    assert_eq!(keys(0), vec![1, 2, 3]);
    assert_eq!(keys(-5), vec![1, 2, 3]);
    assert_eq!(keys(2), vec![3]);
    assert!(keys(3).is_empty());
    let r = &db.rows_after(1)[0];
    assert_eq!(r.kind, "message");
    assert_eq!(r.channel, Some("C1".to_string()));
    assert_eq!(r.status, "ambient");
    assert_eq!(r.body, "{}");
}

#[test]
fn keys_are_never_given_twice() {
    let mut db = Db::open(vec![row(3)], 8, Vec::new()).ok().unwrap();
    assert_eq!(db.max_pk(), 3);
    assert_eq!(put(&mut db, None, "1.0", "pending"), 9);
    assert_eq!(db.max_pk(), 9);
}

#[test]
fn a_store_without_keys_left_is_full() {
    let mut db = Db::open(Vec::new(), i64::MAX, Vec::new()).ok().unwrap();
    assert!(matches!(db.insert("message", None, None, "1.0", "{}", "t"), Err(DbError::Full)));
    assert!(db.rows().is_empty());
    let mut last = Db::open(Vec::new(), i64::MAX - 1, Vec::new()).ok().unwrap();
    assert!(matches!(last.insert("message", None, None, "1.0", "{}", "t"), Ok(i64::MAX)));
}

#[test]
fn keys_that_cannot_be_are_refused() {
    let refused = |rows: Vec<Message>, last: i64| {
        matches!(Db::open(rows, last, Vec::new()), Err(DbError::Corrupt))
    };
    assert!(refused(vec![row(2), row(2)], 5));
    assert!(refused(vec![row(3), row(2)], 5));
    assert!(refused(vec![row(1), row(3), row(2)], 0));
    assert!(!refused(vec![row(2), row(5)], 5));
    assert!(!refused(vec![row(-3), row(0), row(6)], 5));
    assert!(!refused(Vec::new(), -1));
}

#[test]
fn keys_go_on_from_the_highest() {
    // Nothing on record: the last row counts.
    let mut db = Db::open(vec![row(2), row(7)], 0, Vec::new()).ok().unwrap();
    assert_eq!(put(&mut db, None, "1.0", "pending"), 8);
    let mut db = Db::open(vec![row(-5), row(-3)], 0, Vec::new()).ok().unwrap();
    assert_eq!(db.max_pk(), -3);
    assert_eq!(put(&mut db, None, "1.0", "pending"), 1);
    assert_eq!(db.get_body(-5), Some("{}".to_string()));
    let mut db = Db::open(Vec::new(), -4, Vec::new()).ok().unwrap();
    assert_eq!(put(&mut db, None, "1.0", "pending"), 1);
    let mut db = Db::open(vec![row(i64::MAX)], 3, Vec::new()).ok().unwrap();
    assert!(matches!(db.insert("message", None, None, "1.0", "{}", "t"), Err(DbError::Full)));
}

#[test]
fn meta_keeps_the_last_value() {
    let start = vec![
        ("k".to_string(), "1".to_string()),
        ("k".to_string(), "2".to_string()),
        ("l".to_string(), "3".to_string()),
    ];
    let mut db = Db::open(Vec::new(), 0, start).ok().unwrap();
    assert_eq!(db.meta_get("k"), Some("2".to_string()));
    assert_eq!(db.meta_get("x"), None);
    assert_eq!(db.meta_set("k", "4"), 1);
    assert_eq!(db.meta_set("x", "5"), 1);
    assert_eq!(db.meta_get("k"), Some("4".to_string()));
    assert_eq!(db.meta_get("l"), Some("3".to_string()));
    assert_eq!(db.meta_get("x"), Some("5".to_string()));
}

#[test]
fn what_changed_is_written_back() {
    let mut db = empty();
    put(&mut db, Some("a"), "1.0", "pending");
    put(&mut db, Some("b"), "2.0", "pending");
    put(&mut db, Some("c"), "3.0", "ambient");
    let saved = db.saved();
    assert_eq!(saved.statuses, vec!["pending", "pending", "ambient"]);
    assert_eq!(saved.bot_id, None);
    let none = db.changes(&saved);
    assert!(none.statuses.is_empty() && none.rows.is_empty() && none.meta.is_none());
    assert!(db.claim_next().is_some());
    db.set_status(3, "done");
    put(&mut db, Some("d"), "4.0", "pending");
    db.meta_set("self_post_bot_id", "B1");
    let changes = db.changes(&saved);
    assert_eq!(
        changes.statuses,
        vec![(1, "dispatched".to_string()), (3, "done".to_string())]
    );
    assert_eq!(changes.rows.len(), 1);
    assert_eq!((changes.rows[0].pk, changes.rows[0].ts.as_str()), (4, "4.0"));
    assert_eq!(changes.meta, Some(("self_post_bot_id".to_string(), "B1".to_string())));
    let again = db.changes(&db.saved());
    assert!(again.statuses.is_empty() && again.rows.is_empty() && again.meta.is_none());
    // Of a file with more rows nothing is written.
    let more = empty().changes(&saved);
    assert!(more.statuses.is_empty() && more.rows.is_empty());
}

#[test]
fn a_row_is_copied() {
    let m = row(4).copy();
    assert_eq!((m.pk, m.kind.as_str(), m.status.as_str()), (4, "message", "pending"));
    assert_eq!((m.channel, m.thread_ts, m.created_at), (None, None, "now".to_string()));
}
