use serde_json::Value;
use slack_deputy::cli::{fmt_row, run_tail};
use slack_deputy::config::{Config, Env};
use slack_deputy::db::Db;
use slack_deputy::json::{value_of_json, Json};
use slack_deputy::outbound::{
    ask_handler, await_handler, body_handler, delete_handler, dm_handler, done_handler,
    next_handler, post_handler, post_message, react_handler, row_json, skip_handler, tail_handler,
    thread_handler, unreact_handler, wait_handler, WAIT_POLL_INTERVAL,
};
use slack_deputy::slack::{Content, HistoryMessage};
use slack_deputy::state::Shared;

const SECOND: u64 = 1_000_000_000;

fn text(s: &str) -> String {
    s.to_string()
}

fn value(s: &str) -> Value {
    serde_json::from_str(s).unwrap()
}

fn shared() -> Shared {
    let vars = ["SLACK_APP_TOKEN", "SLACK_BOT_TOKEN", "SLACK_USER_TOKEN"];
    let env = Env { vars: vars.iter().map(|k| (text(k), Some(text("t")))).collect() };
    let config = Config::from_env(&env, None).ok().unwrap();
    let db = Db::open(Vec::new(), 0, Vec::new()).ok().unwrap();
    Shared::new(db, config, None, Some(text("U0")), None, None)
}

fn put(s: &mut Shared, ts: &str, status: &str) {
    let r = s.db.insert_with_status("message", None, Some(ts), ts, "{\"user\":\"U\"}", status, "t");
    assert!(r.is_ok());
}

fn keys(reply: &Json) -> Vec<i64> {
    run_tail(reply).0.iter().map(|r| r.pk).collect()
}

#[test]
fn next_claims_a_row_or_nothing() {
    let mut s = shared();
    assert!(next_handler(&mut s).is_null());
    put(&mut s, "1.0", "pending");
    assert_eq!(value_of_json(&next_handler(&mut s)), value("{\"pk\":1,\"thread_ts\":\"1.0\"}"));
    assert_eq!(s.db.rows()[0].status, "dispatched");
    assert!(next_handler(&mut s).is_null());
    assert!(s.db.insert("confirmation", None, None, "2.0", "{}", "t").is_ok());
    assert_eq!(value_of_json(&next_handler(&mut s)), value("{\"pk\":2,\"thread_ts\":null}"));
}

#[test]
fn wait_says_ready_only_where_next_finds_a_row() {
    let mut s = shared();
    let ready = |s: &Shared, secs: u64, elapsed: u64| {
        wait_handler(s, secs, elapsed).map(|j| value_of_json(&j))
    };
    let (yes, no) = (value("{\"ready\":true}"), value("{\"ready\":false}"));
    assert_eq!(ready(&s, 0, 0), Some(no.clone()));
    assert_eq!(ready(&s, 5, 5 * SECOND - 1), None);
    assert_eq!(ready(&s, 5, 5 * SECOND), Some(no.clone()));
    assert_eq!(ready(&s, u64::MAX, u64::MAX), None);
    put(&mut s, "1.0", "pending");
    assert_eq!(ready(&s, 5, 0), Some(yes.clone()));
    assert_eq!(ready(&s, 0, 0), Some(yes));
    // It claimed nothing.
    assert!(!next_handler(&mut s).is_null());
    assert_eq!(ready(&s, 0, 0), Some(no));
    assert_eq!(WAIT_POLL_INTERVAL, 1);
}

#[test]
fn a_body_is_given_as_it_is_stored() {
    let mut s = shared();
    put(&mut s, "1.0", "done");
    assert_eq!(body_handler(&s, 1).ok(), Some(text("{\"user\":\"U\"}")));
    let e = body_handler(&s, -3).err().unwrap();
    assert_eq!((e.status, e.message), (404, text("no row pk=-3")));
}

#[test]
fn rows_are_settled_by_key() {
    let mut s = shared();
    put(&mut s, "1.0", "dispatched");
    assert_eq!(await_handler(&mut s, 1), "ok");
    assert_eq!(s.db.rows()[0].status, "awaiting_human");
    assert_eq!(done_handler(&mut s, 1), "ok");
    assert_eq!(s.db.rows()[0].status, "done");
    assert_eq!(done_handler(&mut s, 5), "ok");
}

#[test]
fn pending_rows_are_skipped() {
    let mut s = shared();
    for (ts, status) in [("1.0", "pending"), ("2.0", "dispatched"), ("3.0", "pending")] {
        put(&mut s, ts, status);
    }
    let skip = |s: &mut Shared, pk: Option<i64>, all: bool| {
        skip_handler(s, pk, all).ok().map(|j| value_of_json(&j))
    };
    assert_eq!(skip(&mut s, Some(2), false), Some(value("{\"ok\":true,\"skipped\":0}")));
    assert_eq!(skip(&mut s, Some(1), false), Some(value("{\"ok\":true,\"skipped\":1}")));
    // With `all`, the key counts for nothing.
    assert_eq!(skip(&mut s, Some(2), true), Some(value("{\"ok\":true,\"skipped\":1}")));
    let got: Vec<String> = s.db.rows().iter().map(|m| m.status.clone()).collect();
    assert_eq!(got, vec!["skipped", "dispatched", "skipped"]);
    let e = skip_handler(&mut s, None, false).err().unwrap();
    assert_eq!((e.status, e.message), (400, text("skip needs pk or --all")));
}

#[test]
fn a_tail_starts_ten_rows_back() {
    let mut s = shared();
    let empty = tail_handler(&s, None);
    assert_eq!(value_of_json(&empty), value("{\"rows\":[],\"cursor\":0}"));
    for i in 0..12 {
        put(&mut s, &format!("{i}.0"), "ambient");
    }
    let reply = tail_handler(&s, None);
    assert_eq!(keys(&reply), vec![3, 4, 5, 6, 7, 8, 9, 10, 11, 12]);
    assert_eq!(run_tail(&reply).1, Some(12));
}

#[test]
fn a_tail_misses_nothing_and_repeats_nothing() {
    let mut s = shared();
    put(&mut s, "1.0", "pending");
    put(&mut s, "2.0", "pending");
    let first = tail_handler(&s, Some(1));
    assert_eq!(keys(&first), vec![2]);
    let cursor = run_tail(&first).1;
    // Settling rows does not bring them back.
    done_handler(&mut s, 1);
    assert!(keys(&tail_handler(&s, cursor)).is_empty());
    put(&mut s, "0.5", "pending");
    put(&mut s, "3.0", "ambient");
    let second = tail_handler(&s, cursor);
    assert_eq!(keys(&second), vec![3, 4]);
    assert_eq!(run_tail(&second).1, Some(4));
    // A start beyond the last row stays where it is.
    assert_eq!(run_tail(&tail_handler(&s, Some(90))).1, Some(90));
    assert_eq!(keys(&tail_handler(&s, Some(-4))), vec![1, 2, 3, 4]);
}

#[test]
fn a_row_survives_the_way_to_the_client() {
    let mut s = shared();
    assert!(s.db.insert("reaction", Some("C"), None, "1.0", "{\"user\":\"U\"}", "t").is_ok());
    let row = &s.db.rows_after(0)[0];
    assert_eq!(
        value_of_json(&row_json(row)),
        value(
            "{\"pk\":1,\"kind\":\"reaction\",\"channel\":\"C\",\"status\":\"pending\",\
             \"body\":\"{\\\"user\\\":\\\"U\\\"}\"}"
        )
    );
    let (seen, _) = run_tail(&tail_handler(&s, None));
    assert_eq!(fmt_row(&seen[0]), fmt_row(row));
}

#[test]
fn slack_verbs_are_answered() {
    let mut s = shared();
    assert_eq!(post_message(&mut s, text("1.0"), &None), "1.0");
    assert!(s.db.meta_get("self_post_bot_id").is_none());
    assert_eq!(post_message(&mut s, text("2.0"), &Some(text("B"))), "2.0");
    assert!(s.is_self_bot("B"));
    assert_eq!(value_of_json(&post_handler("2.0")), value("{\"ok\":true,\"ts\":\"2.0\"}"));
    let ok = value("{\"ok\":true}");
    assert_eq!(value_of_json(&react_handler(&mut s, "C", "1.0", "eyes", 5)), ok);
    assert!(s.take_self_reaction("C:1.0:eyes", 6));
    assert_eq!(value_of_json(&unreact_handler(&mut s, "C", "1.0", "eyes", 7)), ok);
    assert!(s.take_self_reaction("C:1.0:eyes", 8));
    assert_eq!(value_of_json(&delete_handler()), ok);
    assert_eq!(
        value_of_json(&ask_handler("D", "3.0")),
        value("{\"ok\":true,\"channel\":\"D\",\"ts\":\"3.0\"}")
    );
}

#[test]
fn messages_are_listed() {
    let list = || {
        vec![HistoryMessage {
            ts: text("1.0"),
            user: Some(text("U")),
            bot_id: None,
            content: Content { text: Some(text("hi")), blocks: None },
        }]
    };
    assert_eq!(
        value_of_json(&thread_handler(&list())),
        value(
            "{\"ok\":true,\"messages\":[{\"ts\":\"1.0\",\"user\":\"U\",\"bot_id\":null,\
             \"text\":\"hi\"}]}"
        )
    );
    assert_eq!(
        value_of_json(&dm_handler(&list())),
        value(
            "{\"ok\":true,\"messages\":[{\"ts\":\"1.0\",\"user\":\"U\",\"bot_id\":null,\
             \"text\":\"hi\",\"open\":false}]}"
        )
    );
    assert_eq!(value_of_json(&thread_handler(&Vec::new())), value("{\"ok\":true,\"messages\":[]}"));
}
