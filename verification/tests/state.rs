use slack_deputy::config::{Config, Env};
use slack_deputy::db::Db;
use slack_deputy::state::{reaction_key, Ledger, Shared, REACT_TTL};

fn text(s: &str) -> String {
    s.to_string()
}

fn config() -> Config {
    let vars = ["SLACK_APP_TOKEN", "SLACK_BOT_TOKEN", "SLACK_USER_TOKEN"];
    let env = Env { vars: vars.iter().map(|k| (text(k), Some(text("t")))).collect() };
    Config::from_env(&env, None).ok().unwrap()
}

fn shared(meta: Vec<(String, String)>, url: Option<&str>) -> Shared {
    let db = Db::open(Vec::new(), 0, meta).ok().unwrap();
    Shared::new(db, config(), Some(text("B0")), Some(text("U0")), url.map(text), Some(text("D0")))
}

#[test]
fn a_permalink_is_built_from_the_workspace_url() {
    let s = shared(Vec::new(), Some("https://team.slack.com//"));
    assert_eq!(
        s.permalink("C1", "1700000000.000100"),
        Some(text("https://team.slack.com/archives/C1/p1700000000000100"))
    );
    assert_eq!(shared(Vec::new(), None).permalink("C1", "1.0"), None);
}

#[test]
fn own_bot_ids_are_the_bots_and_the_one_on_record() {
    let s = shared(vec![(text("self_post_bot_id"), text("B1"))], None);
    assert!(s.is_self_bot("B0"));
    assert!(s.is_self_bot("B1"));
    assert!(!s.is_self_bot("B2"));
    assert!(!shared(Vec::new(), None).is_self_bot("B1"));
}

#[test]
fn a_learned_bot_id_survives_a_restart() {
    let mut s = shared(Vec::new(), None);
    assert!(s.learn_self_bot("B9"));
    assert!(!s.learn_self_bot("B9"));
    assert!(s.is_self_bot("B9"));
    assert!(s.is_self_bot("B0"));
    let saved = s.db.meta_get("self_post_bot_id");
    assert_eq!(saved, Some(text("B9")));
    let again = shared(vec![(text("self_post_bot_id"), saved.unwrap())], None);
    assert!(again.is_self_bot("B9"));
}

#[test]
fn a_known_bot_id_is_not_put_on_record_again() {
    let mut s = shared(vec![(text("self_post_bot_id"), text("B1"))], None);
    assert!(!s.learn_self_bot("B0"));
    assert_eq!(s.db.meta_get("self_post_bot_id"), Some(text("B1")));
}

#[test]
fn a_reaction_key_names_the_place_and_the_reaction() {
    assert_eq!(reaction_key("C1", "1.0", "eyes"), "C1:1.0:eyes");
    assert_eq!(reaction_key("", "1.0", "eyes"), ":1.0:eyes");
}

#[test]
fn a_recorded_reaction_answers_once() {
    let mut s = shared(Vec::new(), None);
    s.record_reaction(text("k"), 100);
    s.record_reaction(text("l"), 100);
    assert!(!s.take_self_reaction("m", 101));
    assert!(s.take_self_reaction("k", 101));
    assert!(!s.take_self_reaction("k", 102));
    assert!(s.take_self_reaction("l", 103));
}

#[test]
fn a_recorded_reaction_expires() {
    let mut s = shared(Vec::new(), None);
    s.record_reaction(text("k"), 100);
    assert!(!s.take_self_reaction("k", 100 + REACT_TTL));
    s.record_reaction(text("k"), 100);
    assert!(s.take_self_reaction("k", 99 + REACT_TTL));
    // A later record takes the place of an earlier one.
    s.record_reaction(text("k"), 100);
    s.record_reaction(text("k"), 200);
    assert!(s.take_self_reaction("k", 150 + REACT_TTL));
    assert!(!s.take_self_reaction("k", 150 + REACT_TTL));
    assert_eq!(REACT_TTL, 300_000_000_000);
}

#[test]
fn asking_for_one_key_drops_the_expired_ones() {
    let mut l = Ledger::new();
    l.record(text("old"), 0);
    l.record(text("new"), 1_000);
    assert!(!l.take("x", REACT_TTL));
    // The old key is gone even for an earlier time.
    assert!(!l.take("old", 1));
    assert!(l.take("new", REACT_TTL));
}
