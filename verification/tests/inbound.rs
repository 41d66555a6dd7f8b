use serde_json::Value;
use slack_deputy::config::{Config, Env};
use slack_deputy::db::{Db, DbError};
use slack_deputy::inbound::{
    classify_message, handle_message, handle_push_event, handle_reaction, message_json,
    reaction_json, root_needed, Capture, Pushed,
};
use slack_deputy::json::value_of_json;
use slack_deputy::outbound::{post_message, react_handler};
use slack_deputy::slack::{
    Block, BlockKind, Button, Content, Element, MessageEvent, PushEvent, ReactionEvent,
    ReactionItem, Subtype,
};
use slack_deputy::state::{Shared, REACT_TTL};

fn text(s: &str) -> String {
    s.to_string()
}

fn value(s: &str) -> Value {
    serde_json::from_str(s).unwrap()
}

fn shared_from(last_pk: i64) -> Shared {
    let vars = [
        ("SLACK_APP_TOKEN", "t"),
        ("SLACK_BOT_TOKEN", "t"),
        ("SLACK_USER_TOKEN", "t"),
        ("SLACK_DEPUTY_WATCH_CHANNELS", "CW"),
    ];
    let env = Env { vars: vars.iter().map(|(k, v)| (text(k), Some(text(v)))).collect() };
    let config = Config::from_env(&env, None).ok().unwrap();
    let db = Db::open(Vec::new(), last_pk, Vec::new()).ok().unwrap();
    let url = Some(text("https://t.slack.com/"));
    Shared::new(db, config, Some(text("B0")), Some(text("U0")), url, Some(text("D0")))
}

fn shared() -> Shared {
    shared_from(0)
}

fn message(channel: &str, user: &str, ts: &str, thread: Option<&str>, body: &str) -> MessageEvent {
    MessageEvent {
        subtype: None,
        hidden: None,
        user: Some(text(user)),
        bot_id: None,
        username: None,
        channel: Some(text(channel)),
        channel_type: Some(text("channel")),
        ts: text(ts),
        thread_ts: thread.map(text),
        text: Some(text(body)),
    }
}

fn reaction(user: &str, item_user: &str, item: ReactionItem) -> ReactionEvent {
    ReactionEvent {
        event: text("reaction_added"),
        user: text(user),
        reaction: text("eyes"),
        item_user: Some(text(item_user)),
        item,
        event_ts: text("9.0"),
    }
}

fn on(channel: Option<&str>, ts: &str) -> ReactionItem {
    ReactionItem::Message { channel: channel.map(text), ts: text(ts) }
}

fn stored(s: &mut Shared, m: &MessageEvent) -> Option<String> {
    let before = s.db.rows().len();
    match handle_message(s, m, "now").ok().unwrap() {
        Some(pk) => {
            assert_eq!(s.db.rows().len(), before + 1);
            let row = &s.db.rows()[before];
            assert_eq!(row.pk, pk);
            Some(row.status.clone())
        }
        None => {
            assert_eq!(s.db.rows().len(), before);
            None
        }
    }
}

#[test]
fn messages_are_classified() {
    let s = shared();
    let of = |kind: Option<&str>, channel: &str, body: &str, user: Option<&str>| {
        match classify_message(&s, kind, channel, body, user, Some("1.0")) {
            Capture::Directed => "directed",
            Capture::Ambient => "ambient",
            Capture::Drop => "drop",
        }
    };
    assert_eq!(of(Some("im"), "C", "hi", Some("U1")), "directed");
    assert_eq!(of(Some("mpim"), "C", "hi", Some("U1")), "directed");
    assert_eq!(of(Some("channel"), "C", "hi <@U0>", Some("U1")), "directed");
    assert_eq!(of(None, "CW", "hi <@U0>!", None), "directed");
    assert_eq!(of(None, "CW", "hi", None), "ambient");
    assert_eq!(of(None, "C", "hi", Some("U0")), "ambient");
    assert_eq!(of(None, "C", "hi <@U00>", Some("U1")), "drop");
    assert_eq!(of(Some("group"), "C", "hi", None), "drop");
}

#[test]
fn a_stored_message_is_read_back() {
    let mut s = shared();
    let mut m = message("CW", "U1", "1.5", Some("1.0"), "hello");
    m.username = Some(text("n"));
    assert!(matches!(handle_message(&mut s, &m, "2026"), Ok(Some(1))));
    let row = &s.db.rows()[0];
    assert_eq!(row.kind, "message");
    assert_eq!(row.channel, Some(text("CW")));
    assert_eq!(row.thread_ts, Some(text("1.0")));
    assert_eq!(row.ts, "1.5");
    assert_eq!(row.status, "ambient");
    assert_eq!(row.created_at, "2026");
    assert_eq!(
        value(&row.body),
        value(
            "{\"text\":\"hello\",\"user\":\"U1\",\"bot_id\":null,\"username\":\"n\",\
             \"ts\":\"1.5\",\"thread_ts\":\"1.0\",\"channel\":\"CW\",\
             \"permalink\":\"https://t.slack.com/archives/CW/p15\"}"
        )
    );
    let plain = message("C", "U1", "2.0", None, "x");
    let body = value_of_json(&message_json(&plain, &None));
    assert_eq!(body["permalink"], Value::Null);
    assert_eq!(body["thread_ts"], Value::Null);
}

#[test]
fn what_nobody_wrote_is_dropped() {
    let mut s = shared();
    let base = || message("CW", "U1", "1.0", None, "x");
    let mut m = base();
    m.subtype = Some(Subtype::Other);
    assert_eq!(stored(&mut s, &m), None);
    let mut m = base();
    m.hidden = Some(true);
    assert_eq!(stored(&mut s, &m), None);
    let mut m = base();
    m.text = Some(text(" \u{3000}\n"));
    assert_eq!(stored(&mut s, &m), None);
    let mut m = base();
    m.text = None;
    assert_eq!(stored(&mut s, &m), None);
    let mut m = base();
    m.channel = None;
    assert_eq!(stored(&mut s, &m), None);
    let mut m = base();
    m.user = None;
    assert_eq!(stored(&mut s, &m), None);
    assert_eq!(stored(&mut s, &message("C", "U1", "1.0", None, "x")), None);
}

#[test]
fn what_someone_wrote_is_kept() {
    let mut s = shared();
    for sub in [
        Subtype::BotMessage,
        Subtype::ThreadBroadcast,
        Subtype::FileShare,
        Subtype::MeMessage,
    ] {
        let mut m = message("CW", "U1", "1.0", None, "x");
        m.subtype = Some(sub);
        m.hidden = Some(false);
        assert_eq!(stored(&mut s, &m), Some(text("ambient")));
    }
    let mut m = message("CW", "U1", "1.0", None, "x");
    m.user = None;
    m.bot_id = Some(text("B5"));
    assert_eq!(stored(&mut s, &m), Some(text("ambient")));
}

#[test]
fn the_echo_of_an_own_post_is_dropped() {
    let mut s = shared();
    let mut m = message("CW", "U0", "1.0", None, "x");
    m.bot_id = Some(text("B7"));
    assert_eq!(stored(&mut s, &m), Some(text("ambient")));
    assert_eq!(post_message(&mut s, text("2.0"), &Some(text("B7"))), "2.0");
    assert_eq!(stored(&mut s, &m), None);
    m.bot_id = Some(text("B0"));
    assert_eq!(stored(&mut s, &m), None);
    // A manual post has no bot id.
    assert_eq!(stored(&mut s, &message("C", "U0", "3.0", None, "x")), Some(text("ambient")));
}

#[test]
fn replies_follow_a_stored_message() {
    let mut s = shared();
    let reply = message("C", "U1", "1.1", Some("1.0"), "re");
    assert_eq!(stored(&mut s, &reply), None);
    assert_eq!(stored(&mut s, &message("C", "U0", "1.0", None, "root")), Some(text("ambient")));
    assert_eq!(stored(&mut s, &reply), Some(text("ambient")));
    // A mention makes the thread directed.
    assert_eq!(
        stored(&mut s, &message("C", "U1", "1.2", Some("1.0"), "<@U0>?")),
        Some(text("pending"))
    );
    assert_eq!(stored(&mut s, &reply), Some(text("pending")));
    let root = &s.db.rows()[0];
    assert_eq!(root.thread_ts, Some(text("1.0")));
}

#[test]
fn a_full_store_refuses_events() {
    let mut s = shared_from(i64::MAX);
    let m = message("CW", "U1", "1.0", None, "x");
    assert!(matches!(handle_message(&mut s, &m, "now"), Err(DbError::Full)));
    let r = reaction("U0", "U1", on(Some("C"), "1.0"));
    assert!(matches!(handle_reaction(&mut s, &r, "now", 0), Err(DbError::Full)));
    assert!(s.db.rows().is_empty());
}

#[test]
fn a_stored_reaction_is_read_back() {
    let mut s = shared();
    let r = reaction("U0", "U1", on(Some("C"), "1.0"));
    assert!(matches!(handle_reaction(&mut s, &r, "now", 0), Ok(Some(1))));
    let row = &s.db.rows()[0];
    assert_eq!(row.kind, "reaction");
    assert_eq!(row.channel, Some(text("C")));
    assert_eq!(row.thread_ts, Some(text("1.0")));
    assert_eq!(row.ts, "9.0");
    assert_eq!(row.status, "pending");
    assert_eq!(
        value(&row.body),
        value(
            "{\"event\":\"reaction_added\",\"user\":\"U0\",\"reaction\":\"eyes\",\
             \"item_type\":\"message\",\"item_user\":\"U1\",\"item_ts\":\"1.0\",\
             \"event_ts\":\"9.0\",\"channel\":\"C\",\
             \"permalink\":\"https://t.slack.com/archives/C/p10\"}"
        )
    );
    let file = value_of_json(&reaction_json(&reaction("U0", "U1", ReactionItem::File), &None));
    assert_eq!(file["item_type"], value("\"file\""));
    assert_eq!(file["item_ts"], Value::Null);
    assert_eq!(file["channel"], Value::Null);
}

#[test]
fn reactions_are_captured_within_scope() {
    let mut s = shared();
    let mut kept = |user: &str, owner: &str, item: ReactionItem| {
        handle_reaction(&mut s, &reaction(user, owner, item), "now", 0).ok().unwrap().is_some()
    };
    assert!(!kept("U1", "U2", on(Some("C"), "1.0")));
    assert!(!kept("U1", "U2", ReactionItem::File));
    assert!(kept("U1", "U0", on(Some("C"), "1.0")));
    // The message is on record by now.
    assert!(kept("U1", "U2", on(Some("C"), "1.0")));
    assert!(kept("U0", "U2", ReactionItem::File));
}

#[test]
fn the_echo_of_an_own_reaction_is_dropped_once() {
    let mut s = shared();
    let r = reaction("U0", "U1", on(Some("C"), "1.0"));
    react_handler(&mut s, "C", "1.0", "eyes", 1_000);
    // The same reaction of another is no echo.
    let other = reaction("U1", "U0", on(Some("C"), "1.0"));
    assert!(handle_reaction(&mut s, &other, "now", 1_500).ok().unwrap().is_some());
    assert!(matches!(handle_reaction(&mut s, &r, "now", 2_000), Ok(None)));
    assert!(matches!(handle_reaction(&mut s, &r, "now", 2_000), Ok(Some(2))));
    react_handler(&mut s, "C", "1.0", "eyes", 1_000);
    assert!(matches!(handle_reaction(&mut s, &r, "now", 1_000 + REACT_TTL), Ok(Some(3))));
}

#[test]
fn a_reaction_without_a_channel_has_an_empty_place() {
    let mut s = shared();
    react_handler(&mut s, "", "1.0", "eyes", 0);
    let r = reaction("U0", "U1", on(None, "1.0"));
    assert!(matches!(handle_reaction(&mut s, &r, "now", 1), Ok(None)));
}

fn ask_root() -> Content {
    let button = Button {
        action_id: text("approve"),
        label: text("承認"),
        value: Some(text("{\"decision\":\"approve\",\"action\":{\"n\":1}}")),
        style: None,
        confirm: None,
    };
    Content {
        text: None,
        blocks: Some(vec![
            Block { kind: BlockKind::Section(Some(text("draft"))), source: Some(0) },
            Block { kind: BlockKind::Actions(vec![Element::Button(button)]), source: Some(1) },
        ]),
    }
}

#[test]
fn a_reply_to_an_ask_is_an_answer_and_no_message() {
    let mut s = shared();
    let event = PushEvent::Message(message("D0", "U0", "2.0", Some("1.0"), "please wait"));
    assert_eq!(root_needed(&s, &event), Some((text("D0"), text("1.0"))));
    match handle_push_event(&mut s, &event, &Some(ask_root()), "now", 0) {
        Pushed::Answer(a) => {
            assert!(matches!(a.stored, Ok(1)));
            assert!(a.edit.is_some());
        }
        Pushed::Captured(_) => panic!("captured"),
    }
    assert_eq!(s.db.rows().len(), 1);
    assert_eq!(s.db.rows()[0].kind, "confirmation");
}

#[test]
fn a_reply_to_anything_else_is_captured() {
    let mut s = shared();
    let event = PushEvent::Message(message("D0", "U0", "2.0", Some("1.0"), "hm"));
    assert!(matches!(
        handle_push_event(&mut s, &event, &None, "now", 0),
        Pushed::Captured(Ok(Some(1)))
    ));
    let plain = Content { text: Some(text("no ask")), blocks: None };
    assert!(matches!(
        handle_push_event(&mut s, &event, &Some(plain), "now", 0),
        Pushed::Captured(Ok(Some(2)))
    ));
    assert_eq!(s.db.rows()[1].kind, "message");
}

#[test]
fn other_events_are_captured_or_passed_over() {
    let mut s = shared();
    let r = PushEvent::Reaction(reaction("U0", "U1", on(Some("C"), "1.0")));
    assert_eq!(root_needed(&s, &r), None);
    assert!(matches!(
        handle_push_event(&mut s, &r, &None, "now", 0),
        Pushed::Captured(Ok(Some(1)))
    ));
    assert_eq!(root_needed(&s, &PushEvent::Other), None);
    assert!(matches!(
        handle_push_event(&mut s, &PushEvent::Other, &None, "now", 0),
        Pushed::Captured(Ok(None))
    ));
    assert_eq!(s.db.rows().len(), 1);
}

#[test]
fn only_the_human_answers_in_the_control_channel() {
    let s = shared();
    let needed = |m: MessageEvent| root_needed(&s, &PushEvent::Message(m)).is_some();
    assert!(needed(message("D0", "U0", "2.0", Some("1.0"), "x")));
    assert!(!needed(message("C1", "U0", "2.0", Some("1.0"), "x")));
    assert!(!needed(message("D0", "U1", "2.0", Some("1.0"), "x")));
    assert!(!needed(message("D0", "U0", "2.0", None, "x")));
    assert!(!needed(message("D0", "U0", "2.0", Some("1.0"), " ")));
    let mut m = message("D0", "U0", "2.0", Some("1.0"), "x");
    m.bot_id = Some(text("B9"));
    assert!(!needed(m));
    let mut m = message("D0", "U0", "2.0", Some("1.0"), "x");
    m.subtype = Some(Subtype::FileShare);
    assert!(!needed(m));
    let mut m = message("D0", "U0", "2.0", Some("1.0"), "x");
    m.hidden = Some(true);
    assert!(!needed(m));
}
