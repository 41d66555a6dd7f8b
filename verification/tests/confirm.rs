use serde_json::Value;
use slack_deputy::config::{Config, Env};
use slack_deputy::confirm::{
    answer_target, ask, click_step, confirm_dialog, decision_button, dm_history, dm_msg_json,
    dm_query, exec_button, handle_interaction, open_dm, permalink_target, post_destination_line,
    prefer, record_answer, record_click, resolve_click, resolved_content, routing_from_blocks,
    routing_in_value, run_terminal, section_text, step_for, terminal_step, try_free_text_answer,
    DmQuery, Terminal,
};
use slack_deputy::db::{Db, DbError};
use slack_deputy::json::{parse, value_of_json, Json};
use slack_deputy::slack::{
    Block, BlockActions, BlockKind, Button, Click, Content, Element, HistoryMessage, Interaction,
    MessageEvent,
};
use slack_deputy::state::Shared;

fn text(s: &str) -> String {
    s.to_string()
}

fn value(s: &str) -> Value {
    serde_json::from_str(s).unwrap()
}

fn json(s: &str) -> Json {
    parse(s).ok().unwrap()
}

fn shared_from(last_pk: i64, me: Option<&str>) -> Shared {
    let vars = ["SLACK_APP_TOKEN", "SLACK_BOT_TOKEN", "SLACK_USER_TOKEN"];
    let env = Env { vars: vars.iter().map(|k| (text(k), Some(text("t")))).collect() };
    let config = Config::from_env(&env, None).ok().unwrap();
    let db = Db::open(Vec::new(), last_pk, Vec::new()).ok().unwrap();
    Shared::new(db, config, None, me.map(text), None, Some(text("D0")))
}

fn shared() -> Shared {
    shared_from(0, Some("U0"))
}

fn section(s: Option<&str>) -> Block {
    Block { kind: BlockKind::Section(s.map(text)), source: Some(7) }
}

fn with_blocks(blocks: Vec<Block>) -> Content {
    Content { text: Some(text("plain")), blocks: Some(blocks) }
}

fn button(value: Option<&str>) -> Element {
    Element::Button(Button {
        action_id: text("id"),
        label: text("l"),
        value: value.map(text),
        style: None,
        confirm: None,
    })
}

fn actions(elements: Vec<Element>) -> Block {
    Block { kind: BlockKind::Actions(elements), source: None }
}

fn buttons(content: &Content) -> Vec<&Button> {
    let mut out = Vec::new();
    for b in content.blocks.as_ref().unwrap() {
        if let BlockKind::Actions(elements) = &b.kind {
            for e in elements {
                if let Element::Button(b) = e {
                    out.push(b);
                }
            }
        }
    }
    out
}

fn post_ask(danger: bool) -> Content {
    let post = json("{\"type\":\"post\",\"channel\":\"C1\",\"thread\":\"5.0\"}");
    let context = Some(text("why"));
    ask("the draft", &None, &Some(post), &Vec::new(), danger, &context, Some("http://p"))
        .ok()
        .unwrap()
}

fn click(value: Option<&str>, message: Option<Content>) -> BlockActions {
    BlockActions {
        clicked: Some(Click { action_id: text("aid"), value: value.map(text) }),
        channel: Some(text("D0")),
        message_ts: Some(text("1.0")),
        message,
    }
}

#[test]
fn section_texts_are_joined_by_an_empty_line() {
    let c = with_blocks(vec![
        section(Some("a")),
        section(None),
        Block { kind: BlockKind::Context(text("c")), source: None },
        Block { kind: BlockKind::Other, source: None },
        section(Some("b")),
    ]);
    assert_eq!(section_text(&c), Some(text("a\n\nb")));
    assert_eq!(section_text(&with_blocks(vec![section(None)])), None);
    assert_eq!(section_text(&with_blocks(Vec::new())), None);
    assert_eq!(section_text(&Content { text: Some(text("t")), blocks: None }), None);
}

#[test]
fn a_routing_rides_under_exec_or_action() {
    let of = |s: &str| routing_in_value(&json(s)).map(|j| value_of_json(&j));
    assert_eq!(of("{\"exec\":1,\"action\":2}"), Some(value("1")));
    assert_eq!(of("{\"action\":2}"), Some(value("2")));
    assert_eq!(of("{\"exec\":null}"), Some(Value::Null));
    assert_eq!(of("{}"), None);
    assert_eq!(of("[]"), None);
}

#[test]
fn the_first_routing_that_is_not_the_no_op_counts() {
    let ignore = "{\"exec\":{\"type\":\"ignore\"}}";
    let of = |elements: Vec<Element>| {
        routing_from_blocks(&with_blocks(vec![section(Some("x")), actions(elements)]))
            .map(|j| value_of_json(&j))
    };
    assert_eq!(
        of(vec![button(Some(ignore)), button(Some("{\"action\":1}")), button(Some("{\"action\":2}"))]),
        Some(value("1"))
    );
    assert_eq!(of(vec![button(Some(ignore))]), Some(value("{\"type\":\"ignore\"}")));
    assert_eq!(of(vec![button(None), button(Some("no json")), Element::Other]), None);
    assert!(routing_from_blocks(&Content { text: None, blocks: None }).is_none());
    let kept = prefer(Some(json("{\"type\":\"ignore\"}")), json("{\"type\":\"ignore\",\"n\":2}"));
    assert_eq!(value_of_json(&kept.unwrap()), value("{\"type\":\"ignore\"}"));
    assert_eq!(value_of_json(&prefer(None, json("3")).unwrap()), value("3"));
}

#[test]
fn a_resolved_message_keeps_everything_but_its_buttons() {
    let blocks = Some(vec![section(Some("draft")), actions(vec![button(None)])]);
    let c = resolved_content(&blocks, "done");
    assert_eq!(c.text, Some(text("done")));
    let kept = c.blocks.as_ref().unwrap();
    assert_eq!(kept.len(), 2);
    assert_eq!(kept[0].source, Some(7));
    assert!(matches!(&kept[0].kind, BlockKind::Section(Some(t)) if t == "draft"));
    assert!(matches!(&kept[1].kind, BlockKind::Context(t) if t == "done"));
    assert_eq!(section_text(&c), Some(text("draft")));
    assert!(routing_from_blocks(&c).is_none());
    let bare = resolved_content(&Some(vec![actions(Vec::new())]), "done");
    assert!(bare.blocks.is_none());
    assert_eq!(bare.text, Some(text("done")));
    assert!(resolved_content(&None, "x").blocks.is_none());
}

#[test]
fn button_values_hold_the_decision_and_the_routing() {
    let b = decision_button("approve", "承認", &json("{\"n\":[1,2.5]}"));
    assert_eq!(b.action_id, "approve");
    assert_eq!(b.label, "承認");
    assert_eq!(
        value(&b.value.unwrap()),
        value("{\"decision\":\"approve\",\"action\":{\"n\":[1,2.5]}}")
    );
    let b = exec_button("ignore", "無視", &json("{\"type\":\"ignore\"}"));
    assert_eq!(
        value(&b.value.unwrap()),
        value("{\"decision\":\"ignore\",\"exec\":{\"type\":\"ignore\"}}")
    );
    let d = confirm_dialog();
    assert_eq!(d.title, "実行の確認");
    assert_eq!(d.text, "この操作を実行します。よろしいですか？");
    assert_eq!(d.confirm, "実行する");
    assert_eq!(d.deny, "やめる");
}

#[test]
fn a_post_ask_shows_its_draft_and_its_destination() {
    let c = post_ask(false);
    assert_eq!(c.text, None);
    let blocks = c.blocks.as_ref().unwrap();
    assert_eq!(blocks.len(), 3);
    assert!(matches!(&blocks[0].kind, BlockKind::Section(Some(t)) if t == "the draft"));
    match &blocks[1].kind {
        BlockKind::Context(t) => assert_eq!(t, "why\n投稿先: <#C1> (<http://p|該当スレッド>)"),
        _ => panic!("no context"),
    }
    let b = buttons(&c);
    assert_eq!(b.len(), 2);
    assert_eq!((b[0].action_id.as_str(), b[0].label.as_str()), ("post", "投稿"));
    assert_eq!(b[0].style.as_deref(), Some("primary"));
    assert!(b[0].confirm.is_none());
    assert_eq!((b[1].action_id.as_str(), b[1].label.as_str()), ("ignore", "無視"));
    assert_eq!(b[1].style.as_deref(), Some("danger"));
    assert!(b[1].confirm.is_none());
    assert_eq!(section_text(&c), Some(text("the draft")));
    assert_eq!(
        value_of_json(&routing_from_blocks(&c).unwrap()),
        value("{\"type\":\"post\",\"channel\":\"C1\",\"thread\":\"5.0\"}")
    );
}

#[test]
fn a_dangerous_ask_asks_twice() {
    let c = post_ask(true);
    let b = buttons(&c);
    assert_eq!(b[0].style.as_deref(), Some("danger"));
    assert_eq!(b[0].confirm.as_ref().unwrap().deny, "やめる");
    let routed = ask("t", &Some(json("1")), &None, &Vec::new(), true, &None, None).ok().unwrap();
    let b = buttons(&routed);
    assert_eq!((b[0].action_id.as_str(), b[0].label.as_str()), ("approve", "承認"));
    assert_eq!(b[0].style.as_deref(), Some("danger"));
    assert!(b[0].confirm.is_some());
    let choices = vec![text("a"), text("b")];
    let chosen = ask("t", &None, &None, &choices, true, &None, None).ok().unwrap();
    let b = buttons(&chosen);
    for i in 0..2 {
        assert_eq!(b[i].label, choices[i]);
        assert_eq!(b[i].style.as_deref(), Some("danger"));
        assert_eq!(b[i].confirm.as_ref().unwrap().confirm, "実行する");
    }
    assert_eq!(b[2].label, "無視");
    assert!(b[2].confirm.is_none());
    // Without context lines there is no context block.
    assert_eq!(routed.blocks.as_ref().unwrap().len(), 2);
}

#[test]
fn a_choice_ask_has_a_button_per_choice() {
    let choices = vec![text("a"), text("b")];
    let c = ask("t", &None, &None, &choices, false, &None, None).ok().unwrap();
    let b = buttons(&c);
    assert_eq!(b.len(), 3);
    assert_eq!((b[0].label.as_str(), b[1].label.as_str()), ("a", "b"));
    assert!(b[0].style.is_none() && b[0].confirm.is_none());
    assert_eq!(
        value(b[1].value.as_ref().unwrap()),
        value("{\"decision\":\"b\",\"action\":null}")
    );
    // A post goes before choices, and choices before an approval.
    let both = ask("t", &None, &Some(json("{}")), &choices, false, &None, None).ok().unwrap();
    assert_eq!(buttons(&both)[0].action_id, "post");
    let routed = ask("t", &Some(json("4")), &None, &choices, false, &None, None).ok().unwrap();
    assert_eq!(
        value(buttons(&routed)[0].value.as_ref().unwrap()),
        value("{\"decision\":\"a\",\"action\":4}")
    );
}

#[test]
fn an_ask_without_a_positive_button_is_refused() {
    let e = ask("t", &None, &None, &Vec::new(), false, &None, None).err().unwrap();
    assert_eq!(e, "ask needs one of: post, choices, action");
}

#[test]
fn a_destination_needs_a_channel() {
    let line = |s: &str, link: Option<&str>| post_destination_line(&json(s), link);
    assert_eq!(line("{\"channel\":\"C\"}", None), Some(text("投稿先: <#C>")));
    assert_eq!(line("{\"channel\":\"C\"}", Some("l")), Some(text("投稿先: <#C>")));
    assert_eq!(line("{\"channel\":\"C\",\"thread\":\"1\"}", None), Some(text("投稿先: <#C>")));
    assert_eq!(
        line("{\"channel\":\"C\",\"thread\":\"1\"}", Some("l")),
        Some(text("投稿先: <#C> (<l|該当スレッド>)"))
    );
    assert_eq!(line("{\"thread\":\"1\"}", Some("l")), None);
    let target = |s: &str| permalink_target(&Some(json(s)));
    assert_eq!(target("{\"channel\":\"C\",\"thread\":\"1\"}"), Some((text("C"), text("1"))));
    assert_eq!(target("{\"channel\":\"C\",\"thread\":null}"), None);
    assert_eq!(permalink_target(&None), None);
}

#[test]
fn the_control_channel_needs_the_human() {
    assert_eq!(open_dm(&shared()), Ok(text("U0")));
    assert_eq!(open_dm(&shared_from(0, None)), Err(text("my_user_id unknown")));
}

#[test]
fn the_control_channel_is_read_back() {
    assert!(matches!(dm_query(Some(text("1.0"))), DmQuery::Thread(t) if t == "1.0"));
    assert!(matches!(dm_query(None), DmQuery::Recent(20)));
    let open = HistoryMessage {
        ts: text("1.0"),
        user: None,
        bot_id: Some(text("B1")),
        content: post_ask(false),
    };
    assert_eq!(
        value_of_json(&dm_msg_json(&open)),
        value("{\"ts\":\"1.0\",\"user\":null,\"bot_id\":\"B1\",\"text\":\"the draft\",\"open\":true}")
    );
    let reply = HistoryMessage {
        ts: text("2.0"),
        user: Some(text("U0")),
        bot_id: None,
        content: Content { text: Some(text("no")), blocks: None },
    };
    let list = dm_history(&vec![open, reply]);
    assert_eq!(list.len(), 2);
    assert_eq!(
        value_of_json(&list[1]),
        value("{\"ts\":\"2.0\",\"user\":\"U0\",\"bot_id\":null,\"text\":\"no\",\"open\":false}")
    );
}

fn reply(body: &str) -> MessageEvent {
    MessageEvent {
        subtype: None,
        hidden: None,
        user: Some(text("U0")),
        bot_id: None,
        username: None,
        channel: Some(text("D0")),
        channel_type: Some(text("im")),
        ts: text("2.0"),
        thread_ts: Some(text("1.0")),
        text: Some(text(body)),
    }
}

#[test]
fn a_free_text_answer_is_queued_and_closes_the_ask() {
    let mut s = shared();
    assert_eq!(answer_target(&s, &reply("x")), Some((text("D0"), text("1.0"))));
    let root = Some(post_ask(false));
    let a = try_free_text_answer(&mut s, &reply("later"), &root, "now").unwrap();
    assert!(matches!(a.stored, Ok(1)));
    let row = &s.db.rows()[0];
    assert_eq!(row.kind, "confirmation");
    assert_eq!(row.channel, Some(text("D0")));
    assert_eq!(row.thread_ts, None);
    assert_eq!(row.ts, "2.0");
    assert_eq!(row.status, "pending");
    assert_eq!(
        value(&row.body),
        value(
            "{\"decision\":\"text\",\"ask_ts\":\"1.0\",\
             \"action\":{\"type\":\"post\",\"channel\":\"C1\",\"thread\":\"5.0\"}}"
        )
    );
    let edit = a.edit.unwrap();
    assert_eq!((edit.channel.as_str(), edit.ts.as_str()), ("D0", "1.0"));
    assert_eq!(edit.content.text, Some(text("✏️ 返信で対応")));
    assert_eq!(section_text(&edit.content), Some(text("the draft")));
    assert!(s.db.has_claimable());
    // The ask is closed: a further reply is no answer.
    assert!(try_free_text_answer(&mut s, &reply("more"), &Some(edit.content), "now").is_none());
    assert!(try_free_text_answer(&mut s, &reply("more"), &None, "now").is_none());
    assert_eq!(s.db.rows().len(), 1);
}

#[test]
fn an_answer_that_cannot_be_stored_leaves_the_ask() {
    let mut s = shared_from(i64::MAX, Some("U0"));
    let a = record_answer(&mut s, "D0", "1.0", "2.0", json("1"), &None, "now");
    assert!(matches!(a.stored, Err(DbError::Full)));
    assert!(a.edit.is_none());
}

#[test]
fn a_terminal_step_posts_or_closes() {
    let of = |exec: &str, draft: Option<&str>| terminal_step(&json(exec), draft.map(text));
    let post = "{\"type\":\"post\",\"channel\":\"C\",\"thread\":\"5.0\"}";
    match of(post, Some("d")) {
        Terminal::Post { channel, thread, text: t } => {
            assert_eq!((channel, thread, t), (text("C"), Some(text("5.0")), text("d")));
        }
        _ => panic!("no post"),
    }
    assert!(matches!(
        of("{\"type\":\"post\",\"channel\":\"C\",\"thread\":null}", Some("d")),
        Terminal::Post { thread: None, .. }
    ));
    assert!(matches!(of(post, None), Terminal::Incomplete));
    assert!(matches!(of("{\"type\":\"post\"}", Some("d")), Terminal::Incomplete));
    assert!(matches!(of("{\"type\":\"ignore\"}", Some("d")), Terminal::Close));
    assert!(matches!(of("null", Some("d")), Terminal::Close));
}

#[test]
fn a_terminal_outcome_is_told_and_recorded() {
    let of = |step: Terminal, posted: Result<&str, &str>| {
        let (label, result) = run_terminal(&step, &posted.map(text).map_err(text));
        (label, value_of_json(&result))
    };
    let post = || Terminal::Post { channel: text("C"), thread: None, text: text("d") };
    assert_eq!(of(post(), Ok("9.0")), (text("✅ 投稿済み"), value("{\"posted_ts\":\"9.0\"}")));
    assert_eq!(of(post(), Err("no")), (text("⚠️ 投稿失敗"), value("{\"error\":\"no\"}")));
    assert_eq!(
        of(Terminal::Incomplete, Ok("9.0")),
        (text("⚠️ 投稿失敗"), value("{\"error\":\"missing draft or channel\"}"))
    );
    assert_eq!(of(Terminal::Close, Err("no")), (text("🚫 無視"), value("{\"ignored\":true}")));
}

#[test]
fn clicking_post_posts_the_draft_and_is_done() {
    let mut s = shared();
    let shown = post_ask(false);
    let clicked = buttons(&shown)[0].value.clone();
    let ev = click(clicked.as_deref(), Some(post_ask(false)));
    match click_step(&ev) {
        Some(Terminal::Post { channel, thread, text: t }) => {
            assert_eq!((channel, thread, t), (text("C1"), Some(text("5.0")), text("the draft")));
        }
        _ => panic!("no post"),
    }
    let a = handle_interaction(&mut s, &Interaction::BlockActions(ev), &Ok(text("9.0")), "now");
    let a = a.unwrap();
    assert!(matches!(a.stored, Ok(1)));
    let row = &s.db.rows()[0];
    assert_eq!((row.kind.as_str(), row.status.as_str(), row.ts.as_str()), ("confirmation", "done", "1.0"));
    assert_eq!(row.channel, Some(text("D0")));
    assert_eq!(
        value(&row.body),
        value(
            "{\"decision\":\"post\",\"ask_ts\":\"1.0\",\"result\":{\"posted_ts\":\"9.0\"},\
             \"exec\":{\"type\":\"post\",\"channel\":\"C1\",\"thread\":\"5.0\"}}"
        )
    );
    let edit = a.edit.unwrap();
    assert_eq!((edit.channel.as_str(), edit.ts.as_str()), ("D0", "1.0"));
    assert_eq!(edit.content.text, Some(text("✅ 投稿済み")));
    assert!(buttons(&edit.content).is_empty());
    assert!(!s.db.has_claimable());
}

#[test]
fn clicking_ignore_closes_the_ask() {
    let mut s = shared();
    let shown = post_ask(false);
    let clicked = buttons(&shown)[1].value.clone();
    let ev = click(clicked.as_deref(), Some(post_ask(false)));
    assert!(matches!(click_step(&ev), Some(Terminal::Close)));
    let a = handle_interaction(&mut s, &Interaction::BlockActions(ev), &Err(text("")), "now");
    assert_eq!(a.unwrap().edit.unwrap().content.text, Some(text("🚫 無視")));
    assert_eq!(value(&s.db.rows()[0].body)["result"], value("{\"ignored\":true}"));
    assert!(!s.db.has_claimable());
}

#[test]
fn clicking_a_choice_is_queued_with_its_action() {
    let mut s = shared();
    let choices = vec![text("a"), text("b")];
    let action = Some(json("{\"n\":1}"));
    let shown = ask("t", &action, &None, &choices, false, &None, None).ok().unwrap();
    let clicked = buttons(&shown)[1].value.clone();
    let ev = click(clicked.as_deref(), Some(shown));
    assert!(click_step(&ev).is_none());
    let a = handle_interaction(&mut s, &Interaction::BlockActions(ev), &Err(text("")), "now");
    assert_eq!(a.unwrap().edit.unwrap().content.text, Some(text("✅ b")));
    let row = &s.db.rows()[0];
    assert_eq!(row.status, "pending");
    assert_eq!(
        value(&row.body),
        value("{\"decision\":\"b\",\"action\":{\"n\":1},\"ask_ts\":\"1.0\"}")
    );
    assert!(s.db.has_claimable());
}

#[test]
fn an_approval_has_a_label_of_its_own() {
    let ev = click(Some("{}"), None);
    let o = resolve_click(&ev, &json("{\"decision\":\"approve\",\"action\":1}"), &Err(text("")));
    assert_eq!((o.status.as_str(), o.label.as_str()), ("pending", "✅ 承認済み"));
    assert!(step_for(&ev, &json("{\"action\":1}")).is_none());
    assert!(matches!(step_for(&ev, &json("{\"exec\":null}")), Some(Terminal::Close)));
}

#[test]
fn a_click_on_a_foreign_button_is_queued_with_its_raw_value() {
    let mut s = shared();
    let ev = Interaction::BlockActions(click(Some("raw"), None));
    let a = handle_interaction(&mut s, &ev, &Err(text("")), "now").unwrap();
    assert_eq!(
        value(&s.db.rows()[0].body),
        value("{\"decision\":\"aid\",\"action\":\"raw\",\"ask_ts\":\"1.0\"}")
    );
    let edit = a.edit.unwrap();
    assert_eq!(edit.content.text, Some(text("✅ aid")));
    assert!(edit.content.blocks.is_none());
}

#[test]
fn a_click_without_a_place_is_recorded_and_edits_nothing() {
    let mut s = shared();
    let ev = BlockActions { clicked: None, channel: None, message_ts: None, message: None };
    let a = handle_interaction(&mut s, &Interaction::BlockActions(ev), &Err(text("")), "t0");
    assert!(a.unwrap().edit.is_none());
    let row = &s.db.rows()[0];
    assert_eq!((row.ts.as_str(), row.status.as_str()), ("t0", "pending"));
    assert_eq!(value(&row.body), value("{\"decision\":\"\",\"action\":\"\",\"ask_ts\":null}"));
    assert!(handle_interaction(&mut s, &Interaction::Other, &Err(text("")), "t0").is_none());
    assert_eq!(s.db.rows().len(), 1);
}

#[test]
fn a_click_that_cannot_be_stored_still_edits_the_ask() {
    let mut s = shared_from(i64::MAX, Some("U0"));
    let ev = click(None, None);
    let outcome = resolve_click(&ev, &Json::Null, &Err(text("")));
    let a = record_click(&mut s, &ev, &outcome, "now");
    assert!(matches!(a.stored, Err(DbError::Full)));
    assert!(a.edit.is_some());
}

#[test]
fn a_deep_routing_is_read_back_from_the_stored_row() {
    // A routing of the greatest depth that a button carries.
    let deep = format!("{}{}", "[".repeat(126), "]".repeat(126));
    let choices = vec![text("a")];
    let shown = ask("t", &Some(json(&deep)), &None, &choices, false, &None, None).ok().unwrap();
    let clicked = buttons(&shown)[0].value.clone();
    let mut s = shared();
    let ev = Interaction::BlockActions(click(clicked.as_deref(), None));
    assert!(handle_interaction(&mut s, &ev, &Err(text("")), "now").is_some());
    assert_eq!(value(&s.db.rows()[0].body)["action"], value(&deep));
    let a = try_free_text_answer(&mut s, &reply("later"), &Some(shown), "now");
    assert!(a.is_some());
    assert_eq!(value(&s.db.rows()[1].body)["action"], value(&deep));
}
