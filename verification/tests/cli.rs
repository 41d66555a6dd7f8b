use serde_json::Value;
use slack_deputy::cli::{
    ask_request, choice_list, daemon_url, fmt_event, fmt_row, http_post_value, request,
    row_of_json, run, run_tail, tail_body, unreachable_text, with_prefix, Action, Command,
};
use slack_deputy::config::Env;
use slack_deputy::confirm;
use slack_deputy::db::Row;
use slack_deputy::json::{json_of_value, parse, value_of_json, Json};

fn value(text: &str) -> Value {
    serde_json::from_str(text).unwrap()
}

fn text(s: &str) -> String {
    s.to_string()
}

fn sent(cmd: Command) -> (String, Value, Option<u64>) {
    match run(cmd) {
        Ok(Action::Print { path, body, timeout }) => (path, value_of_json(&body), timeout),
        _ => panic!("no request"),
    }
}

fn refused(cmd: Command) -> String {
    run(cmd).err().unwrap()
}

fn ask(post: bool, channel: Option<&str>, action: Option<&str>, choose: Option<&str>) -> Command {
    Command::Ask {
        text: text("draft"),
        post,
        channel: channel.map(text),
        thread: Some(text("1.0")),
        action: action.map(text),
        choose: choose.map(text),
        danger: true,
        context: None,
    }
}

#[test]
fn queue_verbs_are_sent() {
    assert_eq!(sent(Command::Next), (text("/next"), value("{}"), None));
    assert_eq!(sent(Command::Body { pk: 4 }), (text("/body"), value("{\"pk\":4}"), None));
    assert_eq!(sent(Command::Done { pk: -1 }), (text("/done"), value("{\"pk\":-1}"), None));
    assert_eq!(sent(Command::Await { pk: 4 }), (text("/await"), value("{\"pk\":4}"), None));
    assert!(matches!(run(Command::Tail { from: Some(3) }), Ok(Action::Follow { from: Some(3) })));
    assert!(matches!(run(Command::Tail { from: None }), Ok(Action::Follow { from: None })));
}

#[test]
fn a_wait_leaves_the_client_thirty_seconds_more() {
    let (path, body, timeout) = sent(Command::Wait { timeout: Some(60) });
    assert_eq!((path, body, timeout), (text("/wait"), value("{\"timeout_secs\":60}"), Some(90)));
    let (_, body, timeout) = sent(Command::Wait { timeout: None });
    assert_eq!((body, timeout), (value("{\"timeout_secs\":0}"), Some(30)));
    let (_, body, timeout) = sent(Command::Wait { timeout: Some(u64::MAX - 30) });
    assert_eq!(body, value("{\"timeout_secs\":18446744073709551585}"));
    assert_eq!(timeout, Some(u64::MAX));
}

#[test]
fn a_skip_needs_a_key_or_all() {
    assert_eq!(
        sent(Command::Skip { pk: Some(2), all: false }),
        (text("/skip"), value("{\"pk\":2,\"all\":false}"), None)
    );
    assert_eq!(
        sent(Command::Skip { pk: None, all: true }).1,
        value("{\"pk\":null,\"all\":true}")
    );
    assert_eq!(refused(Command::Skip { pk: None, all: false }), "skip needs a <pk> or --all");
}

#[test]
fn slack_verbs_are_sent() {
    let (c, t, n) = (text("C"), text("1.0"), text("eyes"));
    assert_eq!(
        sent(Command::Post { channel: c.clone(), thread: None, text: text("hi") }),
        (text("/post"), value("{\"channel\":\"C\",\"thread_ts\":null,\"text\":\"hi\"}"), None)
    );
    let reaction = value("{\"channel\":\"C\",\"ts\":\"1.0\",\"name\":\"eyes\"}");
    assert_eq!(
        sent(Command::React { channel: c.clone(), ts: t.clone(), name: n.clone() }),
        (text("/react"), reaction.clone(), None)
    );
    assert_eq!(
        sent(Command::Unreact { channel: c.clone(), ts: t.clone(), name: n }),
        (text("/unreact"), reaction, None)
    );
    let place = value("{\"channel\":\"C\",\"ts\":\"1.0\"}");
    assert_eq!(
        sent(Command::Delete { channel: c.clone(), ts: t.clone() }),
        (text("/delete"), place.clone(), None)
    );
    assert_eq!(sent(Command::Thread { channel: c, ts: t.clone() }), (text("/thread"), place, None));
    assert_eq!(sent(Command::Dm { thread: Some(t) }).1, value("{\"thread\":\"1.0\"}"));
    assert_eq!(sent(Command::Dm { thread: None }), (text("/dm"), value("{\"thread\":null}"), None));
}

#[test]
fn an_ask_names_its_positive_button() {
    let (path, body, timeout) = sent(ask(true, Some("C"), None, None));
    assert_eq!((path, timeout), (text("/ask"), None));
    assert_eq!(
        body,
        value(
            "{\"text\":\"draft\",\"action\":null,\
             \"post\":{\"type\":\"post\",\"channel\":\"C\",\"thread\":\"1.0\"},\
             \"choices\":[],\"danger\":true,\"context\":null}"
        )
    );
    let (_, body, _) = sent(ask(false, None, Some("{\"a\":[1.5]}"), Some(" x, ,y ")));
    assert_eq!(
        body,
        value(
            "{\"text\":\"draft\",\"action\":{\"a\":[1.5]},\"post\":null,\
             \"choices\":[\"x\",\"y\"],\"danger\":true,\"context\":null}"
        )
    );
}

#[test]
fn an_ask_that_cannot_be_asked_is_refused() {
    assert_eq!(refused(ask(true, None, None, None)), "--post needs --channel");
    let none = "ask needs one of: --post, --choose, --action";
    assert_eq!(refused(ask(false, Some("C"), None, None)), none);
    assert_eq!(refused(ask(false, None, Some("null"), None)), none);
    assert_eq!(refused(ask(false, None, None, Some(" , "))), none);
    let bad = serde_json::from_str::<Value>("{x").err().unwrap();
    assert_eq!(
        refused(ask(false, None, Some("{x"), Some("a"))),
        format!("--action must be JSON: {bad}")
    );
    // The missing channel is reported before the action is looked at.
    assert_eq!(refused(ask(true, None, Some("{x"), None)), "--post needs --channel");
}

#[test]
fn an_ask_is_made_of_a_parsed_action() {
    let body = ask_request(
        "t",
        true,
        &Some(text("C")),
        &None,
        Ok(Json::Null),
        &Vec::new(),
        false,
        &Some(text("why")),
    );
    let got = value_of_json(&body.ok().unwrap());
    assert_eq!(got["post"], value("{\"type\":\"post\",\"channel\":\"C\",\"thread\":null}"));
    assert_eq!(got["context"], value("\"why\""));
    let failed = ask_request("t", false, &None, &None, Err(text("e")), &Vec::new(), false, &None);
    assert_eq!(failed.err().unwrap(), "e");
    assert_eq!(with_prefix(Err(text("e")), "p: ").err().unwrap(), "p: e");
    assert!(matches!(with_prefix(Ok(Json::Bool(true)), "p: "), Ok(Json::Bool(true))));
    assert_eq!(choice_list(&Some(text("a,b"))), vec!["a", "b"]);
    assert!(choice_list(&None).is_empty());
}

#[test]
fn the_daemon_is_found_by_its_url() {
    let none = Env { vars: Vec::new() };
    assert_eq!(daemon_url(&none, "/next"), "http://127.0.0.1:8799/next");
    let set = Env { vars: vec![(text("SLACK_DEPUTY_URL"), Some(text("http://h:1//")))] };
    assert_eq!(daemon_url(&set, "/next"), "http://h:1/next");
    assert_eq!(
        unreachable_text(&set, "refused"),
        "request to daemon failed (is it running? SLACK_DEPUTY_URL=http://h:1): refused"
    );
}

#[test]
fn replies_are_taken_by_their_status() {
    assert_eq!(request(200, "200 OK", text("body")), Ok(text("body")));
    assert_eq!(request(299, "299", text("")), Ok(text("")));
    assert_eq!(request(199, "199", text("x")), Err(text("daemon 199: x")));
    assert_eq!(request(300, "300", text("x")), Err(text("daemon 300: x")));
    assert_eq!(
        request(404, "404 Not Found", text("no row pk=1")),
        Err(text("daemon 404 Not Found: no row pk=1"))
    );
    assert!(matches!(http_post_value("{\"a\":1}"), Ok(_)));
    let bad = serde_json::from_str::<Value>("<html>").err().unwrap();
    assert_eq!(
        http_post_value("<html>").err().unwrap(),
        format!("bad daemon response: {bad}")
    );
}

#[test]
fn a_tail_goes_on_from_the_cursor() {
    assert_eq!(value_of_json(&tail_body(None)), value("{\"from\":null}"));
    assert_eq!(value_of_json(&tail_body(Some(7))), value("{\"from\":7}"));
    let reply = parse(
        "{\"rows\":[{\"pk\":1,\"kind\":\"message\",\"channel\":null,\"status\":\"done\",\
         \"body\":\"b\",\"more\":0},\
         {\"pk\":2},\
         {\"pk\":3,\"kind\":\"k\",\"status\":\"s\",\"body\":\"\"}],\"cursor\":3}",
    )
    .ok()
    .unwrap();
    let (rows, cursor) = run_tail(&reply);
    assert_eq!(rows.iter().map(|r| r.pk).collect::<Vec<i64>>(), vec![1, 3]);
    assert_eq!(cursor, Some(3));
    let (rows, cursor) = run_tail(&parse("{\"rows\":{},\"cursor\":\"3\"}").ok().unwrap());
    assert!(rows.is_empty());
    assert_eq!(cursor, None);
    let (rows, cursor) = run_tail(&Json::Null);
    assert!(rows.is_empty());
    assert_eq!(cursor, None);
}

#[test]
fn a_row_is_read_from_json() {
    let read = |s: &str| row_of_json(&parse(s).ok().unwrap());
    let r = read("{\"pk\":-4,\"kind\":\"k\",\"channel\":\"C\",\"status\":\"s\",\"body\":\"b\"}");
    let r = r.unwrap();
    assert_eq!((r.pk, r.kind, r.channel), (-4, text("k"), Some(text("C"))));
    assert_eq!((r.status, r.body), (text("s"), text("b")));
    assert!(read("{\"pk\":1.0,\"kind\":\"k\",\"status\":\"s\",\"body\":\"b\"}").is_none());
    assert!(read("{\"pk\":1,\"kind\":\"k\",\"channel\":2,\"status\":\"s\",\"body\":\"b\"}").is_none());
    assert!(read("{\"pk\":9223372036854775808,\"kind\":\"k\",\"status\":\"s\",\"body\":\"b\"}").is_none());
    assert!(read("{\"kind\":\"k\",\"status\":\"s\",\"body\":\"b\"}").is_none());
    assert_eq!(read("[5,\"k\",null,\"s\",\"b\"]").unwrap().pk, 5);
    assert!(read("[5,\"k\",null,\"s\"]").is_none());
    assert!(read("3").is_none());
}

fn row(kind: &str, channel: Option<&str>, status: &str, body: &str) -> Row {
    Row {
        pk: 12,
        kind: text(kind),
        channel: channel.map(text),
        status: text(status),
        body: text(body),
    }
}

#[test]
fn a_row_is_shown_on_one_line() {
    assert_eq!(
        fmt_row(&row("message", Some("C1"), "pending", "{\"user\":\"U1\",\"text\":\"hi\"}")),
        "[12] message      pending        C1           <U1> hi"
    );
    assert_eq!(
        fmt_row(&row("reaction", None, "done", "{\"user\":\"U1\",\"reaction\":\"eyes\"}")),
        "[12] reaction     done           -            <U1> :eyes:"
    );
    assert_eq!(
        fmt_row(&row("confirmation", Some("D1"), "awaiting_human", "{\"decision\":\"approve\"}")),
        "[12] confirmation awaiting_human D1           decision=approve"
    );
    assert_eq!(
        fmt_row(&row("other", Some("C1"), "pending", "{}")),
        "[12] other        pending        C1           "
    );
    assert_eq!(
        fmt_row(&row("message", Some("C1"), "pending", "no json")),
        "[12] message      pending        C1           <> "
    );
}

#[test]
fn a_line_break_is_shown_as_a_blank() {
    let body = "{\"user\":\"U\\n1\",\"text\":\"a\\nb\\r\\nc\"}";
    let line = fmt_row(&row("message", Some("C\n1"), "pen\nding", body));
    assert_eq!(line, "[12] message      pen ding       C 1          <U 1> a b  c");
    let line = fmt_row(&row("other\n", None, "s", "{}"));
    assert_eq!(line, "[12] other        s              -            ");
    let line = fmt_row(&row("confirmation", None, "s", "{\"decision\":\"x\\ny\"}"));
    assert!(line.ends_with("decision=x y"));
    let line = fmt_row(&row("reaction", None, "s", "{\"reaction\":\"\\n\"}"));
    assert!(line.ends_with("<> : :"));
}

#[test]
fn a_long_text_is_cut_at_eighty_characters() {
    let body = format!("{{\"user\":\"U\",\"text\":\"{}\"}}", "投".repeat(81));
    let line = fmt_row(&row("message", Some("C"), "s", &body));
    assert_eq!(line, format!("[12] message      s              C            <U> {}", "投".repeat(80)));
    let event = parse("{\"user\":5,\"text\":\"x\"}").ok().unwrap();
    assert_eq!(
        fmt_event(&row("message", Some("C"), "s", ""), &event),
        "[12] message      s              C            <> x"
    );
}

#[test]
fn an_ask_that_the_client_accepts_can_be_asked() {
    let commands = vec![
        ask(true, Some("C"), None, None),
        ask(false, None, Some("{\"a\":1}"), None),
        ask(false, None, Some("null"), Some("x,y")),
        ask(false, None, None, Some("x")),
    ];
    for cmd in commands {
        let (_, body, _) = sent(cmd);
        let given = |key: &str| match &body[key] {
            Value::Null => None,
            v => Some(json_of_value(v.clone())),
        };
        let choices: Vec<String> = body["choices"]
            .as_array()
            .unwrap()
            .iter()
            .map(|c| text(c.as_str().unwrap()))
            .collect();
        let asked =
            confirm::ask("t", &given("action"), &given("post"), &choices, false, &None, None);
        assert!(asked.is_ok());
    }
}
