//! The broker-style CLI: a thin HTTP client for the daemon's API. Every verb, for the
//! queue and for Slack alike, goes through the daemon, so the CLI needs no database
//! file and no tokens; `SLACK_DEPUTY_URL` points it at a daemon on another host.

use crate::config::{var_or, Env, EnvView};
use crate::db::{rows_view, Row, RowView};
use crate::json::{
    int_or_null, items_view, json_read, parse, parse_or_null, read_or_null, text_items,
    text_or_null, Json, JsonView,
};
use crate::text::{
    comma_items, comma_list, decimal, first_chars, first_of, number_text, on_one_line, one_line,
    opt_text, pad, padded, same, texts, trim_end_matches, trimmed_end,
};
use vstd::prelude::*;
use vstd::string::*;

verus! {

/// A command line: no command means that the daemon runs.
pub struct Cli {
    pub command: Option<Command>,
}

/// A verb with its arguments.
#[allow(inconsistent_fields)]
pub enum Command {
    /// Claim the oldest pending event (prints `{pk, thread_ts}` or `null`, no body).
    /// Marks it dispatched.
    Next,
    /// Block until a claimable event exists (prints `{ready:true}`), or until `timeout`
    /// seconds pass with none (`{ready:false}`). Claims nothing: a pure wake signal.
    Wait { timeout: Option<u64> },
    /// Print the event body JSON for a key.
    Body { pk: i64 },
    /// Mark a row done (handled inline).
    Done { pk: i64 },
    /// Mark a row awaiting_human (handed off to confirmation).
    Await { pk: i64 },
    /// Skip pending rows without processing them: one, or all of them. Dispatched rows
    /// are never touched.
    Skip { pk: Option<i64>, all: bool },
    /// Post a message as yourself.
    Post { channel: String, thread: Option<String>, text: String },
    /// Add a reaction as yourself.
    React { channel: String, ts: String, name: String },
    /// Remove a reaction.
    Unreact { channel: String, ts: String, name: String },
    /// Delete a message.
    Delete { channel: String, ts: String },
    /// Read a thread's replies.
    Thread { channel: String, ts: String },
    /// Ask the human to confirm an action (bot DM with buttons). Pick one positive
    /// button: `post` (the daemon posts `text` to `channel` and `thread` on click),
    /// `choose` (one routed button per choice), or `action` JSON (a routed approval).
    Ask {
        text: String,
        post: bool,
        channel: Option<String>,
        thread: Option<String>,
        action: Option<String>,
        choose: Option<String>,
        danger: bool,
        context: Option<String>,
    },
    /// Read bot-DM messages: one ask's thread, or recent history.
    Dm { thread: Option<String> },
    /// Follow captured rows live. Starts after `from`, or with the last ten rows.
    Tail { from: Option<i64> },
}

/// What a command makes the client do.
pub enum Action {
    /// Post the body to the path at the daemon and print the reply, waiting for it
    /// `timeout` seconds where that is given.
    Print { path: String, body: Json, timeout: Option<u64> },
    /// Follow captured rows.
    Follow { from: Option<i64> },
}

/// What an action is.
pub enum ActionView {
    Print { path: Seq<char>, body: JsonView, timeout: Option<u64> },
    Follow { from: Option<i64> },
}

impl Action {
    /// What the action is.
    pub open spec fn view(self) -> ActionView {
        match self {
            Action::Print { path, body, timeout } => ActionView::Print {
                path: path@,
                body: body@,
                timeout,
            },
            Action::Follow { from } => ActionView::Follow { from },
        }
    }
}

/// The routing of a terminal post.
pub open spec fn post_routing(channel: Seq<char>, thread: Option<Seq<char>>) -> JsonView {
    JsonView::Object(
        map![
            "type"@ => JsonView::Text("post"@),
            "channel"@ => JsonView::Text(channel),
            "thread"@ => text_or_null(thread),
        ],
    )
}

/// The choices that `--choose` gives.
pub open spec fn choices_of(choose: Option<Seq<char>>) -> Seq<Seq<char>> {
    match choose {
        Some(s) => comma_list(s),
        None => Seq::empty(),
    }
}

/// A value, or a message with a prefix.
pub open spec fn prefixed(r: Result<JsonView, Seq<char>>, prefix: Seq<char>) -> Result<
    JsonView,
    Seq<char>,
> {
    match r {
        Ok(v) => Ok(v),
        Err(e) => Err(prefix + e),
    }
}

/// What a value or a message is.
pub open spec fn result_view(r: Result<Json, String>) -> Result<JsonView, Seq<char>> {
    match r {
        Ok(j) => Ok(j@),
        Err(e) => Err(e@),
    }
}

/// A value, or a message with a prefix.
pub fn with_prefix(r: Result<Json, String>, prefix: &str) -> (res: Result<Json, String>)
    ensures
        result_view(res) == prefixed(result_view(r), prefix@),
{
    match r {
        Ok(j) => Ok(j),
        Err(e) => Err(prefix.to_owned().concat(e.as_str())),
    }
}

/// The value that `--action` gives, or the message that says why it is no JSON.
pub open spec fn action_of(action: Option<Seq<char>>) -> Result<JsonView, Seq<char>> {
    match action {
        Some(a) => prefixed(json_read(a), "--action must be JSON: "@),
        None => Ok(JsonView::Null),
    }
}

/// The body of an `ask` request, or the message that says what is wrong with its
/// arguments. `action` is the value that `--action` gives, `null` without it.
pub open spec fn ask_body(
    text: Seq<char>,
    post: bool,
    channel: Option<Seq<char>>,
    thread: Option<Seq<char>>,
    action: Result<JsonView, Seq<char>>,
    choices: Seq<Seq<char>>,
    danger: bool,
    context: Option<Seq<char>>,
) -> Result<JsonView, Seq<char>> {
    if post && channel is None {
        Err("--post needs --channel"@)
    } else {
        match action {
            Err(e) => Err(e),
            Ok(routed) => if !post && choices.len() == 0 && routed == JsonView::Null {
                Err("ask needs one of: --post, --choose, --action"@)
            } else {
                Ok(
                    JsonView::Object(
                        map![
                            "text"@ => JsonView::Text(text),
                            "action"@ => routed,
                            "post"@ => if post {
                                post_routing(channel->0, thread)
                            } else {
                                JsonView::Null
                            },
                            "choices"@ => text_items(choices),
                            "danger"@ => JsonView::Bool(danger),
                            "context"@ => text_or_null(context),
                        ],
                    ),
                )
            },
        }
    }
}


/// The body of a request that names a row.
pub open spec fn pk_body(pk: i64) -> JsonView {
    JsonView::Object(map!["pk"@ => JsonView::Int(pk as int)])
}

/// The body of a request that names a message.
pub open spec fn message_ref(channel: Seq<char>, ts: Seq<char>) -> JsonView {
    JsonView::Object(map!["channel"@ => JsonView::Text(channel), "ts"@ => JsonView::Text(ts)])
}

/// The body of a request that names a reaction.
pub open spec fn reaction_ref(channel: Seq<char>, ts: Seq<char>, name: Seq<char>) -> JsonView {
    JsonView::Object(
        map![
            "channel"@ => JsonView::Text(channel),
            "ts"@ => JsonView::Text(ts),
            "name"@ => JsonView::Text(name),
        ],
    )
}

/// A request with the client's own timeout.
pub open spec fn print_of(path: Seq<char>, body: JsonView) -> Result<ActionView, Seq<char>> {
    Ok(ActionView::Print { path, body, timeout: None })
}

/// What a command makes the client do, or the message that says what is wrong with
/// its arguments. `wait` gives the client 30 seconds over what the daemon may block.
pub open spec fn action_for(cmd: Command) -> Result<ActionView, Seq<char>> {
    match cmd {
        Command::Next => print_of("/next"@, JsonView::Object(Map::empty())),
        Command::Wait { timeout } => {
            let secs = match timeout {
                Some(t) => t,
                None => 0,
            };
            Ok(
                ActionView::Print {
                    path: "/wait"@,
                    body: JsonView::Object(map!["timeout_secs"@ => JsonView::Int(secs as int)]),
                    timeout: Some((secs + 30) as u64),
                },
            )
        },
        Command::Body { pk } => print_of("/body"@, pk_body(pk)),
        Command::Done { pk } => print_of("/done"@, pk_body(pk)),
        Command::Await { pk } => print_of("/await"@, pk_body(pk)),
        Command::Skip { pk, all } => if pk is None && !all {
            Err("skip needs a <pk> or --all"@)
        } else {
            print_of(
                "/skip"@,
                JsonView::Object(map!["pk"@ => int_or_null(pk), "all"@ => JsonView::Bool(all)]),
            )
        },
        Command::Post { channel, thread, text } => print_of(
            "/post"@,
            JsonView::Object(
                map![
                    "channel"@ => JsonView::Text(channel@),
                    "thread_ts"@ => text_or_null(opt_text(thread)),
                    "text"@ => JsonView::Text(text@),
                ],
            ),
        ),
        Command::React { channel, ts, name } => print_of(
            "/react"@,
            reaction_ref(channel@, ts@, name@),
        ),
        Command::Unreact { channel, ts, name } => print_of(
            "/unreact"@,
            reaction_ref(channel@, ts@, name@),
        ),
        Command::Delete { channel, ts } => print_of("/delete"@, message_ref(channel@, ts@)),
        Command::Thread { channel, ts } => print_of("/thread"@, message_ref(channel@, ts@)),
        Command::Ask { text, post, channel, thread, action, choose, danger, context } => match ask_body(
            text@,
            post,
            opt_text(channel),
            opt_text(thread),
            action_of(opt_text(action)),
            choices_of(opt_text(choose)),
            danger,
            opt_text(context),
        ) {
            Ok(body) => print_of("/ask"@, body),
            Err(e) => Err(e),
        },
        Command::Dm { thread } => print_of(
            "/dm"@,
            JsonView::Object(map!["thread"@ => text_or_null(opt_text(thread))]),
        ),
        Command::Tail { from } => Ok(ActionView::Follow { from }),
    }
}

/// Whether the client's timeout for a command can be counted in seconds.
pub open spec fn timeout_fits(cmd: Command) -> bool {
    cmd matches Command::Wait { timeout: Some(t) } ==> t + 30 <= u64::MAX
}

fn print(path: &str, body: Json) -> (r: Result<Action, String>)
    ensures
        r matches Ok(a) && Ok::<ActionView, Seq<char>>(a@) == print_of(path@, body@),
{
    Ok(Action::Print { path: path.to_owned(), body, timeout: None })
}

fn pk_request(pk: i64) -> (r: Json)
    ensures
        r@ == pk_body(pk),
{
    Json::object().with("pk", Json::Int(pk))
}

fn reaction_request(channel: &str, ts: &str, name: &str) -> (r: Json)
    ensures
        r@ == reaction_ref(channel@, ts@, name@),
{
    Json::object().with("channel", Json::text(channel)).with("ts", Json::text(ts)).with(
        "name",
        Json::text(name),
    )
}

fn message_request(channel: &str, ts: &str) -> (r: Json)
    ensures
        r@ == message_ref(channel@, ts@),
{
    Json::object().with("channel", Json::text(channel)).with("ts", Json::text(ts))
}

/// The choices that `--choose` gives.
pub fn choice_list(choose: &Option<String>) -> (r: Vec<String>)
    ensures
        texts(r@) == choices_of(opt_text(*choose)),
{
    match choose {
        Some(s) => comma_items(s.as_str()),
        None => {
            let r: Vec<String> = Vec::new();
            assert(texts(r@) =~= Seq::empty());
            r
        },
    }
}

fn action_value(action: &Option<String>) -> (r: Result<Json, String>)
    ensures
        result_view(r) == action_of(opt_text(*action)),
{
    match action {
        Some(a) => with_prefix(parse(a.as_str()), "--action must be JSON: "),
        None => Ok(Json::Null),
    }
}

/// The body of an `ask` request, or the message that says what is wrong with its
/// arguments. `action` is the value that `--action` gives, `null` without it.
pub fn ask_request(
    text: &str,
    post: bool,
    channel: &Option<String>,
    thread: &Option<String>,
    action: Result<Json, String>,
    choices: &Vec<String>,
    danger: bool,
    context: &Option<String>,
) -> (r: Result<Json, String>)
    ensures
        result_view(r) == ask_body(
            text@,
            post,
            opt_text(*channel),
            opt_text(*thread),
            result_view(action),
            texts(choices@),
            danger,
            opt_text(*context),
        ),
{
    let routing = if post {
        match channel {
            Some(c) => Json::object().with("type", Json::text("post")).with(
                "channel",
                Json::text(c.as_str()),
            ).with("thread", Json::opt(thread)),
            None => return Err("--post needs --channel".to_owned()),
        }
    } else {
        Json::Null
    };
    let routed = match action {
        Ok(j) => j,
        Err(e) => return Err(e),
    };
    if !post && choices.len() == 0 && routed.is_null() {
        return Err("ask needs one of: --post, --choose, --action".to_owned());
    }
    Ok(
        Json::object().with("text", Json::text(text)).with("action", routed).with(
            "post",
            routing,
        ).with("choices", Json::text_array(choices)).with("danger", Json::Bool(danger)).with(
            "context",
            Json::opt(context),
        ),
    )
}

/// What a command makes the client do, or the message that says what is wrong with
/// its arguments.
pub fn run(cmd: Command) -> (r: Result<Action, String>)
    requires
        timeout_fits(cmd),
    ensures
        match r {
            Ok(a) => action_for(cmd) == Ok::<ActionView, Seq<char>>(a@),
            Err(e) => action_for(cmd) == Err::<ActionView, Seq<char>>(e@),
        },
{
    match &cmd {
        Command::Next => print("/next", Json::object()),
        Command::Wait { timeout } => {
            let secs: u64 = match timeout {
                Some(t) => *t,
                None => 0,
            };
            Ok(
                Action::Print {
                    path: "/wait".to_owned(),
                    body: Json::object().with("timeout_secs", Json::Uint(secs)),
                    timeout: Some(secs + 30),
                },
            )
        },
        Command::Body { pk } => print("/body", pk_request(*pk)),
        Command::Done { pk } => print("/done", pk_request(*pk)),
        Command::Await { pk } => print("/await", pk_request(*pk)),
        Command::Skip { pk, all } => {
            if pk.is_none() && !*all {
                return Err("skip needs a <pk> or --all".to_owned());
            }
            print(
                "/skip",
                Json::object().with("pk", Json::opt_int(*pk)).with("all", Json::Bool(*all)),
            )
        },
        Command::Post { channel, thread, text } => print(
            "/post",
            Json::object().with("channel", Json::text(channel.as_str())).with(
                "thread_ts",
                Json::opt(thread),
            ).with("text", Json::text(text.as_str())),
        ),
        Command::React { channel, ts, name } => print(
            "/react",
            reaction_request(channel.as_str(), ts.as_str(), name.as_str()),
        ),
        Command::Unreact { channel, ts, name } => print(
            "/unreact",
            reaction_request(channel.as_str(), ts.as_str(), name.as_str()),
        ),
        Command::Delete { channel, ts } => print(
            "/delete",
            message_request(channel.as_str(), ts.as_str()),
        ),
        Command::Thread { channel, ts } => print(
            "/thread",
            message_request(channel.as_str(), ts.as_str()),
        ),
        Command::Ask { text, post, channel, thread, action, choose, danger, context } => {
            match ask_request(
                text.as_str(),
                *post,
                channel,
                thread,
                action_value(action),
                &choice_list(choose),
                *danger,
                context,
            ) {
                Ok(body) => print("/ask", body),
                Err(e) => Err(e),
            }
        },
        Command::Dm { thread } => print("/dm", Json::object().with("thread", Json::opt(thread))),
        Command::Tail { from } => Ok(Action::Follow { from: *from }),
    }
}

// --- the daemon's side of the wire ---

/// The address of the daemon.
pub open spec fn daemon_base(env: EnvView) -> Seq<char> {
    trimmed_end(var_or(env, "SLACK_DEPUTY_URL"@, "http://127.0.0.1:8799"@), '/')
}

/// The address of a path at the daemon.
pub fn daemon_url(env: &Env, path: &str) -> (r: String)
    ensures
        r@ == daemon_base(env@) + path@,
{
    let base = env.var_or("SLACK_DEPUTY_URL", "http://127.0.0.1:8799");
    trim_end_matches(base.as_str(), '/').to_owned().concat(path)
}

/// The message for a request that did not reach the daemon.
pub fn unreachable_text(env: &Env, cause: &str) -> (r: String)
    ensures
        r@ == "request to daemon failed (is it running? SLACK_DEPUTY_URL="@ + daemon_base(env@)
            + "): "@ + cause@,
{
    let url = daemon_url(env, "");
    proof {
        reveal_strlit("");
        assert(url@ =~= daemon_base(env@));
    }
    "request to daemon failed (is it running? SLACK_DEPUTY_URL=".to_owned().concat(
        url.as_str(),
    ).concat("): ").concat(cause)
}

/// Whether an HTTP status code is one of success.
pub open spec fn is_success(code: u16) -> bool {
    200 <= code < 300
}

/// What the daemon answered, with a status code that is written `status`: the text of a
/// successful reply, or a message with the status of any other.
pub fn request(code: u16, status: &str, text: String) -> (r: Result<String, String>)
    ensures
        match r {
            Ok(t) => is_success(code) && t@ == text@,
            Err(e) => !is_success(code) && e@ == "daemon "@ + status@ + ": "@ + text@,
        },
{
    if 200 <= code && code < 300 {
        Ok(text)
    } else {
        Err("daemon ".to_owned().concat(status).concat(": ").concat(text.as_str()))
    }
}

/// The value that the daemon's reply denotes.
pub fn http_post_value(text: &str) -> (r: Result<Json, String>)
    ensures
        result_view(r) == prefixed(json_read(text@), "bad daemon response: "@),
{
    with_prefix(parse(text), "bad daemon response: ")
}

/// The body of a `tail` request.
pub fn tail_body(from: Option<i64>) -> (r: Json)
    ensures
        r@ == JsonView::Object(map!["from"@ => int_or_null(from)]),
{
    Json::object().with("from", Json::opt_int(from))
}

/// The text that a value is, where it is one.
pub open spec fn text_value(v: Option<JsonView>) -> Option<Seq<char>> {
    match v {
        Some(x) => x.as_text(),
        None => None,
    }
}

/// A row summary from its five values, if they are of the right kinds.
pub open spec fn row_from(
    pk: Option<JsonView>,
    kind: Option<JsonView>,
    channel: Option<JsonView>,
    status: Option<JsonView>,
    body: Option<JsonView>,
) -> Option<RowView> {
    match (pk, text_value(kind), text_value(status), text_value(body)) {
        (Some(JsonView::Int(n)), Some(kind), Some(status), Some(body)) => if i64::MIN <= n
            <= i64::MAX && (channel is None || channel == Some(JsonView::Null) || text_value(
            channel,
        ) is Some) {
            Some(RowView { pk: n, kind, channel: text_value(channel), status, body })
        } else {
            None
        },
        _ => None,
    }
}

/// The row summary that a value is, if it is one: an object with its fields (the channel
/// may be missing), or an array of them in order.
pub open spec fn row_in(v: JsonView) -> Option<RowView> {
    match v {
        JsonView::Object(_) => row_from(
            v.get("pk"@),
            v.get("kind"@),
            v.get("channel"@),
            v.get("status"@),
            v.get("body"@),
        ),
        JsonView::Array(items) => if items.len() == 5 {
            row_from(
                Some(items[0]),
                Some(items[1]),
                Some(items[2]),
                Some(items[3]),
                Some(items[4]),
            )
        } else {
            None
        },
        _ => None,
    }
}

spec fn opt_ref_json(o: Option<&Json>) -> Option<JsonView> {
    match o {
        Some(j) => Some(j@),
        None => None,
    }
}

fn text_of(o: Option<&Json>) -> (r: Option<String>)
    ensures
        opt_text(r) == text_value(opt_ref_json(o)),
{
    match o {
        Some(j) => match j.as_str() {
            Some(s) => Some(s.to_owned()),
            None => None,
        },
        None => None,
    }
}

fn build_row(
    pk: Option<&Json>,
    kind: Option<&Json>,
    channel: Option<&Json>,
    status: Option<&Json>,
    body: Option<&Json>,
) -> (r: Option<Row>)
    ensures
        ({
            let want = row_from(
                opt_ref_json(pk),
                opt_ref_json(kind),
                opt_ref_json(channel),
                opt_ref_json(status),
                opt_ref_json(body),
            );
            match r {
                Some(row) => want == Some(row@),
                None => want is None,
            }
        }),
{
    let key = match pk {
        Some(j) => match j.as_i64() {
            Some(n) => n,
            None => return None,
        },
        None => return None,
    };
    let place = match channel {
        Some(j) => {
            let t = text_of(channel);
            if !j.is_null() && t.is_none() {
                return None;
            }
            t
        },
        None => None,
    };
    match (text_of(kind), text_of(status), text_of(body)) {
        (Some(kind), Some(status), Some(body)) => Some(
            Row { pk: key, kind, channel: place, status, body },
        ),
        _ => None,
    }
}

/// The row summary that a value is, if it is one.
pub fn row_of_json(v: &Json) -> (r: Option<Row>)
    ensures
        match r {
            Some(row) => row_in(v@) == Some(row@),
            None => row_in(v@) is None,
        },
{
    match v {
        Json::Object(_) => build_row(
            v.get("pk"),
            v.get("kind"),
            v.get("channel"),
            v.get("status"),
            v.get("body"),
        ),
        Json::Array(items) => if items.len() == 5 {
            build_row(
                Some(&items[0]),
                Some(&items[1]),
                Some(&items[2]),
                Some(&items[3]),
                Some(&items[4]),
            )
        } else {
            None
        },
        _ => None,
    }
}

/// The row summaries in the daemon's reply to `tail`, in order; what is none is passed
/// over.
pub open spec fn rows_in(values: Seq<JsonView>) -> Seq<RowView>
    decreases values.len(),
{
    if values.len() == 0 {
        Seq::empty()
    } else {
        let before = rows_in(values.drop_last());
        match row_in(values.last()) {
            Some(row) => before.push(row),
            None => before,
        }
    }
}

/// The rows in the daemon's reply to `tail`.
pub open spec fn reply_rows(reply: JsonView) -> Seq<RowView> {
    match reply.get("rows"@) {
        Some(JsonView::Array(values)) => rows_in(values),
        _ => Seq::empty(),
    }
}

/// The key in the daemon's reply to `tail` after which to go on.
pub open spec fn reply_cursor(reply: JsonView) -> Option<int> {
    match reply.get("cursor"@) {
        Some(JsonView::Int(n)) => if i64::MIN <= n <= i64::MAX {
            Some(n)
        } else {
            None
        },
        _ => None,
    }
}

/// The rows in the daemon's reply to `tail`, and the key after which to go on.
pub fn run_tail(reply: &Json) -> (r: (Vec<Row>, Option<i64>))
    ensures
        rows_view(r.0@) == reply_rows(reply@),
        match r.1 {
            Some(n) => reply_cursor(reply@) == Some(n as int),
            None => reply_cursor(reply@) is None,
        },
{
    let mut rows: Vec<Row> = Vec::new();
    assert(rows_view(rows@) =~= Seq::empty());
    if let Some(list) = reply.get("rows") {
        if let Some(items) = list.as_array() {
            let ghost values = items_view(items@);
            let mut i: usize = 0;
            assert(values.take(0) =~= Seq::empty());
            while i < items.len()
                invariant
                    i <= items@.len(),
                    values == items_view(items@),
                    rows_view(rows@) == rows_in(values.take(i as int)),
                decreases items@.len() - i,
            {
                proof {
                    assert(values.take(i + 1).drop_last() =~= values.take(i as int));
                    assert(values.take(i + 1).last() == items@[i as int]@);
                }
                if let Some(row) = row_of_json(&items[i]) {
                    assert(rows_view(rows@.push(row)) =~= rows_view(rows@).push(row@));
                    rows.push(row);
                }
                i += 1;
            }
            assert(values.take(values.len() as int) =~= values);
        }
    }
    let cursor = match reply.get("cursor") {
        Some(c) => c.as_i64(),
        None => None,
    };
    (rows, cursor)
}

// --- tail lines ---

/// The text in a field of an event, empty where there is none.
pub open spec fn field_text(event: JsonView, key: Seq<char>) -> Seq<char> {
    match event.text_at(key) {
        Some(s) => s,
        None => Seq::empty(),
    }
}

/// What an event of a kind is about, in a few words.
pub open spec fn event_summary(kind: Seq<char>, event: JsonView) -> Seq<char> {
    if kind == "message"@ {
        "<"@ + field_text(event, "user"@) + "> "@ + first_of(field_text(event, "text"@), 80)
    } else if kind == "reaction"@ {
        "<"@ + field_text(event, "user"@) + "> :"@ + field_text(event, "reaction"@) + ":"@
    } else if kind == "confirmation"@ {
        "decision="@ + field_text(event, "decision"@)
    } else {
        Seq::empty()
    }
}

/// The line that `tail` prints for a row whose body denotes `event`: a line break in what
/// the row or the event holds is shown as a blank.
pub open spec fn row_line(r: RowView, event: JsonView) -> Seq<char> {
    let channel = match r.channel {
        Some(c) => c,
        None => "-"@,
    };
    on_one_line(
        "["@ + decimal(r.pk) + "] "@ + padded(r.kind, 12) + " "@ + padded(r.status, 14) + " "@
            + padded(channel, 12) + " "@ + event_summary(r.kind, event),
    )
}

fn text_in(event: &Json, key: &str) -> (r: String)
    ensures
        r@ == field_text(event@, key@),
{
    match event.text_at(key) {
        Some(s) => s.to_owned(),
        None => String::new(),
    }
}

/// One-line summary of a captured row for `tail`.
pub fn fmt_row(r: &Row) -> (line: String)
    ensures
        line@ == row_line(r@, read_or_null(r.body@)),
        !line@.contains('\n'),
        !line@.contains('\r'),
{
    fmt_event(r, &parse_or_null(r.body.as_str()))
}

/// One-line summary of a captured row whose body denotes `event`.
pub fn fmt_event(r: &Row, event: &Json) -> (line: String)
    ensures
        line@ == row_line(r@, event@),
        !line@.contains('\n'),
        !line@.contains('\r'),
{
    let channel = match &r.channel {
        Some(c) => pad(c.as_str(), 12),
        None => pad("-", 12),
    };
    let kind = r.kind.as_str();
    let summary = if same(kind, "message") {
        let text = text_in(event, "text");
        "<".to_owned().concat(text_in(event, "user").as_str()).concat("> ").concat(
            first_chars(text.as_str(), 80),
        )
    } else if same(kind, "reaction") {
        "<".to_owned().concat(text_in(event, "user").as_str()).concat("> :").concat(
            text_in(event, "reaction").as_str(),
        ).concat(":")
    } else if same(kind, "confirmation") {
        "decision=".to_owned().concat(text_in(event, "decision").as_str())
    } else {
        String::new()
    };
    let line = "[".to_owned().concat(number_text(r.pk).as_str()).concat("] ").concat(
        pad(kind, 12).as_str(),
    ).concat(" ").concat(pad(r.status.as_str(), 14).as_str()).concat(" ").concat(
        channel.as_str(),
    ).concat(" ").concat(summary.as_str());
    one_line(line.as_str())
}

} // verus!
