//! The CLI: what each command sends, and what `tail` makes of the replies.

use crate::cli::{
    action_for, daemon_base, event_summary, is_success, prefixed, reply_cursor, reply_rows,
    result_view, row_in, row_line, rows_in, timeout_fits, Action, ActionView, Command,
};
use crate::config::EnvView;
use crate::db::RowView;
use crate::json::{json_read, Json, JsonView};
use crate::laws::asks::text_field;
use crate::laws::capture::{has_field, has_text};
use crate::laws::words::trim_end_takes_run;
use crate::text::{comma_list, decimal, first_of, on_one_line, opt_text, padded};
use vstd::prelude::*;

verus! {

/// The body that a command sends to a path, if it sends one there, with the usual timeout.
pub open spec fn sends_to(cmd: Command, path: Seq<char>) -> Option<JsonView> {
    match action_for(cmd) {
        Ok(ActionView::Print { path: to, body, timeout: None }) => if to == path {
            Some(body)
        } else {
            None
        },
        _ => None,
    }
}

// --- queue verbs ---

/// `next` sends an empty request.
pub proof fn next_asks_for_the_next_row()
    ensures
        sends_to(Command::Next, "/next"@) == Some(JsonView::Object(Map::empty())),
{
}

/// `wait` sends the seconds it was given, or 0, and gives the daemon 30 seconds more than that
/// to answer.
pub proof fn wait_waits_longer_than_the_daemon(timeout: Option<u64>)
    requires
        timeout matches Some(t) ==> t + 30 <= u64::MAX,
    ensures
        ({
            let secs: u64 = match timeout {
                Some(t) => t,
                None => 0,
            };
            &&& action_for(Command::Wait { timeout }) matches Ok(
                ActionView::Print { path, body, timeout: Some(limit) },
            )
            &&& path == "/wait"@
            &&& has_field(body, "timeout_secs"@, JsonView::Int(secs as int))
            &&& limit == secs + 30
        }),
{
}

/// `body`, `done` and `await` send the key that they were given, each to its own path.
pub proof fn row_verbs_name_their_row(pk: i64)
    ensures
        sends_to(Command::Body { pk }, "/body"@) matches Some(b) && has_field(
            b,
            "pk"@,
            JsonView::Int(pk as int),
        ),
        sends_to(Command::Done { pk }, "/done"@) matches Some(b) && has_field(
            b,
            "pk"@,
            JsonView::Int(pk as int),
        ),
        sends_to(Command::Await { pk }, "/await"@) matches Some(b) && has_field(
            b,
            "pk"@,
            JsonView::Int(pk as int),
        ),
{
}

/// `skip` sends its key and whether all are meant; it is refused if and only if it has neither.
pub proof fn skip_names_its_rows(pk: Option<i64>, all: bool)
    ensures
        pk is None && !all ==> action_for(Command::Skip { pk, all }) == Err::<
            ActionView,
            Seq<char>,
        >("skip needs a <pk> or --all"@),
        pk is Some || all ==> (sends_to(Command::Skip { pk, all }, "/skip"@) matches Some(b)
            && has_field(b, "all"@, JsonView::Bool(all)) && has_field(
            b,
            "pk"@,
            match pk {
                Some(k) => JsonView::Int(k as int),
                None => JsonView::Null,
            },
        )),
{
    lemma_skip_keys();
}

proof fn lemma_skip_keys()
    ensures
        "pk"@ != "all"@,
{
    reveal_strlit("pk");
    reveal_strlit("all");
    assert("pk"@.len() == 2);
    assert("all"@.len() == 3);
}

/// `tail` follows from the key that it was given.
pub proof fn tail_follows_from_its_key(from: Option<i64>)
    ensures
        action_for(Command::Tail { from }) == Ok::<ActionView, Seq<char>>(
            ActionView::Follow { from },
        ),
{
}

// --- Slack verbs ---

proof fn lemma_place_keys()
    ensures
        "channel"@ != "thread_ts"@,
        "channel"@ != "text"@,
        "channel"@ != "ts"@,
        "channel"@ != "name"@,
        "thread_ts"@ != "text"@,
        "thread_ts"@ != "ts"@,
        "thread_ts"@ != "name"@,
        "text"@ != "ts"@,
        "text"@ != "name"@,
        "ts"@ != "name"@,
{
    reveal_strlit("channel");
    reveal_strlit("thread_ts");
    reveal_strlit("text");
    reveal_strlit("ts");
    reveal_strlit("name");
    assert("channel"@.len() == 7);
    assert("thread_ts"@.len() == 9);
    assert("text"@.len() == 4);
    assert("ts"@.len() == 2);
    assert("name"@.len() == 4);
    assert("text"@[0] != "name"@[0]);
}

/// `post` sends just the channel, the thread and the text that it was given, so that the
/// message lands in that thread, or in the channel where no thread was given.
pub proof fn post_goes_where_it_was_told(channel: String, thread: Option<String>, text: String)
    ensures
        sends_to(Command::Post { channel, thread, text }, "/post"@) matches Some(b) && has_text(
            b,
            "channel"@,
            Some(channel@),
        ) && has_text(b, "thread_ts"@, opt_text(thread)) && has_text(b, "text"@, Some(text@)),
{
    lemma_place_keys();
}

/// `react` and `unreact` send the place of the message and the name of the reaction, each to
/// its own path.
pub proof fn reactions_go_where_they_were_told(channel: String, ts: String, name: String)
    ensures
        sends_to(Command::React { channel, ts, name }, "/react"@) matches Some(b) && has_text(
            b,
            "channel"@,
            Some(channel@),
        ) && has_text(b, "ts"@, Some(ts@)) && has_text(b, "name"@, Some(name@)),
        sends_to(Command::Unreact { channel, ts, name }, "/unreact"@) matches Some(b) && has_text(
            b,
            "channel"@,
            Some(channel@),
        ) && has_text(b, "ts"@, Some(ts@)) && has_text(b, "name"@, Some(name@)),
{
    lemma_place_keys();
}

/// `delete` and `thread` send the place of the message, each to its own path.
pub proof fn messages_are_named_by_their_place(channel: String, ts: String)
    ensures
        sends_to(Command::Delete { channel, ts }, "/delete"@) matches Some(b) && has_text(
            b,
            "channel"@,
            Some(channel@),
        ) && has_text(b, "ts"@, Some(ts@)),
        sends_to(Command::Thread { channel, ts }, "/thread"@) matches Some(b) && has_text(
            b,
            "channel"@,
            Some(channel@),
        ) && has_text(b, "ts"@, Some(ts@)),
{
    lemma_place_keys();
}

/// `dm` sends the thread that it was given, if any.
pub proof fn dm_names_its_thread(thread: Option<String>)
    ensures
        sends_to(Command::Dm { thread }, "/dm"@) matches Some(b) && has_text(
            b,
            "thread"@,
            opt_text(thread),
        ),
{
}

/// The action that an ask routes: what its JSON denotes, `null` where it has none.
pub open spec fn routed_json(action: Option<String>) -> Result<JsonView, Seq<char>> {
    match action {
        Some(a) => json_read(a@),
        None => Ok(JsonView::Null),
    }
}

proof fn lemma_ask_keys()
    ensures
        "text"@ != "action"@,
        "text"@ != "post"@,
        "text"@ != "choices"@,
        "text"@ != "danger"@,
        "text"@ != "context"@,
        "text"@ != "type"@,
        "text"@ != "channel"@,
        "text"@ != "thread"@,
        "action"@ != "post"@,
        "action"@ != "choices"@,
        "action"@ != "danger"@,
        "action"@ != "context"@,
        "action"@ != "type"@,
        "action"@ != "channel"@,
        "action"@ != "thread"@,
        "post"@ != "choices"@,
        "post"@ != "danger"@,
        "post"@ != "context"@,
        "post"@ != "type"@,
        "post"@ != "channel"@,
        "post"@ != "thread"@,
        "choices"@ != "danger"@,
        "choices"@ != "context"@,
        "choices"@ != "type"@,
        "choices"@ != "channel"@,
        "choices"@ != "thread"@,
        "danger"@ != "context"@,
        "danger"@ != "type"@,
        "danger"@ != "channel"@,
        "danger"@ != "thread"@,
        "context"@ != "type"@,
        "context"@ != "channel"@,
        "context"@ != "thread"@,
        "type"@ != "channel"@,
        "type"@ != "thread"@,
        "channel"@ != "thread"@,
{
    reveal_strlit("text");
    reveal_strlit("action");
    reveal_strlit("post");
    reveal_strlit("choices");
    reveal_strlit("danger");
    reveal_strlit("context");
    reveal_strlit("type");
    reveal_strlit("channel");
    reveal_strlit("thread");
    assert("text"@.len() == 4);
    assert("action"@.len() == 6);
    assert("post"@.len() == 4);
    assert("choices"@.len() == 7);
    assert("danger"@.len() == 6);
    assert("context"@.len() == 7);
    assert("type"@.len() == 4);
    assert("channel"@.len() == 7);
    assert("thread"@.len() == 6);
    assert("text"@[0] != "post"@[0]);
    assert("text"@[1] != "type"@[1]);
    assert("action"@[0] != "danger"@[0]);
    assert("action"@[0] != "thread"@[0]);
    assert("post"@[0] != "type"@[0]);
    assert("choices"@[1] != "context"@[1]);
    assert("choices"@[2] != "channel"@[2]);
    assert("danger"@[0] != "thread"@[0]);
    assert("context"@[1] != "channel"@[1]);
}

/// An ask is refused if and only if it is a post without a channel, its action is no JSON, or it
/// has neither a post nor a choice nor an action, and says which of these it is, in this order.
/// Else it sends everything that it was given.
pub proof fn an_ask_sends_all_that_it_was_given(
    text: String,
    post: bool,
    channel: Option<String>,
    thread: Option<String>,
    action: Option<String>,
    choose: Option<String>,
    danger: bool,
    context: Option<String>,
)
    ensures
        ({
            let cmd = Command::Ask { text, post, channel, thread, action, choose, danger, context };
            let choices = match choose {
                Some(c) => comma_list(c@),
                None => Seq::empty(),
            };
            if post && channel is None {
                action_for(cmd) == Err::<ActionView, Seq<char>>("--post needs --channel"@)
            } else {
                match routed_json(action) {
                    Err(e) => action_for(cmd) == Err::<ActionView, Seq<char>>(
                        "--action must be JSON: "@ + e,
                    ),
                    Ok(routed) => if !post && choices.len() == 0 && routed == JsonView::Null {
                        action_for(cmd) == Err::<ActionView, Seq<char>>(
                            "ask needs one of: --post, --choose, --action"@,
                        )
                    } else {
                        &&& sends_to(cmd, "/ask"@) matches Some(b)
                        &&& has_text(b, "text"@, Some(text@))
                        &&& has_field(b, "action"@, routed)
                        &&& has_field(b, "danger"@, JsonView::Bool(danger))
                        &&& has_text(b, "context"@, opt_text(context))
                        &&& b matches JsonView::Object(fields)
                        &&& fields.contains_key("choices"@)
                        &&& fields["choices"@] matches JsonView::Array(items)
                        &&& items.len() == choices.len()
                        &&& forall|i: int|
                            0 <= i < items.len() ==> #[trigger] items[i] == JsonView::Text(
                                choices[i],
                            )
                        &&& fields.contains_key("post"@)
                        &&& !post ==> fields["post"@] == JsonView::Null
                        &&& post ==> has_text(fields["post"@], "type"@, Some("post"@)) && has_text(
                            fields["post"@],
                            "channel"@,
                            opt_text(channel),
                        ) && has_text(fields["post"@], "thread"@, opt_text(thread))
                    },
                }
            }
        }),
{
    lemma_ask_keys();
}

// --- the daemon's replies ---

/// The address that the environment gives for the daemon, or the loopback one.
pub open spec fn address_given(env: EnvView) -> Seq<char> {
    if env.contains_key("SLACK_DEPUTY_URL"@) && env["SLACK_DEPUTY_URL"@] is Some {
        env["SLACK_DEPUTY_URL"@]->0
    } else {
        "http://127.0.0.1:8799"@
    }
}

/// The address of the daemon is the one in the environment, or the loopback one, without the
/// slashes at its end.
pub proof fn the_daemon_has_one_address(env: EnvView)
    ensures
        daemon_base(env).len() <= address_given(env).len(),
        forall|k: int|
            0 <= k < daemon_base(env).len() ==> #[trigger] daemon_base(env)[k]
                == address_given(env)[k],
        forall|k: int|
            daemon_base(env).len() <= k < address_given(env).len() ==> #[trigger] address_given(
                env,
            )[k] == '/',
        daemon_base(env).len() > 0 ==> daemon_base(env).last() != '/',
{
    trim_end_takes_run(address_given(env), '/');
}

/// Whether a row is what five values say: its key, kind, channel, status and body, where the
/// channel may be missing or `null`.
pub open spec fn says_row(
    pk: JsonView,
    kind: JsonView,
    channel: Option<JsonView>,
    status: JsonView,
    body: JsonView,
    r: RowView,
) -> bool {
    &&& pk == JsonView::Int(r.pk)
    &&& i64::MIN <= r.pk <= i64::MAX
    &&& kind == JsonView::Text(r.kind)
    &&& match r.channel {
        Some(c) => channel == Some(JsonView::Text(c)),
        None => channel is None || channel == Some(JsonView::Null),
    }
    &&& status == JsonView::Text(r.status)
    &&& body == JsonView::Text(r.body)
}

/// A row is read from an object that says all of it, and from an array of the five values; from
/// nothing else.
pub proof fn rows_are_read_if_they_say_all(v: JsonView, r: RowView)
    ensures
        row_in(v) == Some(r) <==> match v {
            JsonView::Object(m) => {
                &&& m.contains_key("pk"@)
                &&& m.contains_key("kind"@)
                &&& m.contains_key("status"@)
                &&& m.contains_key("body"@)
                &&& says_row(
                    m["pk"@],
                    m["kind"@],
                    if m.contains_key("channel"@) {
                        Some(m["channel"@])
                    } else {
                        None
                    },
                    m["status"@],
                    m["body"@],
                    r,
                )
            },
            JsonView::Array(items) => items.len() == 5 && says_row(
                items[0],
                items[1],
                Some(items[2]),
                items[3],
                items[4],
                r,
            ),
            _ => false,
        },
{
}

/// The rows of a reply are those of its list that can be read, in order; the others are passed
/// over. Without a list there are none, and without a cursor that is an integer there is none.
pub proof fn replies_are_read_row_by_row(
    values: Seq<JsonView>,
    next: JsonView,
    fields: Map<Seq<char>, JsonView>,
)
    ensures
        rows_in(Seq::empty()) == Seq::<RowView>::empty(),
        rows_in(values.push(next)) == (match row_in(next) {
            Some(r) => rows_in(values).push(r),
            None => rows_in(values),
        }),
        ({
            let reply = JsonView::Object(fields);
            &&& has_field(reply, "rows"@, JsonView::Array(values)) ==> reply_rows(reply) == rows_in(
                values,
            )
            &&& !(fields.contains_key("rows"@) && fields["rows"@] is Array) ==> reply_rows(reply)
                == Seq::<RowView>::empty()
            &&& fields.contains_key("cursor"@) ==> (fields["cursor"@] matches JsonView::Int(n)
                ==> (i64::MIN <= n <= i64::MAX ==> reply_cursor(reply) == Some(n)))
            &&& !(fields.contains_key("cursor"@) && fields["cursor"@] is Int) ==> reply_cursor(
                reply,
            ) is None
        }),
{
    assert(values.push(next).drop_last() =~= values);
}

/// A text of an event, empty where it has none.
pub open spec fn text_or_empty(event: JsonView, key: Seq<char>) -> Seq<char> {
    match text_field(event, key) {
        Some(t) => t,
        None => Seq::empty(),
    }
}

proof fn lemma_kinds_differ()
    ensures
        "message"@ != "reaction"@,
        "message"@ != "confirmation"@,
        "reaction"@ != "confirmation"@,
{
    reveal_strlit("message");
    reveal_strlit("reaction");
    reveal_strlit("confirmation");
    assert("message"@.len() == 7);
    assert("reaction"@.len() == 8);
    assert("confirmation"@.len() == 12);
}

/// The line of a row shows its key, its kind, its status and its channel in columns, and then
/// what the event is about: who wrote what (80 characters of it), who reacted how, or what was
/// decided.
pub proof fn a_line_shows_the_row(r: RowView, event: JsonView)
    ensures
        r.kind == "message"@ ==> event_summary(r.kind, event) == "<"@ + text_or_empty(
            event,
            "user"@,
        ) + "> "@ + first_of(text_or_empty(event, "text"@), 80),
        r.kind == "reaction"@ ==> event_summary(r.kind, event) == "<"@ + text_or_empty(
            event,
            "user"@,
        ) + "> :"@ + text_or_empty(event, "reaction"@) + ":"@,
        r.kind == "confirmation"@ ==> event_summary(r.kind, event) == "decision="@ + text_or_empty(
            event,
            "decision"@,
        ),
        r.kind != "message"@ && r.kind != "reaction"@ && r.kind != "confirmation"@
            ==> event_summary(r.kind, event) == Seq::<char>::empty(),
        ({
            let channel = match r.channel {
                Some(c) => c,
                None => "-"@,
            };
            row_line(r, event) == on_one_line("["@) + on_one_line(decimal(r.pk)) + on_one_line(
                "] "@,
            ) + on_one_line(padded(r.kind, 12)) + on_one_line(" "@) + on_one_line(
                padded(r.status, 14),
            ) + on_one_line(" "@) + on_one_line(padded(channel, 12)) + on_one_line(" "@)
                + on_one_line(event_summary(r.kind, event))
        }),
{
    lemma_kinds_differ();
    let channel = match r.channel {
        Some(c) => c,
        None => "-"@,
    };
    assert(row_line(r, event) =~= on_one_line("["@) + on_one_line(decimal(r.pk)) + on_one_line(
        "] "@,
    ) + on_one_line(padded(r.kind, 12)) + on_one_line(" "@) + on_one_line(padded(r.status, 14))
        + on_one_line(" "@) + on_one_line(padded(channel, 12)) + on_one_line(" "@) + on_one_line(
        event_summary(r.kind, event),
    ));
}

/// What is said of an action is said of its own path, body and timeout.
pub proof fn actions_are_what_they_hold(a: Action)
    ensures
        a matches Action::Print { path, body, timeout } ==> a@ == (ActionView::Print {
            path: path@,
            body: body@,
            timeout,
        }),
        a matches Action::Follow { from } ==> a@ == (ActionView::Follow { from }),
{
}

/// A reply is a success if and only if its code is one of the two hundreds.
pub proof fn success_is_two_hundred_something(code: u16)
    ensures
        is_success(code) <==> code / 100 == 2,
{
}

/// Every command can be run, but for a `wait` of so many seconds that 30 more cannot be counted.
pub proof fn every_command_but_an_endless_wait_is_run(cmd: Command)
    ensures
        timeout_fits(cmd) || (cmd matches Command::Wait { timeout: Some(t) } && t > u64::MAX - 30),
        !(cmd is Wait) ==> timeout_fits(cmd),
{
}

/// A value that was read is handed on, and an error gets its prefix in front.
pub proof fn errors_get_their_prefix(
    v: JsonView,
    e: Seq<char>,
    prefix: Seq<char>,
    j: Json,
    s: String,
)
    ensures
        prefixed(Ok(v), prefix) == Ok::<JsonView, Seq<char>>(v),
        prefixed(Err(e), prefix) == Err::<JsonView, Seq<char>>(prefix + e),
        result_view(Ok(j)) == Ok::<JsonView, Seq<char>>(j@),
        result_view(Err(s)) == Err::<JsonView, Seq<char>>(s@),
{
}

} // verus!
