//! The daemon's HTTP API: the single window that the CLI drives, for queue verbs (next,
//! wait, body, done, await, skip, tail) and for Slack verbs (post, react, ask and so on,
//! under the user token). The daemon owns the store and all access to Slack, so a
//! consumer on another host needs only its address.
//!
//! Each handler works on the state and gives the reply. A Slack verb comes here once
//! Slack has answered.

use crate::confirm::{dm_history, dm_json};
use crate::db::{rows_view, DbView, Row, RowView};
use crate::json::{items_view, text_or_null, Json, JsonView};
use crate::slack::HistoryMessage;
use crate::state::{key_of, reaction_key, Shared, SharedView};
use crate::text::{decimal, number_text, opt_text};
use vstd::prelude::*;
use vstd::string::*;

verus! {

/// A reply that reports a failure.
pub struct ApiError {
    /// The HTTP status.
    pub status: u16,
    pub message: String,
}

/// The reply that says only that a verb was carried out.
pub open spec fn ok_reply() -> Map<Seq<char>, JsonView> {
    map!["ok"@ => JsonView::Bool(true)]
}

fn ok() -> (r: Json)
    ensures
        r is Object,
        r@ == JsonView::Object(ok_reply()),
{
    Json::object().with("ok", Json::Bool(true))
}

// --- queue verbs ---

/// The reply to `next`.
pub open spec fn claim_reply(pk: int, thread_ts: Option<Seq<char>>) -> JsonView {
    JsonView::Object(
        map!["pk"@ => JsonView::Int(pk), "thread_ts"@ => text_or_null(thread_ts)],
    )
}

/// Claim the oldest pending row: its key and thread, or `null`. No body.
pub fn next_handler(shared: &mut Shared) -> (r: Json)
    requires
        old(shared).wf(),
    ensures
        final(shared).wf(),
        if old(shared)@.db.has_claimable() {
            exists|i: int|
                {
                    &&& #[trigger] old(shared)@.db.is_next(i)
                    &&& r@ == claim_reply(
                        old(shared)@.db.messages[i].pk,
                        old(shared)@.db.messages[i].thread_ts,
                    )
                    &&& final(shared)@ == old(shared)@.with_db(
                        old(shared)@.db.with_status(i, "dispatched"@),
                    )
                }
        } else {
            r@ == JsonView::Null && final(shared)@ == old(shared)@
        },
{
    let ghost before = shared@;
    match shared.db.claim_next() {
        Some((pk, thread_ts)) => {
            proof {
                let i = choose|i: int|
                    {
                        &&& #[trigger] before.db.is_next(i)
                        &&& pk == before.db.messages[i].pk
                        &&& opt_text(thread_ts) == before.db.messages[i].thread_ts
                        &&& shared@.db == before.db.with_status(i, "dispatched"@)
                    };
                assert(before.db.is_next(i));
                assert(before.db.claimable(i));
                assert(shared@ == before.with_db(before.db.with_status(i, "dispatched"@)));
            }
            Json::object().with("pk", Json::Int(pk)).with("thread_ts", Json::opt(&thread_ts))
        },
        None => Json::Null,
    }
}

/// How often a blocked `wait` looks at the queue again, in seconds. The queue has no
/// notification, so this is a plain poll; it bounds the extra latency once a claimable
/// row lands.
pub const WAIT_POLL_INTERVAL: u64 = 1;

/// The reply to `wait`.
pub open spec fn ready_reply(ready: bool) -> JsonView {
    JsonView::Object(map!["ready"@ => JsonView::Bool(ready)])
}

/// Whether a `wait` of so many seconds is over after so many nanoseconds. One of 0 seconds
/// is over at once.
pub open spec fn wait_over(timeout_secs: u64, elapsed: u64) -> bool {
    timeout_secs == 0 || elapsed >= timeout_secs * 1_000_000_000
}

/// Look at the queue for a `wait` that has been blocked for `elapsed` nanoseconds:
/// `{ready:true}` if a row may be claimed, else `{ready:false}` once the wait is over,
/// else None, and the wait goes on after [`WAIT_POLL_INTERVAL`]. Claims nothing, so that a
/// wakeup that is lost never orphans a row.
pub fn wait_handler(shared: &Shared, timeout_secs: u64, elapsed: u64) -> (r: Option<Json>)
    requires
        shared.wf(),
    ensures
        match r {
            Some(j) => {
                &&& j@ == ready_reply(shared@.db.has_claimable())
                &&& shared@.db.has_claimable() || wait_over(timeout_secs, elapsed)
            },
            None => !shared@.db.has_claimable() && !wait_over(timeout_secs, elapsed),
        },
{
    if shared.db.has_claimable() {
        return Some(Json::object().with("ready", Json::Bool(true)));
    }
    if timeout_secs == 0 || elapsed as u128 >= timeout_secs as u128 * 1_000_000_000 {
        return Some(Json::object().with("ready", Json::Bool(false)));
    }
    None
}

/// The event body for a key, as it is stored.
pub fn body_handler(shared: &Shared, pk: i64) -> (r: Result<String, ApiError>)
    requires
        shared.wf(),
    ensures
        match r {
            Ok(body) => shared@.db.has(pk as int) && body@ == shared@.db.row(pk as int).body,
            Err(e) => {
                &&& !shared@.db.has(pk as int)
                &&& e.status == 404
                &&& e.message@ == "no row pk="@ + decimal(pk as int)
            },
        },
{
    match shared.db.get_body(pk) {
        Some(body) => Ok(body),
        None => Err(
            ApiError {
                status: 404,
                message: "no row pk=".to_owned().concat(number_text(pk).as_str()),
            },
        ),
    }
}

/// Mark a row `done`. A key without a row counts for nothing.
pub fn done_handler(shared: &mut Shared, pk: i64) -> (r: String)
    requires
        old(shared).wf(),
    ensures
        final(shared).wf(),
        r@ == "ok"@,
        final(shared)@ == old(shared)@.with_db(
            old(shared)@.db.with_row_status(pk as int, "done"@),
        ),
{
    shared.db.set_status(pk, "done");
    "ok".to_owned()
}

/// Mark a row `awaiting_human`. A key without a row counts for nothing.
pub fn await_handler(shared: &mut Shared, pk: i64) -> (r: String)
    requires
        old(shared).wf(),
    ensures
        final(shared).wf(),
        r@ == "ok"@,
        final(shared)@ == old(shared)@.with_db(
            old(shared)@.db.with_row_status(pk as int, "awaiting_human"@),
        ),
{
    shared.db.set_status(pk, "awaiting_human");
    "ok".to_owned()
}

/// How many rows a `skip` drops.
pub open spec fn skip_count(db: DbView, pk: Option<i64>, all: bool) -> nat {
    if all {
        db.pending_count()
    } else if pk matches Some(k) && db.has(k as int) && db.row(k as int).is_pending() {
        1
    } else {
        0
    }
}

/// The tables after a `skip`.
pub open spec fn skipped(db: DbView, pk: Option<i64>, all: bool) -> DbView {
    if all {
        db.pending_skipped()
    } else {
        match pk {
            Some(k) => if db.has(k as int) && db.row(k as int).is_pending() {
                db.with_row_status(k as int, "skipped"@)
            } else {
                db
            },
            None => db,
        }
    }
}

/// Skip pending rows without processing them: `all` drops the whole backlog, `pk` skips
/// one. Rows that are not pending are never touched.
pub fn skip_handler(shared: &mut Shared, pk: Option<i64>, all: bool) -> (r: Result<Json, ApiError>)
    requires
        old(shared).wf(),
    ensures
        final(shared).wf(),
        final(shared)@ == old(shared)@.with_db(skipped(old(shared)@.db, pk, all)),
        match r {
            Ok(j) => {
                &&& all || pk is Some
                &&& j@ == JsonView::Object(
                    ok_reply().insert(
                        "skipped"@,
                        JsonView::Int(skip_count(old(shared)@.db, pk, all) as int),
                    ),
                )
            },
            Err(e) => {
                &&& !all && pk is None
                &&& e.status == 400
                &&& e.message@ == "skip needs pk or --all"@
            },
        },
{
    let count: usize = if all {
        shared.db.skip_pending()
    } else if let Some(k) = pk {
        shared.db.skip(k)
    } else {
        return Err(ApiError { status: 400, message: "skip needs pk or --all".to_owned() });
    };
    Ok(ok().with("skipped", Json::Uint(count as u64)))
}

/// A row summary as JSON.
pub open spec fn row_object(r: RowView) -> JsonView {
    JsonView::Object(
        map![
            "pk"@ => JsonView::Int(r.pk),
            "kind"@ => JsonView::Text(r.kind),
            "channel"@ => text_or_null(r.channel),
            "status"@ => JsonView::Text(r.status),
            "body"@ => JsonView::Text(r.body),
        ],
    )
}

/// A row summary as JSON.
pub fn row_json(r: &Row) -> (j: Json)
    ensures
        j@ == row_object(r@),
{
    Json::object().with("pk", Json::Int(r.pk)).with("kind", Json::text(r.kind.as_str())).with(
        "channel",
        Json::opt(&r.channel),
    ).with("status", Json::text(r.status.as_str())).with("body", Json::text(r.body.as_str()))
}

/// The key after which a `tail` without one starts: ten before the highest.
pub open spec fn tail_start(db: DbView, from: Option<i64>) -> int {
    match from {
        Some(f) => f as int,
        None => if db.max_pk() > 10 {
            db.max_pk() - 10
        } else {
            0
        },
    }
}

/// The key after which a `tail` goes on: that of the last row that was sent.
pub open spec fn tail_cursor(db: DbView, start: int) -> int {
    let rows = db.rows_after(start);
    if rows.len() > 0 {
        rows.last().pk
    } else {
        start
    }
}

/// The reply to a `tail` that starts after a key.
pub open spec fn tail_reply(db: DbView, start: int) -> JsonView {
    JsonView::Object(
        map![
            "rows"@ => JsonView::Array(
                db.rows_after(start).map_values(|x: RowView| row_object(x)),
            ),
            "cursor"@ => JsonView::Int(tail_cursor(db, start)),
        ],
    )
}

/// The rows after `from` (by default about the last ten) with the new cursor, which `tail`
/// polls.
pub fn tail_handler(shared: &Shared, from: Option<i64>) -> (r: Json)
    requires
        shared.wf(),
    ensures
        r@ == tail_reply(shared@.db, tail_start(shared@.db, from)),
{
    let start: i64 = match from {
        Some(f) => f,
        None => {
            let top = shared.db.max_pk();
            if top > 10 {
                top - 10
            } else {
                0
            }
        },
    };
    let rows = shared.db.rows_after(start);
    let ghost shown = shared@.db.rows_after(start as int);
    assert(rows_view(rows@).len() == rows@.len());
    let cursor = if rows.len() > 0 {
        assert(shown.last() == rows@[rows@.len() - 1]@);
        rows[rows.len() - 1].pk
    } else {
        start
    };
    let mut out: Vec<Json> = Vec::new();
    let mut i: usize = 0;
    while i < rows.len()
        invariant
            i <= rows@.len(),
            out@.len() == i,
            forall|k: int| 0 <= k < i ==> (#[trigger] out@[k])@ == row_object(rows@[k]@),
        decreases rows@.len() - i,
    {
        out.push(row_json(&rows[i]));
        i += 1;
    }
    assert(items_view(out@) =~= shown.map_values(|x: RowView| row_object(x))) by {
        assert(shown == rows_view(rows@));
    }
    Json::object().with("rows", Json::Array(out)).with("cursor", Json::Int(cursor))
}

// --- slack verbs ---

/// The state after Slack took a post of ours and answered with the bot id that it stamps
/// on such posts.
pub open spec fn post_noted(s: SharedView, bot_id: Option<Seq<char>>) -> SharedView {
    match bot_id {
        Some(b) => s.learned(b),
        None => s,
    }
}

/// Note a post that Slack took under the user token, and give its timestamp. Learns the
/// bot id that Slack stamps on such posts, for echo suppression; the `post` verb and the
/// `投稿` button both come here.
pub fn post_message(shared: &mut Shared, ts: String, bot_id: &Option<String>) -> (r: String)
    requires
        old(shared).wf(),
    ensures
        final(shared).wf(),
        r@ == ts@,
        final(shared)@ == post_noted(old(shared)@, opt_text(*bot_id)),
{
    if let Some(b) = bot_id {
        shared.learn_self_bot(b.as_str());
    }
    ts
}

/// The reply to `post`.
pub fn post_handler(ts: &str) -> (r: Json)
    ensures
        r@ == JsonView::Object(ok_reply().insert("ts"@, JsonView::Text(ts@))),
{
    ok().with("ts", Json::text(ts))
}

/// The reply to `react`, once Slack took the reaction. Puts it on record, so that its echo
/// is dropped: a reaction event has no bot id.
pub fn react_handler(shared: &mut Shared, channel: &str, ts: &str, name: &str, instant: u64) -> (r:
    Json)
    requires
        old(shared).wf(),
    ensures
        final(shared).wf(),
        r@ == JsonView::Object(ok_reply()),
        final(shared)@ == old(shared)@.reaction_recorded(key_of(channel@, ts@, name@), instant),
{
    shared.record_reaction(reaction_key(channel, ts, name), instant);
    ok()
}

/// The reply to `unreact`, once Slack dropped the reaction. Puts that on record too.
pub fn unreact_handler(shared: &mut Shared, channel: &str, ts: &str, name: &str, instant: u64) -> (r:
    Json)
    requires
        old(shared).wf(),
    ensures
        final(shared).wf(),
        r@ == JsonView::Object(ok_reply()),
        final(shared)@ == old(shared)@.reaction_recorded(key_of(channel@, ts@, name@), instant),
{
    shared.record_reaction(reaction_key(channel, ts, name), instant);
    ok()
}

/// The reply to `delete`, once Slack deleted the message.
pub fn delete_handler() -> (r: Json)
    ensures
        r@ == JsonView::Object(ok_reply()),
{
    ok()
}

/// A message of a thread as JSON.
pub open spec fn thread_json(m: HistoryMessage) -> JsonView {
    JsonView::Object(
        map![
            "ts"@ => JsonView::Text(m.ts@),
            "user"@ => text_or_null(opt_text(m.user)),
            "bot_id"@ => text_or_null(opt_text(m.bot_id)),
            "text"@ => text_or_null(m.content@.text),
        ],
    )
}

/// The reply to `thread`: the messages that Slack gave.
pub fn thread_handler(messages: &Vec<HistoryMessage>) -> (r: Json)
    ensures
        r@ == JsonView::Object(
            ok_reply().insert(
                "messages"@,
                JsonView::Array(messages@.map_values(|m: HistoryMessage| thread_json(m))),
            ),
        ),
{
    let mut out: Vec<Json> = Vec::new();
    let mut i: usize = 0;
    while i < messages.len()
        invariant
            i <= messages@.len(),
            out@.len() == i,
            forall|k: int| 0 <= k < i ==> (#[trigger] out@[k])@ == thread_json(messages@[k]),
        decreases messages@.len() - i,
    {
        let m = &messages[i];
        out.push(
            Json::object().with("ts", Json::text(m.ts.as_str())).with(
                "user",
                Json::opt(&m.user),
            ).with("bot_id", Json::opt(&m.bot_id)).with("text", Json::opt(&m.content.text)),
        );
        i += 1;
    }
    assert(items_view(out@) =~= messages@.map_values(|m: HistoryMessage| thread_json(m)));
    ok().with("messages", Json::Array(out))
}

/// The reply to `ask`: where the ask stands.
pub fn ask_handler(channel: &str, ts: &str) -> (r: Json)
    ensures
        r@ == JsonView::Object(
            ok_reply().insert("channel"@, JsonView::Text(channel@)).insert(
                "ts"@,
                JsonView::Text(ts@),
            ),
        ),
{
    ok().with("channel", Json::text(channel)).with("ts", Json::text(ts))
}

/// The reply to `dm`: the messages of the control channel.
pub fn dm_handler(messages: &Vec<HistoryMessage>) -> (r: Json)
    ensures
        r@ == JsonView::Object(
            ok_reply().insert(
                "messages"@,
                JsonView::Array(messages@.map_values(|m: HistoryMessage| dm_json(m))),
            ),
        ),
{
    ok().with("messages", Json::Array(dm_history(messages)))
}

} // verus!
