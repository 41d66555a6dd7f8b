//! The replies of the daemon's verbs, field by field.

use crate::db::{DbView, RowView};
use crate::json::JsonView;
use crate::laws::capture::{has_field, has_text};
use crate::outbound::{
    claim_reply, ok_reply, post_noted, ready_reply, row_object, tail_cursor, tail_reply,
    thread_json, wait_over,
};
use crate::slack::HistoryMessage;
use crate::state::SharedView;
use crate::text::opt_text;
use vstd::prelude::*;

verus! {

proof fn lemma_reply_keys()
    ensures
        "pk"@ != "thread_ts"@,
        "pk"@ != "kind"@,
        "pk"@ != "channel"@,
        "pk"@ != "status"@,
        "pk"@ != "body"@,
        "pk"@ != "rows"@,
        "pk"@ != "cursor"@,
        "pk"@ != "ts"@,
        "pk"@ != "user"@,
        "pk"@ != "bot_id"@,
        "pk"@ != "text"@,
        "thread_ts"@ != "kind"@,
        "thread_ts"@ != "channel"@,
        "thread_ts"@ != "status"@,
        "thread_ts"@ != "body"@,
        "thread_ts"@ != "rows"@,
        "thread_ts"@ != "cursor"@,
        "thread_ts"@ != "ts"@,
        "thread_ts"@ != "user"@,
        "thread_ts"@ != "bot_id"@,
        "thread_ts"@ != "text"@,
        "kind"@ != "channel"@,
        "kind"@ != "status"@,
        "kind"@ != "body"@,
        "kind"@ != "rows"@,
        "kind"@ != "cursor"@,
        "kind"@ != "ts"@,
        "kind"@ != "user"@,
        "kind"@ != "bot_id"@,
        "kind"@ != "text"@,
        "channel"@ != "status"@,
        "channel"@ != "body"@,
        "channel"@ != "rows"@,
        "channel"@ != "cursor"@,
        "channel"@ != "ts"@,
        "channel"@ != "user"@,
        "channel"@ != "bot_id"@,
        "channel"@ != "text"@,
        "status"@ != "body"@,
        "status"@ != "rows"@,
        "status"@ != "cursor"@,
        "status"@ != "ts"@,
        "status"@ != "user"@,
        "status"@ != "bot_id"@,
        "status"@ != "text"@,
        "body"@ != "rows"@,
        "body"@ != "cursor"@,
        "body"@ != "ts"@,
        "body"@ != "user"@,
        "body"@ != "bot_id"@,
        "body"@ != "text"@,
        "rows"@ != "cursor"@,
        "rows"@ != "ts"@,
        "rows"@ != "user"@,
        "rows"@ != "bot_id"@,
        "rows"@ != "text"@,
        "cursor"@ != "ts"@,
        "cursor"@ != "user"@,
        "cursor"@ != "bot_id"@,
        "cursor"@ != "text"@,
        "ts"@ != "user"@,
        "ts"@ != "bot_id"@,
        "ts"@ != "text"@,
        "user"@ != "bot_id"@,
        "user"@ != "text"@,
        "bot_id"@ != "text"@,
{
    reveal_strlit("pk");
    reveal_strlit("thread_ts");
    reveal_strlit("kind");
    reveal_strlit("channel");
    reveal_strlit("status");
    reveal_strlit("body");
    reveal_strlit("rows");
    reveal_strlit("cursor");
    reveal_strlit("ts");
    reveal_strlit("user");
    reveal_strlit("bot_id");
    reveal_strlit("text");
    assert("pk"@.len() == 2);
    assert("thread_ts"@.len() == 9);
    assert("kind"@.len() == 4);
    assert("channel"@.len() == 7);
    assert("status"@.len() == 6);
    assert("body"@.len() == 4);
    assert("rows"@.len() == 4);
    assert("cursor"@.len() == 6);
    assert("ts"@.len() == 2);
    assert("user"@.len() == 4);
    assert("bot_id"@.len() == 6);
    assert("text"@.len() == 4);
    assert("pk"@[0] != "ts"@[0]);
    assert("kind"@[0] != "body"@[0]);
    assert("kind"@[0] != "rows"@[0]);
    assert("kind"@[0] != "user"@[0]);
    assert("kind"@[0] != "text"@[0]);
    assert("status"@[0] != "cursor"@[0]);
    assert("status"@[0] != "bot_id"@[0]);
    assert("body"@[0] != "rows"@[0]);
    assert("body"@[0] != "user"@[0]);
    assert("body"@[0] != "text"@[0]);
    assert("rows"@[0] != "user"@[0]);
    assert("rows"@[0] != "text"@[0]);
    assert("cursor"@[0] != "bot_id"@[0]);
    assert("user"@[0] != "text"@[0]);
}

/// A claim is answered with the key and the thread of the row.
pub proof fn a_claim_names_the_row(pk: int, thread_ts: Option<Seq<char>>)
    ensures
        has_field(claim_reply(pk, thread_ts), "pk"@, JsonView::Int(pk)),
        has_text(claim_reply(pk, thread_ts), "thread_ts"@, thread_ts),
{
    lemma_reply_keys();
}

/// A `wait` says whether it is ready, and is over at once where it has no time, else when its
/// seconds have passed and not before.
pub proof fn a_wait_ends_when_its_time_is_up(ready: bool, secs: u64, elapsed: u64)
    ensures
        has_field(ready_reply(ready), "ready"@, JsonView::Bool(ready)),
        wait_over(0, elapsed),
        secs > 0 ==> (wait_over(secs, elapsed) <==> elapsed >= 1_000_000_000 * secs),
{
}

/// A verb that was carried out is answered with `ok`.
pub proof fn done_is_told()
    ensures
        has_field(JsonView::Object(ok_reply()), "ok"@, JsonView::Bool(true)),
{
}

/// A row is sent with its key, kind, channel, status and body.
pub proof fn a_row_is_sent_whole(r: RowView)
    ensures
        has_field(row_object(r), "pk"@, JsonView::Int(r.pk)),
        has_text(row_object(r), "kind"@, Some(r.kind)),
        has_text(row_object(r), "channel"@, r.channel),
        has_text(row_object(r), "status"@, Some(r.status)),
        has_text(row_object(r), "body"@, Some(r.body)),
{
    lemma_reply_keys();
}

/// A `tail` is answered with the rows after its start, one by one, and the cursor.
pub proof fn a_tail_is_answered_row_by_row(db: DbView, start: int)
    ensures
        ({
            let reply = tail_reply(db, start);
            &&& has_field(reply, "cursor"@, JsonView::Int(tail_cursor(db, start)))
            &&& reply matches JsonView::Object(fields)
            &&& fields.contains_key("rows"@)
            &&& fields["rows"@] matches JsonView::Array(rows)
            &&& rows.len() == db.rows_after(start).len()
            &&& forall|i: int|
                0 <= i < rows.len() ==> #[trigger] rows[i] == row_object(db.rows_after(start)[i])
        }),
{
    lemma_reply_keys();
}

/// A message of a thread is told by its timestamp, its author and its plain text.
pub proof fn thread_messages_are_told(m: HistoryMessage)
    ensures
        has_text(thread_json(m), "ts"@, Some(m.ts@)),
        has_text(thread_json(m), "user"@, opt_text(m.user)),
        has_text(thread_json(m), "bot_id"@, opt_text(m.bot_id)),
        has_text(thread_json(m), "text"@, opt_text(m.content.text)),
{
    lemma_reply_keys();
}

/// A post teaches the bot id that came with it, if one did, and changes nothing else.
pub proof fn a_post_teaches_its_bot_id(s: SharedView, bot_id: Seq<char>)
    ensures
        post_noted(s, None) == s,
        post_noted(s, Some(bot_id)) == s.learned(bot_id),
        post_noted(s, Some(bot_id)).self_bot_ids.contains(bot_id),
{
}

} // verus!
