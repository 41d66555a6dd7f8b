//! What holds of the library as a whole, over the models that the functions' contracts
//! speak of.

pub mod asks;
pub mod capture;
pub mod client;
pub mod outcomes;
pub mod queue;
pub mod settings;
pub mod verbs;
pub mod words;

use crate::cli::{ask_body, post_routing, reply_cursor, reply_rows, row_in, rows_in};
use crate::config::{assigned, assignments, line_assignment, loaded, var_of, EnvView};
use crate::confirm::{
    action_or_null, all_read_back, answer_body, answer_stored, answer_thread, ask_blocks,
    ask_message, ask_reads_back, ask_routing, asked_buttons_carry_routing, buttons_at,
    click_outcome, click_stored, click_value, context_line, danger_dialog, draft_of, has_buttons,
    ignore_button, ignore_routing, ignore_value, is_answer, is_open, positive_buttons,
    positive_values, reads_back, resolved, routed_value, routing_of, routings, section_parts,
    section_text_of, terminal_of, terminal_value, without_buttons, TerminalView,
};
use crate::db::{changed_statuses, db_path, DbView, MessageView, RowView};
use crate::inbound::{
    capture, echo_checked, echo_key, is_echo, is_written, item_channel, item_ts, may_be_echo,
    message_status, message_stored, partition, Capture,
};
use crate::json::{json_fits, raw_marker, read_or_null, text_items, JsonView};
use crate::outbound::{post_noted, row_object, skipped, tail_cursor, tail_reply};
use crate::slack::{
    BlockActions, BlockKindView, BlockView, ButtonView, ContentView, ElementView, MessageEvent,
    ReactionEvent,
};
use crate::state::{in_time, key_of, start_ids, SharedView};
use crate::text::{opt_text, precedes, precedes_is_total, precedes_is_transitive, split_on, trimmed};
use vstd::prelude::*;

verus! {

// --- the queue ---

proof fn lemma_statuses_differ()
    ensures
        "pending"@ != "dispatched"@,
        "pending"@ != "ambient"@,
        "pending"@ != "done"@,
        "pending"@ != "skipped"@,
        "pending"@ != "awaiting_human"@,
        "dispatched"@ != "done"@,
        "dispatched"@ != "skipped"@,
        "dispatched"@ != "ambient"@,
        "skipped"@ != "ambient"@,
        "dispatched"@ != "awaiting_human"@,
{
    reveal_strlit("pending");
    reveal_strlit("dispatched");
    reveal_strlit("ambient");
    reveal_strlit("done");
    reveal_strlit("skipped");
    reveal_strlit("awaiting_human");
    assert("pending"@[0] != "ambient"@[0]);
    assert("pending"@[0] != "skipped"@[0]);
    assert("ambient"@[0] != "skipped"@[0]);
    assert("dispatched"@.len() == 10);
    assert("pending"@.len() == 7);
    assert("done"@.len() == 4);
    assert("awaiting_human"@.len() == 14);
}

/// Of three rows, what is not behind the second and is before the first is before it.
proof fn lemma_order(a: MessageView, b: MessageView, c: MessageView)
    ensures
        a.ahead_of(b) && b.ahead_of(c) ==> a.ahead_of(c),
        !a.ahead_of(a),
        a.pk != b.pk ==> a.ahead_of(b) || b.ahead_of(a),
        !(a.ahead_of(b) && b.ahead_of(a)),
{
    precedes_is_total(a.ts, a.ts);
    precedes_is_total(a.ts, b.ts);
    precedes_is_total(b.ts, a.ts);
    if precedes(a.ts, b.ts) && precedes(b.ts, c.ts) {
        precedes_is_transitive(a.ts, b.ts, c.ts);
    }
}

spec fn least_below(db: DbView, n: int, i: int) -> bool {
    &&& 0 <= i < n
    &&& db.claimable(i)
    &&& forall|j: int|
        0 <= j < n && #[trigger] db.claimable(j) ==> !db.messages[j].ahead_of(db.messages[i])
}

proof fn lemma_least(db: DbView, n: int, witness: int)
    requires
        0 <= witness < n,
        db.claimable(witness),
    ensures
        exists|i: int| least_below(db, n, i),
    decreases n,
{
    let last = n - 1;
    lemma_order(db.messages[last], db.messages[last], db.messages[last]);
    if exists|w: int| 0 <= w < last && #[trigger] db.claimable(w) {
        let w = choose|w: int| 0 <= w < last && #[trigger] db.claimable(w);
        lemma_least(db, last, w);
        let i = choose|i: int| least_below(db, last, i);
        if db.claimable(last) && db.messages[last].ahead_of(db.messages[i]) {
            assert forall|j: int| 0 <= j < n && #[trigger] db.claimable(j) implies !db.messages[j].ahead_of(
                db.messages[last],
            ) by {
                lemma_order(db.messages[j], db.messages[last], db.messages[i]);
            }
            assert(least_below(db, n, last));
        } else {
            assert(least_below(db, n, i));
        }
    } else {
        assert(witness == last);
        assert(least_below(db, n, last));
    }
}

/// Where some row may be claimed, there is one to claim: a `wait` that says `ready` never
/// decays into a `next` that finds nothing.
pub proof fn ready_has_next(db: DbView)
    requires
        db.wf(),
        db.has_claimable(),
    ensures
        exists|i: int| db.is_next(i),
{
    let w = choose|w: int| db.claimable(w);
    lemma_least(db, db.messages.len() as int, w);
    let i = choose|i: int| least_below(db, db.messages.len() as int, i);
    assert forall|j: int| #[trigger] db.claimable(j) implies !db.messages[j].ahead_of(
        db.messages[i],
    ) by {}
    assert(db.is_next(i));
}

/// There is at most one row to claim: the queue has one head.
pub proof fn next_is_unique(db: DbView, i: int, j: int)
    requires
        db.wf(),
        db.is_next(i),
        db.is_next(j),
    ensures
        i == j,
{
    lemma_order(db.messages[i], db.messages[j], db.messages[i]);
    if i < j {
        assert(db.messages[i].pk < db.messages[j].pk);
    } else if j < i {
        assert(db.messages[j].pk < db.messages[i].pk);
    }
}

/// A claimed row leaves the queue, and while it is being handled no row of its thread may
/// be claimed.
pub proof fn claim_blocks_thread(db: DbView, i: int, j: int)
    requires
        db.wf(),
        db.is_next(i),
        0 <= j < db.messages.len(),
        j == i || (db.messages[i].thread_ts is Some && db.messages[j].thread_ts
            == db.messages[i].thread_ts),
    ensures
        !db.with_status(i, "dispatched"@).claimable(j),
{
    lemma_statuses_differ();
    let after = db.with_status(i, "dispatched"@);
    if j != i {
        assert(after.messages[i].holds_thread(db.messages[i].thread_ts->0));
    }
}

/// No two rows of one thread are being handled.
pub open spec fn exclusive(db: DbView) -> bool {
    forall|i: int, j: int, t: Seq<char>|
        0 <= i < db.messages.len() && 0 <= j < db.messages.len() && #[trigger]
            db.messages[i].holds_thread(t) && #[trigger] db.messages[j].holds_thread(t) ==> i == j
}

/// Rows of one thread are handled one at a time: a claim keeps it so.
pub proof fn claim_keeps_exclusive(db: DbView, i: int)
    requires
        db.wf(),
        exclusive(db),
        db.is_next(i),
    ensures
        exclusive(db.with_status(i, "dispatched"@)),
{
    let after = db.with_status(i, "dispatched"@);
    assert forall|a: int, b: int, t: Seq<char>|
        0 <= a < after.messages.len() && 0 <= b < after.messages.len() && #[trigger]
            after.messages[a].holds_thread(t) && #[trigger] after.messages[b].holds_thread(
            t,
        ) implies a == b by {
        if a != i {
            assert(db.messages[a].holds_thread(t));
        }
        if b != i {
            assert(db.messages[b].holds_thread(t));
        }
        if a != b {
            assert(db.in_flight(t));
        }
    }
}

/// Rows of one thread are handled one at a time: a new row keeps it so, unless it comes in
/// as one that is being handled.
pub proof fn insert_keeps_exclusive(
    db: DbView,
    kind: Seq<char>,
    channel: Option<Seq<char>>,
    thread_ts: Option<Seq<char>>,
    ts: Seq<char>,
    body: Seq<char>,
    status: Seq<char>,
    created_at: Seq<char>,
)
    requires
        db.wf(),
        exclusive(db),
        status != "dispatched"@,
    ensures
        exclusive(db.inserted(kind, channel, thread_ts, ts, body, status, created_at)),
{
    let after = db.inserted(kind, channel, thread_ts, ts, body, status, created_at);
    assert forall|a: int, b: int, t: Seq<char>|
        0 <= a < after.messages.len() && 0 <= b < after.messages.len() && #[trigger]
            after.messages[a].holds_thread(t) && #[trigger] after.messages[b].holds_thread(
            t,
        ) implies a == b by {
        assert(a < db.messages.len() && b < db.messages.len());
        assert(db.messages[a].holds_thread(t) && db.messages[b].holds_thread(t));
    }
}

/// Rows of one thread are handled one at a time: another status keeps it so, unless it says
/// that the row is being handled.
pub proof fn status_keeps_exclusive(db: DbView, pk: int, status: Seq<char>)
    requires
        db.wf(),
        exclusive(db),
        status != "dispatched"@,
    ensures
        exclusive(db.with_row_status(pk, status)),
{
    let after = db.with_row_status(pk, status);
    if db.has(pk) {
        let p = db.position(pk);
        assert(db.stands_at(pk, p));
        assert forall|a: int, b: int, t: Seq<char>|
            0 <= a < after.messages.len() && 0 <= b < after.messages.len() && #[trigger]
                after.messages[a].holds_thread(t) && #[trigger] after.messages[b].holds_thread(
                t,
            ) implies a == b by {
            assert(a != p && b != p);
            assert(db.messages[a].holds_thread(t) && db.messages[b].holds_thread(t));
        }
    }
}

/// Rows of one thread are handled one at a time: skipping keeps it so.
pub proof fn skip_keeps_exclusive(db: DbView, pk: Option<i64>, all: bool)
    requires
        db.wf(),
        exclusive(db),
    ensures
        exclusive(skipped(db, pk, all)),
{
    lemma_statuses_differ();
    let after = skipped(db, pk, all);
    if all {
        assert forall|a: int, b: int, t: Seq<char>|
            0 <= a < after.messages.len() && 0 <= b < after.messages.len() && #[trigger]
                after.messages[a].holds_thread(t) && #[trigger] after.messages[b].holds_thread(
                t,
            ) implies a == b by {
            assert(db.messages[a].holds_thread(t) && db.messages[b].holds_thread(t));
        }
    } else if let Some(k) = pk {
        status_keeps_exclusive(db, k as int, "skipped"@);
    }
}

/// Rows of one thread are claimed in order: while an earlier one is pending, a later one is
/// not the next.
pub proof fn thread_is_fifo(db: DbView, i: int, j: int)
    requires
        0 <= i < db.messages.len(),
        0 <= j < db.messages.len(),
        db.messages[i].is_pending(),
        db.messages[i].thread_ts == db.messages[j].thread_ts,
        db.messages[i].ahead_of(db.messages[j]),
    ensures
        !db.is_next(j),
{
    if db.is_next(j) {
        assert(db.claimable(i));
    }
}

/// Settling the row that is being handled frees its thread.
pub proof fn settling_frees_thread(db: DbView, i: int, thread: Seq<char>, status: Seq<char>)
    requires
        db.wf(),
        exclusive(db),
        0 <= i < db.messages.len(),
        db.messages[i].holds_thread(thread),
        status != "dispatched"@,
    ensures
        !db.with_row_status(db.messages[i].pk, status).in_flight(thread),
{
    let pk = db.messages[i].pk;
    let after = db.with_row_status(pk, status);
    db.position_of_key(i);
    assert(db.stands_at(pk, i));
    assert forall|j: int| 0 <= j < after.messages.len() implies !(
    #[trigger] after.messages[j]).holds_thread(thread) by {
        if j != i && after.messages[j].holds_thread(thread) {
            assert(db.messages[j].holds_thread(thread));
        }
    }
}

/// Skipping touches pending rows only: a row that is being handled, or was handled, stays
/// as it is.
pub proof fn skip_touches_pending_only(db: DbView, pk: Option<i64>, all: bool, i: int)
    requires
        db.wf(),
        0 <= i < db.messages.len(),
        !db.messages[i].is_pending(),
    ensures
        skipped(db, pk, all).messages.len() == db.messages.len(),
        skipped(db, pk, all).messages[i] == db.messages[i],
{
    if !all {
        if let Some(k) = pk {
            if db.has(k as int) {
                assert(db.stands_at(k as int, db.position(k as int)));
            }
        }
    }
}

/// Once the backlog is skipped, nothing is left to claim.
pub proof fn skip_all_empties_queue(db: DbView, pk: Option<i64>)
    ensures
        !skipped(db, pk, true).has_claimable(),
{
    lemma_statuses_differ();
    let after = skipped(db, pk, true);
    assert forall|i: int| !after.claimable(i) by {
        if 0 <= i < after.messages.len() {
            assert(after.messages.len() == db.messages.len());
        }
    }
}

/// Only pending rows are claimed: an `ambient` row, which is context to be pulled, never is,
/// nor is one that is `done`.
pub proof fn only_pending_is_claimed(db: DbView, i: int)
    requires
        db.claimable(i),
    ensures
        db.messages[i].status == "pending"@,
        db.messages[i].status != "ambient"@,
        db.messages[i].status != "done"@,
{
    lemma_statuses_differ();
}

/// What is stored is read back under its key, and no other row changes.
pub proof fn insert_reads_back(
    db: DbView,
    kind: Seq<char>,
    channel: Option<Seq<char>>,
    thread_ts: Option<Seq<char>>,
    ts: Seq<char>,
    body: Seq<char>,
    status: Seq<char>,
    created_at: Seq<char>,
    pk: int,
)
    requires
        db.wf(),
        db.last_pk < i64::MAX,
    ensures
        ({
            let after = db.inserted(kind, channel, thread_ts, ts, body, status, created_at);
            &&& after.wf()
            &&& !db.has(db.last_pk + 1)
            &&& after.has(db.last_pk + 1)
            &&& after.row(db.last_pk + 1) == (MessageView {
                pk: db.last_pk + 1,
                kind,
                channel,
                thread_ts,
                ts,
                body,
                status,
                created_at,
            })
            &&& db.has(pk) ==> after.has(pk) && after.row(pk) == db.row(pk)
        }),
{
    let after = db.inserted(kind, channel, thread_ts, ts, body, status, created_at);
    let n = db.messages.len() as int;
    assert forall|i: int| 0 <= i < after.messages.len() implies i64::MIN <= (
    #[trigger] after.messages[i]).pk <= after.last_pk by {
        if i < n {
            assert(after.messages[i] == db.messages[i]);
        }
    }
    assert forall|i: int, j: int| 0 <= i < j < after.messages.len() implies (
    #[trigger] after.messages[i]).pk < (#[trigger] after.messages[j]).pk by {
        assert(after.messages[i] == db.messages[i]);
        if j < n {
            assert(after.messages[j] == db.messages[j]);
        }
    }
    after.position_of_key(n);
    if db.has(db.last_pk + 1) {
        assert(db.stands_at(db.last_pk + 1, db.position(db.last_pk + 1)));
    }
    if db.has(pk) {
        let p = db.position(pk);
        assert(db.stands_at(pk, p));
        assert(after.messages[p] == db.messages[p]);
        after.position_of_key(p);
    }
}

// --- following the queue ---

/// Of two lists one after the other, where nothing of the first passes, what passes is what
/// passes of the second.
proof fn lemma_filter_tail<A>(a: Seq<A>, b: Seq<A>, p: spec_fn(A) -> bool)
    requires
        forall|i: int| 0 <= i < a.len() ==> !p(#[trigger] a[i]),
    ensures
        (a + b).filter(p) == b.filter(p),
    decreases a.len() + b.len(),
{
    reveal(Seq::filter);
    if b.len() > 0 {
        lemma_filter_tail(a, b.drop_last(), p);
        assert((a + b).drop_last() =~= a + b.drop_last());
        assert((a + b).last() == b.last());
    } else if a.len() > 0 {
        lemma_filter_tail(a.drop_last(), b, p);
        assert((a + b).drop_last() =~= a.drop_last() + b);
        assert((a + b).last() == a[a.len() - 1]);
    }
}

proof fn lemma_filter_same<A>(s: Seq<A>, p: spec_fn(A) -> bool, q: spec_fn(A) -> bool)
    requires
        forall|i: int| 0 <= i < s.len() ==> p(#[trigger] s[i]) == q(s[i]),
    ensures
        s.filter(p) == s.filter(q),
    decreases s.len(),
{
    reveal(Seq::filter);
    if s.len() > 0 {
        lemma_filter_same(s.drop_last(), p, q);
        assert(s.last() == s[s.len() - 1]);
    }
}

proof fn lemma_filter_last(s: Seq<MessageView>, after: int)
    requires
        forall|i: int, j: int| 0 <= i < j < s.len() ==> (#[trigger] s[i]).pk < (#[trigger] s[j]).pk,
    ensures
        ({
            let kept = s.filter(|m: MessageView| m.pk > after);
            if s.len() > 0 && s.last().pk > after {
                kept.len() > 0 && kept.last() == s.last()
            } else {
                kept.len() == 0
            }
        }),
    decreases s.len(),
{
    reveal(Seq::filter);
    if s.len() > 0 {
        let rest = s.drop_last();
        assert forall|i: int, j: int| 0 <= i < j < rest.len() implies (#[trigger] rest[i]).pk < (
        #[trigger] rest[j]).pk by {
            assert(s[i] == rest[i] && s[j] == rest[j]);
        }
        lemma_filter_last(rest, after);
        if rest.len() > 0 {
            assert(s[rest.len() - 1].pk < s[s.len() - 1].pk);
        }
    }
}

/// The cursor of a `tail` is the start or the highest key, whichever is more.
proof fn lemma_cursor(db: DbView, start: int)
    requires
        db.wf(),
    ensures
        tail_cursor(db, start) == (if db.max_pk() > start && db.messages.len() > 0 {
            db.max_pk()
        } else {
            start
        }),
{
    lemma_filter_last(db.messages, start);
}

/// Whether one store is a later state of another: no row is gone and no key changed, and
/// what came in since has keys that were not given before.
pub open spec fn later_than(after: DbView, before: DbView) -> bool {
    &&& before.messages.len() <= after.messages.len()
    &&& forall|i: int|
        0 <= i < before.messages.len() ==> (#[trigger] after.messages[i]).pk
            == before.messages[i].pk
    &&& forall|i: int|
        before.messages.len() <= i < after.messages.len() ==> (#[trigger] after.messages[i]).pk
            > before.last_pk
}

/// A `tail` that goes on from its cursor misses no row and repeats none: the next reply
/// holds just the rows that came in since the last one, of those that the tail follows.
pub proof fn tail_misses_nothing(before: DbView, after: DbView, start: int)
    requires
        before.wf(),
        after.wf(),
        later_than(after, before),
    ensures
        after.rows_after(tail_cursor(before, start)) == after.messages.skip(
            before.messages.len() as int,
        ).filter(|m: MessageView| m.pk > start).map_values(|m: MessageView| m.summary()),
{
    let n = before.messages.len() as int;
    let cursor = tail_cursor(before, start);
    lemma_cursor(before, start);
    let p = |m: MessageView| m.pk > cursor;
    let q = |m: MessageView| m.pk > start;
    let old_rows = after.messages.take(n);
    let new_rows = after.messages.skip(n);
    assert(after.messages =~= old_rows + new_rows);
    assert forall|i: int| 0 <= i < old_rows.len() implies !p(#[trigger] old_rows[i]) by {
        assert(after.messages[i].pk == before.messages[i].pk);
        if i < n - 1 {
            assert(before.messages[i].pk < before.messages[n - 1].pk);
        }
    }
    lemma_filter_tail(old_rows, new_rows, p);
    assert forall|i: int| 0 <= i < new_rows.len() implies p(#[trigger] new_rows[i]) == q(
        new_rows[i],
    ) by {
        assert(new_rows[i] == after.messages[n + i]);
        assert(after.messages[n + i].pk > before.last_pk);
        if n > 0 {
            assert(before.messages[n - 1].pk <= before.last_pk);
        }
    }
    lemma_filter_same(new_rows, p, q);
}

/// Every verb leaves a later state of the store.
pub proof fn store_only_grows(
    db: DbView,
    kind: Seq<char>,
    channel: Option<Seq<char>>,
    thread_ts: Option<Seq<char>>,
    ts: Seq<char>,
    body: Seq<char>,
    status: Seq<char>,
    created_at: Seq<char>,
    i: int,
    key: int,
    pk: Option<i64>,
    all: bool,
)
    requires
        db.wf(),
    ensures
        later_than(db.inserted(kind, channel, thread_ts, ts, body, status, created_at), db),
        db.is_next(i) ==> later_than(db.with_status(i, status), db),
        later_than(db.with_row_status(key, status), db),
        later_than(skipped(db, pk, all), db),
{
    if db.has(key) {
        assert(db.stands_at(key, db.position(key)));
    }
    if let Some(k) = pk {
        if db.has(k as int) {
            assert(db.stands_at(k as int, db.position(k as int)));
        }
    }
}

// --- the database file ---

/// Whether one store comes from another by verbs: rows change in their statuses alone, new
/// ones come behind them, and of `meta` the bot id alone changes.
pub open spec fn comes_from(after: DbView, before: DbView) -> bool {
    &&& before.messages.len() <= after.messages.len()
    &&& forall|i: int|
        0 <= i < before.messages.len() ==> #[trigger] after.messages[i]
            == before.messages[i].with_status(after.messages[i].status)
    &&& after.last_pk == (if after.messages.len() > before.messages.len() {
        after.messages.last().pk
    } else {
        before.last_pk
    })
    &&& after.meta == before.meta || after.meta == before.meta.insert(
        "self_post_bot_id"@,
        after.meta["self_post_bot_id"@],
    )
}

/// Every verb, and learning a bot id, leaves a store that comes from the one before.
pub proof fn verbs_leave_what_comes_from(
    s: SharedView,
    kind: Seq<char>,
    channel: Option<Seq<char>>,
    thread_ts: Option<Seq<char>>,
    ts: Seq<char>,
    body: Seq<char>,
    status: Seq<char>,
    created_at: Seq<char>,
    i: int,
    key: int,
    pk: Option<i64>,
    all: bool,
    bot_id: Option<Seq<char>>,
)
    ensures
        comes_from(s.db, s.db),
        comes_from(s.db.inserted(kind, channel, thread_ts, ts, body, status, created_at), s.db),
        s.db.is_next(i) ==> comes_from(s.db.with_status(i, status), s.db),
        comes_from(s.db.with_row_status(key, status), s.db),
        comes_from(skipped(s.db, pk, all), s.db),
        comes_from(post_noted(s, bot_id).db, s.db),
{
    if s.db.has(key) {
        assert(s.db.stands_at(key, s.db.position(key)));
    }
    if let Some(k) = pk {
        if s.db.has(k as int) {
            assert(s.db.stands_at(k as int, s.db.position(k as int)));
        }
    }
}

proof fn lemma_statuses_written(before: DbView, after: DbView, k: int)
    requires
        before.wf(),
        comes_from(after, before),
        0 <= k <= before.messages.len(),
    ensures
        before.with_statuses(
            changed_statuses(after.messages, before.saved().statuses.take(k)),
        ) == (DbView {
            messages: after.messages.take(k) + before.messages.skip(k),
            ..before
        }),
    decreases k,
{
    let saved = before.saved().statuses;
    let list = changed_statuses(after.messages, saved.take(k));
    let want = after.messages.take(k) + before.messages.skip(k);
    if k == 0 {
        assert(want =~= before.messages);
    } else {
        let i = k - 1;
        lemma_statuses_written(before, after, i);
        assert(saved.take(k).drop_last() =~= saved.take(i));
        let rest = changed_statuses(after.messages, saved.take(i));
        let mid = before.with_statuses(rest);
        assert forall|j: int| 0 <= j < mid.messages.len() implies (#[trigger] mid.messages[j]).pk
            == before.messages[j].pk by {
            if j < i {
                assert(mid.messages[j] == after.messages[j]);
            } else {
                assert(mid.messages[j] == before.messages[j]);
            }
        }
        assert(mid.messages.len() == before.messages.len());
        assert(mid.messages[i] == before.messages[i]);
        assert(after.messages[i] == before.messages[i].with_status(after.messages[i].status));
        if after.messages[i].status != saved[i] {
            assert(list.drop_last() =~= rest);
            assert(mid.wf());
            mid.position_of_key(i);
            assert(mid.messages.update(i, after.messages[i]) =~= want);
        } else {
            assert(mid.messages =~= want);
        }
    }
}

/// What is written back after a verb makes the file hold what is in memory.
pub proof fn file_keeps_up(before: DbView, after: DbView)
    requires
        before.wf(),
        comes_from(after, before),
    ensures
        before.written(after.changes(before.saved())) == after,
{
    let n = before.messages.len() as int;
    let saved = before.saved();
    let got = before.written(after.changes(saved));
    lemma_statuses_written(before, after, n);
    assert(saved.statuses.take(n) =~= saved.statuses);
    assert(got.messages =~= after.messages);
    assert(got.meta =~= after.meta);
}

// --- the way to the client ---

/// A row summary survives the way to the client.
pub proof fn row_round_trip(r: RowView)
    requires
        i64::MIN <= r.pk <= i64::MAX,
    ensures
        row_in(row_object(r)) == Some(r),
{
    reveal_strlit("pk");
    reveal_strlit("kind");
    reveal_strlit("channel");
    reveal_strlit("status");
    reveal_strlit("body");
    assert("pk"@.len() == 2);
    assert("kind"@.len() == 4);
    assert("channel"@.len() == 7);
    assert("status"@.len() == 6);
    assert("body"@.len() == 4);
    assert("kind"@[0] != "body"@[0]);
}

proof fn lemma_rows_round_trip(rows: Seq<RowView>)
    requires
        forall|i: int| 0 <= i < rows.len() ==> i64::MIN <= (#[trigger] rows[i]).pk <= i64::MAX,
    ensures
        rows_in(rows.map_values(|x: RowView| row_object(x))) == rows,
    decreases rows.len(),
{
    let sent = rows.map_values(|x: RowView| row_object(x));
    if rows.len() > 0 {
        let rest = rows.drop_last();
        lemma_rows_round_trip(rest);
        assert(sent.drop_last() =~= rest.map_values(|x: RowView| row_object(x)));
        assert(i64::MIN <= rows[rows.len() - 1].pk <= i64::MAX);
        row_round_trip(rows.last());
        assert(rest.push(rows.last()) =~= rows);
    } else {
        assert(rows =~= Seq::empty());
    }
}

/// What a filter keeps was there.
proof fn lemma_filter_from(s: Seq<MessageView>, after: int, k: int)
    requires
        0 <= k < s.filter(|m: MessageView| m.pk > after).len(),
    ensures
        exists|i: int|
            0 <= i < s.len() && #[trigger] s[i] == s.filter(|m: MessageView| m.pk > after)[k],
    decreases s.len(),
{
    reveal(Seq::filter);
    if s.len() > 0 {
        let rest = s.drop_last();
        let kept = rest.filter(|m: MessageView| m.pk > after);
        if k < kept.len() {
            lemma_filter_from(rest, after, k);
            let i = choose|i: int| 0 <= i < rest.len() && #[trigger] rest[i] == kept[k];
            assert(s[i] == rest[i]);
        } else {
            assert(s[s.len() - 1] == s.last());
        }
    }
}

/// The client of a `tail` sees the rows that the daemon sends, and goes on from the cursor
/// that the daemon gives.
pub proof fn tail_round_trip(db: DbView, start: int)
    requires
        db.wf(),
        i64::MIN <= start <= i64::MAX,
    ensures
        reply_rows(tail_reply(db, start)) == db.rows_after(start),
        reply_cursor(tail_reply(db, start)) == Some(tail_cursor(db, start)),
{
    reveal_strlit("rows");
    reveal_strlit("cursor");
    assert("rows"@.len() != "cursor"@.len());
    let rows = db.rows_after(start);
    assert forall|k: int| 0 <= k < rows.len() implies i64::MIN <= (#[trigger] rows[k]).pk
        <= i64::MAX by {
        lemma_filter_from(db.messages, start, k);
        let kept = db.messages.filter(|m: MessageView| m.pk > start);
        let i = choose|i: int| 0 <= i < db.messages.len() && #[trigger] db.messages[i] == kept[k];
        assert(i64::MIN <= db.messages[i].pk <= db.last_pk);
    }
    lemma_rows_round_trip(rows);
    lemma_cursor(db, start);
    if db.messages.len() > 0 {
        assert(db.messages[db.messages.len() - 1].pk <= db.last_pk);
    }
}

// --- echoes ---

/// The echo of an own post is dropped: once Slack has told the bot id that it stamps on our
/// posts, no message with that id is stored.
pub proof fn own_post_is_dropped(s: SharedView, bot_id: Seq<char>, m: MessageEvent)
    requires
        opt_text(m.bot_id) == Some(bot_id),
    ensures
        message_status(post_noted(s, Some(bot_id)), m) is None,
{
}

/// Bot ids that are known as our own stay known, and no post of another makes one known.
pub proof fn own_ids_are_kept(s: SharedView, bot_id: Option<Seq<char>>, other: Seq<char>)
    ensures
        post_noted(s, bot_id).is_self_bot(Some(other)) == (s.is_self_bot(Some(other)) || bot_id
            == Some(other)),
{
}

/// A manual post of the human carries no bot id, so it is never taken for an echo: with text
/// and a channel it is stored.
pub proof fn manual_post_is_stored(s: SharedView, m: MessageEvent)
    requires
        is_written(m),
        m.bot_id is None,
        s.is_me(opt_text(m.user)),
        m.channel is Some,
        m.text is Some,
        trimmed(m.text->0@).len() > 0,
    ensures
        message_status(s, m) is Some,
{
}

/// A bot id that is learned is on record: after a restart it is known again.
pub proof fn learned_id_survives_restart(s: SharedView, bot_id: Seq<char>, own: Option<Seq<char>>)
    requires
        !s.self_bot_ids.contains(bot_id),
    ensures
        start_ids(s.learned(bot_id).db, own).contains(bot_id),
{
}

/// The echo of an own reaction is dropped while it is in time, and only once: a second
/// reaction with the same key is not.
pub proof fn own_reaction_is_dropped_once(
    s: SharedView,
    r: ReactionEvent,
    at: u64,
    now: u64,
    later: u64,
)
    requires
        may_be_echo(s, r),
        item_channel(r) is Some,
        in_time(at, now),
    ensures
        ({
            let noted = s.reaction_recorded(
                key_of(item_channel(r)->0, item_ts(r)->0, r.reaction@),
                at,
            );
            &&& is_echo(noted, r, now)
            &&& !is_echo(echo_checked(noted, r, now), r, later)
        }),
{
}

/// A key that is too old drops nothing.
pub proof fn old_reaction_is_not_dropped(s: SharedView, r: ReactionEvent, at: u64, now: u64)
    requires
        !in_time(at, now),
    ensures
        !is_echo(s.reaction_recorded(echo_key(r), at), r, now),
{
}

/// The reactions of others are never taken for echoes, and leave the ledger as it is.
pub proof fn others_reactions_are_no_echoes(s: SharedView, r: ReactionEvent, now: u64)
    requires
        !s.is_me(Some(r.user@)),
    ensures
        !is_echo(s, r, now),
        echo_checked(s, r, now) == s,
{
}

// --- threads ---

/// A row that is only watched makes no thread a directed one: watching a channel does not
/// dispatch the replies in its threads.
pub proof fn watching_does_not_dispatch(
    db: DbView,
    kind: Seq<char>,
    channel: Option<Seq<char>>,
    thread_ts: Option<Seq<char>>,
    ts: Seq<char>,
    body: Seq<char>,
    created_at: Seq<char>,
    thread: Seq<char>,
)
    ensures
        db.inserted(
            kind,
            channel,
            thread_ts,
            ts,
            body,
            "ambient"@,
            created_at,
        ).thread_has_directed(thread) == db.thread_has_directed(thread),
{
    let after = db.inserted(kind, channel, thread_ts, ts, body, "ambient"@, created_at);
    if db.thread_has_directed(thread) {
        let i = choose|i: int|
            0 <= i < db.messages.len() && (#[trigger] db.messages[i]).in_thread(thread)
                && db.messages[i].status != "ambient"@;
        assert(after.messages[i] == db.messages[i]);
    }
    if after.thread_has_directed(thread) {
        let i = choose|i: int|
            0 <= i < after.messages.len() && (#[trigger] after.messages[i]).in_thread(thread)
                && after.messages[i].status != "ambient"@;
        assert(after.messages[i] == db.messages[i]);
    }
}

/// A thread that is on record stays on record, and one with a directed row stays directed,
/// whatever comes in and however rows are claimed, settled or skipped.
pub proof fn threads_stay_followed(
    db: DbView,
    kind: Seq<char>,
    channel: Option<Seq<char>>,
    thread_ts: Option<Seq<char>>,
    ts: Seq<char>,
    body: Seq<char>,
    status: Seq<char>,
    created_at: Seq<char>,
    pk: int,
    settled: Seq<char>,
    i: int,
    key: Option<i64>,
    all: bool,
    thread: Seq<char>,
)
    requires
        settled != "ambient"@,
    ensures
        ({
            let after = db.with_status(i, "dispatched"@);
            &&& db.is_next(i) && db.thread_tracked(thread) ==> after.thread_tracked(thread)
            &&& db.is_next(i) && db.thread_has_directed(thread) ==> after.thread_has_directed(
                thread,
            )
        }),
        ({
            let after = skipped(db, key, all);
            &&& db.thread_tracked(thread) ==> after.thread_tracked(thread)
            &&& db.thread_has_directed(thread) ==> after.thread_has_directed(thread)
        }),
        ({
            let after = db.inserted(kind, channel, thread_ts, ts, body, status, created_at);
            &&& db.thread_tracked(thread) ==> after.thread_tracked(thread)
            &&& db.thread_has_directed(thread) ==> after.thread_has_directed(thread)
        }),
        ({
            let after = db.with_row_status(pk, settled);
            &&& db.thread_tracked(thread) ==> after.thread_tracked(thread)
            &&& db.thread_has_directed(thread) ==> after.thread_has_directed(thread)
        }),
{
    let grown = db.inserted(kind, channel, thread_ts, ts, body, status, created_at);
    let changed = db.with_row_status(pk, settled);
    let claimed = db.with_status(i, "dispatched"@);
    let less = skipped(db, key, all);
    lemma_statuses_differ();
    if db.has(pk) {
        assert(db.stands_at(pk, db.position(pk)));
    }
    if let Some(k) = key {
        if db.has(k as int) {
            assert(db.stands_at(k as int, db.position(k as int)));
        }
    }
    if db.thread_tracked(thread) {
        let j = choose|j: int|
            0 <= j < db.messages.len() && (#[trigger] db.messages[j]).in_thread(thread);
        assert(grown.messages[j].in_thread(thread));
        assert(changed.messages[j].in_thread(thread));
        assert(less.messages[j].in_thread(thread));
        if db.is_next(i) {
            assert(claimed.messages[j].in_thread(thread));
        }
    }
    if db.thread_has_directed(thread) {
        let j = choose|j: int|
            0 <= j < db.messages.len() && (#[trigger] db.messages[j]).in_thread(thread)
                && db.messages[j].status != "ambient"@;
        assert(grown.messages[j].in_thread(thread));
        assert(changed.messages[j].in_thread(thread));
        assert(less.messages[j].in_thread(thread));
        if db.is_next(i) {
            assert(claimed.messages[j].in_thread(thread));
        }
    }
}

/// Once a message is stored its thread is followed: no reply in it is dropped, and where the
/// message was directed every reply in it is directed too.
pub proof fn replies_follow_the_message(
    s: SharedView,
    m: MessageEvent,
    now: Seq<char>,
    channel_type: Option<Seq<char>>,
    channel: Seq<char>,
    text: Seq<char>,
    user: Option<Seq<char>>,
)
    requires
        message_status(s, m) is Some,
    ensures
        ({
            let status = message_status(s, m)->0;
            let after = s.with_db(message_stored(s, m, status, now));
            let reply = capture(after, channel_type, channel, text, user, Some(partition(m)));
            &&& reply != Capture::Drop
            &&& status == "pending"@ ==> reply == Capture::Directed
        }),
{
    lemma_statuses_differ();
    let status = message_status(s, m)->0;
    let after = s.with_db(message_stored(s, m, status, now));
    let n = s.db.messages.len() as int;
    assert(after.db.messages[n].in_thread(partition(m)));
}

// --- configuration ---

/// The value that a line assigns.
pub open spec fn value_assigned(line: Seq<char>) -> Seq<char> {
    let (_, value) = line_assignment(line)->0;
    value
}

/// Whether a line is the first to assign a key.
pub open spec fn first_to_assign(lines: Seq<Seq<char>>, key: Seq<char>, i: int) -> bool {
    &&& 0 <= i < lines.len()
    &&& line_assignment(lines[i]) matches Some((k, _)) && k == key
    &&& forall|j: int|
        0 <= j < i ==> !(line_assignment(#[trigger] lines[j]) matches Some((k, _)) && k == key)
}

proof fn lemma_assigned_keeps(
    env: EnvView,
    list: Seq<(Seq<char>, Seq<char>)>,
    key: Seq<char>,
)
    requires
        forall|i: int| 0 <= i < list.len() ==> (#[trigger] list[i]).0 != key,
    ensures
        assigned(env, list).contains_key(key) == env.contains_key(key),
        env.contains_key(key) ==> assigned(env, list)[key] == env[key],
    decreases list.len(),
{
    if list.len() > 0 {
        assert(list[list.len() - 1].0 != key);
        lemma_assigned_keeps(env, list.drop_last(), key);
    }
}

/// What a file assigns is not set yet, and nothing is assigned twice.
proof fn lemma_assignments_fresh(lines: Seq<Seq<char>>, set: Set<Seq<char>>)
    ensures
        forall|i: int|
            0 <= i < assignments(lines, set).len() ==> !set.contains(
                (#[trigger] assignments(lines, set)[i]).0,
            ),
    decreases lines.len(),
{
    let all = assignments(lines, set);
    if lines.len() > 0 {
        let rest = lines.drop_first();
        match line_assignment(lines[0]) {
            Some((key, value)) => if set.contains(key) {
                lemma_assignments_fresh(rest, set);
                assert(all == assignments(rest, set));
            } else {
                let more = assignments(rest, set.insert(key));
                lemma_assignments_fresh(rest, set.insert(key));
                assert(all == seq![(key, value)] + more);
                assert forall|i: int| 0 <= i < all.len() implies !set.contains(
                    (#[trigger] all[i]).0,
                ) by {
                    if i > 0 {
                        assert(all[i] == more[i - 1]);
                        assert(!set.insert(key).contains(more[i - 1].0));
                    }
                }
            },
            None => {
                lemma_assignments_fresh(rest, set);
                assert(all == assignments(rest, set));
            },
        }
    }
}

proof fn lemma_assigned_prefix(
    env: EnvView,
    pair: (Seq<char>, Seq<char>),
    list: Seq<(Seq<char>, Seq<char>)>,
)
    ensures
        assigned(env, seq![pair] + list) == assigned(env.insert(pair.0, Some(pair.1)), list),
    decreases list.len(),
{
    let all = seq![pair] + list;
    if list.len() > 0 {
        assert(all.drop_last() =~= seq![pair] + list.drop_last());
        lemma_assigned_prefix(env, pair, list.drop_last());
    } else {
        assert(all.drop_last() =~= Seq::empty());
        assert(all.last() == pair);
        reveal_with_fuel(assigned, 2);
        assert(list =~= Seq::empty());
    }
}

proof fn lemma_first_wins(
    env: EnvView,
    lines: Seq<Seq<char>>,
    set: Set<Seq<char>>,
    key: Seq<char>,
    i: int,
)
    requires
        first_to_assign(lines, key, i),
        !set.contains(key),
    ensures
        assigned(env, assignments(lines, set)).contains_key(key),
        assigned(env, assignments(lines, set))[key] == Some(value_assigned(lines[i])),
    decreases lines.len(),
{
    let rest = lines.drop_first();
    assert forall|j: int| 0 <= j < rest.len() implies #[trigger] rest[j] == lines[j + 1] by {}
    match line_assignment(lines[0]) {
        Some((k, v)) if !set.contains(k) => {
            let more = assignments(rest, set.insert(k));
            lemma_assigned_prefix(env, (k, v), more);
            if i == 0 {
                lemma_assignments_fresh(rest, set.insert(k));
                assert forall|j: int| 0 <= j < more.len() implies (#[trigger] more[j]).0 != key by {
                    assert(!set.insert(k).contains(more[j].0));
                }
                lemma_assigned_keeps(env.insert(k, Some(v)), more, key);
            } else {
                assert(first_to_assign(rest, key, i - 1));
                lemma_first_wins(env.insert(k, Some(v)), rest, set.insert(k), key, i - 1);
            }
        },
        _ => {
            assert(first_to_assign(rest, key, i - 1));
            lemma_first_wins(env, rest, set, key, i - 1);
        },
    }
}

/// The config file overrides no variable that is set.
pub proof fn file_overrides_nothing(env: EnvView, file: Option<Seq<char>>, key: Seq<char>)
    requires
        env.contains_key(key),
    ensures
        loaded(env, file).contains_key(key),
        loaded(env, file)[key] == env[key],
{
    if let Some(content) = file {
        let list = assignments(split_on(content, '\n'), env.dom());
        lemma_assignments_fresh(split_on(content, '\n'), env.dom());
        assert forall|i: int| 0 <= i < list.len() implies (#[trigger] list[i]).0 != key by {
            assert(!env.dom().contains(list[i].0));
        }
        lemma_assigned_keeps(env, list, key);
    }
}

/// A text that is empty or begins at the root.
pub open spec fn rooted(dir: Option<Seq<char>>) -> bool {
    dir matches Some(d) ==> d.len() == 0 || d[0] == '/'
}

/// The default database path does not depend on the current directory: where no directory in
/// the environment does, it begins at the root.
pub proof fn default_path_is_absolute(env: EnvView)
    requires
        rooted(var_of(env, "XDG_CONFIG_HOME"@)),
        rooted(var_of(env, "HOME"@)),
        var_of(env, "SLACK_DEPUTY_DB"@) is None,
    ensures
        db_path(env).len() > 0,
        db_path(env)[0] == '/',
{
    reveal_strlit("/.config");
    reveal_strlit("/slack-deputy/slack-deputy.db");
}

/// A variable that is not set takes the value of the first line that assigns it.
pub proof fn first_line_wins(env: EnvView, content: Seq<char>, key: Seq<char>, i: int)
    requires
        !env.contains_key(key),
        first_to_assign(split_on(content, '\n'), key, i),
    ensures
        loaded(env, Some(content)).contains_key(key),
        loaded(env, Some(content))[key] == Some(
            value_assigned(split_on(content, '\n')[i]),
        ),
{
    lemma_first_wins(env, split_on(content, '\n'), env.dom(), key, i);
}

// --- asks ---

/// A value as the daemon receives it in an optional field: `null` counts as absent.
pub open spec fn present(v: JsonView) -> Option<JsonView> {
    if v == JsonView::Null {
        None
    } else {
        Some(v)
    }
}

/// What the CLI accepts as an ask, the daemon can ask: the request names a positive button.
pub proof fn accepted_ask_has_button(
    text: Seq<char>,
    post: bool,
    channel: Option<Seq<char>>,
    thread: Option<Seq<char>>,
    action: Result<JsonView, Seq<char>>,
    choices: Seq<Seq<char>>,
    danger: bool,
    context: Option<Seq<char>>,
)
    requires
        ask_body(text, post, channel, thread, action, choices, danger, context) is Ok,
    ensures
        ({
            let body = ask_body(
                text,
                post,
                channel,
                thread,
                action,
                choices,
                danger,
                context,
            )->Ok_0;
            &&& body.get("action"@) is Some
            &&& body.get("post"@) is Some
            &&& body.get("choices"@) == Some(text_items(choices))
            &&& positive_buttons(
                present(body.get("action"@)->0),
                present(body.get("post"@)->0),
                choices,
                danger,
            ) is Some
        }),
{
    reveal_strlit("text");
    reveal_strlit("action");
    reveal_strlit("post");
    reveal_strlit("choices");
    reveal_strlit("danger");
    reveal_strlit("context");
    assert("text"@.len() == 4 && "post"@.len() == 4);
    assert("text"@[0] != "post"@[0]);
    assert("action"@.len() == 6 && "danger"@.len() == 6);
    assert("action"@[0] != "danger"@[0]);
    assert("choices"@.len() == 7 && "context"@.len() == 7);
    assert("choices"@[1] != "context"@[1]);
}

/// Every ask is open, and can be closed: the last of its buttons does nothing else.
pub proof fn ask_can_be_closed(
    text: Seq<char>,
    buttons: Seq<ButtonView>,
    parts: Seq<Seq<char>>,
    draft: Option<Seq<char>>,
)
    ensures
        is_open(ask_message(text, buttons, parts).blocks),
        ask_blocks(text, buttons, parts).last().kind matches BlockKindView::Actions(els)
            && els.len() == buttons.len() + 1 && els.last() == ElementView::Button(
            ignore_button(),
        ),
        terminal_of(ignore_routing(), draft) == TerminalView::Close,
{
    let blocks = ask_blocks(text, buttons, parts);
    assert(buttons_at(blocks, blocks.len() - 1));
    reveal_strlit("ignore");
    reveal_strlit("post");
    assert("ignore"@.len() != "post"@.len());
}

proof fn lemma_kept_sections(blocks: Seq<BlockView>)
    ensures
        section_parts(without_buttons(Some(blocks))) == section_parts(blocks),
        routings(without_buttons(Some(blocks))).len() == 0,
        forall|i: int|
            0 <= i < without_buttons(Some(blocks)).len() ==> !has_buttons(
                #[trigger] without_buttons(Some(blocks))[i],
            ),
    decreases blocks.len(),
{
    reveal(Seq::filter);
    let keeps = |x: BlockView| !has_buttons(x);
    if blocks.len() > 0 {
        let rest = blocks.drop_last();
        lemma_kept_sections(rest);
        let kept = rest.filter(keeps);
        if !has_buttons(blocks.last()) {
            assert(kept.push(blocks.last()).drop_last() =~= kept);
            assert(blocks.filter(keeps) =~= kept.push(blocks.last()));
        }
    }
}

/// A resolved ask keeps its draft, has no buttons left and carries no routing: a further
/// reply in its thread is no answer to it.
pub proof fn resolved_ask_is_closed(
    blocks: Option<Seq<BlockView>>,
    label: Seq<char>,
    s: SharedView,
    m: MessageEvent,
)
    ensures
        section_text_of(resolved(blocks, label).blocks) == section_text_of(blocks),
        !is_open(resolved(blocks, label).blocks),
        routing_of(resolved(blocks, label).blocks) is None,
        !is_answer(s, m, Some(resolved(blocks, label))),
{
    if let Some(b) = blocks {
        lemma_kept_sections(b);
        let kept = without_buttons(blocks);
        let line = context_line(label);
        assert(kept.push(line).drop_last() =~= kept);
        reveal_with_fuel(section_parts, 2);
        reveal_with_fuel(routings, 2);
        if kept.len() > 0 {
            assert(routings(kept.push(line)) =~= Seq::empty());
        }
    }
}

/// A dangerous ask says so on each of its positive buttons, and asks a second time.
pub proof fn danger_marks_every_positive_button(
    action: Option<JsonView>,
    post: Option<JsonView>,
    choices: Seq<Seq<char>>,
    i: int,
)
    requires
        positive_buttons(action, post, choices, true) is Some,
        0 <= i < positive_buttons(action, post, choices, true)->0.len(),
    ensures
        positive_buttons(action, post, choices, true)->0[i].style == Some("danger"@),
        positive_buttons(action, post, choices, true)->0[i].confirm == Some(danger_dialog()),
{
}

/// While an ask is open, a reply in its thread is an answer to it, with the ask's routing.
/// `all_read_back` and `reads_back` are what [`crate::confirm::ask`] ensures.
pub proof fn reply_to_ask_is_answer(
    text: Seq<char>,
    action: Option<JsonView>,
    post: Option<JsonView>,
    choices: Seq<Seq<char>>,
    danger: bool,
    parts: Seq<Seq<char>>,
    s: SharedView,
    m: MessageEvent,
)
    requires
        positive_buttons(action, post, choices, danger) is Some,
        all_read_back(
            positive_buttons(action, post, choices, danger)->0,
            positive_values(action, post, choices),
        ),
        reads_back(ignore_button(), ignore_value()),
        answer_thread(s, m) is Some,
    ensures
        ({
            let ask = ask_message(text, positive_buttons(action, post, choices, danger)->0, parts);
            &&& is_answer(s, m, Some(ask))
            &&& routing_of(ask.blocks) == Some(ask_routing(action, post))
        }),
{
    let buttons = positive_buttons(action, post, choices, danger)->0;
    asked_buttons_carry_routing(action, post, choices, buttons);
    ask_reads_back(text, buttons, parts, ask_routing(action, post));
}

/// Whether a click is on a button of a message.
pub open spec fn clicks_on(ev: BlockActions, b: ButtonView, message: ContentView) -> bool {
    &&& ev.message matches Some(m) && m@.blocks == message.blocks
    &&& b.value == Some(click_value(ev))
}

/// A click on the `投稿` button of an ask posts the ask's draft to the channel and the thread
/// that the ask named, and is recorded as done. `all_read_back` is what
/// [`crate::confirm::ask`] ensures.
pub proof fn post_click_posts_draft(
    ev: BlockActions,
    text: Seq<char>,
    channel: Seq<char>,
    thread: Option<Seq<char>>,
    action: Option<JsonView>,
    choices: Seq<Seq<char>>,
    danger: bool,
    parts: Seq<Seq<char>>,
    posted: Result<Seq<char>, Seq<char>>,
)
    requires
        ({
            let post = Some(post_routing(channel, thread));
            let buttons = positive_buttons(action, post, choices, danger)->0;
            &&& all_read_back(buttons, positive_values(action, post, choices))
            &&& clicks_on(ev, buttons[0], ask_message(text, buttons, parts))
        }),
    ensures
        ({
            let value = read_or_null(click_value(ev));
            &&& value.get("exec"@) == Some(post_routing(channel, thread))
            &&& terminal_of(value.get("exec"@)->0, draft_of(ev)) == (TerminalView::Post {
                channel,
                thread,
                text,
            })
            &&& click_outcome(ev, value, posted).status == "done"@
        }),
{
    let post = Some(post_routing(channel, thread));
    let buttons = positive_buttons(action, post, choices, danger)->0;
    assert(reads_back(buttons[0], positive_values(action, post, choices)[0]));
    ask_reads_back(text, buttons, parts, post_routing(channel, thread));
    lemma_value_keys();
    reveal_strlit("type");
    reveal_strlit("channel");
    reveal_strlit("thread");
    assert("type"@.len() == 4);
    assert("channel"@.len() == 7);
    assert("thread"@.len() == 6);
}

/// A click on a choice reaches the consumer with that choice and the ask's action.
/// `all_read_back` is what [`crate::confirm::ask`] ensures.
pub proof fn choice_click_is_queued(
    db: DbView,
    ev: BlockActions,
    text: Seq<char>,
    action: Option<JsonView>,
    choices: Seq<Seq<char>>,
    danger: bool,
    parts: Seq<Seq<char>>,
    i: int,
    posted: Result<Seq<char>, Seq<char>>,
    now: Seq<char>,
)
    requires
        0 <= i < choices.len(),
        ({
            let buttons = positive_buttons(action, None, choices, danger)->0;
            &&& all_read_back(buttons, positive_values(action, None, choices))
            &&& clicks_on(ev, buttons[i], ask_message(text, buttons, parts))
        }),
    ensures
        ({
            let outcome = click_outcome(ev, read_or_null(click_value(ev)), posted);
            &&& outcome.status == "pending"@
            &&& outcome.body.text_at("decision"@) == Some(choices[i])
            &&& outcome.body.get("action"@) == Some(action_or_null(action))
            &&& click_stored(db, ev, outcome, now).claimable(db.messages.len() as int)
        }),
{
    let buttons = positive_buttons(action, None, choices, danger)->0;
    assert(reads_back(buttons[i], positive_values(action, None, choices)[i]));
    routed_click_is_queued(db, ev, choices[i], action_or_null(action), posted, now);
}

/// A click on the `承認` button of an ask reaches the consumer with the ask's action.
/// `all_read_back` is what [`crate::confirm::ask`] ensures.
pub proof fn approve_click_is_queued(
    db: DbView,
    ev: BlockActions,
    text: Seq<char>,
    action: JsonView,
    danger: bool,
    parts: Seq<Seq<char>>,
    posted: Result<Seq<char>, Seq<char>>,
    now: Seq<char>,
)
    requires
        ({
            let buttons = positive_buttons(Some(action), None, Seq::empty(), danger)->0;
            &&& all_read_back(buttons, positive_values(Some(action), None, Seq::empty()))
            &&& clicks_on(ev, buttons[0], ask_message(text, buttons, parts))
        }),
    ensures
        ({
            let outcome = click_outcome(ev, read_or_null(click_value(ev)), posted);
            &&& outcome.status == "pending"@
            &&& outcome.body.text_at("decision"@) == Some("approve"@)
            &&& outcome.body.get("action"@) == Some(action)
            &&& click_stored(db, ev, outcome, now).claimable(db.messages.len() as int)
        }),
{
    let buttons = positive_buttons(Some(action), None, Seq::empty(), danger)->0;
    assert(reads_back(buttons[0], positive_values(Some(action), None, Seq::empty())[0]));
    routed_click_is_queued(db, ev, "approve"@, action, posted, now);
}

/// A click on the `無視` button of an ask closes it and does nothing else: the click is
/// recorded as done. `reads_back` is what [`crate::confirm::ask`] ensures.
pub proof fn ignore_click_closes_ask(
    ev: BlockActions,
    posted: Result<Seq<char>, Seq<char>>,
)
    requires
        reads_back(ignore_button(), ignore_value()),
        ignore_button().value == Some(click_value(ev)),
    ensures
        ({
            let value = read_or_null(click_value(ev));
            &&& value.get("exec"@) == Some(ignore_routing())
            &&& terminal_of(ignore_routing(), draft_of(ev)) == TerminalView::Close
            &&& click_outcome(ev, value, posted).status == "done"@
        }),
{
    lemma_value_keys();
    reveal_strlit("ignore");
    reveal_strlit("post");
    assert("ignore"@.len() != "post"@.len());
}

/// The routing of a post is always small enough to be read back from a button.
pub proof fn post_routing_fits(channel: Seq<char>, thread: Option<Seq<char>>)
    ensures
        json_fits(post_routing(channel, thread), 126),
{
    reveal_strlit("$serde_json::private::RawValue");
    reveal_strlit("type");
    reveal_strlit("channel");
    reveal_strlit("thread");
    reveal_with_fuel(json_fits, 2);
    assert(raw_marker().len() == 30);
}

proof fn lemma_value_keys()
    ensures
        "decision"@ != "action"@,
        "decision"@ != "exec"@,
        "action"@ != "exec"@,
        "ask_ts"@ != "decision"@,
        "ask_ts"@ != "action"@,
        "ask_ts"@ != "exec"@,
{
    reveal_strlit("decision");
    reveal_strlit("action");
    reveal_strlit("exec");
    reveal_strlit("ask_ts");
    assert("decision"@.len() == 8);
    assert("exec"@.len() == 4);
    assert("action"@.len() == 6 && "ask_ts"@.len() == 6);
    assert("action"@[1] != "ask_ts"@[1]);
}

/// A terminal click never reaches the consumer: its row is done, so it is never claimed.
pub proof fn terminal_click_is_not_queued(
    db: DbView,
    ev: BlockActions,
    decision: Seq<char>,
    exec: JsonView,
    posted: Result<Seq<char>, Seq<char>>,
    now: Seq<char>,
)
    ensures
        ({
            let outcome = click_outcome(ev, terminal_value(decision, exec), posted);
            &&& outcome.status == "done"@
            &&& outcome.body.text_at("decision"@) == Some(decision)
            &&& !click_stored(db, ev, outcome, now).claimable(db.messages.len() as int)
        }),
{
    lemma_value_keys();
    lemma_statuses_differ();
    reveal_strlit("result");
    reveal_strlit("decision");
    assert("result"@.len() != "decision"@.len());
}

/// A routed click reaches the consumer with what the ask put into the button: its row is
/// pending and may be claimed, and it holds the decision and the action.
pub proof fn routed_click_is_queued(
    db: DbView,
    ev: BlockActions,
    decision: Seq<char>,
    action: JsonView,
    posted: Result<Seq<char>, Seq<char>>,
    now: Seq<char>,
)
    ensures
        ({
            let outcome = click_outcome(ev, routed_value(decision, action), posted);
            &&& outcome.status == "pending"@
            &&& outcome.body.text_at("decision"@) == Some(decision)
            &&& outcome.body.get("action"@) == Some(action)
            &&& click_stored(db, ev, outcome, now).claimable(db.messages.len() as int)
        }),
{
    lemma_value_keys();
}

/// A free-text answer always reaches the consumer, with the routing of the ask.
pub proof fn free_text_is_queued(
    db: DbView,
    channel: Seq<char>,
    ask_ts: Seq<char>,
    reply_ts: Seq<char>,
    routing: JsonView,
    now: Seq<char>,
)
    ensures
        answer_stored(db, channel, ask_ts, reply_ts, routing, now).claimable(
            db.messages.len() as int,
        ),
        answer_body(routing, ask_ts).get("action"@) == Some(routing),
        answer_body(routing, ask_ts).text_at("ask_ts"@) == Some(ask_ts),
{
    lemma_value_keys();
}

} // verus!
