//! The queue and the store, from the statuses, threads, timestamps and keys of the rows.

use crate::db::{
    changed_statuses, entries, highest_given, messages_view, rows_view, DbView, Message,
    MessageView, Row, RowView, SavedView,
};
use crate::laws::words::{order_is_by_first_difference, parts_below};
use crate::outbound::{skip_count, skipped, tail_cursor, tail_start};
use crate::text::opt_text;
use vstd::prelude::*;

verus! {

/// Whether the row at position `i` is pending while no row of its thread is dispatched.
pub open spec fn waits_freely(rows: Seq<MessageView>, i: int) -> bool {
    &&& 0 <= i < rows.len()
    &&& rows[i].status == "pending"@
    &&& forall|k: int|
        #![trigger rows[k]]
        0 <= k < rows.len() && rows[k].status == "dispatched"@ && rows[k].thread_ts is Some
            ==> rows[k].thread_ts != rows[i].thread_ts
}

/// A row may be claimed if and only if it is pending and no row of its thread is dispatched.
/// Nothing else holds it back: neither the kind or the age of a row, nor a row of its thread
/// that awaits the human, is done, skipped, pending or only watched.
pub proof fn pending_rows_of_free_threads_are_claimable(db: DbView, i: int)
    ensures
        db.claimable(i) <==> waits_freely(db.messages, i),
{
    let rows = db.messages;
    if db.claimable(i) {
        assert forall|k: int|
            #![trigger rows[k]]
            0 <= k < rows.len() && rows[k].status == "dispatched"@ && rows[k].thread_ts
                is Some implies rows[k].thread_ts != rows[i].thread_ts by {
            if rows[k].thread_ts == rows[i].thread_ts {
                assert(db.messages[k].holds_thread(rows[i].thread_ts->0));
            }
        }
    }
    if waits_freely(rows, i) {
        if let Some(t) = rows[i].thread_ts {
            if db.in_flight(t) {
                let k = choose|k: int|
                    0 <= k < db.messages.len() && (#[trigger] db.messages[k]).holds_thread(t);
                assert(rows[k].thread_ts == rows[i].thread_ts);
            }
        }
    }
}

/// There is something to claim if and only if some row is pending while no row of its thread
/// is dispatched.
pub proof fn ready_is_a_free_pending_row(db: DbView)
    ensures
        db.has_claimable() <==> exists|i: int| waits_freely(db.messages, i),
{
    if db.has_claimable() {
        let i = choose|i: int| db.claimable(i);
        pending_rows_of_free_threads_are_claimable(db, i);
        assert(waits_freely(db.messages, i));
    }
    if exists|i: int| waits_freely(db.messages, i) {
        let i = choose|i: int| waits_freely(db.messages, i);
        pending_rows_of_free_threads_are_claimable(db, i);
        assert(db.claimable(i));
    }
}

/// Once the one row of a thread that is dispatched has any other status, be it `done`,
/// `awaiting_human` or `skipped`, each pending row of the thread may be claimed.
pub proof fn settled_threads_go_on(db: DbView, i: int, j: int, status: Seq<char>)
    requires
        db.wf(),
        0 <= i < db.messages.len(),
        0 <= j < db.messages.len(),
        i != j,
        db.messages[i].thread_ts is Some,
        db.messages[j].thread_ts == db.messages[i].thread_ts,
        db.messages[j].status == "pending"@,
        forall|k: int|
            #![trigger db.messages[k]]
            0 <= k < db.messages.len() && k != i && db.messages[k].status == "dispatched"@
                ==> db.messages[k].thread_ts != db.messages[i].thread_ts,
        status != "dispatched"@,
    ensures
        db.with_row_status(db.messages[i].pk, status).claimable(j),
{
    let pk = db.messages[i].pk;
    let after = db.with_row_status(pk, status);
    db.position_of_key(i);
    assert(after.messages[j] == db.messages[j]);
    assert forall|k: int|
        #![trigger after.messages[k]]
        0 <= k < after.messages.len() && after.messages[k].status == "dispatched"@
            && after.messages[k].thread_ts is Some implies after.messages[k].thread_ts
        != after.messages[j].thread_ts by {
        if k != i {
            assert(after.messages[k] == db.messages[k]);
        }
    }
    pending_rows_of_free_threads_are_claimable(after, j);
}

/// The row that is claimed is the oldest: of the pending rows whose threads are free, none has
/// a timestamp that is less where the two first differ, and none with the same timestamp has a
/// lower key.
pub proof fn the_oldest_free_row_is_next(db: DbView, i: int)
    ensures
        db.is_next(i) <==> {
            &&& waits_freely(db.messages, i)
            &&& forall|j: int| #[trigger]
                waits_freely(db.messages, j) ==> {
                    &&& !exists|k: int| parts_below(db.messages[j].ts, db.messages[i].ts, k)
                    &&& db.messages[j].ts == db.messages[i].ts ==> db.messages[i].pk
                        <= db.messages[j].pk
                }
        },
{
    pending_rows_of_free_threads_are_claimable(db, i);
    if db.is_next(i) {
        assert forall|j: int| #[trigger] waits_freely(db.messages, j) implies {
            &&& !exists|k: int| parts_below(db.messages[j].ts, db.messages[i].ts, k)
            &&& db.messages[j].ts == db.messages[i].ts ==> db.messages[i].pk <= db.messages[j].pk
        } by {
            pending_rows_of_free_threads_are_claimable(db, j);
            order_is_by_first_difference(db.messages[j].ts, db.messages[i].ts);
            assert(db.claimable(j));
        }
    }
    if waits_freely(db.messages, i) && forall|j: int| #[trigger]
        waits_freely(db.messages, j) ==> {
            &&& !exists|k: int| parts_below(db.messages[j].ts, db.messages[i].ts, k)
            &&& db.messages[j].ts == db.messages[i].ts ==> db.messages[i].pk <= db.messages[j].pk
        } {
        assert forall|j: int| #[trigger] db.claimable(j) implies !db.messages[j].ahead_of(
            db.messages[i],
        ) by {
            pending_rows_of_free_threads_are_claimable(db, j);
            order_is_by_first_difference(db.messages[j].ts, db.messages[i].ts);
            assert(waits_freely(db.messages, j));
        }
    }
}

/// Whether two rows are the same but for their statuses.
pub open spec fn same_but_status(a: MessageView, b: MessageView) -> bool {
    &&& a.pk == b.pk
    &&& a.kind == b.kind
    &&& a.channel == b.channel
    &&& a.thread_ts == b.thread_ts
    &&& a.ts == b.ts
    &&& a.body == b.body
    &&& a.created_at == b.created_at
}

/// To set the status of the row at a position changes that status and nothing else.
pub proof fn a_status_is_set_alone(db: DbView, i: int, status: Seq<char>)
    requires
        0 <= i < db.messages.len(),
    ensures
        ({
            let after = db.with_status(i, status);
            &&& after.messages.len() == db.messages.len()
            &&& after.messages[i].status == status
            &&& same_but_status(after.messages[i], db.messages[i])
            &&& forall|k: int|
                0 <= k < db.messages.len() && k != i ==> #[trigger] after.messages[k]
                    == db.messages[k]
            &&& after.last_pk == db.last_pk
            &&& after.meta == db.meta
        }),
{
}

/// To set a status by key sets that of the row with the key, if there is one, and nothing
/// else.
pub proof fn a_status_is_set_by_key(db: DbView, pk: int, status: Seq<char>)
    requires
        db.wf(),
    ensures
        ({
            let after = db.with_row_status(pk, status);
            &&& after.messages.len() == db.messages.len()
            &&& forall|k: int|
                #![trigger after.messages[k]]
                #![trigger db.messages[k]]
                0 <= k < db.messages.len() ==> if db.messages[k].pk == pk {
                    after.messages[k].status == status && same_but_status(
                        after.messages[k],
                        db.messages[k],
                    )
                } else {
                    after.messages[k] == db.messages[k]
                }
            &&& after.last_pk == db.last_pk
            &&& after.meta == db.meta
        }),
{
    let after = db.with_row_status(pk, status);
    if db.has(pk) {
        assert(db.stands_at(pk, db.position(pk)));
    }
    assert forall|k: int|
        #![trigger after.messages[k]]
        #![trigger db.messages[k]]
        0 <= k < db.messages.len() implies if db.messages[k].pk == pk {
        after.messages[k].status == status && same_but_status(after.messages[k], db.messages[k])
    } else {
        after.messages[k] == db.messages[k]
    } by {
        if db.messages[k].pk == pk {
            db.position_of_key(k);
        }
    }
}

/// A row is found by its key: `has` and `row` speak of the row whose key it is.
pub proof fn a_row_is_found_by_its_key(db: DbView, pk: int)
    requires
        db.wf(),
    ensures
        db.has(pk) <==> exists|i: int|
            0 <= i < db.messages.len() && (#[trigger] db.messages[i]).pk == pk,
        forall|i: int|
            0 <= i < db.messages.len() && (#[trigger] db.messages[i]).pk == pk ==> db.row(pk)
                == db.messages[i],
{
    if db.has(pk) {
        assert(db.stands_at(pk, db.position(pk)));
    }
    assert forall|i: int|
        0 <= i < db.messages.len() && (#[trigger] db.messages[i]).pk == pk implies db.has(pk)
        && db.row(pk) == db.messages[i] by {
        db.position_of_key(i);
    }
}

/// A new row comes last, under the key after the highest ever given, and changes no other.
pub proof fn a_new_row_comes_last(
    db: DbView,
    kind: Seq<char>,
    channel: Option<Seq<char>>,
    thread_ts: Option<Seq<char>>,
    ts: Seq<char>,
    body: Seq<char>,
    status: Seq<char>,
    created_at: Seq<char>,
)
    ensures
        ({
            let after = db.inserted(kind, channel, thread_ts, ts, body, status, created_at);
            let n = db.messages.len() as int;
            &&& after.messages.len() == n + 1
            &&& after.messages.take(n) == db.messages
            &&& after.messages[n].pk == db.last_pk + 1
            &&& after.messages[n].kind == kind
            &&& after.messages[n].channel == channel
            &&& after.messages[n].thread_ts == thread_ts
            &&& after.messages[n].ts == ts
            &&& after.messages[n].body == body
            &&& after.messages[n].status == status
            &&& after.messages[n].created_at == created_at
            &&& after.last_pk == db.last_pk + 1
            &&& after.meta == db.meta
        }),
{
    let after = db.inserted(kind, channel, thread_ts, ts, body, status, created_at);
    assert(after.messages.take(db.messages.len() as int) =~= db.messages);
}

/// Whether a row is the root of a thread or a reply in it.
pub open spec fn belongs_to(m: MessageView, thread: Seq<char>) -> bool {
    m.ts == thread || m.thread_ts == Some(thread)
}

/// A thread is on record by its root or any reply, whatever their statuses, and directed by
/// any such row that is not `ambient`.
pub proof fn threads_are_on_record_by_their_rows(db: DbView, thread: Seq<char>)
    ensures
        db.thread_tracked(thread) <==> exists|i: int|
            0 <= i < db.messages.len() && belongs_to(#[trigger] db.messages[i], thread),
        db.thread_has_directed(thread) <==> exists|i: int|
            0 <= i < db.messages.len() && belongs_to(#[trigger] db.messages[i], thread)
                && db.messages[i].status != "ambient"@,
{
    assert forall|i: int| #![trigger db.messages[i]] db.messages[i].in_thread(thread)
        == belongs_to(db.messages[i], thread) by {}
}

// --- skipping ---

/// How many rows have a status.
pub open spec fn how_many(rows: Seq<MessageView>, status: Seq<char>) -> nat
    decreases rows.len(),
{
    if rows.len() == 0 {
        0
    } else {
        how_many(rows.drop_last(), status) + (if rows.last().status == status {
            1nat
        } else {
            0nat
        })
    }
}

proof fn lemma_skip_counts(rows: Seq<MessageView>)
    ensures
        rows.filter(|m: MessageView| m.is_pending()).len() == how_many(rows, "pending"@),
    decreases rows.len(),
{
    reveal(Seq::filter);
    if rows.len() > 0 {
        lemma_skip_counts(rows.drop_last());
    }
}

/// `skip --all` turns each pending row into a skipped one and leaves every other row as it is;
/// it reports how many rows that are.
pub proof fn skip_all_skips_each_pending_row(db: DbView, pk: Option<i64>)
    ensures
        ({
            let after = skipped(db, pk, true);
            &&& after.messages.len() == db.messages.len()
            &&& forall|k: int|
                #![trigger after.messages[k]]
                0 <= k < db.messages.len() ==> if db.messages[k].status == "pending"@ {
                    after.messages[k].status == "skipped"@ && same_but_status(
                        after.messages[k],
                        db.messages[k],
                    )
                } else {
                    after.messages[k] == db.messages[k]
                }
            &&& skip_count(db, pk, true) == how_many(db.messages, "pending"@)
            &&& after.last_pk == db.last_pk
            &&& after.meta == db.meta
        }),
{
    lemma_skip_counts(db.messages);
}

/// `skip` with a key skips the row with that key if it is pending, and no other row; it
/// reports whether it did.
pub proof fn skip_one_skips_that_row(db: DbView, key: i64)
    requires
        db.wf(),
    ensures
        ({
            let after = skipped(db, Some(key), false);
            &&& after.messages.len() == db.messages.len()
            &&& forall|k: int|
                #![trigger after.messages[k]]
                0 <= k < db.messages.len() ==> if db.messages[k].pk == key
                    && db.messages[k].status == "pending"@ {
                    after.messages[k].status == "skipped"@ && same_but_status(
                        after.messages[k],
                        db.messages[k],
                    )
                } else {
                    after.messages[k] == db.messages[k]
                }
            &&& skip_count(db, Some(key), false) == 1 <==> exists|k: int|
                0 <= k < db.messages.len() && (#[trigger] db.messages[k]).pk == key
                    && db.messages[k].status == "pending"@
            &&& skip_count(db, Some(key), false) <= 1
            &&& after.last_pk == db.last_pk
            &&& after.meta == db.meta
        }),
{
    a_status_is_set_by_key(db, key as int, "skipped"@);
    a_row_is_found_by_its_key(db, key as int);
}

/// `skip` without a key and without `--all` changes nothing.
pub proof fn skip_of_nothing_changes_nothing(db: DbView)
    ensures
        skipped(db, None, false) == db,
        skip_count(db, None, false) == 0,
{
}

// --- following ---

/// Whether a summary tells of a row what there is to watch.
pub open spec fn sums_up(r: RowView, m: MessageView) -> bool {
    &&& r.pk == m.pk
    &&& r.kind == m.kind
    &&& r.channel == m.channel
    &&& r.status == m.status
    &&& r.body == m.body
}

/// The rows after a key are all rows with a higher key, in their order, each summed up.
pub proof fn rows_after_are_those_with_higher_keys(db: DbView, after: int)
    requires
        db.wf(),
    ensures
        ({
            let shown = db.rows_after(after);
            let n = db.messages.len() - shown.len();
            &&& n >= 0
            &&& forall|k: int| 0 <= k < n ==> (#[trigger] db.messages[k]).pk <= after
            &&& forall|k: int|
                #![trigger db.messages[k]]
                n <= k < db.messages.len() ==> db.messages[k].pk > after && sums_up(
                    shown[k - n],
                    db.messages[k],
                )
        }),
{
    let n = lemma_rows_after(db.messages, after);
}

proof fn lemma_rows_after(rows: Seq<MessageView>, after: int) -> (n: int)
    requires
        forall|i: int, j: int|
            0 <= i < j < rows.len() ==> (#[trigger] rows[i]).pk < (#[trigger] rows[j]).pk,
    ensures
        ({
            let shown = rows.filter(|m: MessageView| m.pk > after).map_values(
                |m: MessageView| m.summary(),
            );
            &&& 0 <= n <= rows.len()
            &&& shown.len() + n == rows.len()
            &&& forall|k: int| 0 <= k < n ==> (#[trigger] rows[k]).pk <= after
            &&& forall|k: int|
                #![trigger rows[k]]
                n <= k < rows.len() ==> rows[k].pk > after && sums_up(shown[k - n], rows[k])
        }),
    decreases rows.len(),
{
    reveal(Seq::filter);
    let pass = |m: MessageView| m.pk > after;
    if rows.len() == 0 {
        0
    } else {
        let rest = rows.drop_last();
        assert forall|i: int, j: int| 0 <= i < j < rest.len() implies (#[trigger] rest[i]).pk < (
        #[trigger] rest[j]).pk by {
            assert(rows[i] == rest[i] && rows[j] == rest[j]);
        }
        let n = lemma_rows_after(rest, after);
        assert forall|k: int| 0 <= k < rest.len() implies #[trigger] rows[k] == rest[k] by {}
        if pass(rows.last()) {
            n
        } else {
            if n < rest.len() {
                assert(rest[rest.len() - 1].pk > after);
                assert(rows[rest.len() - 1].pk < rows[rows.len() - 1].pk);
            }
            n + 1
        }
    }
}

/// A `tail` starts after the key that it is given, and without one ten keys before the
/// highest, or at the very beginning; it goes on from the highest key there is, or from its
/// start where no row is beyond that.
pub proof fn tail_starts_and_goes_on(db: DbView, from: i64, start: int)
    requires
        db.wf(),
    ensures
        tail_start(db, Some(from)) == from,
        db.messages.len() == 0 ==> tail_start(db, None) == 0,
        db.messages.len() > 0 && db.messages.last().pk > 10 ==> tail_start(db, None)
            == db.messages.last().pk - 10,
        db.messages.len() > 0 && db.messages.last().pk <= 10 ==> tail_start(db, None) == 0,
        db.messages.len() > 0 && db.messages.last().pk > start ==> tail_cursor(db, start)
            == db.messages.last().pk,
        db.messages.len() == 0 || db.messages.last().pk <= start ==> tail_cursor(db, start)
            == start,
        db.max_pk() == (if db.messages.len() > 0 {
            db.messages.last().pk
        } else {
            0
        }),
{
    let n = lemma_rows_after(db.messages, start);
    let rows = db.rows_after(start);
    if db.messages.len() > 0 {
        assert(db.messages.last() == db.messages[db.messages.len() - 1]);
        if rows.len() > 0 {
            let k = db.messages.len() - 1;
            assert(sums_up(rows[k - n], db.messages[k]));
        }
    }
}

// --- opening ---

/// No key is given twice: the highest key given is at least what is on record and the key of
/// each row, and is one of these, or 0 before the first.
pub proof fn keys_go_on_above_all(rows: Seq<MessageView>, recorded: int)
    requires
        forall|i: int, j: int|
            0 <= i < j < rows.len() ==> (#[trigger] rows[i]).pk < (#[trigger] rows[j]).pk,
    ensures
        highest_given(rows, recorded) >= recorded,
        forall|i: int| 0 <= i < rows.len() ==> (#[trigger] rows[i]).pk <= highest_given(
            rows,
            recorded,
        ),
        rows.len() == 0 ==> highest_given(rows, recorded) >= 0,
        highest_given(rows, recorded) == recorded || (rows.len() == 0 && highest_given(
            rows,
            recorded,
        ) == 0) || (rows.len() > 0 && highest_given(rows, recorded) == rows.last().pk),
{
    assert forall|i: int| 0 <= i < rows.len() implies (#[trigger] rows[i]).pk <= highest_given(
        rows,
        recorded,
    ) by {
        if i < rows.len() - 1 {
            assert(rows[i].pk < rows[rows.len() - 1].pk);
        }
    }
}

/// Of `meta`, the last of the entries with a key counts.
pub proof fn the_last_entry_counts(list: Seq<(String, String)>, i: int)
    requires
        0 <= i < list.len(),
        forall|j: int| i < j < list.len() ==> (#[trigger] list[j]).0@ != list[i].0@,
    ensures
        entries(list).contains_key(list[i].0@),
        entries(list)[list[i].0@] == list[i].1@,
    decreases list.len(),
{
    let rest = list.drop_last();
    if i < list.len() - 1 {
        assert(list[list.len() - 1].0@ != list[i].0@);
        assert forall|j: int| i < j < rest.len() implies (#[trigger] rest[j]).0@ != rest[i].0@ by {
            assert(rest[j] == list[j]);
        }
        the_last_entry_counts(rest, i);
    }
}

/// What is said of a stored row is said of its own fields.
pub proof fn rows_are_what_they_hold(m: Message, r: Row)
    ensures
        m@.pk == m.pk,
        m@.kind == m.kind@,
        m@.channel == opt_text(m.channel),
        m@.thread_ts == opt_text(m.thread_ts),
        m@.ts == m.ts@,
        m@.body == m.body@,
        m@.status == m.status@,
        m@.created_at == m.created_at@,
        r@.pk == r.pk,
        r@.kind == r.kind@,
        r@.channel == opt_text(r.channel),
        r@.status == r.status@,
        r@.body == r.body@,
{
}

/// Lists of rows hold each row in its place.
pub proof fn lists_of_rows_hold_each_row(rows: Seq<Message>, shown: Seq<Row>)
    ensures
        messages_view(rows).len() == rows.len(),
        forall|i: int| 0 <= i < rows.len() ==> #[trigger] messages_view(rows)[i] == rows[i]@,
        rows_view(shown).len() == shown.len(),
        forall|i: int| 0 <= i < shown.len() ==> #[trigger] rows_view(shown)[i] == shown[i]@,
{
}

/// A store is well formed if and only if its keys ascend and none is above the highest given.
pub proof fn well_formed_is_in_order(db: DbView)
    requires
        i64::MIN <= db.last_pk <= i64::MAX,
        forall|i: int| 0 <= i < db.messages.len() ==> i64::MIN <= (#[trigger] db.messages[i]).pk,
    ensures
        db.wf() <==> {
            &&& forall|i: int, j: int|
                0 <= i < j < db.messages.len() ==> (#[trigger] db.messages[i]).pk < (
                #[trigger] db.messages[j]).pk
            &&& db.messages.len() > 0 ==> db.messages.last().pk <= db.last_pk
        },
{
    if db.messages.len() > 0 {
        let n = db.messages.len() - 1;
        assert(db.messages.last() == db.messages[n]);
        if (forall|i: int, j: int|
            0 <= i < j < db.messages.len() ==> (#[trigger] db.messages[i]).pk < (
            #[trigger] db.messages[j]).pk) && db.messages.last().pk <= db.last_pk {
            assert forall|i: int| 0 <= i < db.messages.len() implies (#[trigger] db.messages[i]).pk
                <= db.last_pk by {
                if i < n {
                    assert(db.messages[i].pk < db.messages[n].pk);
                }
            }
        }
    }
}

// --- writing back ---

proof fn lemma_changed(rows: Seq<MessageView>, saved: Seq<Seq<char>>, i: int)
    requires
        0 <= i < saved.len(),
        i < rows.len(),
        rows[i].status != saved[i],
    ensures
        changed_statuses(rows, saved).contains((rows[i].pk, rows[i].status)),
    decreases saved.len(),
{
    let rest = saved.drop_last();
    let list = changed_statuses(rows, saved);
    if i < rest.len() {
        lemma_changed(rows, rest, i);
        let before = changed_statuses(rows, rest);
        let k = choose|k: int|
            0 <= k < before.len() && before[k] == (rows[i].pk, rows[i].status);
        assert(list[k] == before[k]);
    } else {
        assert(list.last() == (rows[i].pk, rows[i].status));
    }
}

/// What is written back is each status that is not in the file as it is, each row that the file
/// lacks, and the bot id where the file has another.
pub proof fn all_that_changed_is_written(db: DbView, saved: SavedView, i: int)
    ensures
        ({
            let changes = db.changes(saved);
            let known = saved.statuses.len();
            &&& 0 <= i < known && i < db.messages.len() && db.messages[i].status
                != saved.statuses[i] ==> changes.statuses.contains(
                (db.messages[i].pk, db.messages[i].status),
            )
            &&& known <= i < db.messages.len() ==> changes.rows[i - known] == db.messages[i]
            &&& known <= db.messages.len() ==> changes.rows.len() == db.messages.len() - known
            &&& db.meta.contains_key("self_post_bot_id"@) && saved.bot_id != Some(
                db.meta["self_post_bot_id"@],
            ) ==> changes.meta == Some(("self_post_bot_id"@, db.meta["self_post_bot_id"@]))
        }),
{
    if 0 <= i < saved.statuses.len() && i < db.messages.len() && db.messages[i].status
        != saved.statuses[i] {
        lemma_changed(db.messages, saved.statuses, i);
    }
}

/// What is in the file of a store is the status of each of its rows and the bot id on record.
pub proof fn the_file_holds_statuses_and_the_bot_id(db: DbView)
    ensures
        db.saved().statuses.len() == db.messages.len(),
        forall|i: int|
            0 <= i < db.messages.len() ==> #[trigger] db.saved().statuses[i]
                == db.messages[i].status,
        db.saved().bot_id == (if db.meta.contains_key("self_post_bot_id"@) {
            Some(db.meta["self_post_bot_id"@])
        } else {
            None
        }),
{
}

} // verus!
