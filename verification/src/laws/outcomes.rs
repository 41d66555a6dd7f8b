//! What comes of events and answers: what is stored, what is refused, and what stays.

use crate::confirm::{
    answer_outcome, answer_recorded, answer_stored, answer_thread, click_edit, click_handled,
    click_stored, is_answer, opt_edit, resolved, routing_of, Answered, ClickView, Edit,
    Terminal, TerminalView,
};
use crate::db::{Changes, DbError, DbView, Saved};
use crate::inbound::{
    echo_checked, is_echo, message_outcome, message_status, message_stored, reaction_in_scope,
    reaction_outcome, reaction_stored,
};
use crate::json::{denotes, json_plain, JsonView};
use crate::slack::{BlockActions, BlockView, ContentView, MessageEvent, ReactionEvent};
use crate::state::{Shared, SharedView};
use crate::text::opt_text;
use vstd::prelude::*;

verus! {

/// Whether two states are the same but for their stores.
pub open spec fn same_but_store(a: SharedView, b: SharedView) -> bool {
    &&& a.config == b.config
    &&& a.my_user_id == b.my_user_id
    &&& a.workspace_url == b.workspace_url
    &&& a.bot_dm_channel == b.bot_dm_channel
    &&& a.self_bot_ids == b.self_bot_ids
    &&& a.react_ledger == b.react_ledger
}

/// To put another store into the state changes nothing else.
pub proof fn another_store_changes_the_store_alone(s: SharedView, db: DbView)
    ensures
        s.with_db(db).db == db,
        same_but_store(s.with_db(db), s),
{
}

/// A message that is not to be stored changes nothing. One that is gets the next key while one
/// is left, and is stored with its status; without one it is refused and nothing changes.
pub proof fn what_comes_of_a_message(
    s: SharedView,
    m: MessageEvent,
    now: Seq<char>,
    res: Result<Option<i64>, DbError>,
    after: SharedView,
)
    requires
        message_outcome(s, m, now, res, after),
        s.db.wf(),
    ensures
        message_status(s, m) is None ==> res == Ok::<Option<i64>, DbError>(None) && after == s,
        message_status(s, m) matches Some(status) ==> (s.db.last_pk < i64::MAX ==> {
            &&& res matches Ok(Some(pk))
            &&& pk == s.db.last_pk + 1
            &&& after.db == message_stored(s, m, status, now)
            &&& same_but_store(after, s)
        }),
        message_status(s, m) is Some && s.db.last_pk == i64::MAX ==> res == Err::<
            Option<i64>,
            DbError,
        >(DbError::Full) && after == s,
{
}

/// A reaction that is an echo or out of scope is not stored. Any other gets the next key while
/// one is left, and is stored; without one it is refused. In each case the ledger is spent as
/// asking for the echo spends it, and nothing else changes.
pub proof fn what_comes_of_a_reaction(
    s: SharedView,
    r: ReactionEvent,
    now: Seq<char>,
    instant: u64,
    res: Result<Option<i64>, DbError>,
    after: SharedView,
)
    requires
        reaction_outcome(s, r, now, instant, res, after),
        s.db.wf(),
    ensures
        is_echo(s, r, instant) || !reaction_in_scope(s, r) ==> res == Ok::<Option<i64>, DbError>(
            None,
        ) && after.db == s.db,
        !is_echo(s, r, instant) && reaction_in_scope(s, r) && s.db.last_pk < i64::MAX ==> {
            &&& res matches Ok(Some(pk))
            &&& pk == s.db.last_pk + 1
            &&& after.db == reaction_stored(s, r, now)
        },
        !is_echo(s, r, instant) && reaction_in_scope(s, r) && s.db.last_pk == i64::MAX ==> res
            == Err::<Option<i64>, DbError>(DbError::Full) && after.db == s.db,
        same_but_store(after, echo_checked(s, r, instant)),
{
}

/// A message is an answer if and only if it may be one and the root of its thread carries a
/// routing.
pub proof fn answers_answer_a_routing(s: SharedView, m: MessageEvent, root: Option<ContentView>)
    ensures
        is_answer(s, m, root) <==> answer_thread(s, m) is Some && (root matches Some(c)
            && routing_of(c.blocks) is Some),
{
}

/// An answer is recorded while a key is left: it gets the next one, and the ask is edited to
/// say that it was answered by a reply. Without a key nothing changes and the ask stays.
pub proof fn what_comes_of_an_answer(
    s: SharedView,
    channel: Seq<char>,
    ask_ts: Seq<char>,
    reply_ts: Seq<char>,
    routing: JsonView,
    blocks: Option<Seq<BlockView>>,
    now: Seq<char>,
    a: Answered,
    after: SharedView,
)
    requires
        answer_recorded(s, channel, ask_ts, reply_ts, routing, blocks, now, a, after),
        s.db.wf(),
    ensures
        s.db.last_pk < i64::MAX ==> {
            &&& a.stored matches Ok(pk)
            &&& pk == s.db.last_pk + 1
            &&& after.db == answer_stored(s.db, channel, ask_ts, reply_ts, routing, now)
            &&& same_but_store(after, s)
            &&& a.edit matches Some(e)
            &&& e.channel@ == channel
            &&& e.ts@ == ask_ts
            &&& e.content@ == resolved(blocks, "✏️ 返信で対応"@)
        },
        s.db.last_pk == i64::MAX ==> a.stored == Err::<i64, DbError>(DbError::Full) && after == s
            && a.edit is None,
{
}

/// What is an answer is recorded as the answer to the ask at the root of its thread, with that
/// ask's routing; what is none changes nothing.
pub proof fn which_ask_is_answered(
    s: SharedView,
    m: MessageEvent,
    root: Option<ContentView>,
    now: Seq<char>,
    r: Option<Answered>,
    after: SharedView,
)
    requires
        answer_outcome(s, m, root, now, r, after),
    ensures
        r is Some <==> is_answer(s, m, root),
        r is None ==> after == s,
        r matches Some(a) ==> answer_recorded(
            s,
            m.channel->0@,
            m.thread_ts->0@,
            m.ts@,
            routing_of(root->0.blocks)->0,
            root->0.blocks,
            now,
            a,
            after,
        ),
{
}

/// A click is recorded while a key is left, with the status and the body that it comes to;
/// without a key nothing is stored. The ask is edited either way.
pub proof fn what_comes_of_a_click(
    s: SharedView,
    ev: BlockActions,
    outcome: ClickView,
    now: Seq<char>,
    a: Answered,
    after: SharedView,
)
    requires
        click_handled(s, ev, outcome, now, a, after),
        s.db.wf(),
    ensures
        opt_edit(a.edit) == click_edit(ev, outcome.label),
        s.db.last_pk < i64::MAX ==> {
            &&& a.stored matches Ok(pk)
            &&& pk == s.db.last_pk + 1
            &&& after.db == click_stored(s.db, ev, outcome, now)
            &&& json_plain(outcome.body) ==> denotes(after.db.messages.last().body, outcome.body)
            &&& same_but_store(after, s)
        },
        s.db.last_pk == i64::MAX ==> a.stored == Err::<i64, DbError>(DbError::Full) && after == s,
{
}

/// What is said of the state, an edit, a terminal step, and of what is in the file and what is
/// written to it, is said of their own fields.
pub proof fn outcomes_are_what_they_hold(s: Shared, e: Edit, t: Terminal, d: Saved, c: Changes)
    ensures
        s@.db == s.db@,
        s@.config == s.config@,
        s@.my_user_id == opt_text(s.my_user_id),
        s@.workspace_url == opt_text(s.workspace_url),
        s@.bot_dm_channel == opt_text(s.bot_dm_channel),
        s@.self_bot_ids == s.self_bot_ids@,
        s@.react_ledger == s.react_ledger@,
        e@.channel == e.channel@,
        e@.ts == e.ts@,
        e@.content == e.content@,
        opt_edit(None) is None,
        opt_edit(Some(e)) == Some(e@),
        t matches Terminal::Post { channel, thread, text } ==> t@ == (TerminalView::Post {
            channel: channel@,
            thread: opt_text(thread),
            text: text@,
        }),
        t is Incomplete ==> t@ == TerminalView::Incomplete,
        t is Close ==> t@ == TerminalView::Close,
        d@.statuses.len() == d.statuses@.len(),
        forall|i: int| 0 <= i < d.statuses@.len() ==> #[trigger] d@.statuses[i] == d.statuses@[i]@,
        d@.bot_id == opt_text(d.bot_id),
        c@.statuses.len() == c.statuses@.len(),
        forall|i: int|
            0 <= i < c.statuses@.len() ==> #[trigger] c@.statuses[i] == (
                c.statuses@[i].0 as int,
                c.statuses@[i].1@,
            ),
        c@.rows.len() == c.rows@.len(),
        forall|i: int| 0 <= i < c.rows@.len() ==> #[trigger] c@.rows[i] == c.rows@[i]@,
        c.meta is None <==> c@.meta is None,
        c.meta matches Some((k, v)) ==> c@.meta == Some((k@, v@)),
{
}

} // verus!
