//! What is captured of Slack's events, from the events and what is on record.

use crate::confirm::answer_thread;
use crate::inbound::{
    capture, echo_checked, is_echo, item_ts, item_type, message_body, message_link,
    message_status, message_stored, reaction_body, reaction_in_scope, reaction_link,
    reaction_stored, Capture,
};
use crate::json::{json_written, JsonView};
use crate::laws::queue::{belongs_to, threads_are_on_record_by_their_rows};
use crate::laws::words::{
    blank_trims_to_nothing, holding_is_standing_in, leaving_out_keeps_the_others, sifted, sifts,
    trim_end_takes_run,
};
use crate::slack::{MessageEvent, ReactionEvent, ReactionItem, Subtype};
use crate::state::{key_of, start_ids, SharedView};
use crate::text::{opt_text, other_than, white_space};
use vstd::prelude::*;

verus! {

/// Whether a value is an object with `x` under a key.
pub open spec fn has_field(v: JsonView, key: Seq<char>, x: JsonView) -> bool {
    v matches JsonView::Object(fields) && fields.contains_key(key) && fields[key] == x
}

/// Whether a value is an object with a text under a key, or with `null` where there is none.
pub open spec fn has_text(v: JsonView, key: Seq<char>, x: Option<Seq<char>>) -> bool {
    match x {
        Some(s) => has_field(v, key, JsonView::Text(s)),
        None => has_field(v, key, JsonView::Null),
    }
}

// --- messages ---

/// Whether a row on record that is not `ambient` is the root of a thread or a reply in it.
pub open spec fn directed_thread(s: SharedView, thread: Seq<char>) -> bool {
    exists|i: int|
        0 <= i < s.db.messages.len() && belongs_to(#[trigger] s.db.messages[i], thread)
            && s.db.messages[i].status != "ambient"@
}

/// Whether a row on record is the root of a thread or a reply in it.
pub open spec fn known_thread(s: SharedView, thread: Seq<char>) -> bool {
    exists|i: int| 0 <= i < s.db.messages.len() && belongs_to(#[trigger] s.db.messages[i], thread)
}

/// Whether a text stands in another from position `i` on.
pub open spec fn written_at(text: Seq<char>, part: Seq<char>, i: int) -> bool {
    &&& 0 <= i
    &&& i + part.len() <= text.len()
    &&& text.subrange(i, i + part.len()) == part
}

/// Whether a text mentions a user: `<@`, the id and `>` stand in it one after the other.
pub open spec fn mentions(text: Seq<char>, user: Seq<char>) -> bool {
    exists|i: int| written_at(text, "<@"@ + user + ">"@, i)
}

/// Whether a message is aimed at the human: it comes in a DM or a group DM, it mentions the
/// human, or it is a reply in a thread with a row on record that is not `ambient`. Each of
/// these is enough by itself.
pub open spec fn aimed_at_me(
    s: SharedView,
    channel_type: Option<Seq<char>>,
    text: Seq<char>,
    thread_ts: Option<Seq<char>>,
) -> bool {
    ||| channel_type == Some("im"@)
    ||| channel_type == Some("mpim"@)
    ||| s.my_user_id matches Some(me) && mentions(text, me)
    ||| thread_ts matches Some(t) && directed_thread(s, t)
}

/// Whether a message is worth watching: it comes in a channel that is watched, from the human,
/// or as a reply in a thread that is on record. Each of these is enough by itself.
pub open spec fn worth_watching(
    s: SharedView,
    channel: Seq<char>,
    user: Option<Seq<char>>,
    thread_ts: Option<Seq<char>>,
) -> bool {
    ||| s.config.watch_channels.contains(channel)
    ||| s.my_user_id matches Some(me) && user == Some(me)
    ||| thread_ts matches Some(t) && known_thread(s, t)
}

proof fn lemma_mentions(text: Seq<char>, user: Seq<char>)
    ensures
        crate::text::holds_text(text, "<@"@ + user + ">"@) <==> mentions(text, user),
{
    let part = "<@"@ + user + ">"@;
    holding_is_standing_in(text, part);
    if crate::text::holds_text(text, part) {
        let i = choose|i: int|
            {
                &&& 0 <= i
                &&& i + part.len() <= text.len()
                &&& #[trigger] text.subrange(i, i + part.len()) == part
            };
        assert(written_at(text, part, i));
    }
    if mentions(text, user) {
        let i = choose|i: int| written_at(text, part, i);
        assert(text.subrange(i, i + part.len()) == part);
    }
}

/// A message is directed if and only if it is aimed at the human, wherever it comes and
/// whoever wrote it; else it is ambient if and only if it is worth watching; else it is
/// dropped.
pub proof fn what_is_aimed_at_me_is_directed(
    s: SharedView,
    channel_type: Option<Seq<char>>,
    channel: Seq<char>,
    text: Seq<char>,
    user: Option<Seq<char>>,
    thread_ts: Option<Seq<char>>,
)
    ensures
        ({
            let c = capture(s, channel_type, channel, text, user, thread_ts);
            let aimed = aimed_at_me(s, channel_type, text, thread_ts);
            let watched = worth_watching(s, channel, user, thread_ts);
            &&& c == Capture::Directed <==> aimed
            &&& c == Capture::Ambient <==> !aimed && watched
            &&& c == Capture::Drop <==> !aimed && !watched
        }),
{
    if let Some(me) = s.my_user_id {
        lemma_mentions(text, me);
    }
    if let Some(t) = thread_ts {
        threads_are_on_record_by_their_rows(s.db, t);
    }
}

/// Whether a message event is one that someone else wrote or the human by hand: no edit,
/// deletion or message of the system, not hidden, not from a bot of our own, with an author, a
/// channel and a text that is not blank.
pub open spec fn worth_reading(s: SharedView, m: MessageEvent) -> bool {
    &&& match m.subtype {
        None => true,
        Some(Subtype::BotMessage) => true,
        Some(Subtype::ThreadBroadcast) => true,
        Some(Subtype::FileShare) => true,
        Some(Subtype::MeMessage) => true,
        Some(Subtype::Other) => false,
    }
    &&& m.hidden != Some(true)
    &&& !(m.bot_id matches Some(b) && s.self_bot_ids.contains(b@))
    &&& m.user is Some || m.bot_id is Some
    &&& m.channel is Some
    &&& m.text matches Some(t) && exists|i: int|
        0 <= i < t@.len() && !white_space(#[trigger] t@[i])
}

/// A message is stored as `pending` if and only if it is worth reading and aimed at the human,
/// as `ambient` if and only if it is worth reading and only worth watching, and not at all
/// otherwise.
pub proof fn what_is_stored_of_messages(s: SharedView, m: MessageEvent)
    ensures
        ({
            let channel = m.channel->0@;
            let text = m.text->0@;
            let thread = opt_text(m.thread_ts);
            let aimed = aimed_at_me(s, opt_text(m.channel_type), text, thread);
            let watched = worth_watching(s, channel, opt_text(m.user), thread);
            &&& message_status(s, m) == Some("pending"@) <==> worth_reading(s, m) && aimed
            &&& message_status(s, m) == Some("ambient"@) <==> worth_reading(s, m) && !aimed
                && watched
            &&& message_status(s, m) is None <==> !worth_reading(s, m) || (!aimed && !watched)
        }),
{
    reveal_strlit("pending");
    reveal_strlit("ambient");
    assert("pending"@[0] != "ambient"@[0]);
    if let Some(t) = m.text {
        blank_trims_to_nothing(t@);
        if let Some(c) = m.channel {
            what_is_aimed_at_me_is_directed(
                s,
                opt_text(m.channel_type),
                c@,
                t@,
                opt_text(m.user),
                opt_text(m.thread_ts),
            );
        }
    }
}

proof fn lemma_message_keys()
    ensures
        "text"@ != "user"@,
        "text"@ != "bot_id"@,
        "text"@ != "username"@,
        "text"@ != "ts"@,
        "text"@ != "thread_ts"@,
        "text"@ != "channel"@,
        "text"@ != "permalink"@,
        "user"@ != "bot_id"@,
        "user"@ != "username"@,
        "user"@ != "ts"@,
        "user"@ != "thread_ts"@,
        "user"@ != "channel"@,
        "user"@ != "permalink"@,
        "bot_id"@ != "username"@,
        "bot_id"@ != "ts"@,
        "bot_id"@ != "thread_ts"@,
        "bot_id"@ != "channel"@,
        "bot_id"@ != "permalink"@,
        "username"@ != "ts"@,
        "username"@ != "thread_ts"@,
        "username"@ != "channel"@,
        "username"@ != "permalink"@,
        "ts"@ != "thread_ts"@,
        "ts"@ != "channel"@,
        "ts"@ != "permalink"@,
        "thread_ts"@ != "channel"@,
        "thread_ts"@ != "permalink"@,
        "channel"@ != "permalink"@,
{
    reveal_strlit("text");
    reveal_strlit("user");
    reveal_strlit("bot_id");
    reveal_strlit("username");
    reveal_strlit("ts");
    reveal_strlit("thread_ts");
    reveal_strlit("channel");
    reveal_strlit("permalink");
    assert("text"@.len() == 4);
    assert("user"@.len() == 4);
    assert("bot_id"@.len() == 6);
    assert("username"@.len() == 8);
    assert("ts"@.len() == 2);
    assert("thread_ts"@.len() == 9);
    assert("channel"@.len() == 7);
    assert("permalink"@.len() == 9);
    assert("text"@[0] != "user"@[0]);
    assert("thread_ts"@[0] != "permalink"@[0]);
}

/// The row of a message holds its channel, its timestamp and its thread, which is its own where
/// it replies to none; its body tells who wrote what, where and when.
pub proof fn a_message_row_tells_of_the_message(
    s: SharedView,
    m: MessageEvent,
    status: Seq<char>,
    now: Seq<char>,
)
    ensures
        ({
            let after = message_stored(s, m, status, now);
            let row = after.messages.last();
            let body = message_body(m, message_link(s, m));
            &&& after.messages.len() == s.db.messages.len() + 1
            &&& after.messages.drop_last() == s.db.messages
            &&& after.meta == s.db.meta
            &&& row.pk == s.db.last_pk + 1
            &&& row.kind == "message"@
            &&& row.channel == opt_text(m.channel)
            &&& row.ts == m.ts@
            &&& m.thread_ts matches Some(t) ==> row.thread_ts == Some(t@)
            &&& m.thread_ts is None ==> row.thread_ts == Some(m.ts@)
            &&& row.status == status
            &&& row.created_at == now
            &&& row.body == json_written(body)
            &&& has_text(body, "text"@, opt_text(m.text))
            &&& has_text(body, "user"@, opt_text(m.user))
            &&& has_text(body, "bot_id"@, opt_text(m.bot_id))
            &&& has_text(body, "username"@, opt_text(m.username))
            &&& has_text(body, "ts"@, Some(m.ts@))
            &&& has_text(body, "thread_ts"@, opt_text(m.thread_ts))
            &&& has_text(body, "channel"@, opt_text(m.channel))
            &&& m.channel matches Some(c) ==> has_text(
                body,
                "permalink"@,
                s.permalink(c@, m.ts@),
            )
        }),
{
    lemma_message_keys();
    assert(message_stored(s, m, status, now).messages.drop_last() =~= s.db.messages);
}

/// Whether `link` is the permalink of a message: the workspace URL without the slashes at its
/// end, `/archives/`, the channel, `/p`, and the timestamp without its dots.
pub open spec fn links_to(
    link: Seq<char>,
    url: Seq<char>,
    channel: Seq<char>,
    ts: Seq<char>,
    base: Seq<char>,
    at: Seq<int>,
) -> bool {
    &&& base.len() <= url.len()
    &&& base == url.take(base.len() as int)
    &&& forall|k: int| base.len() <= k < url.len() ==> #[trigger] url[k] == '/'
    &&& base.len() > 0 ==> base.last() != '/'
    &&& sifts(ts, |x: char| x != '.', at)
    &&& link == base + "/archives/"@ + channel + "/p"@ + Seq::new(at.len(), |j: int| ts[at[j]])
}

/// A permalink is built from the workspace URL, the channel and the timestamp, and there is
/// none if and only if the URL is unknown.
pub proof fn permalinks_lead_to_the_message(s: SharedView, channel: Seq<char>, ts: Seq<char>)
    ensures
        s.permalink(channel, ts) is None <==> s.workspace_url is None,
        s.workspace_url matches Some(url) ==> exists|base: Seq<char>, at: Seq<int>| #[trigger]
            links_to(s.permalink(channel, ts)->0, url, channel, ts, base, at),
{
    if let Some(url) = s.workspace_url {
        let base = crate::text::trimmed_end(url, '/');
        let at = sifted(ts, other_than('.'));
        trim_end_takes_run(url, '/');
        leaving_out_keeps_the_others(ts, '.');
        assert(base =~= url.take(base.len() as int));
        assert(Seq::new(at.len(), |j: int| ts[at[j]]) =~= ts.filter(other_than('.')));
        assert(links_to(s.permalink(channel, ts)->0, url, channel, ts, base, at));
    }
}

// --- reactions ---

/// Where the message stands that a reaction is on.
pub open spec fn reacted_channel(r: ReactionEvent) -> Option<Seq<char>> {
    match r.item {
        ReactionItem::Message { channel: Some(c), ts: _ } => Some(c@),
        _ => None,
    }
}

/// The timestamp of the message that a reaction is on.
pub open spec fn reacted_ts(r: ReactionEvent) -> Option<Seq<char>> {
    match r.item {
        ReactionItem::Message { channel: _, ts } => Some(ts@),
        ReactionItem::File => None,
    }
}

/// A reaction is within scope if and only if the human reacts, the item is the human's, or the
/// message is the root of a thread on record or a reply in it.
pub proof fn which_reactions_are_kept(s: SharedView, r: ReactionEvent)
    ensures
        reaction_in_scope(s, r) <==> {
            ||| s.my_user_id == Some(r.user@)
            ||| s.my_user_id matches Some(me) && r.item_user matches Some(u) && u@ == me
            ||| reacted_ts(r) matches Some(t) && known_thread(s, t)
        },
{
    if let Some(t) = reacted_ts(r) {
        threads_are_on_record_by_their_rows(s.db, t);
    }
}

proof fn lemma_reaction_keys()
    ensures
        "event"@ != "user"@,
        "event"@ != "reaction"@,
        "event"@ != "item_type"@,
        "event"@ != "item_user"@,
        "event"@ != "item_ts"@,
        "event"@ != "event_ts"@,
        "event"@ != "channel"@,
        "event"@ != "permalink"@,
        "user"@ != "reaction"@,
        "user"@ != "item_type"@,
        "user"@ != "item_user"@,
        "user"@ != "item_ts"@,
        "user"@ != "event_ts"@,
        "user"@ != "channel"@,
        "user"@ != "permalink"@,
        "reaction"@ != "item_type"@,
        "reaction"@ != "item_user"@,
        "reaction"@ != "item_ts"@,
        "reaction"@ != "event_ts"@,
        "reaction"@ != "channel"@,
        "reaction"@ != "permalink"@,
        "item_type"@ != "item_user"@,
        "item_type"@ != "item_ts"@,
        "item_type"@ != "event_ts"@,
        "item_type"@ != "channel"@,
        "item_type"@ != "permalink"@,
        "item_user"@ != "item_ts"@,
        "item_user"@ != "event_ts"@,
        "item_user"@ != "channel"@,
        "item_user"@ != "permalink"@,
        "item_ts"@ != "event_ts"@,
        "item_ts"@ != "channel"@,
        "item_ts"@ != "permalink"@,
        "event_ts"@ != "channel"@,
        "event_ts"@ != "permalink"@,
        "channel"@ != "permalink"@,
{
    reveal_strlit("event");
    reveal_strlit("user");
    reveal_strlit("reaction");
    reveal_strlit("item_type");
    reveal_strlit("item_user");
    reveal_strlit("item_ts");
    reveal_strlit("event_ts");
    reveal_strlit("channel");
    reveal_strlit("permalink");
    assert("event"@.len() == 5);
    assert("user"@.len() == 4);
    assert("reaction"@.len() == 8);
    assert("item_type"@.len() == 9);
    assert("item_user"@.len() == 9);
    assert("item_ts"@.len() == 7);
    assert("event_ts"@.len() == 8);
    assert("channel"@.len() == 7);
    assert("permalink"@.len() == 9);
    assert("reaction"@[0] != "event_ts"@[0]);
    assert("item_type"@[5] != "item_user"@[5]);
    assert("item_type"@[0] != "permalink"@[0]);
    assert("item_user"@[0] != "permalink"@[0]);
    assert("item_ts"@[0] != "channel"@[0]);
}

/// The row of a reaction holds the place of the message that it is on, as its thread too; its
/// body tells who reacted how to what and when. It is always pending.
pub proof fn a_reaction_row_tells_of_the_reaction(s: SharedView, r: ReactionEvent, now: Seq<char>)
    ensures
        ({
            let after = reaction_stored(s, r, now);
            let row = after.messages.last();
            let body = reaction_body(r, reaction_link(s, r));
            &&& after.messages.len() == s.db.messages.len() + 1
            &&& after.messages.drop_last() == s.db.messages
            &&& after.meta == s.db.meta
            &&& row.pk == s.db.last_pk + 1
            &&& row.kind == "reaction"@
            &&& row.channel == reacted_channel(r)
            &&& row.thread_ts == reacted_ts(r)
            &&& row.ts == r.event_ts@
            &&& row.status == "pending"@
            &&& row.created_at == now
            &&& row.body == json_written(body)
            &&& has_text(body, "event"@, Some(r.event@))
            &&& has_text(body, "user"@, Some(r.user@))
            &&& has_text(body, "reaction"@, Some(r.reaction@))
            &&& r.item is Message ==> has_text(body, "item_type"@, Some("message"@))
            &&& r.item is File ==> has_text(body, "item_type"@, Some("file"@))
            &&& has_text(body, "item_user"@, opt_text(r.item_user))
            &&& has_text(body, "item_ts"@, reacted_ts(r))
            &&& has_text(body, "event_ts"@, Some(r.event_ts@))
            &&& has_text(body, "channel"@, reacted_channel(r))
            &&& reacted_channel(r) is None ==> has_text(body, "permalink"@, None)
            &&& reacted_channel(r) matches Some(c) ==> has_text(
                body,
                "permalink"@,
                s.permalink(c, reacted_ts(r)->0),
            )
        }),
{
    lemma_reaction_keys();
    assert(reaction_stored(s, r, now).messages.drop_last() =~= s.db.messages);
}

// --- echoes ---

proof fn lemma_parted(a: Seq<char>, b: Seq<char>, x: Seq<char>, y: Seq<char>)
    requires
        !a.contains(':'),
        !b.contains(':'),
        a + seq![':'] + x == b + seq![':'] + y,
    ensures
        a == b,
        x == y,
{
    let s = a + seq![':'] + x;
    let t = b + seq![':'] + y;
    assert(s[a.len() as int] == ':');
    assert(t[b.len() as int] == ':');
    assert(a.len() == b.len()) by {
        if a.len() < b.len() {
            assert(b[a.len() as int] == t[a.len() as int]);
            assert(b.contains(b[a.len() as int]));
        } else if b.len() < a.len() {
            assert(a[b.len() as int] == s[b.len() as int]);
            assert(a.contains(a[b.len() as int]));
        }
    }
    assert(a =~= s.take(a.len() as int));
    assert(b =~= t.take(b.len() as int));
    assert(x =~= s.skip(a.len() as int + 1));
    assert(y =~= t.skip(b.len() as int + 1));
}

/// Two reactions are taken for the same one only if they are: the same name on the same
/// message. (Neither the id of a channel nor a timestamp holds a colon.)
pub proof fn reactions_are_told_apart(
    channel: Seq<char>,
    ts: Seq<char>,
    name: Seq<char>,
    other_channel: Seq<char>,
    other_ts: Seq<char>,
    other_name: Seq<char>,
)
    requires
        !channel.contains(':'),
        !ts.contains(':'),
        !other_channel.contains(':'),
        !other_ts.contains(':'),
        key_of(channel, ts, name) == key_of(other_channel, other_ts, other_name),
    ensures
        channel == other_channel,
        ts == other_ts,
        name == other_name,
{
    reveal_strlit(":");
    assert(":"@ =~= seq![':']);
    let x = ts + ":"@ + name;
    let y = other_ts + ":"@ + other_name;
    assert(key_of(channel, ts, name) =~= channel + seq![':'] + x);
    assert(key_of(other_channel, other_ts, other_name) =~= other_channel + seq![':'] + y);
    lemma_parted(channel, other_channel, x, y);
    lemma_parted(ts, other_ts, name, other_name);
}

/// A reaction is the echo of one that we emitted if and only if the human reacts to a message
/// and a reaction with its key was recorded less than 300 seconds ago.
pub proof fn echoes_are_own_recent_reactions(s: SharedView, r: ReactionEvent, now: u64)
    ensures
        is_echo(s, r, now) <==> {
            let place = match reacted_channel(r) {
                Some(c) => c,
                None => ""@,
            };
            let key = key_of(place, reacted_ts(r)->0, r.reaction@);
            &&& s.my_user_id == Some(r.user@)
            &&& reacted_ts(r) is Some
            &&& s.react_ledger.contains_key(key)
            &&& now - s.react_ledger[key] < 300_000_000_000
        },
{
}

/// To ask the ledger for an echo takes that key out, and every key that is 300 seconds old or
/// older; all others stay, and so does the rest of the state.
pub proof fn asking_for_an_echo_spends_it(s: SharedView, r: ReactionEvent, now: u64, key: Seq<char>)
    requires
        s.my_user_id == Some(r.user@),
        reacted_ts(r) is Some,
    ensures
        ({
            let after = echo_checked(s, r, now);
            let place = match reacted_channel(r) {
                Some(c) => c,
                None => ""@,
            };
            let asked = key_of(place, reacted_ts(r)->0, r.reaction@);
            &&& after.react_ledger.contains_key(key) <==> key != asked
                && s.react_ledger.contains_key(key) && now - s.react_ledger[key] < 300_000_000_000
            &&& after.react_ledger.contains_key(key) ==> after.react_ledger[key]
                == s.react_ledger[key]
            &&& after.db == s.db
            &&& after.config == s.config
            &&& after.my_user_id == s.my_user_id
            &&& after.workspace_url == s.workspace_url
            &&& after.bot_dm_channel == s.bot_dm_channel
            &&& after.self_bot_ids == s.self_bot_ids
        }),
{
}

/// To record a reaction puts its key into the ledger with its time, and changes nothing else.
pub proof fn a_reaction_is_recorded_with_its_time(s: SharedView, key: Seq<char>, now: u64)
    ensures
        ({
            let after = s.reaction_recorded(key, now);
            &&& after.react_ledger == s.react_ledger.insert(key, now)
            &&& after.db == s.db
            &&& after.config == s.config
            &&& after.my_user_id == s.my_user_id
            &&& after.workspace_url == s.workspace_url
            &&& after.bot_dm_channel == s.bot_dm_channel
            &&& after.self_bot_ids == s.self_bot_ids
        }),
{
}

/// To learn a bot id adds it to our own; one that is new is put on record under
/// `self_post_bot_id`, in place of an earlier one. Nothing else changes.
pub proof fn a_learned_id_is_added_and_recorded(s: SharedView, bot_id: Seq<char>)
    ensures
        ({
            let after = s.learned(bot_id);
            &&& after.self_bot_ids == s.self_bot_ids.insert(bot_id)
            &&& s.self_bot_ids.contains(bot_id) ==> after.db.meta == s.db.meta
            &&& !s.self_bot_ids.contains(bot_id) ==> after.db.meta == s.db.meta.insert(
                "self_post_bot_id"@,
                bot_id,
            )
            &&& after.db.messages == s.db.messages
            &&& after.db.last_pk == s.db.last_pk
            &&& after.config == s.config
            &&& after.my_user_id == s.my_user_id
            &&& after.workspace_url == s.workspace_url
            &&& after.bot_dm_channel == s.bot_dm_channel
            &&& after.react_ledger == s.react_ledger
        }),
{
    if s.self_bot_ids.contains(bot_id) {
        assert(s.self_bot_ids.insert(bot_id) =~= s.self_bot_ids);
    }
}

/// At the start, just the bot's own id and the one on record under `self_post_bot_id` are our
/// own.
pub proof fn own_ids_at_the_start(s: SharedView, own: Option<Seq<char>>, id: Seq<char>)
    ensures
        start_ids(s.db, own).contains(id) <==> own == Some(id) || (s.db.meta.contains_key(
            "self_post_bot_id"@,
        ) && s.db.meta["self_post_bot_id"@] == id),
{
}

// --- answers ---

/// A message may be the answer to an ask if and only if the human wrote it by hand, as a reply
/// in a thread of the control channel, with a text that is not blank; the ask is then the root
/// of that thread.
pub proof fn which_messages_may_be_answers(s: SharedView, m: MessageEvent)
    ensures
        answer_thread(s, m) is Some <==> {
            &&& m.subtype is None
            &&& m.hidden != Some(true)
            &&& m.bot_id is None
            &&& s.my_user_id matches Some(me) && m.user matches Some(u) && u@ == me
            &&& s.bot_dm_channel matches Some(dm) && m.channel matches Some(c) && c@ == dm
            &&& m.thread_ts is Some
            &&& m.text matches Some(t) && exists|i: int|
                0 <= i < t@.len() && !white_space(#[trigger] t@[i])
        },
        answer_thread(s, m) matches Some((channel, thread)) ==> opt_text(m.channel) == Some(channel)
            && opt_text(m.thread_ts) == Some(thread),
{
    if let Some(t) = m.text {
        blank_trims_to_nothing(t@);
    } else {
        blank_trims_to_nothing(Seq::empty());
    }
}

/// A reaction of another, or one that is not on a message, leaves the state as it is when an
/// echo is looked for.
pub proof fn other_reactions_spend_nothing(s: SharedView, r: ReactionEvent, now: u64)
    requires
        s.my_user_id != Some(r.user@) || reacted_ts(r) is None,
    ensures
        echo_checked(s, r, now) == s,
        !is_echo(s, r, now),
{
}

/// The human is who the user token belongs to, and a bot is our own if and only if its id is
/// among ours.
pub proof fn who_is_who(s: SharedView, user: Option<Seq<char>>, bot_id: Option<Seq<char>>)
    ensures
        s.is_me(user) <==> (s.my_user_id matches Some(me) && user == Some(me)),
        s.is_self_bot(bot_id) <==> (bot_id matches Some(b) && s.self_bot_ids.contains(b)),
{
}

} // verus!
