//! Socket Mode inbound: triage, capture scope, echo suppression, store.

use crate::confirm::{
    answer_outcome, answer_target, answer_thread, is_answer, opt_content, try_free_text_answer,
    Answered,
};
use crate::db::{DbError, DbView};
use crate::json::{
    denotes, json_fits, json_plain, json_written, raw_marker, text_or_null, to_text, Json, JsonView,
};
use crate::slack::{Content, MessageEvent, PushEvent, ReactionEvent, ReactionItem, Subtype};
use crate::state::{key_of, reaction_key, Shared, SharedView};
use crate::text::{
    contains, holds_text, opt_copy, opt_ref, opt_same, opt_str, opt_text, same, trim, trimmed,
};
use vstd::prelude::*;
use vstd::string::*;

verus! {

/// How a captured message enters the queue.
pub enum Capture {
    /// Outside scope: not stored at all.
    Drop,
    /// Aimed at me: dispatched (a worker handles it).
    Directed,
    /// Observed or participatory but not aimed at me: stored as context to be pulled,
    /// never dispatched.
    Ambient,
}

/// Whether a message mentions the human.
pub open spec fn mentions_me(s: SharedView, text: Seq<char>) -> bool {
    s.my_user_id matches Some(me) && holds_text(text, "<@"@ + me + ">"@)
}

/// Whether a message is aimed at the human: a DM or group DM, a mention, or a reply in
/// a thread that already holds a directed row.
pub open spec fn directed(
    s: SharedView,
    channel_type: Option<Seq<char>>,
    text: Seq<char>,
    thread_ts: Option<Seq<char>>,
) -> bool {
    ||| channel_type == Some("im"@)
    ||| channel_type == Some("mpim"@)
    ||| mentions_me(s, text)
    ||| thread_ts matches Some(t) && s.db.thread_has_directed(t)
}

/// Whether a message is worth observing: in a watched channel, a manual post of the
/// human, or a reply in a thread that is on record.
pub open spec fn observed(
    s: SharedView,
    channel: Seq<char>,
    user: Option<Seq<char>>,
    thread_ts: Option<Seq<char>>,
) -> bool {
    ||| s.config.watch_channels.contains(channel)
    ||| s.is_me(user)
    ||| thread_ts matches Some(t) && s.db.thread_tracked(t)
}

/// How a message enters the queue. What makes it directed counts before what makes it
/// ambient.
pub open spec fn capture(
    s: SharedView,
    channel_type: Option<Seq<char>>,
    channel: Seq<char>,
    text: Seq<char>,
    user: Option<Seq<char>>,
    thread_ts: Option<Seq<char>>,
) -> Capture {
    if directed(s, channel_type, text, thread_ts) {
        Capture::Directed
    } else if observed(s, channel, user, thread_ts) {
        Capture::Ambient
    } else {
        Capture::Drop
    }
}

/// How a message enters the queue.
pub fn classify_message(
    shared: &Shared,
    channel_type: Option<&str>,
    channel: &str,
    text: &str,
    user: Option<&str>,
    thread_ts: Option<&str>,
) -> (r: Capture)
    ensures
        r == capture(
            shared@,
            opt_str(channel_type),
            channel@,
            text@,
            opt_str(user),
            opt_str(thread_ts),
        ),
{
    if let Some(t) = channel_type {
        if same(t, "im") || same(t, "mpim") {
            return Capture::Directed;
        }
    }
    if let Some(me) = &shared.my_user_id {
        let mention = "<@".to_owned().concat(me.as_str()).concat(">");
        if contains(text, mention.as_str()) {
            return Capture::Directed;
        }
    }
    if let Some(t) = thread_ts {
        if shared.db.thread_has_directed(t) {
            return Capture::Directed;
        }
    }
    if shared.config.watch_channels.contains(channel) {
        return Capture::Ambient;
    }
    if let (Some(me), Some(u)) = (&shared.my_user_id, user) {
        if same(u, me.as_str()) {
            return Capture::Ambient;
        }
    }
    if let Some(t) = thread_ts {
        if shared.db.thread_tracked(t) {
            return Capture::Ambient;
        }
    }
    Capture::Drop
}

/// Whether an event is a message that someone wrote, and not an edit, a deletion or a
/// message of the system.
pub open spec fn is_written(m: MessageEvent) -> bool {
    !(m.subtype matches Some(Subtype::Other)) && m.hidden != Some(true)
}

/// The status with which a message is stored, if it is: it was written, is no echo of
/// our own post, has text, a channel and an author, and is within capture scope.
pub open spec fn message_status(s: SharedView, m: MessageEvent) -> Option<Seq<char>> {
    if is_written(m) && !s.is_self_bot(opt_text(m.bot_id)) && (m.user is Some || m.bot_id is Some) {
        match (opt_text(m.text), opt_text(m.channel)) {
            (Some(text), Some(channel)) if trimmed(text).len() > 0 => match capture(
                s,
                opt_text(m.channel_type),
                channel,
                text,
                opt_text(m.user),
                opt_text(m.thread_ts),
            ) {
                Capture::Directed => Some("pending"@),
                Capture::Ambient => Some("ambient"@),
                Capture::Drop => None,
            },
            _ => None,
        }
    } else {
        None
    }
}

/// The thread to which a message belongs: that of which it is a reply, else its own.
pub open spec fn partition(m: MessageEvent) -> Seq<char> {
    match m.thread_ts {
        Some(t) => t@,
        None => m.ts@,
    }
}

/// The permalink of a message that has a channel.
pub open spec fn message_link(s: SharedView, m: MessageEvent) -> Option<Seq<char>> {
    match m.channel {
        Some(c) => s.permalink(c@, m.ts@),
        None => None,
    }
}

/// What is stored of a message.
pub open spec fn message_body(m: MessageEvent, permalink: Option<Seq<char>>) -> JsonView {
    JsonView::Object(
        map![
            "text"@ => text_or_null(opt_text(m.text)),
            "user"@ => text_or_null(opt_text(m.user)),
            "bot_id"@ => text_or_null(opt_text(m.bot_id)),
            "username"@ => text_or_null(opt_text(m.username)),
            "ts"@ => JsonView::Text(m.ts@),
            "thread_ts"@ => text_or_null(opt_text(m.thread_ts)),
            "channel"@ => text_or_null(opt_text(m.channel)),
            "permalink"@ => text_or_null(permalink),
        ],
    )
}

/// The tables after a message event.
pub open spec fn message_stored(
    s: SharedView,
    m: MessageEvent,
    status: Seq<char>,
    now: Seq<char>,
) -> DbView {
    s.db.inserted(
        "message"@,
        opt_text(m.channel),
        Some(partition(m)),
        m.ts@,
        json_written(message_body(m, message_link(s, m))),
        status,
        now,
    )
}

/// What comes of a message event: the result, and the state `after` it. The body of a
/// stored row is JSON from which the event is read back.
pub open spec fn message_outcome(
    s: SharedView,
    m: MessageEvent,
    now: Seq<char>,
    res: Result<Option<i64>, DbError>,
    after: SharedView,
) -> bool {
    match message_status(s, m) {
        None => res == Ok::<Option<i64>, DbError>(None) && after == s,
        Some(status) => if s.db.last_pk == i64::MAX {
            res == Err::<Option<i64>, DbError>(DbError::Full) && after == s
        } else {
            &&& res == Ok::<Option<i64>, DbError>(Some((s.db.last_pk + 1) as i64))
            &&& after == s.with_db(message_stored(s, m, status, now))
            &&& denotes(after.db.messages.last().body, message_body(m, message_link(s, m)))
        },
    }
}

proof fn lemma_message_body_plain(m: MessageEvent, permalink: Option<Seq<char>>)
    ensures
        json_plain(message_body(m, permalink)),
{
    reveal_strlit("$serde_json::private::RawValue");
    reveal_strlit("text");
    reveal_strlit("user");
    reveal_strlit("bot_id");
    reveal_strlit("username");
    reveal_strlit("ts");
    reveal_strlit("thread_ts");
    reveal_strlit("channel");
    reveal_strlit("permalink");
    reveal_with_fuel(json_fits, 2);
    assert(raw_marker().len() == 30);
}

/// What is stored of a message.
pub fn message_json(m: &MessageEvent, permalink: &Option<String>) -> (r: Json)
    ensures
        r@ == message_body(*m, opt_text(*permalink)),
{
    Json::object().with("text", Json::opt(&m.text)).with("user", Json::opt(&m.user)).with(
        "bot_id",
        Json::opt(&m.bot_id),
    ).with("username", Json::opt(&m.username)).with("ts", Json::text(m.ts.as_str())).with(
        "thread_ts",
        Json::opt(&m.thread_ts),
    ).with("channel", Json::opt(&m.channel)).with("permalink", Json::opt(permalink))
}

/// Capture a message event at the time `now`: store it as `pending` where it is aimed
/// at the human, as `ambient` where it is only worth observing, and drop it
/// otherwise. Returns the key of the row, if one was stored.
pub fn handle_message(shared: &mut Shared, m: &MessageEvent, now: &str) -> (r: Result<
    Option<i64>,
    DbError,
>)
    requires
        old(shared).wf(),
    ensures
        final(shared).wf(),
        message_outcome(old(shared)@, *m, now@, r, final(shared)@),
{
    // Triage: keep what a human or a bot wrote, drop edits, deletes and system messages.
    if let Some(Subtype::Other) = &m.subtype {
        return Ok(None);
    }
    if let Some(true) = m.hidden {
        return Ok(None);
    }
    // Echo suppression: our own posts come back with a bot id of our own. Manual posts
    // have none, so they survive.
    if let Some(bot) = &m.bot_id {
        if shared.is_self_bot(bot.as_str()) {
            return Ok(None);
        }
    }
    let text = match &m.text {
        Some(t) => t.as_str(),
        None => return Ok(None),
    };
    if trim(text).is_empty() {
        return Ok(None);
    }
    let channel = match &m.channel {
        Some(c) => c.as_str(),
        None => return Ok(None),
    };
    if m.user.is_none() && m.bot_id.is_none() {
        return Ok(None);
    }
    let status = match classify_message(
        shared,
        opt_ref(&m.channel_type),
        channel,
        text,
        opt_ref(&m.user),
        opt_ref(&m.thread_ts),
    ) {
        Capture::Drop => return Ok(None),
        Capture::Directed => "pending",
        Capture::Ambient => "ambient",
    };
    let part = match &m.thread_ts {
        Some(t) => t.as_str(),
        None => m.ts.as_str(),
    };
    let link = shared.permalink(channel, m.ts.as_str());
    let body = to_text(&message_json(m, &link));
    proof {
        lemma_message_body_plain(*m, opt_text(link));
    }
    match shared.db.insert_with_status(
        "message",
        Some(channel),
        Some(part),
        m.ts.as_str(),
        body.as_str(),
        status,
        now,
    ) {
        Ok(pk) => Ok(Some(pk)),
        Err(e) => Err(e),
    }
}

/// The channel of the item that a reaction stands on.
pub open spec fn item_channel(r: ReactionEvent) -> Option<Seq<char>> {
    match r.item {
        ReactionItem::Message { channel, ts } => opt_text(channel),
        ReactionItem::File => None,
    }
}

/// The timestamp of the item that a reaction stands on.
pub open spec fn item_ts(r: ReactionEvent) -> Option<Seq<char>> {
    match r.item {
        ReactionItem::Message { channel, ts } => Some(ts@),
        ReactionItem::File => None,
    }
}

/// What a reaction stands on.
pub open spec fn item_type(r: ReactionEvent) -> Seq<char> {
    match r.item {
        ReactionItem::Message { channel, ts } => "message"@,
        ReactionItem::File => "file"@,
    }
}

/// The key under which a reaction to a message would be on record.
pub open spec fn echo_key(r: ReactionEvent) -> Seq<char> {
    key_of(
        match item_channel(r) {
            Some(c) => c,
            None => ""@,
        },
        item_ts(r)->0,
        r.reaction@,
    )
}

/// Whether a reaction may be an echo of our own: the human reacts to a message.
pub open spec fn may_be_echo(s: SharedView, r: ReactionEvent) -> bool {
    s.is_me(Some(r.user@)) && item_ts(r) is Some
}

/// Whether a reaction is the echo of one that we emitted.
pub open spec fn is_echo(s: SharedView, r: ReactionEvent, now: u64) -> bool {
    may_be_echo(s, r) && s.emitted(echo_key(r), now)
}

/// The state after the check for echoes.
pub open spec fn echo_checked(s: SharedView, r: ReactionEvent, now: u64) -> SharedView {
    if may_be_echo(s, r) {
        s.reaction_taken(echo_key(r), now)
    } else {
        s
    }
}

/// Whether a reaction is within capture scope: by the human (a reaction as a command),
/// on a message of the human, or in a thread that is on record.
pub open spec fn reaction_in_scope(s: SharedView, r: ReactionEvent) -> bool {
    ||| s.is_me(Some(r.user@))
    ||| s.is_me(opt_text(r.item_user))
    ||| item_ts(r) matches Some(t) && s.db.thread_tracked(t)
}

/// The permalink of the message that a reaction stands on.
pub open spec fn reaction_link(s: SharedView, r: ReactionEvent) -> Option<Seq<char>> {
    match (item_channel(r), item_ts(r)) {
        (Some(c), Some(t)) => s.permalink(c, t),
        _ => None,
    }
}

/// What is stored of a reaction.
pub open spec fn reaction_body(r: ReactionEvent, permalink: Option<Seq<char>>) -> JsonView {
    JsonView::Object(
        map![
            "event"@ => JsonView::Text(r.event@),
            "user"@ => JsonView::Text(r.user@),
            "reaction"@ => JsonView::Text(r.reaction@),
            "item_type"@ => JsonView::Text(item_type(r)),
            "item_user"@ => text_or_null(opt_text(r.item_user)),
            "item_ts"@ => text_or_null(item_ts(r)),
            "event_ts"@ => JsonView::Text(r.event_ts@),
            "channel"@ => text_or_null(item_channel(r)),
            "permalink"@ => text_or_null(permalink),
        ],
    )
}

/// The tables after a reaction that is stored.
pub open spec fn reaction_stored(s: SharedView, r: ReactionEvent, now: Seq<char>) -> DbView {
    s.db.inserted(
        "reaction"@,
        item_channel(r),
        item_ts(r),
        r.event_ts@,
        json_written(reaction_body(r, reaction_link(s, r))),
        "pending"@,
        now,
    )
}

/// What comes of a reaction: the result, and the state `after` it. The body of a stored
/// row is JSON from which the event is read back.
pub open spec fn reaction_outcome(
    s: SharedView,
    r: ReactionEvent,
    now: Seq<char>,
    instant: u64,
    res: Result<Option<i64>, DbError>,
    after: SharedView,
) -> bool {
    let checked = echo_checked(s, r, instant);
    if is_echo(s, r, instant) || !reaction_in_scope(s, r) {
        res == Ok::<Option<i64>, DbError>(None) && after == checked
    } else if s.db.last_pk == i64::MAX {
        res == Err::<Option<i64>, DbError>(DbError::Full) && after == checked
    } else {
        &&& res == Ok::<Option<i64>, DbError>(Some((s.db.last_pk + 1) as i64))
        &&& after == checked.with_db(reaction_stored(s, r, now))
        &&& denotes(after.db.messages.last().body, reaction_body(r, reaction_link(s, r)))
    }
}

proof fn lemma_reaction_body_plain(r: ReactionEvent, permalink: Option<Seq<char>>)
    ensures
        json_plain(reaction_body(r, permalink)),
{
    reveal_strlit("$serde_json::private::RawValue");
    reveal_strlit("event");
    reveal_strlit("user");
    reveal_strlit("reaction");
    reveal_strlit("item_type");
    reveal_strlit("item_user");
    reveal_strlit("item_ts");
    reveal_strlit("event_ts");
    reveal_strlit("channel");
    reveal_strlit("permalink");
    reveal_with_fuel(json_fits, 2);
    assert(raw_marker().len() == 30);
}

fn item_place(r: &ReactionEvent) -> (place: (Option<String>, Option<String>))
    ensures
        opt_text(place.0) == item_channel(*r),
        opt_text(place.1) == item_ts(*r),
{
    match &r.item {
        ReactionItem::Message { channel, ts } => (opt_copy(channel), Some(ts.clone())),
        ReactionItem::File => (None, None),
    }
}

/// What is stored of a reaction.
pub fn reaction_json(r: &ReactionEvent, permalink: &Option<String>) -> (j: Json)
    ensures
        j@ == reaction_body(*r, opt_text(*permalink)),
{
    let (channel, ts) = item_place(r);
    let kind = match &r.item {
        ReactionItem::Message { .. } => "message",
        ReactionItem::File => "file",
    };
    Json::object().with("event", Json::text(r.event.as_str())).with(
        "user",
        Json::text(r.user.as_str()),
    ).with("reaction", Json::text(r.reaction.as_str())).with("item_type", Json::text(kind)).with(
        "item_user",
        Json::opt(&r.item_user),
    ).with("item_ts", Json::opt(&ts)).with("event_ts", Json::text(r.event_ts.as_str())).with(
        "channel",
        Json::opt(&channel),
    ).with("permalink", Json::opt(permalink))
}

/// Capture a reaction at the time `now`, of which `instant` counts the nanoseconds:
/// drop the echo of one that we emitted and what is outside capture scope, and store
/// the rest. Returns the key of the row, if one was stored.
pub fn handle_reaction(shared: &mut Shared, r: &ReactionEvent, now: &str, instant: u64) -> (res:
    Result<Option<i64>, DbError>)
    requires
        old(shared).wf(),
    ensures
        final(shared).wf(),
        reaction_outcome(old(shared)@, *r, now@, instant, res, final(shared)@),
{
    let (channel, ts) = item_place(r);
    let by_me = opt_same(&shared.my_user_id, r.user.as_str());
    // A reaction event has no bot id: match the key recorded when we emitted a reaction,
    // and only for reactions of the human.
    if by_me {
        if let Some(it) = &ts {
            let place = match &channel {
                Some(c) => c.as_str(),
                None => "",
            };
            let key = reaction_key(place, it.as_str(), r.reaction.as_str());
            if shared.take_self_reaction(key.as_str(), instant) {
                return Ok(None);
            }
        }
    }
    let on_my_message = match &r.item_user {
        Some(u) => opt_same(&shared.my_user_id, u.as_str()),
        None => false,
    };
    let in_tracked = match &ts {
        Some(t) => shared.db.thread_tracked(t.as_str()),
        None => false,
    };
    if !(by_me || on_my_message || in_tracked) {
        return Ok(None);
    }
    let link = match (&channel, &ts) {
        (Some(c), Some(t)) => shared.permalink(c.as_str(), t.as_str()),
        _ => None,
    };
    let body = to_text(&reaction_json(r, &link));
    proof {
        lemma_reaction_body_plain(*r, opt_text(link));
    }
    match shared.db.insert(
        "reaction",
        opt_ref(&channel),
        opt_ref(&ts),
        r.event_ts.as_str(),
        body.as_str(),
        now,
    ) {
        Ok(pk) => Ok(Some(pk)),
        Err(e) => Err(e),
    }
}

/// What came of an event that Slack pushed.
pub enum Pushed {
    /// The message was the free-text answer to an ask.
    Answer(Answered),
    /// The event was captured, under a key where a row was stored, or dropped.
    Captured(Result<Option<i64>, DbError>),
}

/// The channel and the thread of which the root has to be read before an event is handled:
/// those of the ask to which it may be the free-text answer.
pub fn root_needed(shared: &Shared, event: &PushEvent) -> (r: Option<(String, String)>)
    ensures
        match *event {
            PushEvent::Message(m) => match r {
                Some((channel, thread_ts)) => answer_thread(shared@, m) == Some(
                    (channel@, thread_ts@),
                ),
                None => answer_thread(shared@, m) is None,
            },
            _ => r is None,
        },
{
    match event {
        PushEvent::Message(m) => answer_target(shared, m),
        _ => None,
    }
}

/// Handle an event that Slack pushes. The human's reply in an ask's thread is a free-text
/// answer, not a new message; other messages and reactions are captured, and events of
/// other kinds are passed over. `root` is the message at the root of [`root_needed`],
/// None where it could not be read.
pub fn handle_push_event(
    shared: &mut Shared,
    event: &PushEvent,
    root: &Option<Content>,
    now: &str,
    instant: u64,
) -> (r: Pushed)
    requires
        old(shared).wf(),
    ensures
        final(shared).wf(),
        match (*event, r) {
            (PushEvent::Message(m), Pushed::Answer(a)) => answer_outcome(
                old(shared)@,
                m,
                opt_content(*root),
                now@,
                Some(a),
                final(shared)@,
            ),
            (PushEvent::Message(m), Pushed::Captured(res)) => {
                &&& !is_answer(old(shared)@, m, opt_content(*root))
                &&& message_outcome(old(shared)@, m, now@, res, final(shared)@)
            },
            (PushEvent::Reaction(e), Pushed::Captured(res)) => reaction_outcome(
                old(shared)@,
                e,
                now@,
                instant,
                res,
                final(shared)@,
            ),
            (PushEvent::Other, Pushed::Captured(res)) => {
                &&& res == Ok::<Option<i64>, DbError>(None)
                &&& final(shared)@ == old(shared)@
            },
            _ => false,
        },
{
    match event {
        PushEvent::Message(m) => match try_free_text_answer(shared, m, root, now) {
            Some(a) => Pushed::Answer(a),
            None => Pushed::Captured(handle_message(shared, m, now)),
        },
        PushEvent::Reaction(e) => Pushed::Captured(handle_reaction(shared, e, now, instant)),
        PushEvent::Other => Pushed::Captured(Ok(None)),
    }
}

} // verus!
