//! The store. The `messages` table is the canonical inbound sink: only events that
//! come from Slack flow through it, and it is the queue that the consumer drains.
//! `meta` is a small key-value table for daemon state that must survive restarts
//! (the learned bot id that echo suppression uses).
//!
//! A [`Db`] holds the contents of both tables. The daemon fills it from the database
//! file with [`Db::open`] and writes back what [`Db::changes`] says.

use crate::config::{config_base, config_dir, var_or, Env, EnvView};
use crate::text::{
    is_before, opt_copy, opt_owned, opt_same, opt_str, opt_text, precedes, precedes_is_total,
    precedes_is_transitive, same, texts,
};
use vstd::hash_map::StringHashMap;
use vstd::hash_set::StringHashSet;
use vstd::prelude::*;
use vstd::string::*;

verus! {

/// The path of the database file: `$SLACK_DEPUTY_DB`, else
/// `slack-deputy/slack-deputy.db` in the directory for configuration files.
pub open spec fn db_path(env: EnvView) -> Seq<char> {
    var_or(env, "SLACK_DEPUTY_DB"@, config_base(env) + "/slack-deputy/slack-deputy.db"@)
}

fn default_path(env: &Env) -> (r: String)
    ensures
        r@ == config_base(env@) + "/slack-deputy/slack-deputy.db"@,
{
    config_dir(env).concat("/slack-deputy/slack-deputy.db")
}

/// The path of the database file. A fixed path, so that every process agrees on it
/// whatever its current directory is.
pub fn resolve_path(env: &Env) -> (r: String)
    ensures
        r@ == db_path(env@),
{
    match env.var("SLACK_DEPUTY_DB") {
        Some(path) => path,
        None => default_path(env),
    }
}

/// A row of `messages`.
pub struct Message {
    pub pk: i64,
    /// `message`, `reaction` or `confirmation`.
    pub kind: String,
    pub channel: Option<String>,
    /// The partition: rows of one thread are handled one at a time.
    pub thread_ts: Option<String>,
    /// The Slack timestamp, by which the queue is ordered.
    pub ts: String,
    /// The event as JSON.
    pub body: String,
    /// `pending`, `dispatched`, `done`, `awaiting_human`, `ambient` or `skipped`.
    pub status: String,
    pub created_at: String,
}

/// What a row of `messages` holds.
pub struct MessageView {
    pub pk: int,
    pub kind: Seq<char>,
    pub channel: Option<Seq<char>>,
    pub thread_ts: Option<Seq<char>>,
    pub ts: Seq<char>,
    pub body: Seq<char>,
    pub status: Seq<char>,
    pub created_at: Seq<char>,
}

impl Message {
    /// What the row holds.
    pub open spec fn view(self) -> MessageView {
        MessageView {
            pk: self.pk as int,
            kind: self.kind@,
            channel: opt_text(self.channel),
            thread_ts: opt_text(self.thread_ts),
            ts: self.ts@,
            body: self.body@,
            status: self.status@,
            created_at: self.created_at@,
        }
    }
}

/// What each row of a list holds.
pub open spec fn messages_view(rows: Seq<Message>) -> Seq<MessageView> {
    rows.map_values(|m: Message| m@)
}

/// A row summary for `tail`: what is worth watching.
pub struct Row {
    pub pk: i64,
    pub kind: String,
    pub channel: Option<String>,
    pub status: String,
    pub body: String,
}

/// What a row summary holds.
pub struct RowView {
    pub pk: int,
    pub kind: Seq<char>,
    pub channel: Option<Seq<char>>,
    pub status: Seq<char>,
    pub body: Seq<char>,
}

impl Row {
    /// What the summary holds.
    pub open spec fn view(self) -> RowView {
        RowView {
            pk: self.pk as int,
            kind: self.kind@,
            channel: opt_text(self.channel),
            status: self.status@,
            body: self.body@,
        }
    }
}

/// What each summary of a list holds.
pub open spec fn rows_view(rows: Seq<Row>) -> Seq<RowView> {
    rows.map_values(|r: Row| r@)
}

impl MessageView {
    /// The summary of the row.
    pub open spec fn summary(self) -> RowView {
        RowView {
            pk: self.pk,
            kind: self.kind,
            channel: self.channel,
            status: self.status,
            body: self.body,
        }
    }

    /// The row with another status.
    pub open spec fn with_status(self, status: Seq<char>) -> MessageView {
        MessageView { status, ..self }
    }

    /// Whether the row is the root of a thread or belongs to it.
    pub open spec fn in_thread(self, thread_ts: Seq<char>) -> bool {
        self.ts == thread_ts || self.thread_ts == Some(thread_ts)
    }

    /// Whether the row waits to be claimed.
    pub open spec fn is_pending(self) -> bool {
        self.status == "pending"@
    }

    /// Whether the row is being handled as part of a thread.
    pub open spec fn holds_thread(self, thread_ts: Seq<char>) -> bool {
        self.status == "dispatched"@ && self.thread_ts == Some(thread_ts)
    }

    /// Whether the row comes before another in the queue: by timestamp, and by age
    /// where the timestamps are the same.
    pub open spec fn ahead_of(self, other: MessageView) -> bool {
        precedes(self.ts, other.ts) || (self.ts == other.ts && self.pk < other.pk)
    }
}

/// The contents of both tables.
pub struct DbView {
    /// The rows in the order of their keys.
    pub messages: Seq<MessageView>,
    /// The highest key ever given.
    pub last_pk: int,
    pub meta: Map<Seq<char>, Seq<char>>,
}

impl DbView {
    /// The keys ascend and do not exceed the highest one ever given.
    pub open spec fn wf(self) -> bool {
        &&& i64::MIN <= self.last_pk <= i64::MAX
        &&& forall|i: int|
            0 <= i < self.messages.len() ==> i64::MIN <= (#[trigger] self.messages[i]).pk
                <= self.last_pk
        &&& forall|i: int, j: int|
            0 <= i < j < self.messages.len() ==> (#[trigger] self.messages[i]).pk < (
            #[trigger] self.messages[j]).pk
    }

    /// Whether there is a row with the key.
    pub open spec fn has(self, pk: int) -> bool {
        exists|i: int| self.stands_at(pk, i)
    }

    /// Whether the row with the key stands at position `i`.
    pub open spec fn stands_at(self, pk: int, i: int) -> bool {
        0 <= i < self.messages.len() && self.messages[i].pk == pk
    }

    /// The position of the row with the key.
    pub open spec fn position(self, pk: int) -> int {
        choose|i: int| self.stands_at(pk, i)
    }

    /// The row with the key.
    pub open spec fn row(self, pk: int) -> MessageView {
        self.messages[self.position(pk)]
    }

    /// The key of the last row, 0 where there is none.
    pub open spec fn max_pk(self) -> int {
        if self.messages.len() > 0 {
            self.messages.last().pk
        } else {
            0
        }
    }

    /// The tables with one more row, under the next key.
    pub open spec fn inserted(
        self,
        kind: Seq<char>,
        channel: Option<Seq<char>>,
        thread_ts: Option<Seq<char>>,
        ts: Seq<char>,
        body: Seq<char>,
        status: Seq<char>,
        created_at: Seq<char>,
    ) -> DbView {
        let pk = self.last_pk + 1;
        DbView {
            messages: self.messages.push(
                MessageView { pk, kind, channel, thread_ts, ts, body, status, created_at },
            ),
            last_pk: pk,
            ..self
        }
    }

    /// The tables with another status in the row at position `i`.
    pub open spec fn with_status(self, i: int, status: Seq<char>) -> DbView {
        DbView {
            messages: self.messages.update(i, self.messages[i].with_status(status)),
            ..self
        }
    }

    /// The tables with another status in the row with the key, if there is one.
    pub open spec fn with_row_status(self, pk: int, status: Seq<char>) -> DbView {
        if self.has(pk) {
            self.with_status(self.position(pk), status)
        } else {
            self
        }
    }

    /// Whether the thread is on record: its root or a reply is stored.
    pub open spec fn thread_tracked(self, thread_ts: Seq<char>) -> bool {
        exists|i: int|
            0 <= i < self.messages.len() && (#[trigger] self.messages[i]).in_thread(thread_ts)
    }

    /// Whether the thread holds a row that is not `ambient`.
    pub open spec fn thread_has_directed(self, thread_ts: Seq<char>) -> bool {
        exists|i: int|
            0 <= i < self.messages.len() && (#[trigger] self.messages[i]).in_thread(thread_ts)
                && self.messages[i].status != "ambient"@
    }

    /// Whether a row of the thread is being handled.
    pub open spec fn in_flight(self, thread_ts: Seq<char>) -> bool {
        exists|i: int|
            0 <= i < self.messages.len() && (#[trigger] self.messages[i]).holds_thread(thread_ts)
    }

    /// Whether the row at position `i` may be claimed: it is pending and no row of
    /// its thread is being handled.
    pub open spec fn claimable(self, i: int) -> bool {
        &&& 0 <= i < self.messages.len()
        &&& self.messages[i].is_pending()
        &&& self.messages[i].thread_ts matches Some(t) ==> !self.in_flight(t)
    }

    /// Whether some row may be claimed.
    pub open spec fn has_claimable(self) -> bool {
        exists|i: int| self.claimable(i)
    }

    /// Whether the row at position `i` is the one to claim: of those that may be
    /// claimed, none comes before it in the queue.
    pub open spec fn is_next(self, i: int) -> bool {
        &&& self.claimable(i)
        &&& forall|j: int| #[trigger]
            self.claimable(j) ==> !self.messages[j].ahead_of(self.messages[i])
    }

    /// The rows whose keys exceed `after`, in order.
    pub open spec fn rows_after(self, after: int) -> Seq<RowView> {
        self.messages.filter(|m: MessageView| m.pk > after).map_values(
            |m: MessageView| m.summary(),
        )
    }

    /// The number of pending rows.
    pub open spec fn pending_count(self) -> nat {
        self.messages.filter(|m: MessageView| m.is_pending()).len()
    }

    /// The tables with every pending row skipped.
    pub open spec fn pending_skipped(self) -> DbView {
        DbView {
            messages: self.messages.map_values(
                |m: MessageView|
                    if m.is_pending() {
                        m.with_status("skipped"@)
                    } else {
                        m
                    },
            ),
            ..self
        }
    }
}

/// Why the store refuses.
pub enum DbError {
    /// No key is left.
    Full,
    /// The rows read are not in the order of their keys.
    Corrupt,
}

/// The contents of both tables.
pub struct Db {
    messages: Vec<Message>,
    last_pk: i64,
    meta: StringHashMap<String>,
}

/// The entries of a list, by key; of two entries with one key the later holds.
pub open spec fn entries(list: Seq<(String, String)>) -> Map<Seq<char>, Seq<char>>
    decreases list.len(),
{
    if list.len() == 0 {
        Map::empty()
    } else {
        entries(list.drop_last()).insert(list.last().0@, list.last().1@)
    }
}

spec fn meta_view(m: Map<Seq<char>, String>) -> Map<Seq<char>, Seq<char>> {
    m.map_values(|s: String| s@)
}

proof fn lemma_meta_insert(m: Map<Seq<char>, String>, k: Seq<char>, v: String)
    ensures
        meta_view(m.insert(k, v)) == meta_view(m).insert(k, v@),
{
    assert(meta_view(m.insert(k, v)) =~= meta_view(m).insert(k, v@));
}

impl DbView {
    /// The key of a row tells its position.
    pub proof fn position_of_key(self, i: int)
        requires
            self.wf(),
            0 <= i < self.messages.len(),
        ensures
            self.has(self.messages[i].pk),
            self.position(self.messages[i].pk) == i,
    {
        let pk = self.messages[i].pk;
        assert(self.stands_at(pk, i));
        let k = self.position(pk);
        assert(self.stands_at(pk, k));
        assert(k == i);
    }
}

/// The highest key ever given, where `recorded` is the one on record: the last row may have
/// a higher one, and an empty table starts with 1 at the lowest.
pub open spec fn highest_given(messages: Seq<MessageView>, recorded: int) -> int {
    let last = if messages.len() > 0 {
        messages.last().pk
    } else {
        0
    };
    if recorded > last {
        recorded
    } else {
        last
    }
}

impl Db {
    /// The contents of the tables.
    pub closed spec fn view(self) -> DbView {
        DbView {
            messages: messages_view(self.messages@),
            last_pk: self.last_pk as int,
            meta: meta_view(self.meta@),
        }
    }

    /// The store with the rows of `messages` in the order of their keys and the entries of
    /// `meta`. `last_pk` is the highest key on record as given, 0 where none is; keys go on
    /// from it, or from the key of the last row where that is higher.
    pub fn open(messages: Vec<Message>, last_pk: i64, meta: Vec<(String, String)>) -> (r: Result<
        Db,
        DbError,
    >)
        ensures
            ({
                let read = DbView {
                    messages: messages_view(messages@),
                    last_pk: highest_given(messages_view(messages@), last_pk as int),
                    meta: entries(meta@),
                };
                match r {
                    Ok(db) => read.wf() && db@ == read,
                    Err(e) => !read.wf() && e == DbError::Corrupt,
                }
            }),
    {
        let ghost read = DbView {
            messages: messages_view(messages@),
            last_pk: highest_given(messages_view(messages@), last_pk as int),
            meta: entries(meta@),
        };
        let mut i: usize = 1;
        while i < messages.len()
            invariant
                1 <= i,
                i <= messages@.len() || i == 1,
                read.messages == messages_view(messages@),
                forall|k: int, l: int|
                    0 <= k < l < i && l < messages@.len() ==> (#[trigger] read.messages[k]).pk < (
                    #[trigger] read.messages[l]).pk,
            decreases messages@.len() - i,
        {
            assert(read.messages[i as int].pk == messages@[i as int].pk);
            assert(read.messages[i - 1].pk == messages@[i - 1].pk);
            if messages[i - 1].pk >= messages[i].pk {
                return Err(DbError::Corrupt);
            }
            i += 1;
        }
        let n = messages.len();
        let last: i64 = if n > 0 {
            messages[n - 1].pk
        } else {
            0
        };
        let last_pk: i64 = if last_pk > last {
            last_pk
        } else {
            last
        };
        proof {
            if n > 0 {
                assert(read.messages.last() == messages@[n - 1]@);
            }
            assert(read.last_pk == last_pk);
            assert forall|k: int| 0 <= k < read.messages.len() implies i64::MIN <= (
            #[trigger] read.messages[k]).pk <= read.last_pk by {
                assert(read.messages[k] == messages@[k]@);
                assert(read.messages[n - 1] == messages@[n - 1]@);
            }
        }
        let mut map: StringHashMap<String> = StringHashMap::new();
        let mut k: usize = 0;
        proof {
            assert(meta@.take(0) =~= Seq::empty());
            assert(meta_view(map@) =~= Map::empty());
        }
        while k < meta.len()
            invariant
                k <= meta@.len(),
                meta_view(map@) == entries(meta@.take(k as int)),
            decreases meta@.len() - k,
        {
            proof {
                assert(meta@.take(k + 1).drop_last() =~= meta@.take(k as int));
                lemma_meta_insert(map@, meta@[k as int].0@, meta@[k as int].1);
            }
            map.insert(meta[k].0.clone(), meta[k].1.clone());
            k += 1;
        }
        proof {
            assert(meta@.take(meta@.len() as int) =~= meta@);
        }
        Ok(Db { messages, last_pk, meta: map })
    }

    /// The rows of `messages` in the order of their keys.
    pub fn rows(&self) -> (r: &Vec<Message>)
        ensures
            messages_view(r@) == self@.messages,
    {
        &self.messages
    }

    /// Insert an inbound event as a `pending` row. Returns its key.
    pub fn insert(
        &mut self,
        kind: &str,
        channel: Option<&str>,
        thread_ts: Option<&str>,
        ts: &str,
        body: &str,
        created_at: &str,
    ) -> (r: Result<i64, DbError>)
        requires
            old(self)@.wf(),
        ensures
            final(self)@.wf(),
            match r {
                Ok(pk) => {
                    &&& old(self)@.last_pk < i64::MAX
                    &&& pk == old(self)@.last_pk + 1
                    &&& final(self)@ == old(self)@.inserted(
                        kind@,
                        opt_str(channel),
                        opt_str(thread_ts),
                        ts@,
                        body@,
                        "pending"@,
                        created_at@,
                    )
                },
                Err(e) => {
                    &&& e == DbError::Full
                    &&& old(self)@.last_pk == i64::MAX
                    &&& final(self)@ == old(self)@
                },
            },
    {
        self.insert_with_status(kind, channel, thread_ts, ts, body, "pending", created_at)
    }

    /// Insert an inbound event with an explicit status. `ambient` rows are context to
    /// be pulled and are never dispatched: only `pending` rows are claimed.
    pub fn insert_with_status(
        &mut self,
        kind: &str,
        channel: Option<&str>,
        thread_ts: Option<&str>,
        ts: &str,
        body: &str,
        status: &str,
        created_at: &str,
    ) -> (r: Result<i64, DbError>)
        requires
            old(self)@.wf(),
        ensures
            final(self)@.wf(),
            match r {
                Ok(pk) => {
                    &&& old(self)@.last_pk < i64::MAX
                    &&& pk == old(self)@.last_pk + 1
                    &&& final(self)@ == old(self)@.inserted(
                        kind@,
                        opt_str(channel),
                        opt_str(thread_ts),
                        ts@,
                        body@,
                        status@,
                        created_at@,
                    )
                },
                Err(e) => {
                    &&& e == DbError::Full
                    &&& old(self)@.last_pk == i64::MAX
                    &&& final(self)@ == old(self)@
                },
            },
    {
        if self.last_pk == i64::MAX {
            return Err(DbError::Full);
        }
        let pk: i64 = self.last_pk + 1;
        let row = Message {
            pk,
            kind: kind.to_owned(),
            channel: opt_owned(channel),
            thread_ts: opt_owned(thread_ts),
            ts: ts.to_owned(),
            body: body.to_owned(),
            status: status.to_owned(),
            created_at: created_at.to_owned(),
        };
        let ghost before = self@;
        proof {
            assert(messages_view(self.messages@.push(row)) =~= messages_view(
                self.messages@,
            ).push(row@));
        }
        self.messages.push(row);
        self.last_pk = pk;
        proof {
            let after = self@;
            assert(after == before.inserted(
                kind@,
                opt_str(channel),
                opt_str(thread_ts),
                ts@,
                body@,
                status@,
                created_at@,
            ));
            assert forall|i: int| 0 <= i < after.messages.len() implies i64::MIN <= (
            #[trigger] after.messages[i]).pk <= after.last_pk by {
                if i < before.messages.len() {
                    assert(before.messages[i].pk <= before.last_pk);
                }
            }
            assert forall|i: int, j: int|
                0 <= i < j < after.messages.len() implies (#[trigger] after.messages[i]).pk < (
            #[trigger] after.messages[j]).pk by {
                assert(before.messages[i].pk <= before.last_pk);
                if j < before.messages.len() {
                    assert(before.messages[i].pk < before.messages[j].pk);
                }
            }
        }
        Ok(pk)
    }

    /// True if the thread is on record already: its root or any reply is stored,
    /// `ambient` or not. Capture scope uses this to keep following a thread as
    /// context.
    pub fn thread_tracked(&self, thread_ts: &str) -> (r: bool)
        ensures
            r == self@.thread_tracked(thread_ts@),
    {
        let mut i: usize = 0;
        while i < self.messages.len()
            invariant
                i <= self.messages@.len(),
                forall|k: int|
                    0 <= k < i ==> !(#[trigger] self@.messages[k]).in_thread(thread_ts@),
            decreases self.messages@.len() - i,
        {
            let m = &self.messages[i];
            assert(self@.messages[i as int] == m@);
            if same(m.ts.as_str(), thread_ts) || opt_same(&m.thread_ts, thread_ts) {
                return true;
            }
            i += 1;
        }
        false
    }

    /// True if the thread holds a row that is not `ambient`. Capture scope uses this
    /// so that a reply is dispatched only where a directed event put the thread on
    /// record: watching a channel must not dispatch every reply in its threads.
    pub fn thread_has_directed(&self, thread_ts: &str) -> (r: bool)
        ensures
            r == self@.thread_has_directed(thread_ts@),
    {
        let mut i: usize = 0;
        while i < self.messages.len()
            invariant
                i <= self.messages@.len(),
                forall|k: int|
                    0 <= k < i ==> !((#[trigger] self@.messages[k]).in_thread(thread_ts@)
                        && self@.messages[k].status != "ambient"@),
            decreases self.messages@.len() - i,
        {
            let m = &self.messages[i];
            assert(self@.messages[i as int] == m@);
            if (same(m.ts.as_str(), thread_ts) || opt_same(&m.thread_ts, thread_ts)) && !same(
                m.status.as_str(),
                "ambient",
            ) {
                return true;
            }
            i += 1;
        }
        false
    }

    /// The threads of which a row is being handled.
    fn busy_threads(&self) -> (r: StringHashSet)
        ensures
            forall|t: Seq<char>| #[trigger] r@.contains(t) <==> self@.in_flight(t),
    {
        let mut busy = StringHashSet::new();
        let mut i: usize = 0;
        while i < self.messages.len()
            invariant
                i <= self.messages@.len(),
                forall|t: Seq<char>| #[trigger]
                    busy@.contains(t) <==> exists|k: int|
                        0 <= k < i && (#[trigger] self@.messages[k]).holds_thread(t),
            decreases self.messages@.len() - i,
        {
            let m = &self.messages[i];
            assert(self@.messages[i as int] == m@);
            let ghost before = busy@;
            if same(m.status.as_str(), "dispatched") {
                if let Some(t) = &m.thread_ts {
                    busy.insert(t.clone());
                }
            }
            proof {
                assert forall|t: Seq<char>| #[trigger]
                    busy@.contains(t) <==> exists|k: int|
                        0 <= k < i + 1 && (#[trigger] self@.messages[k]).holds_thread(t) by {
                    if busy@.contains(t) && !before.contains(t) {
                        assert(self@.messages[i as int].holds_thread(t));
                    }
                    if before.contains(t) {
                        let k = choose|k: int|
                            0 <= k < i && (#[trigger] self@.messages[k]).holds_thread(t);
                        assert(0 <= k < i + 1 && self@.messages[k].holds_thread(t));
                    }
                }
            }
            i += 1;
        }
        busy
    }

    /// The position of the row to claim.
    fn next_position(&self) -> (r: Option<usize>)
        requires
            self@.wf(),
        ensures
            match r {
                Some(i) => self@.is_next(i as int),
                None => !self@.has_claimable(),
            },
    {
        let busy = self.busy_threads();
        let mut best: Option<usize> = None;
        let mut i: usize = 0;
        while i < self.messages.len()
            invariant
                self@.wf(),
                i <= self.messages@.len(),
                forall|t: Seq<char>| #[trigger] busy@.contains(t) <==> self@.in_flight(t),
                match best {
                    Some(b) => {
                        &&& b < i
                        &&& self@.claimable(b as int)
                        &&& forall|j: int|
                            0 <= j < i && #[trigger] self@.claimable(j)
                                ==> !self@.messages[j].ahead_of(self@.messages[b as int])
                    },
                    None => forall|j: int| 0 <= j < i ==> !#[trigger] self@.claimable(j),
                },
            decreases self.messages@.len() - i,
        {
            let m = &self.messages[i];
            assert(self@.messages[i as int] == m@);
            let free = match &m.thread_ts {
                Some(t) => !busy.contains(t.as_str()),
                None => true,
            };
            if same(m.status.as_str(), "pending") && free {
                proof {
                    assert(self@.claimable(i as int));
                    precedes_is_total(m.ts@, m.ts@);
                }
                match best {
                    Some(b) => {
                        assert(self@.messages[b as int] == self.messages@[b as int]@);
                        assert(self@.messages[b as int].pk < self@.messages[i as int].pk);
                        if is_before(m.ts.as_str(), self.messages[b].ts.as_str()) {
                            proof {
                                assert forall|j: int|
                                    0 <= j < i + 1 && #[trigger] self@.claimable(
                                        j,
                                    ) implies !self@.messages[j].ahead_of(
                                    self@.messages[i as int],
                                ) by {
                                    let tj = self@.messages[j].ts;
                                    precedes_is_total(tj, m.ts@);
                                    precedes_is_total(
                                        tj,
                                        self@.messages[b as int].ts,
                                    );
                                    if precedes(tj, m.ts@) {
                                        precedes_is_transitive(
                                            tj,
                                            m.ts@,
                                            self@.messages[b as int].ts,
                                        );
                                    }
                                }
                            }
                            best = Some(i);
                        }
                    },
                    None => {
                        best = Some(i);
                    },
                }
            }
            i += 1;
        }
        best
    }

    /// Claim the oldest pending row of which no row of the same thread is being
    /// handled, and mark it `dispatched`. Returns its key and its thread; the body is
    /// left out, since whoever dispatches never reads it.
    pub fn claim_next(&mut self) -> (r: Option<(i64, Option<String>)>)
        requires
            old(self)@.wf(),
        ensures
            final(self)@.wf(),
            match r {
                Some((pk, thread_ts)) => exists|i: int|
                    {
                        &&& #[trigger] old(self)@.is_next(i)
                        &&& pk == old(self)@.messages[i].pk
                        &&& opt_text(thread_ts) == old(self)@.messages[i].thread_ts
                        &&& final(self)@ == old(self)@.with_status(i, "dispatched"@)
                    },
                None => !old(self)@.has_claimable() && final(self)@ == old(self)@,
            },
    {
        match self.next_position() {
            Some(i) => {
                let ghost before = self@;
                assert(self@.messages[i as int] == self.messages@[i as int]@);
                let pk = self.messages[i].pk;
                let thread_ts = opt_copy(&self.messages[i].thread_ts);
                self.set_status_at(i, "dispatched");
                assert(before.is_next(i as int));
                Some((pk, thread_ts))
            },
            None => None,
        }
    }

    fn set_status_at(&mut self, i: usize, status: &str)
        requires
            old(self)@.wf(),
            i < old(self)@.messages.len(),
        ensures
            final(self)@.wf(),
            final(self)@ == old(self)@.with_status(i as int, status@),
    {
        let ghost before = self@;
        let ghost rows = self.messages@;
        self.messages[i].status = status.to_owned();
        proof {
            assert(self@.messages =~= before.messages.update(
                i as int,
                before.messages[i as int].with_status(status@),
            ));
            assert forall|k: int| 0 <= k < self@.messages.len() implies (
            #[trigger] self@.messages[k]).pk == before.messages[k].pk by {}
        }
    }

    /// True if some row may be claimed: [`Db::claim_next`] would return one.
    pub fn has_claimable(&self) -> (r: bool)
        requires
            self@.wf(),
        ensures
            r == self@.has_claimable(),
    {
        self.next_position().is_some()
    }

    /// The highest key, 0 where there is no row.
    pub fn max_pk(&self) -> (r: i64)
        ensures
            r == self@.max_pk(),
    {
        let n = self.messages.len();
        if n > 0 {
            assert(self@.messages[n - 1] == self.messages@[n - 1]@);
            self.messages[n - 1].pk
        } else {
            0
        }
    }

    /// The rows whose keys exceed `after`, oldest first.
    pub fn rows_after(&self, after: i64) -> (r: Vec<Row>)
        ensures
            rows_view(r@) == self@.rows_after(after as int),
    {
        let ghost later = |m: MessageView| m.pk > after as int;
        let ghost short = |m: MessageView| m.summary();
        let ghost all = self@.messages;
        let mut out: Vec<Row> = Vec::new();
        let mut i: usize = 0;
        proof {
            reveal(Seq::filter);
            assert(rows_view(out@) =~= all.take(0).filter(later).map_values(short));
        }
        while i < self.messages.len()
            invariant
                i <= self.messages@.len(),
                all == messages_view(self.messages@),
                later == |m: MessageView| m.pk > after as int,
                short == |m: MessageView| m.summary(),
                rows_view(out@) == all.take(i as int).filter(later).map_values(short),
            decreases self.messages@.len() - i,
        {
            let m = &self.messages[i];
            proof {
                reveal(Seq::filter);
                assert(all[i as int] == m@);
                assert(all.take(i + 1).drop_last() =~= all.take(i as int));
            }
            if m.pk > after {
                let row = Row {
                    pk: m.pk,
                    kind: m.kind.clone(),
                    channel: opt_copy(&m.channel),
                    status: m.status.clone(),
                    body: m.body.clone(),
                };
                proof {
                    assert(rows_view(out@.push(row)) =~= rows_view(out@).push(row@));
                    let kept = all.take(i as int).filter(later);
                    assert(kept.push(m@).map_values(short) =~= kept.map_values(short).push(
                        m@.summary(),
                    ));
                }
                out.push(row);
            }
            i += 1;
        }
        proof {
            assert(all.take(all.len() as int) =~= all);
        }
        out
    }

    fn find(&self, pk: i64) -> (r: Option<usize>)
        requires
            self@.wf(),
        ensures
            match r {
                Some(i) => i < self@.messages.len() && self@.has(pk as int) && self@.position(
                    pk as int,
                ) == i,
                None => !self@.has(pk as int),
            },
    {
        let mut i: usize = 0;
        while i < self.messages.len()
            invariant
                self@.wf(),
                i <= self.messages@.len(),
                forall|k: int| 0 <= k < i ==> !#[trigger] self@.stands_at(pk as int, k),
            decreases self.messages@.len() - i,
        {
            assert(self@.messages[i as int] == self.messages@[i as int]@);
            if self.messages[i].pk == pk {
                proof {
                    self@.position_of_key(i as int);
                }
                return Some(i);
            }
            i += 1;
        }
        None
    }

    /// The body of the row with the key, if there is one.
    pub fn get_body(&self, pk: i64) -> (r: Option<String>)
        requires
            self@.wf(),
        ensures
            match r {
                Some(body) => self@.has(pk as int) && body@ == self@.row(pk as int).body,
                None => !self@.has(pk as int),
            },
    {
        match self.find(pk) {
            Some(i) => {
                assert(self@.messages[i as int] == self.messages@[i as int]@);
                Some(self.messages[i].body.clone())
            },
            None => None,
        }
    }

    /// Give the row with the key another status. Returns how many rows changed.
    pub fn set_status(&mut self, pk: i64, status: &str) -> (r: usize)
        requires
            old(self)@.wf(),
        ensures
            final(self)@.wf(),
            r == (if old(self)@.has(pk as int) {
                1int
            } else {
                0
            }),
            final(self)@ == old(self)@.with_row_status(pk as int, status@),
    {
        match self.find(pk) {
            Some(i) => {
                self.set_status_at(i, status);
                1
            },
            None => 0,
        }
    }

    /// Skip the row with the key, if it is pending. Returns how many rows changed.
    pub fn skip(&mut self, pk: i64) -> (r: usize)
        requires
            old(self)@.wf(),
        ensures
            final(self)@.wf(),
            ({
                let skips = old(self)@.has(pk as int) && old(self)@.row(pk as int).is_pending();
                &&& r == (if skips {
                    1int
                } else {
                    0
                })
                &&& final(self)@ == (if skips {
                    old(self)@.with_row_status(pk as int, "skipped"@)
                } else {
                    old(self)@
                })
            }),
    {
        match self.find(pk) {
            Some(i) => {
                assert(self@.messages[i as int] == self.messages@[i as int]@);
                if same(self.messages[i].status.as_str(), "pending") {
                    self.set_status_at(i, "skipped");
                    1
                } else {
                    0
                }
            },
            None => 0,
        }
    }

    /// Skip every pending row. Returns how many rows changed.
    pub fn skip_pending(&mut self) -> (r: usize)
        requires
            old(self)@.wf(),
        ensures
            final(self)@.wf(),
            r == old(self)@.pending_count(),
            final(self)@ == old(self)@.pending_skipped(),
    {
        let ghost before = self@;
        let ghost pending = |m: MessageView| m.is_pending();
        let mut count: usize = 0;
        let mut i: usize = 0;
        proof {
            reveal(Seq::filter);
            assert(before.messages.take(0).filter(pending).len() == 0);
        }
        while i < self.messages.len()
            invariant
                self@.wf(),
                i <= self.messages@.len(),
                count <= i,
                pending == |m: MessageView| m.is_pending(),
                self@.messages.len() == before.messages.len(),
                self@.last_pk == before.last_pk,
                self@.meta == before.meta,
                count == before.messages.take(i as int).filter(pending).len(),
                forall|k: int|
                    0 <= k < i ==> #[trigger] self@.messages[k]
                        == before.pending_skipped().messages[k],
                forall|k: int|
                    i <= k < before.messages.len() ==> #[trigger] self@.messages[k]
                        == before.messages[k],
            decreases self.messages@.len() - i,
        {
            let ghost mid = self@;
            proof {
                reveal(Seq::filter);
                assert(self@.messages[i as int] == self.messages@[i as int]@);
                assert(before.messages.take(i + 1).drop_last() =~= before.messages.take(i as int));
            }
            if same(self.messages[i].status.as_str(), "pending") {
                self.set_status_at(i, "skipped");
                count += 1;
                proof {
                    assert(self@.messages.len() == self.messages@.len());
                    assert forall|k: int| 0 <= k < i + 1 implies #[trigger] self@.messages[k]
                        == before.pending_skipped().messages[k] by {
                        if k < i {
                            assert(mid.messages[k] == self@.messages[k]);
                        }
                    }
                    assert forall|k: int|
                        i + 1 <= k < before.messages.len() implies #[trigger] self@.messages[k]
                        == before.messages[k] by {
                        assert(mid.messages[k] == self@.messages[k]);
                    }
                }
            }
            i += 1;
        }
        proof {
            assert(before.messages.take(before.messages.len() as int) =~= before.messages);
            assert(self@.messages =~= before.pending_skipped().messages);
        }
        count
    }

    /// The value under a key of `meta`, if there is one.
    pub fn meta_get(&self, key: &str) -> (r: Option<String>)
        ensures
            opt_text(r) == (if self@.meta.contains_key(key@) {
                Some(self@.meta[key@])
            } else {
                None
            }),
    {
        match self.meta.get(key) {
            Some(v) => Some(v.clone()),
            None => None,
        }
    }

    /// Put a value under a key of `meta`, in place of any that is there. Returns how
    /// many rows changed.
    pub fn meta_set(&mut self, key: &str, value: &str) -> (r: usize)
        ensures
            r == 1,
            final(self)@ == (DbView {
                meta: old(self)@.meta.insert(key@, value@),
                ..old(self)@
            }),
    {
        let v = value.to_owned();
        proof {
            lemma_meta_insert(self.meta@, key@, v);
        }
        self.meta.insert(key.to_owned(), v);
        1
    }
}

// --- writing back ---

/// What is in the database file: the statuses of its rows in the order of their keys, and the
/// learned bot id. The rest of a row never changes.
pub struct Saved {
    pub statuses: Vec<String>,
    pub bot_id: Option<String>,
}

/// What is in the database file.
pub struct SavedView {
    pub statuses: Seq<Seq<char>>,
    pub bot_id: Option<Seq<char>>,
}

impl Saved {
    /// What is in the file.
    pub open spec fn view(self) -> SavedView {
        SavedView { statuses: texts(self.statuses@), bot_id: opt_text(self.bot_id) }
    }
}

/// What has to be written to the database file.
pub struct Changes {
    /// The keys of rows whose statuses changed, with the statuses.
    pub statuses: Vec<(i64, String)>,
    /// The rows that are new.
    pub rows: Vec<Message>,
    /// The entry of `meta` that changed.
    pub meta: Option<(String, String)>,
}

/// What has to be written to the database file.
pub struct ChangesView {
    pub statuses: Seq<(int, Seq<char>)>,
    pub rows: Seq<MessageView>,
    pub meta: Option<(Seq<char>, Seq<char>)>,
}

/// What each changed status is.
pub open spec fn statuses_view(v: Seq<(i64, String)>) -> Seq<(int, Seq<char>)> {
    v.map_values(|p: (i64, String)| (p.0 as int, p.1@))
}

impl Changes {
    /// What has to be written.
    pub open spec fn view(self) -> ChangesView {
        ChangesView {
            statuses: statuses_view(self.statuses@),
            rows: messages_view(self.rows@),
            meta: match self.meta {
                Some((key, value)) => Some((key@, value@)),
                None => None,
            },
        }
    }
}

/// The statuses that differ from those in the file, with the keys of their rows.
pub open spec fn changed_statuses(messages: Seq<MessageView>, saved: Seq<Seq<char>>) -> Seq<
    (int, Seq<char>),
>
    decreases saved.len(),
{
    if saved.len() == 0 {
        Seq::empty()
    } else {
        let i = saved.len() - 1;
        let before = changed_statuses(messages, saved.drop_last());
        if i < messages.len() && messages[i].status != saved[i] {
            before.push((messages[i].pk, messages[i].status))
        } else {
            before
        }
    }
}

impl DbView {
    /// The bot id on record.
    pub open spec fn bot_id(self) -> Option<Seq<char>> {
        if self.meta.contains_key("self_post_bot_id"@) {
            Some(self.meta["self_post_bot_id"@])
        } else {
            None
        }
    }

    /// What is in the file, where it holds these tables.
    pub open spec fn saved(self) -> SavedView {
        SavedView {
            statuses: self.messages.map_values(|m: MessageView| m.status),
            bot_id: self.bot_id(),
        }
    }

    /// What has to be written so that the file holds these tables: the statuses that differ,
    /// the rows beyond those in the file, and the bot id where it is another one.
    pub open spec fn changes(self, saved: SavedView) -> ChangesView {
        ChangesView {
            statuses: changed_statuses(self.messages, saved.statuses),
            rows: if saved.statuses.len() <= self.messages.len() {
                self.messages.skip(saved.statuses.len() as int)
            } else {
                Seq::empty()
            },
            meta: match self.bot_id() {
                Some(b) if saved.bot_id != Some(b) => Some(("self_post_bot_id"@, b)),
                _ => None,
            },
        }
    }

    /// The tables with some statuses set, one after the other.
    pub open spec fn with_statuses(self, list: Seq<(int, Seq<char>)>) -> DbView
        decreases list.len(),
    {
        if list.len() == 0 {
            self
        } else {
            let (pk, status) = list.last();
            self.with_statuses(list.drop_last()).with_row_status(pk, status)
        }
    }

    /// The tables that the file holds once changes are written to it.
    pub open spec fn written(self, changes: ChangesView) -> DbView {
        let db = self.with_statuses(changes.statuses);
        DbView {
            messages: db.messages + changes.rows,
            last_pk: if changes.rows.len() > 0 {
                changes.rows.last().pk
            } else {
                db.last_pk
            },
            meta: match changes.meta {
                Some((key, value)) => db.meta.insert(key, value),
                None => db.meta,
            },
        }
    }
}

impl Message {
    /// The same row again.
    pub fn copy(&self) -> (r: Message)
        ensures
            r@ == self@,
    {
        Message {
            pk: self.pk,
            kind: self.kind.clone(),
            channel: opt_copy(&self.channel),
            thread_ts: opt_copy(&self.thread_ts),
            ts: self.ts.clone(),
            body: self.body.clone(),
            status: self.status.clone(),
            created_at: self.created_at.clone(),
        }
    }
}

impl Db {
    /// What is in the file, where it holds these tables.
    pub fn saved(&self) -> (r: Saved)
        ensures
            r@ == self@.saved(),
    {
        let mut statuses: Vec<String> = Vec::new();
        let mut i: usize = 0;
        while i < self.messages.len()
            invariant
                i <= self.messages@.len(),
                statuses@.len() == i,
                forall|k: int|
                    0 <= k < i ==> (#[trigger] statuses@[k])@ == self.messages@[k].status@,
            decreases self.messages@.len() - i,
        {
            statuses.push(self.messages[i].status.clone());
            i += 1;
        }
        assert(texts(statuses@) =~= self@.messages.map_values(|m: MessageView| m.status));
        Saved { statuses, bot_id: self.meta_get("self_post_bot_id") }
    }

    /// What has to be written so that the file holds these tables, where `saved` is what it
    /// holds now.
    pub fn changes(&self, saved: &Saved) -> (r: Changes)
        ensures
            r@ == self@.changes(saved@),
    {
        let ghost old_statuses = texts(saved.statuses@);
        let mut statuses: Vec<(i64, String)> = Vec::new();
        let mut i: usize = 0;
        proof {
            assert(old_statuses.take(0) =~= Seq::empty());
            assert(statuses_view(statuses@) =~= Seq::empty());
        }
        while i < saved.statuses.len()
            invariant
                i <= saved.statuses@.len(),
                old_statuses == texts(saved.statuses@),
                statuses_view(statuses@) == changed_statuses(
                    self@.messages,
                    old_statuses.take(i as int),
                ),
            decreases saved.statuses@.len() - i,
        {
            proof {
                assert(old_statuses.take(i + 1).drop_last() =~= old_statuses.take(i as int));
                assert(old_statuses.take(i + 1)[i as int] == saved.statuses@[i as int]@);
            }
            if i < self.messages.len() {
                let m = &self.messages[i];
                assert(self@.messages[i as int] == m@);
                if !same(m.status.as_str(), saved.statuses[i].as_str()) {
                    let change = (m.pk, m.status.clone());
                    assert(statuses_view(statuses@.push(change)) =~= statuses_view(
                        statuses@,
                    ).push((m@.pk, m@.status)));
                    statuses.push(change);
                }
            }
            i += 1;
        }
        assert(old_statuses.take(old_statuses.len() as int) =~= old_statuses);
        let n = saved.statuses.len();
        let mut rows: Vec<Message> = Vec::new();
        let mut k: usize = n;
        while k < self.messages.len()
            invariant
                n <= k,
                k <= self.messages@.len() || k == n,
                rows@.len() == k - n,
                forall|j: int|
                    0 <= j < rows@.len() ==> (#[trigger] rows@[j])@ == self.messages@[n + j]@,
            decreases self.messages@.len() - k,
        {
            rows.push(self.messages[k].copy());
            k += 1;
        }
        proof {
            if n <= self.messages@.len() {
                assert(messages_view(rows@) =~= self@.messages.skip(n as int));
            } else {
                assert(messages_view(rows@) =~= Seq::empty());
            }
        }
        let meta = match self.meta_get("self_post_bot_id") {
            Some(b) => if opt_same(&saved.bot_id, b.as_str()) {
                None
            } else {
                Some(("self_post_bot_id".to_owned(), b))
            },
            None => None,
        };
        Changes { statuses, rows, meta }
    }
}

} // verus!
