//! Shared daemon state, which the socket callbacks and the HTTP handlers work on.

use crate::config::{Config, ConfigView};
use crate::db::{Db, DbView};
use crate::text::{opt_text, other_than, same, trim_end_matches, trimmed_end, without};
use vstd::hash_set::StringHashSet;
use vstd::prelude::*;
use vstd::string::*;

verus! {

/// How long the key of a reaction that we emitted stays in the echo ledger, in
/// nanoseconds: 300 seconds. Echoes return in seconds; a few minutes is plenty.
pub const REACT_TTL: u64 = 300_000_000_000;

/// Whether a key recorded at `at` is still in the ledger at `now`.
pub open spec fn in_time(at: u64, now: u64) -> bool {
    now - at < REACT_TTL
}

/// The keys of a ledger that are still in it at `now`.
pub open spec fn pruned(ledger: Map<Seq<char>, u64>, now: u64) -> Map<Seq<char>, u64> {
    ledger.restrict(Set::new(|k: Seq<char>| ledger.contains_key(k) && in_time(ledger[k], now)))
}

/// Reactions that we emitted, by their keys, with the time of each in nanoseconds.
pub struct Ledger {
    entries: Vec<(String, u64)>,
}

spec fn key_at(entries: Seq<(String, u64)>, key: Seq<char>, i: int) -> bool {
    0 <= i < entries.len() && entries[i].0@ == key
}

spec fn distinct_keys(entries: Seq<(String, u64)>) -> bool {
    forall|key: Seq<char>, i: int, j: int|
        #[trigger] key_at(entries, key, i) && #[trigger] key_at(entries, key, j) ==> i == j
}

spec fn ledger_view(entries: Seq<(String, u64)>) -> Map<Seq<char>, u64> {
    Map::new(
        |key: Seq<char>| exists|i: int| key_at(entries, key, i),
        |key: Seq<char>| entries[choose|i: int| key_at(entries, key, i)].1,
    )
}

/// Whether `e` is the record at position `i` below `n`, in time, and not of `key`.
spec fn stays_at(
    entries: Seq<(String, u64)>,
    n: int,
    key: Seq<char>,
    now: u64,
    e: (String, u64),
    i: int,
) -> bool {
    0 <= i < n && entries[i] == e && in_time(e.1, now) && e.0@ != key
}

spec fn stays(
    entries: Seq<(String, u64)>,
    n: int,
    key: Seq<char>,
    now: u64,
    e: (String, u64),
) -> bool {
    exists|i: int| stays_at(entries, n, key, now, e, i)
}

impl Ledger {
    /// The times by key.
    pub closed spec fn view(self) -> Map<Seq<char>, u64> {
        ledger_view(self.entries@)
    }

    /// No key is recorded twice.
    pub closed spec fn wf(self) -> bool {
        distinct_keys(self.entries@)
    }

    /// The empty ledger.
    pub fn new() -> (r: Ledger)
        ensures
            r.wf(),
            r@ == Map::<Seq<char>, u64>::empty(),
    {
        let r = Ledger { entries: Vec::new() };
        assert(r@ =~= Map::<Seq<char>, u64>::empty());
        r
    }

    /// Record a key at a time, in place of an earlier record of it.
    pub fn record(&mut self, key: String, now: u64)
        requires
            old(self).wf(),
        ensures
            final(self).wf(),
            final(self)@ == old(self)@.insert(key@, now),
    {
        let ghost before = self.entries@;
        let mut i: usize = 0;
        while i < self.entries.len()
            invariant
                self.entries@ == before,
                old(self)@ == ledger_view(before),
                distinct_keys(before),
                i <= before.len(),
                forall|k: int| 0 <= k < i ==> !#[trigger] key_at(before, key@, k),
            decreases before.len() - i,
        {
            if same(self.entries[i].0.as_str(), key.as_str()) {
                assert(key_at(before, key@, i as int));
                self.entries[i].1 = now;
                proof {
                    let after = self.entries@;
                    assert forall|k: Seq<char>, j: int| #[trigger]
                        key_at(after, k, j) == key_at(before, k, j) by {}
                    assert forall|k: Seq<char>| ledger_view(after).contains_key(k)
                        == ledger_view(before).insert(key@, now).contains_key(k) by {
                        if exists|j: int| key_at(before, k, j) {
                            let j = choose|j: int| key_at(before, k, j);
                            assert(key_at(after, k, j));
                        }
                        if exists|j: int| key_at(after, k, j) {
                            let j = choose|j: int| key_at(after, k, j);
                            assert(key_at(before, k, j));
                        }
                        assert(key_at(after, key@, i as int));
                    }
                    assert forall|k: Seq<char>| #[trigger]
                        ledger_view(after).contains_key(k) implies ledger_view(after)[k]
                        == ledger_view(before).insert(key@, now)[k] by {
                        let j = choose|j: int| key_at(after, k, j);
                        assert(key_at(before, k, j));
                        let l = choose|l: int| key_at(before, k, l);
                        assert(l == j);
                        if k == key@ {
                            assert(key_at(before, k, i as int));
                        }
                    }
                    assert(ledger_view(after) =~= ledger_view(before).insert(key@, now));
                }
                return;
            }
            i += 1;
        }
        let ghost name = key@;
        self.entries.push((key, now));
        proof {
            let after = self.entries@;
            let n = before.len() as int;
            assert forall|k: Seq<char>, j: int| #[trigger]
                key_at(after, k, j) == (key_at(before, k, j) || (j == n && k == name)) by {}
            assert(key_at(after, name, n));
            assert forall|k: Seq<char>| ledger_view(after).contains_key(k) == ledger_view(
                before,
            ).insert(name, now).contains_key(k) by {
                if exists|j: int| key_at(before, k, j) {
                    let j = choose|j: int| key_at(before, k, j);
                    assert(key_at(after, k, j));
                }
                if exists|j: int| key_at(after, k, j) {
                    let j = choose|j: int| key_at(after, k, j);
                    assert(key_at(before, k, j) || k == name);
                }
            }
            assert forall|k: Seq<char>| #[trigger]
                ledger_view(after).contains_key(k) implies ledger_view(after)[k] == ledger_view(
                before,
            ).insert(name, now)[k] by {
                let j = choose|j: int| key_at(after, k, j);
                if k == name {
                    assert(!key_at(before, k, j));
                    assert(j == n);
                } else {
                    assert(key_at(before, k, j));
                    let l = choose|l: int| key_at(before, k, l);
                    assert(l == j);
                }
            }
            assert(ledger_view(after) =~= ledger_view(before).insert(name, now));
        }
    }

    /// Whether a key was recorded in time. Prunes the ledger and removes the key: each
    /// record answers once.
    pub fn take(&mut self, key: &str, now: u64) -> (r: bool)
        requires
            old(self).wf(),
        ensures
            final(self).wf(),
            r == pruned(old(self)@, now).contains_key(key@),
            final(self)@ == pruned(old(self)@, now).remove(key@),
    {
        let ghost before = self.entries@;
        let mut kept: Vec<(String, u64)> = Vec::new();
        let mut found = false;
        let mut i: usize = 0;
        while i < self.entries.len()
            invariant
                self.entries@ == before,
                distinct_keys(before),
                i <= before.len(),
                found == exists|k: int|
                    0 <= k < i && #[trigger] key_at(before, key@, k) && in_time(before[k].1, now),
                distinct_keys(kept@),
                forall|j: int|
                    0 <= j < kept@.len() ==> stays(before, i as int, key@, now, #[trigger] kept@[j]),
                forall|k: int|
                    0 <= k < i && in_time((#[trigger] before[k]).1, now) && before[k].0@ != key@
                        ==> kept@.contains(before[k]),
            decreases before.len() - i,
        {
            let at = self.entries[i].1;
            let ghost old_kept = kept@;
            let live = at > now || now - at < REACT_TTL;
            if live {
                if same(self.entries[i].0.as_str(), key) {
                    assert(key_at(before, key@, i as int));
                    found = true;
                } else {
                    let entry = (self.entries[i].0.clone(), at);
                    assert(entry == before[i as int]);
                    kept.push(entry);
                    proof {
                        assert(kept@[kept@.len() - 1] == before[i as int]);
                        assert forall|k: Seq<char>, a: int, b: int|
                            #[trigger] key_at(kept@, k, a) && #[trigger] key_at(
                                kept@,
                                k,
                                b,
                            ) implies a == b by {
                            if a < old_kept.len() && b < old_kept.len() {
                                assert(key_at(old_kept, k, a) && key_at(old_kept, k, b));
                            } else if a != b {
                                let m = if a < old_kept.len() { a } else { b };
                                assert(old_kept[m] == kept@[m]);
                                let x = choose|x: int|
                                    stays_at(before, i as int, key@, now, old_kept[m], x);
                                assert(key_at(before, k, x) && key_at(before, k, i as int));
                            }
                        }
                    }
                }
            }
            proof {
                assert forall|j: int| 0 <= j < kept@.len() implies stays(
                    before,
                    i + 1,
                    key@,
                    now,
                    #[trigger] kept@[j],
                ) by {
                    if j < old_kept.len() {
                        assert(old_kept[j] == kept@[j]);
                        let x = choose|x: int|
                            stays_at(before, i as int, key@, now, old_kept[j], x);
                        assert(stays_at(before, i + 1, key@, now, kept@[j], x));
                    } else {
                        assert(stays_at(before, i + 1, key@, now, kept@[j], i as int));
                    }
                }
                assert forall|k: int|
                    0 <= k < i + 1 && in_time((#[trigger] before[k]).1, now) && before[k].0@
                        != key@ implies kept@.contains(before[k]) by {
                    if k < i {
                        assert(old_kept.contains(before[k]));
                        let j = choose|j: int| 0 <= j < old_kept.len() && old_kept[j] == before[k];
                        assert(kept@[j] == before[k]);
                    } else {
                        assert(kept@[kept@.len() - 1] == before[k]);
                    }
                }
            }
            i += 1;
        }
        self.entries = kept;
        proof {
            let m = ledger_view(before);
            let after = ledger_view(kept@);
            assert forall|k: Seq<char>, j: int| #[trigger]
                key_at(before, k, j) implies m.contains_key(k) && m[k] == before[j].1 by {}
            assert forall|k: Seq<char>, j: int| #[trigger]
                key_at(kept@, k, j) implies after.contains_key(k) && after[k] == kept@[j].1 by {}
            let want = pruned(m, now).remove(key@);
            assert forall|k: Seq<char>| after.contains_key(k) == want.contains_key(k) by {
                if after.contains_key(k) {
                    let j = choose|j: int| key_at(kept@, k, j);
                    assert(0 <= j < kept@.len());
                    assert(stays(before, before.len() as int, key@, now, kept@[j]));
                    let x = choose|x: int|
                        stays_at(before, before.len() as int, key@, now, kept@[j], x);
                    assert(key_at(before, k, x));
                }
                if want.contains_key(k) {
                    let x = choose|x: int| key_at(before, k, x);
                    assert(m[k] == before[x].1);
                    assert(kept@.contains(before[x]));
                    let j = choose|j: int| 0 <= j < kept@.len() && kept@[j] == before[x];
                    assert(key_at(kept@, k, j));
                }
            }
            assert forall|k: Seq<char>| #[trigger] after.contains_key(k) implies after[k]
                == want[k] by {
                let j = choose|j: int| key_at(kept@, k, j);
                assert(stays(before, before.len() as int, key@, now, kept@[j]));
                let x = choose|x: int|
                    stays_at(before, before.len() as int, key@, now, kept@[j], x);
                assert(key_at(before, k, x));
            }
            assert(after =~= want);
            if found {
                let x = choose|x: int|
                    0 <= x < before.len() && #[trigger] key_at(before, key@, x) && in_time(
                        before[x].1,
                        now,
                    );
                assert(m[key@] == before[x].1);
            }
            if pruned(m, now).contains_key(key@) {
                let x = choose|x: int| key_at(before, key@, x);
                assert(m[key@] == before[x].1);
            }
        }
        found
    }
}

/// The key under which a reaction is on record: `channel:item_ts:name`.
pub open spec fn key_of(channel: Seq<char>, ts: Seq<char>, name: Seq<char>) -> Seq<char> {
    channel + ":"@ + ts + ":"@ + name
}

/// The key under which a reaction is on record.
pub fn reaction_key(channel: &str, ts: &str, name: &str) -> (r: String)
    ensures
        r@ == key_of(channel@, ts@, name@),
{
    channel.to_owned().concat(":").concat(ts).concat(":").concat(name)
}

/// Shared daemon state.
pub struct Shared {
    pub db: Db,
    pub config: Config,
    /// The human's user id (from the user-token auth.test), for mentions and own posts.
    pub my_user_id: Option<String>,
    /// Workspace base URL (from the user-token auth.test), to build permalinks.
    pub workspace_url: Option<String>,
    /// The bot-DM channel id (control channel), to recognize free-text answers to asks.
    pub bot_dm_channel: Option<String>,
    /// The bot ids whose inbound events are our own echoes: the bot's own one, and
    /// those learned from the responses to our own posts.
    pub self_bot_ids: StringHashSet,
    /// Reactions we emitted, keyed `channel:item_ts:name`. A reaction event has no bot
    /// id, so its echo is matched by this key (for a while, and once).
    pub react_ledger: Ledger,
}

/// What the shared state holds.
pub struct SharedView {
    pub db: DbView,
    pub config: ConfigView,
    pub my_user_id: Option<Seq<char>>,
    pub workspace_url: Option<Seq<char>>,
    pub bot_dm_channel: Option<Seq<char>>,
    pub self_bot_ids: Set<Seq<char>>,
    pub react_ledger: Map<Seq<char>, u64>,
}

impl SharedView {
    /// Whether a user is the human.
    pub open spec fn is_me(self, user: Option<Seq<char>>) -> bool {
        self.my_user_id is Some && user == self.my_user_id
    }

    /// Whether a bot id is one of our own.
    pub open spec fn is_self_bot(self, bot_id: Option<Seq<char>>) -> bool {
        bot_id matches Some(b) && self.self_bot_ids.contains(b)
    }

    /// The permalink of a message: `<base>/archives/<channel>/p<ts without dots>`. None
    /// where the workspace URL is unknown.
    pub open spec fn permalink(self, channel: Seq<char>, ts: Seq<char>) -> Option<Seq<char>> {
        match self.workspace_url {
            Some(url) => Some(
                trimmed_end(url, '/') + "/archives/"@ + channel + "/p"@ + ts.filter(
                    other_than('.'),
                ),
            ),
            None => None,
        }
    }

    /// The state with other tables.
    pub open spec fn with_db(self, db: DbView) -> SharedView {
        SharedView { db, ..self }
    }

    /// The state that knows one more bot id of its own. One that is new to it is put
    /// on record, so that it is known after a restart.
    pub open spec fn learned(self, bot_id: Seq<char>) -> SharedView {
        if self.self_bot_ids.contains(bot_id) {
            self
        } else {
            SharedView {
                self_bot_ids: self.self_bot_ids.insert(bot_id),
                db: DbView {
                    meta: self.db.meta.insert("self_post_bot_id"@, bot_id),
                    ..self.db
                },
                ..self
            }
        }
    }

    /// The state with a reaction that we emitted on record.
    pub open spec fn reaction_recorded(self, key: Seq<char>, now: u64) -> SharedView {
        SharedView { react_ledger: self.react_ledger.insert(key, now), ..self }
    }

    /// Whether a reaction is on record as one that we emitted.
    pub open spec fn emitted(self, key: Seq<char>, now: u64) -> bool {
        pruned(self.react_ledger, now).contains_key(key)
    }

    /// The state after the ledger was asked for a key.
    pub open spec fn reaction_taken(self, key: Seq<char>, now: u64) -> SharedView {
        SharedView { react_ledger: pruned(self.react_ledger, now).remove(key), ..self }
    }
}

/// The bot ids that are our own at the start: the bot's own one, and the one on record.
pub open spec fn start_ids(db: DbView, bot_id: Option<Seq<char>>) -> Set<Seq<char>> {
    Set::new(
        |b: Seq<char>|
            bot_id == Some(b) || (db.meta.contains_key("self_post_bot_id"@)
                && db.meta["self_post_bot_id"@] == b),
    )
}

impl Shared {
    /// What the state holds.
    pub open spec fn view(self) -> SharedView {
        SharedView {
            db: self.db@,
            config: self.config@,
            my_user_id: opt_text(self.my_user_id),
            workspace_url: opt_text(self.workspace_url),
            bot_dm_channel: opt_text(self.bot_dm_channel),
            self_bot_ids: self.self_bot_ids@,
            react_ledger: self.react_ledger@,
        }
    }

    /// The tables and the ledger are well formed.
    pub open spec fn wf(self) -> bool {
        self.db@.wf() && self.react_ledger.wf()
    }

    /// The state at the start: the bot's own id and the one on record are our own, and
    /// no reaction was emitted yet.
    pub fn new(
        db: Db,
        config: Config,
        bot_id: Option<String>,
        my_user_id: Option<String>,
        workspace_url: Option<String>,
        bot_dm_channel: Option<String>,
    ) -> (r: Shared)
        requires
            db@.wf(),
        ensures
            r.wf(),
            r@ == (SharedView {
                db: db@,
                config: config@,
                my_user_id: opt_text(my_user_id),
                workspace_url: opt_text(workspace_url),
                bot_dm_channel: opt_text(bot_dm_channel),
                self_bot_ids: start_ids(db@, opt_text(bot_id)),
                react_ledger: Map::empty(),
            }),
    {
        let mut ids = StringHashSet::new();
        let ghost own = opt_text(bot_id);
        if let Some(b) = bot_id {
            ids.insert(b);
        }
        if let Some(b) = db.meta_get("self_post_bot_id") {
            ids.insert(b);
        }
        assert(ids@ =~= start_ids(db@, own));
        Shared {
            db,
            config,
            my_user_id,
            workspace_url,
            bot_dm_channel,
            self_bot_ids: ids,
            react_ledger: Ledger::new(),
        }
    }

    /// The permalink of a message. None where the workspace URL is unknown.
    pub fn permalink(&self, channel: &str, ts: &str) -> (r: Option<String>)
        ensures
            opt_text(r) == self@.permalink(channel@, ts@),
    {
        match &self.workspace_url {
            Some(url) => Some(
                trim_end_matches(url.as_str(), '/').to_owned().concat("/archives/").concat(
                    channel,
                ).concat("/p").concat(without(ts, '.').as_str()),
            ),
            None => None,
        }
    }

    /// Whether a bot id is one of our own.
    pub fn is_self_bot(&self, bot_id: &str) -> (r: bool)
        ensures
            r == self@.is_self_bot(Some(bot_id@)),
    {
        self.self_bot_ids.contains(bot_id)
    }

    /// Learn a bot id from the response to a post of ours, and put it on record so that
    /// echo suppression survives restarts. Returns whether it is new.
    pub fn learn_self_bot(&mut self, bot_id: &str) -> (r: bool)
        requires
            old(self).wf(),
        ensures
            final(self).wf(),
            r == !old(self)@.is_self_bot(Some(bot_id@)),
            final(self)@ == old(self)@.learned(bot_id@),
    {
        let ghost before = self@;
        let fresh = self.self_bot_ids.insert(bot_id.to_owned());
        if fresh {
            self.db.meta_set("self_post_bot_id", bot_id);
        } else {
            assert(self.self_bot_ids@ =~= before.self_bot_ids);
        }
        fresh
    }

    /// Record a reaction we just emitted, so that its echo can be dropped.
    pub fn record_reaction(&mut self, key: String, now: u64)
        requires
            old(self).wf(),
        ensures
            final(self).wf(),
            final(self)@ == old(self)@.reaction_recorded(key@, now),
    {
        self.react_ledger.record(key, now);
    }

    /// True if `key` matches a reaction that we emitted in time. Prunes the ledger and
    /// removes the match: each echo fires once.
    pub fn take_self_reaction(&mut self, key: &str, now: u64) -> (r: bool)
        requires
            old(self).wf(),
        ensures
            final(self).wf(),
            r == old(self)@.emitted(key@, now),
            final(self)@ == old(self)@.reaction_taken(key@, now),
    {
        self.react_ledger.take(key, now)
    }
}

} // verus!
