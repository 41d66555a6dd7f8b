//! Daemon configuration, read from the environment.

use crate::db::{db_path, resolve_path};
use crate::text::{
    comma_items, comma_list, find, opt_copy, opt_str, opt_text, same, split, split_on, split_once,
    texts, trim, trim_matches, trimmed, trimmed_both,
};
use vstd::hash_set::StringHashSet;
use vstd::prelude::*;
use vstd::string::*;

verus! {

/// The variables of a process: each name with its value, or without one where the
/// value is not valid text. Of two entries with one name the earlier holds.
pub struct Env {
    pub vars: Vec<(String, Option<String>)>,
}

/// The variables of a process, by name.
pub type EnvView = Map<Seq<char>, Option<Seq<char>>>;

/// The variables of a list, by name.
pub open spec fn vars_view(vars: Seq<(String, Option<String>)>) -> EnvView
    decreases vars.len(),
{
    if vars.len() == 0 {
        Map::empty()
    } else {
        vars_view(vars.drop_first()).insert(vars[0].0@, opt_text(vars[0].1))
    }
}

/// The value of a variable, where it is set to valid text.
pub open spec fn var_of(env: EnvView, name: Seq<char>) -> Option<Seq<char>> {
    if env.contains_key(name) {
        env[name]
    } else {
        None
    }
}

/// The value of a variable, or `default` where it is not set to valid text.
pub open spec fn var_or(env: EnvView, name: Seq<char>, default: Seq<char>) -> Seq<char> {
    match var_of(env, name) {
        Some(v) => v,
        None => default,
    }
}

impl Env {
    /// The variables by name.
    pub open spec fn view(self) -> EnvView {
        vars_view(self.vars@)
    }

    fn find(&self, name: &str) -> (r: Option<usize>)
        ensures
            match r {
                Some(i) => {
                    &&& i < self.vars@.len()
                    &&& self@.contains_key(name@)
                    &&& self@[name@] == opt_text(self.vars@[i as int].1)
                },
                None => !self@.contains_key(name@),
            },
    {
        let mut i: usize = 0;
        assert(self.vars@.skip(0) =~= self.vars@);
        while i < self.vars.len()
            invariant
                i <= self.vars@.len(),
                self@.contains_key(name@) == vars_view(self.vars@.skip(i as int)).contains_key(
                    name@,
                ),
                self@.contains_key(name@) ==> self@[name@] == vars_view(
                    self.vars@.skip(i as int),
                )[name@],
            decreases self.vars@.len() - i,
        {
            assert(self.vars@.skip(i as int).drop_first() =~= self.vars@.skip(i + 1));
            if same(self.vars[i].0.as_str(), name) {
                return Some(i);
            }
            i += 1;
        }
        None
    }

    /// The value of a variable, where it is set to valid text.
    pub fn var(&self, name: &str) -> (r: Option<String>)
        ensures
            opt_text(r) == var_of(self@, name@),
    {
        match self.find(name) {
            Some(i) => match &self.vars[i].1 {
                Some(v) => Some(v.clone()),
                None => None,
            },
            None => None,
        }
    }

    /// The value of a variable, or `default` where it is not set to valid text.
    pub fn var_or(&self, name: &str, default: &str) -> (r: String)
        ensures
            r@ == var_or(self@, name@, default@),
    {
        match self.var(name) {
            Some(v) => v,
            None => default.to_owned(),
        }
    }

    /// Whether a variable is set.
    pub fn is_set(&self, name: &str) -> (r: bool)
        ensures
            r == self@.contains_key(name@),
    {
        self.find(name).is_some()
    }
}

/// The directory for configuration files: `$XDG_CONFIG_HOME` unless it is empty, else
/// `$HOME/.config`, else the root, which paths below it begin with by themselves.
pub open spec fn config_base(env: EnvView) -> Seq<char> {
    match var_of(env, "XDG_CONFIG_HOME"@) {
        Some(dir) if dir.len() > 0 => dir,
        _ => match var_of(env, "HOME"@) {
            Some(home) => home + "/.config"@,
            None => Seq::empty(),
        },
    }
}

/// The directory for configuration files.
pub fn config_dir(env: &Env) -> (r: String)
    ensures
        r@ == config_base(env@),
{
    if let Some(dir) = env.var("XDG_CONFIG_HOME") {
        if !dir.as_str().is_empty() {
            return dir;
        }
    }
    match env.var("HOME") {
        Some(home) => home.concat("/.config"),
        None => String::new(),
    }
}

/// The path of the config env file: `$SLACK_DEPUTY_CONFIG`, else `slack-deputy/.env` in
/// the directory for configuration files.
pub fn env_file_path(env: &Env) -> (r: String)
    ensures
        r@ == var_or(
            env@,
            "SLACK_DEPUTY_CONFIG"@,
            config_base(env@) + "/slack-deputy/.env"@,
        ),
{
    match env.var("SLACK_DEPUTY_CONFIG") {
        Some(path) => path,
        None => config_dir(env).concat("/slack-deputy/.env"),
    }
}

/// The assignment that a line of the config env file makes: `KEY=VALUE`, with the
/// white space around both left out, and then the quotes around the value. An empty
/// line, a comment (`#`), and a line without `=` or without a key make none.
pub open spec fn line_assignment(line: Seq<char>) -> Option<(Seq<char>, Seq<char>)> {
    let l = trimmed(line);
    let i = find(l, '=');
    let key = trimmed(l.take(i));
    if l.len() == 0 || l[0] == '#' || i == l.len() || key.len() == 0 {
        None
    } else {
        Some((key, trimmed_both(trimmed(l.skip(i + 1)), '"')))
    }
}

/// The assignments that lines make where the names in `set` are set already: an
/// assignment to a name that is set counts for nothing.
pub open spec fn assignments(lines: Seq<Seq<char>>, set: Set<Seq<char>>) -> Seq<
    (Seq<char>, Seq<char>),
>
    decreases lines.len(),
{
    if lines.len() == 0 {
        Seq::empty()
    } else {
        match line_assignment(lines[0]) {
            Some((key, value)) if !set.contains(key) => seq![(key, value)] + assignments(
                lines.drop_first(),
                set.insert(key),
            ),
            _ => assignments(lines.drop_first(), set),
        }
    }
}

/// What each pair of a list holds.
pub open spec fn pairs_view(v: Seq<(String, String)>) -> Seq<(Seq<char>, Seq<char>)> {
    v.map_values(|p: (String, String)| (p.0@, p.1@))
}

fn read_line(line: &str) -> (r: Option<(String, String)>)
    ensures
        match r {
            Some((k, v)) => line_assignment(line@) == Some((k@, v@)),
            None => line_assignment(line@) is None,
        },
{
    let l = trim(line);
    if l.is_empty() || l.get_char(0) == '#' {
        return None;
    }
    match split_once(l, '=') {
        Some((k, v)) => {
            let key = trim(k);
            if key.is_empty() {
                None
            } else {
                Some((key.to_owned(), trim_matches(trim(v), '"').to_owned()))
            }
        },
        None => None,
    }
}

/// The variables that the config env file sets, in order: those that its `KEY=VALUE`
/// lines name and that are not set already.
pub fn load_env_file(env: &Env, content: &str) -> (r: Vec<(String, String)>)
    ensures
        pairs_view(r@) == assignments(split_on(content@, '\n'), env@.dom()),
{
    let lines = split(content, '\n');
    let ghost all = split_on(content@, '\n');
    let mut taken = StringHashSet::new();
    let mut out: Vec<(String, String)> = Vec::new();
    let mut i: usize = 0;
    proof {
        assert(all.skip(0) =~= all);
        assert(env@.dom().union(taken@) =~= env@.dom());
        assert(pairs_view(out@) + assignments(all, env@.dom()) =~= assignments(all, env@.dom()));
    }
    while i < lines.len()
        invariant
            i <= lines@.len(),
            texts(lines@) == all,
            assignments(all, env@.dom()) == pairs_view(out@) + assignments(
                all.skip(i as int),
                env@.dom().union(taken@),
            ),
        decreases lines@.len() - i,
    {
        let ghost rest = all.skip(i as int);
        let ghost before = env@.dom().union(taken@);
        proof {
            assert(rest[0] == lines@[i as int]@);
            assert(rest.drop_first() =~= all.skip(i + 1));
        }
        if let Some((key, value)) = read_line(lines[i].as_str()) {
            if !env.is_set(key.as_str()) && !taken.contains(key.as_str()) {
                taken.insert(key.clone());
                proof {
                    assert(env@.dom().union(taken@) =~= before.insert(key@));
                    assert(pairs_view(out@.push((key, value))) =~= pairs_view(out@).push(
                        (key@, value@),
                    ));
                    let tail = assignments(all.skip(i + 1), before.insert(key@));
                    assert(pairs_view(out@).push((key@, value@)) + tail =~= pairs_view(out@) + (
                    seq![(key@, value@)] + tail));
                }
                out.push((key, value));
            }
        }
        i += 1;
    }
    proof {
        assert(all.skip(i as int) =~= Seq::empty());
        assert(pairs_view(out@) + Seq::<(Seq<char>, Seq<char>)>::empty() =~= pairs_view(out@));
    }
    out
}

/// The variables after some assignments, in order.
pub open spec fn assigned(env: EnvView, list: Seq<(Seq<char>, Seq<char>)>) -> EnvView
    decreases list.len(),
{
    if list.len() == 0 {
        env
    } else {
        assigned(env, list.drop_last()).insert(list.last().0, Some(list.last().1))
    }
}

/// The variables after the config env file was loaded, where it could be read.
pub open spec fn loaded(env: EnvView, file: Option<Seq<char>>) -> EnvView {
    match file {
        Some(content) => assigned(env, assignments(split_on(content, '\n'), env.dom())),
        None => env,
    }
}

impl Env {
    /// The variables after the config env file was loaded, where it could be read.
    pub fn load(&self, file: Option<&str>) -> (r: Env)
        ensures
            r@ == loaded(self@, opt_str(file)),
    {
        let mut vars: Vec<(String, Option<String>)> = Vec::new();
        let sets: Vec<(String, String)> = match file {
            Some(content) => load_env_file(self, content),
            None => Vec::new(),
        };
        // Of two entries with one name the earlier holds: the last assignment comes first.
        let ghost list = pairs_view(sets@);
        let mut i: usize = sets.len();
        assert(list.skip(i as int) =~= Seq::empty());
        while i > 0
            invariant
                i <= sets@.len(),
                list == pairs_view(sets@),
                vars@.len() == sets@.len() - i,
                forall|k: int|
                    0 <= k < vars@.len() ==> (#[trigger] vars@[k]).0@ == list[list.len() - 1 - k].0
                        && opt_text(vars@[k].1) == Some(list[list.len() - 1 - k].1),
            decreases i,
        {
            i -= 1;
            assert(list[i as int] == (sets@[i as int].0@, sets@[i as int].1@));
            vars.push((sets[i].0.clone(), Some(sets[i].1.clone())));
        }
        let ghost front = vars@;
        let mut k: usize = 0;
        assert(self.vars@.take(0) =~= Seq::empty());
        assert(front + self.vars@.take(0) =~= front);
        while k < self.vars.len()
            invariant
                k <= self.vars@.len(),
                vars_text(vars@) == vars_text(front + self.vars@.take(k as int)),
            decreases self.vars@.len() - k,
        {
            let name = self.vars[k].0.clone();
            let value = opt_copy(&self.vars[k].1);
            proof {
                let next = front + self.vars@.take(k + 1);
                assert(next =~= (front + self.vars@.take(k as int)).push(self.vars@[k as int]));
                assert(vars_text(vars@.push((name, value))) =~= vars_text(vars@).push(
                    (name@, opt_text(value)),
                ));
                assert(vars_text(next) =~= vars_text(front + self.vars@.take(k as int)).push(
                    (self.vars@[k as int].0@, opt_text(self.vars@[k as int].1)),
                ));
            }
            vars.push((name, value));
            k += 1;
        }
        proof {
            assert(self.vars@.take(self.vars@.len() as int) =~= self.vars@);
            lemma_vars_text(vars@, front + self.vars@);
            lemma_assigned(self.vars@, front, list);
            if file is None {
                assert(list =~= Seq::empty());
            }
        }
        Env { vars }
    }
}

spec fn vars_text(vars: Seq<(String, Option<String>)>) -> Seq<(Seq<char>, Option<Seq<char>>)> {
    vars.map_values(|v: (String, Option<String>)| (v.0@, opt_text(v.1)))
}

proof fn lemma_vars_text(a: Seq<(String, Option<String>)>, b: Seq<(String, Option<String>)>)
    requires
        vars_text(a) == vars_text(b),
    ensures
        vars_view(a) == vars_view(b),
    decreases a.len(),
{
    assert(vars_text(a).len() == a.len());
    assert(vars_text(b).len() == b.len());
    if a.len() > 0 {
        assert(vars_text(a)[0] == vars_text(b)[0]);
        assert(vars_text(a.drop_first()) =~= vars_text(a).drop_first());
        assert(vars_text(b.drop_first()) =~= vars_text(b).drop_first());
        lemma_vars_text(a.drop_first(), b.drop_first());
    }
}

proof fn lemma_assigned(
    vars: Seq<(String, Option<String>)>,
    front: Seq<(String, Option<String>)>,
    list: Seq<(Seq<char>, Seq<char>)>,
)
    requires
        front.len() == list.len(),
        forall|k: int|
            0 <= k < front.len() ==> (#[trigger] front[k]).0@ == list[list.len() - 1 - k].0
                && opt_text(front[k].1) == Some(list[list.len() - 1 - k].1),
    ensures
        vars_view(front + vars) == assigned(vars_view(vars), list),
    decreases list.len(),
{
    if list.len() == 0 {
        assert(front + vars =~= vars);
    } else {
        let rest = front.drop_first();
        assert forall|k: int| 0 <= k < rest.len() implies (#[trigger] rest[k]).0@
            == list.drop_last()[list.len() - 2 - k].0 && opt_text(rest[k].1) == Some(
            list.drop_last()[list.len() - 2 - k].1,
        ) by {
            assert(rest[k] == front[k + 1]);
        }
        lemma_assigned(vars, rest, list.drop_last());
        assert((front + vars).drop_first() =~= rest + vars);
        assert((front + vars)[0] == front[0]);
    }
}

/// Daemon configuration.
pub struct Config {
    /// `xapp-`: the Socket Mode connection.
    pub app_token: String,
    /// `xoxb-`: socket auth and the control DM.
    pub bot_token: String,
    /// `xoxp-`: act as yourself.
    pub user_token: String,
    pub db_path: String,
    /// HTTP API bind address `host:port`. Loopback by default; set to `0.0.0.0:8799`
    /// to serve a LAN or tailnet consumer (Tailscale is the auth boundary: do not
    /// expose it beyond the tailnet).
    pub listen: String,
    /// Channels to capture even without a mention.
    pub watch_channels: StringHashSet,
}

/// What a configuration holds.
pub struct ConfigView {
    pub app_token: Seq<char>,
    pub bot_token: Seq<char>,
    pub user_token: Seq<char>,
    pub db_path: Seq<char>,
    pub listen: Seq<char>,
    pub watch_channels: Set<Seq<char>>,
}

impl Config {
    /// What the configuration holds.
    pub open spec fn view(self) -> ConfigView {
        ConfigView {
            app_token: self.app_token@,
            bot_token: self.bot_token@,
            user_token: self.user_token@,
            db_path: self.db_path@,
            listen: self.listen@,
            watch_channels: self.watch_channels@,
        }
    }

    /// The configuration that an environment gives, with what the config env file adds to
    /// it (where it could be read), or a message that names the first token that is not
    /// set.
    pub fn from_env(env: &Env, file: Option<&str>) -> (r: Result<Config, String>)
        ensures
            match (config_of(loaded(env@, opt_str(file))), r) {
                (Ok(c), Ok(config)) => config@ == c,
                (Err(m), Err(e)) => e@ == m,
                _ => false,
            },
    {
        let env = env.load(file);
        let app_token = match env.var("SLACK_APP_TOKEN") {
            Some(v) => v,
            None => return Err("SLACK_APP_TOKEN".to_owned().concat(": not set")),
        };
        let bot_token = match env.var("SLACK_BOT_TOKEN") {
            Some(v) => v,
            None => return Err("SLACK_BOT_TOKEN".to_owned().concat(": not set")),
        };
        let user_token = match env.var("SLACK_USER_TOKEN") {
            Some(v) => v,
            None => return Err("SLACK_USER_TOKEN".to_owned().concat(": not set")),
        };
        let names = comma_items(env.var_or("SLACK_DEPUTY_WATCH_CHANNELS", "").as_str());
        Ok(
            Config {
                app_token,
                bot_token,
                user_token,
                db_path: resolve_path(&env),
                listen: env.var_or("SLACK_DEPUTY_LISTEN", "127.0.0.1:8799"),
                watch_channels: set_of(&names),
            },
        )
    }
}

/// The configuration that some variables give, or a message that names the first token
/// that is not set.
pub open spec fn config_of(env: EnvView) -> Result<ConfigView, Seq<char>> {
    match (
        var_of(env, "SLACK_APP_TOKEN"@),
        var_of(env, "SLACK_BOT_TOKEN"@),
        var_of(env, "SLACK_USER_TOKEN"@),
    ) {
        (None, _, _) => Err("SLACK_APP_TOKEN"@ + ": not set"@),
        (_, None, _) => Err("SLACK_BOT_TOKEN"@ + ": not set"@),
        (_, _, None) => Err("SLACK_USER_TOKEN"@ + ": not set"@),
        (Some(app_token), Some(bot_token), Some(user_token)) => Ok(
            ConfigView {
                app_token,
                bot_token,
                user_token,
                db_path: db_path(env),
                listen: var_or(env, "SLACK_DEPUTY_LISTEN"@, "127.0.0.1:8799"@),
                watch_channels: comma_list(
                    var_or(env, "SLACK_DEPUTY_WATCH_CHANNELS"@, ""@),
                ).to_set(),
            },
        ),
    }
}

fn set_of(names: &Vec<String>) -> (r: StringHashSet)
    ensures
        r@ == texts(names@).to_set(),
{
    let mut set = StringHashSet::new();
    let mut i: usize = 0;
    assert(texts(names@).take(0).to_set() =~= set@);
    while i < names.len()
        invariant
            i <= names@.len(),
            set@ == texts(names@).take(i as int).to_set(),
        decreases names@.len() - i,
    {
        proof {
            let t = texts(names@);
            assert(t.take(i + 1) =~= t.take(i as int).push(names@[i as int]@));
            t.take(i as int).lemma_push_to_set_commute(names@[i as int]@);
        }
        set.insert(names[i].clone());
        i += 1;
    }
    assert(texts(names@).take(names@.len() as int) =~= texts(names@));
    set
}

} // verus!
