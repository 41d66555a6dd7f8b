//! The environment, the config file and what they configure.

use crate::config::{
    assigned, assignments, config_base, config_of, line_assignment, loaded, pairs_view, var_of,
    var_or, vars_view, Config, EnvView,
};
use crate::db::db_path;
use crate::json::{
    fields_view, items_view, json_fits, json_plain, json_read, opens_with_marker, read_or_null,
    Json, JsonView,
};
use crate::laws::words::find_is_first_hit;
use crate::text::{comma_list, find, opt_text, precedes, split_on, trimmed, trimmed_both};
use vstd::prelude::*;

verus! {

// --- variables ---

/// The value of a variable, where it is set to a text.
pub open spec fn set_to(env: EnvView, name: Seq<char>) -> Option<Seq<char>> {
    if env.contains_key(name) && env[name] is Some {
        env[name]
    } else {
        None
    }
}

/// A variable has the value that it is set to, and a default only where it has none.
pub proof fn variables_have_their_values(env: EnvView, name: Seq<char>, default: Seq<char>)
    ensures
        var_of(env, name) == set_to(env, name),
        set_to(env, name) matches Some(v) ==> var_or(env, name, default) == v,
        set_to(env, name) is None ==> var_or(env, name, default) == default,
{
}

/// Of a list of variables, the first with a name counts.
pub proof fn the_first_variable_counts(vars: Seq<(String, Option<String>)>, i: int)
    requires
        0 <= i < vars.len(),
        forall|j: int| 0 <= j < i ==> (#[trigger] vars[j]).0@ != vars[i].0@,
    ensures
        vars_view(vars).contains_key(vars[i].0@),
        vars_view(vars)[vars[i].0@] == opt_text(vars[i].1),
    decreases vars.len(),
{
    if i > 0 {
        let rest = vars.drop_first();
        assert(vars[0].0@ != vars[i].0@);
        assert(rest[i - 1] == vars[i]);
        assert forall|j: int| 0 <= j < i - 1 implies (#[trigger] rest[j]).0@ != rest[i - 1].0@ by {
            assert(rest[j] == vars[j + 1]);
        }
        the_first_variable_counts(rest, i - 1);
    }
}

/// What a list of variables does not name is not set.
pub proof fn what_is_not_listed_is_not_set(vars: Seq<(String, Option<String>)>, name: Seq<char>)
    requires
        forall|j: int| 0 <= j < vars.len() ==> (#[trigger] vars[j]).0@ != name,
    ensures
        !vars_view(vars).contains_key(name),
    decreases vars.len(),
{
    if vars.len() > 0 {
        let rest = vars.drop_first();
        assert(vars[0].0@ != name);
        assert forall|j: int| 0 <= j < rest.len() implies (#[trigger] rest[j]).0@ != name by {
            assert(rest[j] == vars[j + 1]);
        }
        what_is_not_listed_is_not_set(rest, name);
    }
}

// --- the config file ---

/// Whether a line, without the white space around it, assigns a value to a key: it is no
/// comment, its first `=` stands at `i`, something other than white space is before that, and
/// the value is what is behind it, without white space and then quotes around it.
pub open spec fn assigns_at(line: Seq<char>, key: Seq<char>, value: Seq<char>, i: int) -> bool {
    let l = trimmed(line);
    &&& 0 <= i < l.len()
    &&& l[i] == '='
    &&& forall|k: int| 0 <= k < i ==> #[trigger] l[k] != '='
    &&& l[0] != '#'
    &&& key == trimmed(l.take(i))
    &&& key.len() > 0
    &&& value == trimmed_both(trimmed(l.skip(i + 1)), '"')
}

/// A line of the config file makes the assignment that it reads, and any other line makes none.
pub proof fn lines_assign_what_they_read(line: Seq<char>, key: Seq<char>, value: Seq<char>)
    ensures
        line_assignment(line) == Some((key, value)) <==> exists|i: int|
            assigns_at(line, key, value, i),
{
    let l = trimmed(line);
    let i = find(l, '=');
    find_is_first_hit(l, '=');
    if line_assignment(line) == Some((key, value)) {
        assert(assigns_at(line, key, value, i));
    }
    if exists|k: int| assigns_at(line, key, value, k) {
        let k = choose|k: int| assigns_at(line, key, value, k);
        assert(k == i) by {
            if k < i {
                assert(l[k] != '=');
            } else if i < k {
                assert(l[i] != '=');
            }
        }
    }
}

proof fn lemma_assigned_only(env: EnvView, list: Seq<(Seq<char>, Seq<char>)>, key: Seq<char>)
    requires
        forall|i: int| 0 <= i < list.len() ==> (#[trigger] list[i]).0 != key,
    ensures
        assigned(env, list).contains_key(key) == env.contains_key(key),
    decreases list.len(),
{
    if list.len() > 0 {
        assert(list[list.len() - 1].0 != key);
        lemma_assigned_only(env, list.drop_last(), key);
    }
}

proof fn lemma_assignments_from_lines(lines: Seq<Seq<char>>, set: Set<Seq<char>>, key: Seq<char>)
    requires
        forall|i: int|
            0 <= i < lines.len() ==> !(line_assignment(#[trigger] lines[i]) matches Some((k, _))
                && k == key),
    ensures
        forall|i: int|
            0 <= i < assignments(lines, set).len() ==> (#[trigger] assignments(lines, set)[i]).0
                != key,
    decreases lines.len(),
{
    if lines.len() > 0 {
        let rest = lines.drop_first();
        assert forall|i: int| 0 <= i < rest.len() implies !(line_assignment(
            #[trigger] rest[i],
        ) matches Some((k, _)) && k == key) by {
            assert(rest[i] == lines[i + 1]);
        }
        let all = assignments(lines, set);
        match line_assignment(lines[0]) {
            Some((k, v)) => if set.contains(k) {
                lemma_assignments_from_lines(rest, set, key);
                assert(all == assignments(rest, set));
            } else {
                let more = assignments(rest, set.insert(k));
                lemma_assignments_from_lines(rest, set.insert(k), key);
                assert(all == seq![(k, v)] + more);
                assert forall|i: int| 0 <= i < all.len() implies (#[trigger] all[i]).0 != key by {
                    if i > 0 {
                        assert(all[i] == more[i - 1]);
                    }
                }
            },
            None => {
                lemma_assignments_from_lines(rest, set, key);
                assert(all == assignments(rest, set));
            },
        }
    }
}

/// The config file sets nothing but what its lines assign, and without a file nothing changes.
pub proof fn the_file_sets_what_it_assigns_alone(env: EnvView, content: Seq<char>, key: Seq<char>)
    requires
        forall|i: int|
            0 <= i < split_on(content, '\n').len() ==> !(line_assignment(
                #[trigger] split_on(content, '\n')[i],
            ) matches Some((k, _)) && k == key),
    ensures
        loaded(env, Some(content)).contains_key(key) <==> env.contains_key(key),
        loaded(env, None) == env,
{
    let list = assignments(split_on(content, '\n'), env.dom());
    lemma_assignments_from_lines(split_on(content, '\n'), env.dom(), key);
    lemma_assigned_only(env, list, key);
}

// --- what is configured ---

/// The database is the file that `SLACK_DEPUTY_DB` names; else it is found under
/// `XDG_CONFIG_HOME`, or under `.config` in `HOME` where that is unset or empty, or under the
/// root where both are.
pub proof fn the_database_has_one_place(env: EnvView)
    ensures
        set_to(env, "SLACK_DEPUTY_DB"@) matches Some(path) ==> db_path(env) == path,
        set_to(env, "SLACK_DEPUTY_DB"@) is None ==> db_path(env) == config_base(env)
            + "/slack-deputy/slack-deputy.db"@,
        set_to(env, "XDG_CONFIG_HOME"@) matches Some(dir) ==> (dir.len() > 0 ==> config_base(env)
            == dir),
        !(set_to(env, "XDG_CONFIG_HOME"@) matches Some(dir) && dir.len() > 0) ==> config_base(env)
            == (match set_to(env, "HOME"@) {
            Some(home) => home + "/.config"@,
            None => Seq::empty(),
        }),
{
}

/// A configuration needs the three tokens, and names the first that is missing; it holds each
/// where it belongs, the place of the database, the address to listen on, loopback by default,
/// and the channels to watch, none by default.
pub proof fn a_configuration_needs_its_tokens(env: EnvView)
    ensures
        ({
            let app = set_to(env, "SLACK_APP_TOKEN"@);
            let bot = set_to(env, "SLACK_BOT_TOKEN"@);
            let user = set_to(env, "SLACK_USER_TOKEN"@);
            let channels = match set_to(env, "SLACK_DEPUTY_WATCH_CHANNELS"@) {
                Some(list) => list,
                None => ""@,
            };
            match config_of(env) {
                Ok(c) => {
                    &&& app == Some(c.app_token)
                    &&& bot == Some(c.bot_token)
                    &&& user == Some(c.user_token)
                    &&& c.db_path == db_path(env)
                    &&& set_to(env, "SLACK_DEPUTY_LISTEN"@) matches Some(l) ==> c.listen == l
                    &&& set_to(env, "SLACK_DEPUTY_LISTEN"@) is None ==> c.listen
                        == "127.0.0.1:8799"@
                    &&& forall|x: Seq<char>| #[trigger]
                        c.watch_channels.contains(x) <==> comma_list(channels).contains(x)
                },
                Err(e) => {
                    ||| app is None && e == "SLACK_APP_TOKEN"@ + ": not set"@
                    ||| app is Some && bot is None && e == "SLACK_BOT_TOKEN"@ + ": not set"@
                    ||| app is Some && bot is Some && user is None && e == "SLACK_USER_TOKEN"@
                        + ": not set"@
                },
            }
        }),
{
}

/// What is said of a configuration is said of its own fields.
pub proof fn configurations_are_what_they_hold(c: Config)
    ensures
        c@.app_token == c.app_token@,
        c@.bot_token == c.bot_token@,
        c@.user_token == c.user_token@,
        c@.db_path == c.db_path@,
        c@.listen == c.listen@,
        c@.watch_channels == c.watch_channels@,
{
}

// --- values ---

/// A field of an object is what the object holds under its name; no other value has fields. The
/// text of a field is there if and only if the field holds a text.
pub proof fn fields_are_found_by_name(
    v: JsonView,
    fields: Map<Seq<char>, JsonView>,
    key: Seq<char>,
)
    ensures
        !(v is Object) ==> v.get(key) is None,
        fields.contains_key(key) ==> JsonView::Object(fields).get(key) == Some(fields[key]),
        !fields.contains_key(key) ==> JsonView::Object(fields).get(key) is None,
        v.text_at(key) is Some <==> (v.get(key) matches Some(x) && x is Text),
        v.get(key) matches Some(JsonView::Text(t)) ==> v.text_at(key) == Some(t),
{
}

/// Of an object's list of fields the last with a name counts.
pub proof fn the_last_field_counts(fields: Seq<(String, Json)>, i: int)
    requires
        0 <= i < fields.len(),
        forall|j: int| i < j < fields.len() ==> (#[trigger] fields[j]).0@ != fields[i].0@,
    ensures
        fields_view(fields).contains_key(fields[i].0@),
        fields_view(fields)[fields[i].0@] == fields[i].1@,
    decreases fields.len(),
{
    if i < fields.len() - 1 {
        let rest = fields.drop_last();
        assert(fields[fields.len() - 1].0@ != fields[i].0@);
        assert forall|j: int| i < j < rest.len() implies (#[trigger] rest[j]).0@ != rest[i].0@ by {
            assert(rest[j] == fields[j]);
        }
        the_last_field_counts(rest, i);
    }
}

/// An object has no field that its list does not name.
pub proof fn what_is_not_listed_is_no_field(fields: Seq<(String, Json)>, key: Seq<char>)
    requires
        forall|j: int| 0 <= j < fields.len() ==> (#[trigger] fields[j]).0@ != key,
    ensures
        !fields_view(fields).contains_key(key),
    decreases fields.len(),
{
    if fields.len() > 0 {
        let rest = fields.drop_last();
        assert(fields[fields.len() - 1].0@ != key);
        assert forall|j: int| 0 <= j < rest.len() implies (#[trigger] rest[j]).0@ != key by {
            assert(rest[j] == fields[j]);
        }
        what_is_not_listed_is_no_field(rest, key);
    }
}

/// What is said of a value is said of what it holds.
pub proof fn values_are_what_they_hold(j: Json)
    ensures
        j is Null ==> j@ == JsonView::Null,
        j matches Json::Bool(b) ==> j@ == JsonView::Bool(b),
        j matches Json::Int(n) ==> j@ == JsonView::Int(n as int),
        j matches Json::Uint(n) ==> j@ == JsonView::Int(n as int),
        j matches Json::Text(s) ==> j@ == JsonView::Text(s@),
        j matches Json::Array(items) ==> j@ is Array && j@->Array_0.len() == items@.len(),
        j matches Json::Array(items) ==> forall|i: int|
            0 <= i < items@.len() ==> #[trigger] j@->Array_0[i] == items@[i]@,
        j matches Json::Object(fields) ==> j@ == JsonView::Object(fields_view(fields@)),
{
    if let Json::Array(items) = j {
        assert(j@ == JsonView::Array(items_view(items@)));
    }
}

/// A text that cannot be read counts as `null`, any other as what it denotes.
pub proof fn unreadable_text_is_null(text: Seq<char>)
    ensures
        json_read(text) is Err ==> read_or_null(text) == JsonView::Null,
        json_read(text) matches Ok(v) ==> read_or_null(text) == v,
{
}

/// A value that is no array, no object and no fraction is read back from its text; an array or
/// an object that does not hold the parser's own mark is where all that it holds is read back
/// and lies at most 127 levels deep.
pub proof fn which_values_are_read_back(
    items: Seq<JsonView>,
    fields: Map<Seq<char>, JsonView>,
    s: Seq<char>,
    n: int,
    b: bool,
    levels: nat,
)
    ensures
        json_fits(JsonView::Null, levels),
        json_fits(JsonView::Bool(b), levels),
        json_fits(JsonView::Int(n), levels),
        json_fits(JsonView::Text(s), levels),
        (forall|i: int| 0 <= i < items.len() ==> json_fits(#[trigger] items[i], levels))
            ==> json_fits(JsonView::Array(items), levels + 1),
        !fields.contains_key("$serde_json::private::RawValue"@) && (forall|k: Seq<char>| #[trigger]
            fields.contains_key(k) ==> json_fits(fields[k], levels)) ==> json_fits(
            JsonView::Object(fields),
            levels + 1,
        ),
        !json_fits(JsonView::Array(items), 0),
        !json_fits(JsonView::Object(fields), 0),
        json_plain(JsonView::Array(items)) <==> json_fits(JsonView::Array(items), 127),
        json_plain(JsonView::Object(fields)) <==> json_fits(JsonView::Object(fields), 127),
        json_plain(JsonView::Text(s)),
{
}

/// An object opens with the parser's own mark if and only if it has a field of that name and
/// none whose name comes before it.
pub proof fn which_objects_open_with_the_mark(fields: Map<Seq<char>, JsonView>)
    ensures
        ({
            let mark = "$serde_json::private::RawValue"@;
            opens_with_marker(fields) <==> fields.contains_key(mark) && !(exists|k: Seq<char>|
                #[trigger] fields.contains_key(k) && k != mark && !precedes(mark, k))
        }),
{
}

/// A list of assignments tells the name and the value of each.
pub proof fn assignments_tell_name_and_value(v: Seq<(String, String)>)
    ensures
        pairs_view(v).len() == v.len(),
        forall|i: int|
            0 <= i < v.len() ==> (#[trigger] pairs_view(v)[i]).0 == v[i].0@ && pairs_view(v)[i].1
                == v[i].1@,
{
}

} // verus!
