//! Text: what the operations on it give, character by character.

use crate::text::{
    comma_list, decimal, digits, drop_prefix, drop_suffix, find, first_of, holds_text, is_char,
    joined, on_one_line, opt_str, opt_text, other_than, padded, precedes, split_on, stands_at,
    texts, trimmed, trimmed_both, trimmed_end, white_space,
};
use vstd::prelude::*;

verus! {

// --- lists that are sifted ---

/// Whether `at` lists, in order, just the positions of a list that pass.
pub open spec fn sifts<A>(list: Seq<A>, pass: spec_fn(A) -> bool, at: Seq<int>) -> bool {
    &&& forall|j: int| 0 <= j < at.len() ==> 0 <= #[trigger] at[j] < list.len() && pass(list[at[j]])
    &&& forall|j: int, k: int| 0 <= j < k < at.len() ==> #[trigger] at[j] < #[trigger] at[k]
    &&& forall|i: int|
        0 <= i < list.len() && pass(#[trigger] list[i]) ==> exists|j: int|
            0 <= j < at.len() && #[trigger] at[j] == i
}

/// The positions of a list that pass, in order.
pub open spec fn sifted<A>(list: Seq<A>, pass: spec_fn(A) -> bool) -> Seq<int>
    decreases list.len(),
{
    if list.len() == 0 {
        Seq::empty()
    } else if pass(list.last()) {
        sifted(list.drop_last(), pass).push(list.len() - 1)
    } else {
        sifted(list.drop_last(), pass)
    }
}

/// What a filter keeps is what passes, in the order of the list, and nothing else.
pub proof fn filter_keeps_what_passes<A>(list: Seq<A>, pass: spec_fn(A) -> bool)
    ensures
        sifts(list, pass, sifted(list, pass)),
        list.filter(pass).len() == sifted(list, pass).len(),
        forall|j: int|
            0 <= j < list.filter(pass).len() ==> #[trigger] list.filter(pass)[j]
                == list[sifted(list, pass)[j]],
    decreases list.len(),
{
    reveal(Seq::filter);
    let at = sifted(list, pass);
    if list.len() > 0 {
        let rest = list.drop_last();
        let n = rest.len() as int;
        filter_keeps_what_passes(rest, pass);
        let before = sifted(rest, pass);
        assert forall|i: int| 0 <= i < list.len() && pass(#[trigger] list[i]) implies exists|j: int|
            0 <= j < at.len() && #[trigger] at[j] == i by {
            if i < n {
                assert(rest[i] == list[i]);
                let j = choose|j: int| 0 <= j < before.len() && #[trigger] before[j] == i;
                assert(at[j] == i);
            } else {
                assert(list.last() == list[i]);
                assert(at[before.len() as int] == i);
            }
        }
        assert forall|j: int| 0 <= j < at.len() implies 0 <= #[trigger] at[j] < list.len() && pass(
            list[at[j]],
        ) by {
            if j < before.len() {
                assert(at[j] == before[j]);
                assert(rest[before[j]] == list[before[j]]);
            }
        }
        assert forall|j: int, k: int| 0 <= j < k < at.len() implies #[trigger] at[j]
            < #[trigger] at[k] by {
            assert(at[j] == before[j]);
            if k < before.len() {
                assert(at[k] == before[k]);
            }
        }
        assert forall|j: int| 0 <= j < list.filter(pass).len() implies #[trigger] list.filter(
            pass,
        )[j] == list[at[j]] by {
            if j < before.len() {
                assert(rest.filter(pass)[j] == rest[before[j]]);
            }
        }
    }
}

// --- trimming ---

/// Whether `t` is `s` without a run of characters that pass at the front, and one at the end.
pub open spec fn core_of(
    s: Seq<char>,
    t: Seq<char>,
    front: spec_fn(char) -> bool,
    end: spec_fn(char) -> bool,
    i: int,
) -> bool {
    &&& 0 <= i
    &&& i + t.len() <= s.len()
    &&& forall|k: int| 0 <= k < t.len() ==> #[trigger] t[k] == s[i + k]
    &&& forall|k: int| 0 <= k < i ==> front(#[trigger] s[k])
    &&& forall|k: int| i + t.len() <= k < s.len() ==> end(#[trigger] s[k])
    &&& t.len() > 0 ==> !front(t[0]) && !end(t.last())
}

/// Whether `t` is what of `s` begins at `i`, between two runs of white space.
pub open spec fn white_core(s: Seq<char>, t: Seq<char>, i: int) -> bool {
    core_of(s, t, |c: char| white_space(c), |c: char| white_space(c), i)
}

/// Whether `t` is what of `s` begins at `i`, between two runs of a character.
pub open spec fn char_core(s: Seq<char>, t: Seq<char>, c: char, i: int) -> bool {
    core_of(s, t, |x: char| x == c, |x: char| x == c, i)
}

proof fn lemma_drop_prefix(s: Seq<char>, p: spec_fn(char) -> bool)
    ensures
        drop_prefix(s, p).len() <= s.len(),
        drop_prefix(s, p) == s.skip(s.len() - drop_prefix(s, p).len()),
        forall|k: int| 0 <= k < s.len() - drop_prefix(s, p).len() ==> p(#[trigger] s[k]),
        drop_prefix(s, p).len() > 0 ==> !p(drop_prefix(s, p)[0]),
    decreases s.len(),
{
    let t = drop_prefix(s, p);
    if s.len() > 0 && p(s[0]) {
        let rest = s.drop_first();
        lemma_drop_prefix(rest, p);
        assert(rest.skip(rest.len() - t.len()) =~= s.skip(s.len() - t.len()));
        assert forall|k: int| 0 <= k < s.len() - t.len() implies p(#[trigger] s[k]) by {
            if k > 0 {
                assert(rest[k - 1] == s[k]);
            }
        }
    } else {
        assert(s.skip(0) =~= s);
    }
}

proof fn lemma_drop_suffix(s: Seq<char>, p: spec_fn(char) -> bool)
    ensures
        drop_suffix(s, p).len() <= s.len(),
        drop_suffix(s, p) == s.take(drop_suffix(s, p).len() as int),
        forall|k: int| drop_suffix(s, p).len() <= k < s.len() ==> p(#[trigger] s[k]),
        drop_suffix(s, p).len() > 0 ==> !p(drop_suffix(s, p).last()),
    decreases s.len(),
{
    let t = drop_suffix(s, p);
    if s.len() > 0 && p(s.last()) {
        let rest = s.drop_last();
        lemma_drop_suffix(rest, p);
        assert(rest.take(t.len() as int) =~= s.take(t.len() as int));
        assert forall|k: int| t.len() <= k < s.len() implies p(#[trigger] s[k]) by {
            if k < rest.len() {
                assert(rest[k] == s[k]);
            }
        }
    } else {
        assert(s.take(s.len() as int) =~= s);
    }
}

proof fn lemma_core(s: Seq<char>, p: spec_fn(char) -> bool) -> (i: int)
    ensures
        core_of(s, drop_suffix(drop_prefix(s, p), p), p, p, i),
{
    let u = drop_prefix(s, p);
    let t = drop_suffix(u, p);
    lemma_drop_prefix(s, p);
    lemma_drop_suffix(u, p);
    let i = s.len() - u.len();
    assert forall|k: int| 0 <= k < t.len() implies #[trigger] t[k] == s[i + k] by {
        assert(u[k] == s[i + k]);
    }
    assert forall|k: int| i + t.len() <= k < s.len() implies p(#[trigger] s[k]) by {
        assert(u[k - i] == s[k]);
    }
    i
}

/// Trimming takes white space off both ends, all of it, and nothing else.
pub proof fn trim_takes_white_ends(s: Seq<char>)
    ensures
        exists|i: int| white_core(s, trimmed(s), i),
{
    let i = lemma_core(s, |c: char| white_space(c));
    assert(white_core(s, trimmed(s), i));
}

/// A text is blank if and only if nothing of it is left once it is trimmed.
pub proof fn blank_trims_to_nothing(s: Seq<char>)
    ensures
        trimmed(s).len() > 0 <==> exists|i: int| 0 <= i < s.len() && !white_space(#[trigger] s[i]),
{
    let white = |c: char| white_space(c);
    let t = trimmed(s);
    let i = lemma_core(s, white);
    if t.len() > 0 {
        assert(t[0] == s[i + 0]);
        assert(!white_space(s[i]));
    }
    if exists|k: int| 0 <= k < s.len() && !white_space(#[trigger] s[k]) {
        let k = choose|k: int| 0 <= k < s.len() && !white_space(#[trigger] s[k]);
        assert(!white(s[k]));
    }
}

/// Taking a character off the end takes its whole run there, and nothing else.
pub proof fn trim_end_takes_run(s: Seq<char>, c: char)
    ensures
        trimmed_end(s, c).len() <= s.len(),
        forall|k: int| 0 <= k < trimmed_end(s, c).len() ==> #[trigger] trimmed_end(s, c)[k] == s[k],
        forall|k: int| trimmed_end(s, c).len() <= k < s.len() ==> #[trigger] s[k] == c,
        trimmed_end(s, c).len() > 0 ==> trimmed_end(s, c).last() != c,
{
    lemma_drop_suffix(s, is_char(c));
    assert forall|k: int| trimmed_end(s, c).len() <= k < s.len() implies #[trigger] s[k] == c by {
        assert(is_char(c)(s[k]));
    }
}

/// Taking a character off both ends takes its whole runs there, and nothing else.
pub proof fn trim_matches_takes_runs(s: Seq<char>, c: char)
    ensures
        exists|i: int| char_core(s, trimmed_both(s, c), c, i),
{
    let i = lemma_core(s, is_char(c));
    let p = |x: char| x == c;
    let t = trimmed_both(s, c);
    assert forall|k: int| 0 <= k < i implies p(#[trigger] s[k]) by {
        assert(is_char(c)(s[k]));
    }
    assert forall|k: int| i + t.len() <= k < s.len() implies p(#[trigger] s[k]) by {
        assert(is_char(c)(s[k]));
    }
    assert(char_core(s, t, c, i));
}

/// Leaving a character out leaves the others in their order.
pub proof fn leaving_out_keeps_the_others(s: Seq<char>, c: char)
    ensures
        sifts(s, |x: char| x != c, sifted(s, other_than(c))),
        s.filter(other_than(c)).len() == sifted(s, other_than(c)).len(),
        forall|j: int|
            0 <= j < s.filter(other_than(c)).len() ==> #[trigger] s.filter(other_than(c))[j]
                == s[sifted(s, other_than(c))[j]],
{
    filter_keeps_what_passes(s, other_than(c));
    let at = sifted(s, other_than(c));
    assert forall|i: int| 0 <= i < s.len() && (#[trigger] s[i]) != c implies exists|j: int|
        0 <= j < at.len() && #[trigger] at[j] == i by {
        assert(other_than(c)(s[i]));
    }
    assert forall|j: int| 0 <= j < at.len() implies 0 <= #[trigger] at[j] < s.len() && s[at[j]]
        != c by {
        assert(other_than(c)(s[at[j]]));
    }
}

// --- searching and splitting ---

/// The first hit of a character is one, and there is none before it.
pub proof fn find_is_first_hit(s: Seq<char>, c: char)
    ensures
        0 <= find(s, c) <= s.len(),
        find(s, c) < s.len() ==> s[find(s, c)] == c,
        forall|k: int| 0 <= k < find(s, c) ==> #[trigger] s[k] != c,
    decreases s.len(),
{
    if s.len() > 0 && s[0] != c {
        let rest = s.drop_first();
        find_is_first_hit(rest, c);
        assert forall|k: int| 0 <= k < find(s, c) implies #[trigger] s[k] != c by {
            if k > 0 {
                assert(rest[k - 1] == s[k]);
            }
        }
    }
}

/// A text holds another if and only if its characters stand in it one after the other.
pub proof fn holding_is_standing_in(s: Seq<char>, part: Seq<char>)
    ensures
        holds_text(s, part) <==> exists|i: int|
            {
                &&& 0 <= i
                &&& i + part.len() <= s.len()
                &&& #[trigger] s.subrange(i, i + part.len()) == part
            },
{
    if holds_text(s, part) {
        let i = choose|i: int| stands_at(s, part, i);
        assert(s.subrange(i, i + part.len()) == part);
    }
    if exists|i: int|
        {
            &&& 0 <= i
            &&& i + part.len() <= s.len()
            &&& #[trigger] s.subrange(i, i + part.len()) == part
        } {
        let i = choose|i: int|
            {
                &&& 0 <= i
                &&& i + part.len() <= s.len()
                &&& #[trigger] s.subrange(i, i + part.len()) == part
            };
        assert(stands_at(s, part, i));
    }
}

/// Joining puts the separator between each two, and nothing else.
pub proof fn joining_appends(v: Seq<Seq<char>>, x: Seq<char>, sep: Seq<char>)
    ensures
        joined(Seq::<Seq<char>>::empty(), sep) == Seq::<char>::empty(),
        joined(v.push(x), sep) == (if v.len() == 0 {
            x
        } else {
            joined(v, sep) + sep + x
        }),
{
    assert(v.push(x).drop_last() =~= v);
}

proof fn lemma_join_front(x: Seq<char>, v: Seq<Seq<char>>, sep: Seq<char>)
    requires
        v.len() > 0,
    ensures
        joined(seq![x] + v, sep) == x + sep + joined(v, sep),
    decreases v.len(),
{
    let all = seq![x] + v;
    assert(all.drop_last() =~= seq![x] + v.drop_last());
    if v.len() == 1 {
        assert(all.drop_last() =~= seq![x]);
        assert(joined(seq![x], sep) == x);
        assert(v.last() == v[0]);
    } else {
        lemma_join_front(x, v.drop_last(), sep);
        assert(x + sep + joined(v.drop_last(), sep) + sep + v.last() =~= x + sep + joined(v, sep));
    }
}

/// The pieces of a text, joined by the character at which it was split, are the text again,
/// and no piece holds the character.
pub proof fn splitting_is_undone_by_joining(s: Seq<char>, c: char)
    ensures
        split_on(s, c).len() > 0,
        joined(split_on(s, c), seq![c]) == s,
        forall|i: int|
            0 <= i < split_on(s, c).len() ==> !(#[trigger] split_on(s, c)[i]).contains(c),
    decreases s.len(),
{
    let i = find(s, c);
    find_is_first_hit(s, c);
    if i < s.len() {
        let rest = split_on(s.skip(i + 1), c);
        splitting_is_undone_by_joining(s.skip(i + 1), c);
        lemma_join_front(s.take(i), rest, seq![c]);
        assert(s.take(i) + seq![c] + s.skip(i + 1) =~= s);
        assert forall|k: int| 0 <= k < split_on(s, c).len() implies !(#[trigger] split_on(
            s,
            c,
        )[k]).contains(c) by {
            if k > 0 {
                assert(split_on(s, c)[k] == rest[k - 1]);
            }
        }
    } else {
        assert(split_on(s, c) =~= seq![s]);
    }
}

proof fn lemma_split_append(s: Seq<char>, t: Seq<char>, c: char)
    requires
        !t.contains(c),
    ensures
        split_on(s + seq![c] + t, c) == split_on(s, c).push(t),
    decreases s.len(),
{
    let all = s + seq![c] + t;
    let i = find(s, c);
    let k = find(all, c);
    find_is_first_hit(s, c);
    find_is_first_hit(all, c);
    assert(all[s.len() as int] == c);
    assert(k <= i) by {
        if k > i {
            assert(all[i] == c);
        }
    }
    assert(i <= k) by {
        if k < i {
            assert(all[k] == s[k]);
        }
    }
    if i < s.len() {
        assert(all.skip(i + 1) =~= s.skip(i + 1) + seq![c] + t);
        assert(all.take(i) =~= s.take(i));
        lemma_split_append(s.skip(i + 1), t, c);
        assert(seq![s.take(i)] + split_on(s.skip(i + 1), c).push(t) =~= split_on(s, c).push(t));
    } else {
        assert(all.skip(i + 1) =~= t);
        assert(all.take(i) =~= s);
        find_is_first_hit(t, c);
        assert(find(t, c) == t.len()) by {
            if find(t, c) < t.len() {
                assert(t.contains(t[find(t, c)]));
            }
        }
        assert(split_on(t, c) =~= seq![t]);
        assert(split_on(s, c) =~= seq![s]);
        assert(split_on(all, c) =~= seq![s] + seq![t]);
        assert(seq![s] + seq![t] =~= seq![s].push(t));
    }
}

/// The items of a comma-separated list are its pieces without the white space around them, in
/// order; a blank piece is none. Of a text without a comma that is the text itself.
pub proof fn comma_list_goes_piece_by_piece(s: Seq<char>, t: Seq<char>)
    requires
        !t.contains(','),
    ensures
        comma_list(t) == (if trimmed(t).len() > 0 {
            seq![trimmed(t)]
        } else {
            Seq::empty()
        }),
        comma_list(s + seq![','] + t) == (if trimmed(t).len() > 0 {
            comma_list(s).push(trimmed(t))
        } else {
            comma_list(s)
        }),
{
    reveal(Seq::filter);
    let trim = |p: Seq<char>| trimmed(p);
    let full = |p: Seq<char>| p.len() > 0;
    let before = split_on(s, ',').map_values(trim);
    lemma_split_append(s, t, ',');
    assert(split_on(s, ',').push(t).map_values(trim) =~= before.push(trimmed(t)));
    assert(before.push(trimmed(t)).drop_last() =~= before);
    find_is_first_hit(t, ',');
    assert(find(t, ',') == t.len()) by {
        if find(t, ',') < t.len() {
            assert(t.contains(t[find(t, ',')]));
        }
    }
    assert(split_on(t, ',') =~= seq![t]);
    assert(seq![t].map_values(trim) =~= seq![trimmed(t)]);
    assert(seq![trimmed(t)].drop_last() =~= Seq::empty());
    assert(Seq::<Seq<char>>::empty().filter(full) =~= Seq::empty());
    assert(Seq::<Seq<char>>::empty().push(trimmed(t)) =~= seq![trimmed(t)]);
}

// --- shaping ---

/// On one line, what ends a line is a blank and every other character is kept.
pub proof fn one_line_keeps_the_rest(s: Seq<char>)
    ensures
        on_one_line(s).len() == s.len(),
        forall|k: int|
            0 <= k < s.len() ==> #[trigger] on_one_line(s)[k] == (if s[k] == '\n' || s[k] == '\r' {
                ' '
            } else {
                s[k]
            }),
{
}

/// The first characters of a text are as many as there are, up to the number asked for.
pub proof fn first_characters_are_kept(s: Seq<char>, n: nat)
    ensures
        first_of(s, n).len() == (if s.len() < n {
            s.len()
        } else {
            n
        }),
        forall|k: int| 0 <= k < first_of(s, n).len() ==> #[trigger] first_of(s, n)[k] == s[k],
{
}

/// Padding keeps the text and fills up with blanks behind it, to no more than the width.
pub proof fn padding_fills_behind(s: Seq<char>, n: nat)
    ensures
        padded(s, n).len() == (if s.len() < n {
            n
        } else {
            s.len()
        }),
        forall|k: int| 0 <= k < s.len() ==> #[trigger] padded(s, n)[k] == s[k],
        forall|k: int| s.len() <= k < padded(s, n).len() ==> #[trigger] padded(s, n)[k] == ' ',
{
}

/// The number that a row of digits writes.
pub open spec fn number_written(s: Seq<char>) -> int
    decreases s.len(),
{
    if s.len() == 0 {
        0
    } else {
        10 * number_written(s.drop_last()) + (s.last() as int - '0' as int)
    }
}

/// Whether a text is a row of digits without a needless zero in front.
pub open spec fn is_digits(s: Seq<char>) -> bool {
    &&& s.len() > 0
    &&& forall|k: int| 0 <= k < s.len() ==> '0' <= #[trigger] s[k] <= '9'
    &&& s.len() > 1 ==> s[0] != '0'
}

proof fn lemma_digits(n: nat)
    ensures
        is_digits(digits(n)),
        number_written(digits(n)) == n,
        n > 0 ==> digits(n)[0] != '0',
    decreases n,
{
    if n < 10 {
        let s = digits(n);
        assert(s =~= seq![(48 + n) as char]);
        assert(s.drop_last() =~= Seq::empty());
        assert(number_written(s.drop_last()) == 0);
        assert(s.last() as int == 48 + n);
    } else {
        lemma_digits(n / 10);
        let rest = digits(n / 10);
        let s = digits(n);
        assert(s.drop_last() =~= rest);
        assert(s.last() as int == 48 + n % 10);
        assert(s[0] == rest[0]);
        assert forall|k: int| 0 <= k < s.len() implies '0' <= #[trigger] s[k] <= '9' by {
            if k < rest.len() {
                assert(s[k] == rest[k]);
            }
        }
    }
}

/// A number in decimal is a row of digits that writes it, with a minus sign in front of the
/// one that is opposite to a negative number.
pub proof fn decimal_writes_the_number(n: int)
    ensures
        n >= 0 ==> is_digits(decimal(n)) && number_written(decimal(n)) == n,
        n < 0 ==> decimal(n).len() > 0 && decimal(n)[0] == '-' && is_digits(decimal(n).skip(1))
            && number_written(decimal(n).skip(1)) == -n,
{
    reveal_strlit("-");
    if n < 0 {
        lemma_digits((-n) as nat);
        assert(decimal(n).skip(1) =~= digits((-n) as nat));
    } else {
        lemma_digits(n as nat);
    }
}

/// Whether two texts part at position `k`, and the first one is the lesser there: it ends
/// there, or has the lesser character.
pub open spec fn parts_below(a: Seq<char>, b: Seq<char>, k: int) -> bool {
    &&& 0 <= k <= a.len()
    &&& k < b.len()
    &&& forall|j: int| 0 <= j < k ==> #[trigger] a[j] == b[j]
    &&& k == a.len() || a[k] < b[k]
}

/// A text comes before another if and only if it is the lesser where they first part.
pub proof fn order_is_by_first_difference(a: Seq<char>, b: Seq<char>)
    ensures
        precedes(a, b) <==> exists|k: int| parts_below(a, b, k),
    decreases a.len(),
{
    if b.len() > 0 && a.len() > 0 && a[0] == b[0] {
        let (x, y) = (a.drop_first(), b.drop_first());
        order_is_by_first_difference(x, y);
        if precedes(a, b) {
            let k = choose|k: int| parts_below(x, y, k);
            assert forall|j: int| 0 <= j < k + 1 implies #[trigger] a[j] == b[j] by {
                if j > 0 {
                    assert(x[j - 1] == y[j - 1]);
                }
            }
            if k < x.len() {
                assert(x[k] == a[k + 1] && y[k] == b[k + 1]);
            }
            assert(parts_below(a, b, k + 1));
        }
        if exists|k: int| parts_below(a, b, k) {
            let k = choose|k: int| parts_below(a, b, k);
            assert(k > 0);
            assert forall|j: int| 0 <= j < k - 1 implies #[trigger] x[j] == y[j] by {
                assert(a[j + 1] == b[j + 1]);
            }
            assert(parts_below(x, y, k - 1));
        }
    } else if b.len() > 0 {
        if precedes(a, b) {
            assert(parts_below(a, b, 0));
        }
        if exists|k: int| parts_below(a, b, k) {
            let k = choose|k: int| parts_below(a, b, k);
            if k > 0 {
                assert(a[0] == b[0]);
            }
        }
    }
}

// --- texts that may be missing ---

/// A text that is there, even an empty one, is told from one that is missing; a list of texts
/// keeps each in its place.
pub proof fn texts_are_told_as_they_are(s: String, t: &str, list: Seq<String>)
    ensures
        opt_text(None) is None,
        opt_text(Some(s)) == Some(s@),
        opt_str(None) is None,
        opt_str(Some(t)) == Some(t@),
        texts(list).len() == list.len(),
        forall|i: int| 0 <= i < list.len() ==> #[trigger] texts(list)[i] == list[i]@,
{
}

/// White are the blank and the controls from tab to carriage return, and sixteen more spaces
/// and separators; no other character is.
pub proof fn what_is_white(c: char)
    ensures
        white_space(c) <==> {
            let n = c as int;
            ||| n < 128 && (n == 32 || (n >= 9 && n < 14))
            ||| n == 133 || n == 160 || n == 5760
            ||| n >= 8192 && n < 8203
            ||| n == 8232 || n == 8233 || n == 8239 || n == 8287 || n == 12288
        },
{
}

} // verus!
