//! Operations on text, stated over sequences of characters.

use vstd::prelude::*;
use vstd::string::*;

verus! {

/// The characters with the Unicode `White_Space` property.
pub open spec fn white_space(c: char) -> bool {
    ||| '\u{9}' <= c <= '\u{d}'
    ||| c == '\u{20}'
    ||| c == '\u{85}'
    ||| c == '\u{a0}'
    ||| c == '\u{1680}'
    ||| '\u{2000}' <= c <= '\u{200a}'
    ||| c == '\u{2028}'
    ||| c == '\u{2029}'
    ||| c == '\u{202f}'
    ||| c == '\u{205f}'
    ||| c == '\u{3000}'
}

/// `char::is_whitespace` of std: whether a character has the Unicode
/// `White_Space` property, which the characters of [`white_space`] have.
pub assume_specification[ char::is_whitespace ](c: char) -> (r: bool)
    ensures
        r == white_space(c),
;

/// `==` on `str` of std: whether two texts hold the same characters in the same
/// order.
pub assume_specification[ <str as PartialEq>::eq ](a: &str, b: &str) -> (r: bool)
    ensures
        r == (a@ == b@),
;

/// The characters of an optional text.
pub open spec fn opt_text(o: Option<String>) -> Option<Seq<char>> {
    match o {
        Some(s) => Some(s@),
        None => None,
    }
}

/// The characters of an optional borrowed text.
pub open spec fn opt_str(o: Option<&str>) -> Option<Seq<char>> {
    match o {
        Some(s) => Some(s@),
        None => None,
    }
}

/// The characters of each text of a list.
pub open spec fn texts(v: Seq<String>) -> Seq<Seq<char>> {
    v.map_values(|s: String| s@)
}

/// Whether two texts are the same.
pub fn same(a: &str, b: &str) -> (r: bool)
    ensures
        r == (a@ == b@),
{
    a.eq(b)
}

/// Whether an optional text is present and the same as `b`.
pub fn opt_same(a: &Option<String>, b: &str) -> (r: bool)
    ensures
        r == (opt_text(*a) == Some(b@)),
{
    match a {
        Some(s) => same(s.as_str(), b),
        None => false,
    }
}

/// An optional borrowed text, owned.
pub fn opt_owned(o: Option<&str>) -> (r: Option<String>)
    ensures
        opt_text(r) == opt_str(o),
{
    match o {
        Some(s) => Some(s.to_owned()),
        None => None,
    }
}

/// An optional text, borrowed.
pub fn opt_ref(o: &Option<String>) -> (r: Option<&str>)
    ensures
        opt_str(r) == opt_text(*o),
{
    match o {
        Some(s) => Some(s.as_str()),
        None => None,
    }
}

/// A copy of an optional text.
pub fn opt_copy(o: &Option<String>) -> (r: Option<String>)
    ensures
        opt_text(r) == opt_text(*o),
{
    match o {
        Some(s) => Some(s.clone()),
        None => None,
    }
}

/// The characters of a text, one by one.
pub fn chars_of(s: &str) -> (v: Vec<char>)
    ensures
        v@ == s@,
{
    let mut v: Vec<char> = Vec::new();
    for c in it: s.chars()
        invariant
            v@ == it.seq().take(it.index() as int),
            it.seq() == s@,
    {
        v.push(c);
    }
    v
}

// --- trimming ---

/// `s` without the longest prefix whose characters all satisfy `p`.
pub open spec fn drop_prefix(s: Seq<char>, p: spec_fn(char) -> bool) -> Seq<char>
    decreases s.len(),
{
    if s.len() > 0 && p(s[0]) {
        drop_prefix(s.drop_first(), p)
    } else {
        s
    }
}

/// `s` without the longest suffix whose characters all satisfy `p`.
pub open spec fn drop_suffix(s: Seq<char>, p: spec_fn(char) -> bool) -> Seq<char>
    decreases s.len(),
{
    if s.len() > 0 && p(s.last()) {
        drop_suffix(s.drop_last(), p)
    } else {
        s
    }
}

/// `s` without the white space at both ends.
pub open spec fn trimmed(s: Seq<char>) -> Seq<char> {
    let white = |c: char| white_space(c);
    drop_suffix(drop_prefix(s, white), white)
}

/// The predicate that holds of `c` alone.
pub open spec fn is_char(c: char) -> spec_fn(char) -> bool {
    |x: char| x == c
}

/// The predicate that holds of every character but `c`.
pub open spec fn other_than(c: char) -> spec_fn(char) -> bool {
    |x: char| x != c
}

/// `s` without the characters `c` at its end.
pub open spec fn trimmed_end(s: Seq<char>, c: char) -> Seq<char> {
    drop_suffix(s, is_char(c))
}

/// `s` without the characters `c` at both ends.
pub open spec fn trimmed_both(s: Seq<char>, c: char) -> Seq<char> {
    drop_suffix(drop_prefix(s, is_char(c)), is_char(c))
}

proof fn lemma_drop_prefix(s: Seq<char>, p: spec_fn(char) -> bool, i: int)
    requires
        0 <= i <= s.len(),
        forall|j: int| 0 <= j < i ==> p(#[trigger] s[j]),
        i < s.len() ==> !p(s[i]),
    ensures
        drop_prefix(s, p) == s.skip(i),
    decreases i,
{
    if i > 0 {
        assert(p(s[0]));
        assert forall|j: int| 0 <= j < i - 1 implies p(#[trigger] s.drop_first()[j]) by {
            assert(p(s[j + 1]));
        }
        lemma_drop_prefix(s.drop_first(), p, i - 1);
        assert(s.drop_first().skip(i - 1) =~= s.skip(i));
    } else {
        assert(s.skip(0) =~= s);
    }
}

proof fn lemma_drop_suffix(s: Seq<char>, p: spec_fn(char) -> bool, n: int)
    requires
        0 <= n <= s.len(),
        forall|j: int| n <= j < s.len() ==> p(#[trigger] s[j]),
        n > 0 ==> !p(s[n - 1]),
    ensures
        drop_suffix(s, p) == s.take(n),
    decreases s.len(),
{
    if n < s.len() {
        assert(p(s[s.len() - 1]));
        lemma_drop_suffix(s.drop_last(), p, n);
        assert(s.drop_last().take(n) =~= s.take(n));
    } else {
        assert(s.take(n) =~= s);
    }
}

/// The text without the white space at both ends.
pub fn trim(s: &str) -> (r: &str)
    ensures
        r@ == trimmed(s@),
{
    let v = chars_of(s);
    let n = v.len();
    let ghost white = |c: char| white_space(c);
    let mut i: usize = 0;
    while i < n && v[i].is_whitespace()
        invariant
            n == v@.len(),
            i <= n,
            forall|j: int| 0 <= j < i ==> white_space(#[trigger] v@[j]),
        decreases n - i,
    {
        i += 1;
    }
    let mut e: usize = n;
    while e > i && v[e - 1].is_whitespace()
        invariant
            n == v@.len(),
            i <= e <= n,
            forall|j: int| e <= j < n ==> white_space(#[trigger] v@[j]),
        decreases e,
    {
        e -= 1;
    }
    proof {
        lemma_drop_prefix(v@, white, i as int);
        let t = v@.skip(i as int);
        assert forall|j: int| e - i <= j < t.len() implies white(#[trigger] t[j]) by {
            assert(white_space(v@[j + i]));
        }
        lemma_drop_suffix(t, white, e - i);
        assert(t.take(e - i) =~= v@.subrange(i as int, e as int));
    }
    s.substring_char(i, e)
}

/// The text without the characters `c` at its end.
pub fn trim_end_matches(s: &str, c: char) -> (r: &str)
    ensures
        r@ == trimmed_end(s@, c),
{
    let v = chars_of(s);
    let mut e: usize = v.len();
    while e > 0 && v[e - 1] == c
        invariant
            e <= v@.len(),
            forall|j: int| e <= j < v@.len() ==> #[trigger] v@[j] == c,
        decreases e,
    {
        e -= 1;
    }
    proof {
        lemma_drop_suffix(v@, is_char(c), e as int);
        assert(v@.take(e as int) =~= v@.subrange(0, e as int));
    }
    s.substring_char(0, e)
}

/// The text without the characters `c` at both ends.
pub fn trim_matches(s: &str, c: char) -> (r: &str)
    ensures
        r@ == trimmed_both(s@, c),
{
    let v = chars_of(s);
    let n = v.len();
    let mut i: usize = 0;
    while i < n && v[i] == c
        invariant
            n == v@.len(),
            i <= n,
            forall|j: int| 0 <= j < i ==> #[trigger] v@[j] == c,
        decreases n - i,
    {
        i += 1;
    }
    proof {
        lemma_drop_prefix(v@, is_char(c), i as int);
        assert(v@.skip(i as int) =~= v@.subrange(i as int, n as int));
    }
    trim_end_matches(s.substring_char(i, n), c)
}

// --- searching and splitting ---

/// The position of the first `c` in `s`, or the length of `s` where there is none.
pub open spec fn find(s: Seq<char>, c: char) -> int
    decreases s.len(),
{
    if s.len() == 0 || s[0] == c {
        0
    } else {
        1 + find(s.drop_first(), c)
    }
}

proof fn lemma_find(s: Seq<char>, c: char, i: int)
    requires
        0 <= i <= s.len(),
        forall|j: int| 0 <= j < i ==> #[trigger] s[j] != c,
        i < s.len() ==> s[i] == c,
    ensures
        find(s, c) == i,
    decreases i,
{
    if i > 0 {
        assert(s[0] != c);
        assert forall|j: int| 0 <= j < i - 1 implies #[trigger] s.drop_first()[j] != c by {
            assert(s[j + 1] != c);
        }
        lemma_find(s.drop_first(), c, i - 1);
    }
}

/// The pieces of `s` between the separators `c`; a text without separators is one
/// piece.
pub open spec fn split_on(s: Seq<char>, c: char) -> Seq<Seq<char>>
    decreases s.len(),
{
    let i = find(s, c);
    if 0 <= i < s.len() {
        seq![s.take(i)] + split_on(s.skip(i + 1), c)
    } else {
        seq![s]
    }
}

/// The pieces of a text between the separators `c`.
pub fn split(s: &str, c: char) -> (r: Vec<String>)
    ensures
        texts(r@) == split_on(s@, c),
{
    let v = chars_of(s);
    let n = v.len();
    let mut out: Vec<String> = Vec::new();
    let mut start: usize = 0;
    let mut i: usize = 0;
    proof {
        assert(v@.skip(0) =~= v@);
        assert(texts(out@) + split_on(v@, c) =~= split_on(v@, c));
    }
    while i < n
        invariant
            n == v@.len(),
            v@ == s@,
            start <= i <= n,
            forall|j: int| start <= j < i ==> #[trigger] v@[j] != c,
            texts(out@) + split_on(v@.skip(start as int), c) == split_on(v@, c),
        decreases n - i,
    {
        if v[i] == c {
            let piece = s.substring_char(start, i).to_owned();
            proof {
                let rest = v@.skip(start as int);
                assert forall|j: int| 0 <= j < i - start implies #[trigger] rest[j] != c by {
                    assert(v@[j + start] != c);
                }
                lemma_find(rest, c, i - start);
                assert(rest.take(i - start) =~= piece@);
                assert(rest.skip(i - start + 1) =~= v@.skip(i + 1));
                assert(texts(out@.push(piece)) =~= texts(out@).push(piece@));
                assert(texts(out@).push(piece@) + split_on(v@.skip(i + 1), c) =~= texts(out@) + (
                seq![piece@] + split_on(v@.skip(i + 1), c)));
            }
            out.push(piece);
            start = i + 1;
        }
        i += 1;
    }
    let piece = s.substring_char(start, n).to_owned();
    proof {
        let rest = v@.skip(start as int);
        assert forall|j: int| 0 <= j < rest.len() implies #[trigger] rest[j] != c by {
            assert(v@[j + start] != c);
        }
        lemma_find(rest, c, rest.len() as int);
        assert(rest =~= piece@);
        assert(texts(out@.push(piece)) =~= texts(out@) + seq![piece@]);
    }
    out.push(piece);
    out
}

/// The parts of a text before and after its first `c`, if it has one.
pub fn split_once(s: &str, c: char) -> (r: Option<(&str, &str)>)
    ensures
        match r {
            Some((a, b)) => {
                &&& find(s@, c) < s@.len()
                &&& a@ == s@.take(find(s@, c))
                &&& b@ == s@.skip(find(s@, c) + 1)
            },
            None => find(s@, c) == s@.len(),
        },
{
    let v = chars_of(s);
    let n = v.len();
    let mut i: usize = 0;
    while i < n && v[i] != c
        invariant
            n == v@.len(),
            i <= n,
            forall|j: int| 0 <= j < i ==> #[trigger] v@[j] != c,
        decreases n - i,
    {
        i += 1;
    }
    proof {
        lemma_find(v@, c, i as int);
    }
    if i < n {
        let a = s.substring_char(0, i);
        let b = s.substring_char(i + 1, n);
        proof {
            assert(a@ =~= s@.take(i as int));
            assert(b@ =~= s@.skip(i + 1));
        }
        Some((a, b))
    } else {
        None
    }
}

/// Whether `part` stands in `s` at position `i`.
pub open spec fn stands_at(s: Seq<char>, part: Seq<char>, i: int) -> bool {
    0 <= i && i + part.len() <= s.len() && s.subrange(i, i + part.len()) == part
}

/// Whether `part` stands somewhere in `s`.
pub open spec fn holds_text(s: Seq<char>, part: Seq<char>) -> bool {
    exists|i: int| stands_at(s, part, i)
}

/// Whether `part` stands somewhere in the text.
pub fn contains(s: &str, part: &str) -> (r: bool)
    ensures
        r == holds_text(s@, part@),
{
    let v = chars_of(s);
    let p = chars_of(part);
    let n = v.len();
    let m = p.len();
    if m > n {
        return false;
    }
    let mut i: usize = 0;
    while i <= n - m
        invariant
            n == v@.len(),
            m == p@.len(),
            v@ == s@,
            p@ == part@,
            m <= n,
            i <= n - m + 1,
            forall|k: int| 0 <= k < i ==> !stands_at(v@, p@, k),
        decreases n - m + 1 - i,
    {
        let mut j: usize = 0;
        while j < m && v[i + j] == p[j]
            invariant
                n == v@.len(),
                m == p@.len(),
                j <= m,
                i + m <= n,
                forall|k: int| 0 <= k < j ==> v@[i + k] == #[trigger] p@[k],
            decreases m - j,
        {
            j += 1;
        }
        if j == m {
            proof {
                assert(v@.subrange(i as int, i + m) =~= p@);
                assert(stands_at(v@, p@, i as int));
            }
            return true;
        }
        proof {
            assert(v@.subrange(i as int, i + m)[j as int] == v@[i + j]);
        }
        i += 1;
    }
    proof {
        assert forall|k: int| !stands_at(v@, p@, k) by {}
    }
    false
}

/// The text without its characters `c`.
pub fn without(s: &str, c: char) -> (r: String)
    ensures
        r@ == s@.filter(other_than(c)),
{
    let v = chars_of(s);
    let n = v.len();
    let ghost keep = other_than(c);
    let mut out = String::new();
    let mut i: usize = 0;
    proof {
        reveal(Seq::filter);
        assert(v@.take(0).filter(keep) =~= Seq::empty());
    }
    while i < n
        invariant
            n == v@.len(),
            v@ == s@,
            i <= n,
            keep == other_than(c),
            out@ == v@.take(i as int).filter(keep),
        decreases n - i,
    {
        proof {
            reveal(Seq::filter);
            assert(v@.take(i + 1).drop_last() =~= v@.take(i as int));
        }
        if v[i] != c {
            let one = s.substring_char(i, i + 1);
            proof {
                assert(out@ + one@ =~= out@.push(v@[i as int]));
            }
            out.append(one);
        }
        i += 1;
    }
    proof {
        assert(v@.take(n as int) =~= v@);
    }
    out
}

/// Whether a character ends a line.
pub open spec fn is_break(c: char) -> bool {
    c == '\n' || c == '\r'
}

/// A text with a blank in place of each character that ends a line.
pub open spec fn on_one_line(s: Seq<char>) -> Seq<char> {
    s.map_values(
        |c: char|
            if is_break(c) {
                ' '
            } else {
                c
            },
    )
}

/// The text with a blank in place of each character that ends a line.
pub fn one_line(s: &str) -> (r: String)
    ensures
        r@ == on_one_line(s@),
        !r@.contains('\n'),
        !r@.contains('\r'),
{
    let v = chars_of(s);
    let n = v.len();
    let mut out = String::new();
    let mut i: usize = 0;
    while i < n
        invariant
            n == v@.len(),
            v@ == s@,
            i <= n,
            out@ == on_one_line(v@).take(i as int),
        decreases n - i,
    {
        let one = if v[i] == '\n' || v[i] == '\r' {
            " "
        } else {
            s.substring_char(i, i + 1)
        };
        proof {
            reveal_strlit(" ");
            assert(out@ + one@ =~= on_one_line(v@).take(i + 1));
        }
        out.append(one);
        i += 1;
    }
    assert(on_one_line(v@).take(n as int) =~= on_one_line(v@));
    out
}

// --- lists of texts ---

/// The items of a comma-separated list: each piece without the white space at its
/// ends, empty pieces left out.
pub open spec fn comma_list(s: Seq<char>) -> Seq<Seq<char>> {
    split_on(s, ',').map_values(|p: Seq<char>| trimmed(p)).filter(|p: Seq<char>| p.len() > 0)
}

/// The items of a comma-separated list.
pub fn comma_items(s: &str) -> (r: Vec<String>)
    ensures
        texts(r@) == comma_list(s@),
{
    let pieces = split(s, ',');
    let ghost trims = |p: Seq<char>| trimmed(p);
    let ghost full = |p: Seq<char>| p.len() > 0;
    let ghost all = split_on(s@, ',').map_values(trims);
    let mut out: Vec<String> = Vec::new();
    let mut i: usize = 0;
    proof {
        reveal(Seq::filter);
        assert(all.take(0).filter(full) =~= texts(out@));
    }
    while i < pieces.len()
        invariant
            i <= pieces@.len(),
            trims == |p: Seq<char>| trimmed(p),
            full == |p: Seq<char>| p.len() > 0,
            texts(pieces@) == split_on(s@, ','),
            all == split_on(s@, ',').map_values(trims),
            texts(out@) == all.take(i as int).filter(full),
        decreases pieces@.len() - i,
    {
        let item = trim(pieces[i].as_str());
        proof {
            reveal(Seq::filter);
            assert(texts(pieces@)[i as int] == pieces@[i as int]@);
            assert(all[i as int] == item@);
            assert(all.take(i + 1).drop_last() =~= all.take(i as int));
        }
        if !item.is_empty() {
            let kept = item.to_owned();
            proof {
                assert(texts(out@.push(kept)) =~= texts(out@).push(kept@));
            }
            out.push(kept);
        }
        i += 1;
    }
    proof {
        assert(all.take(all.len() as int) =~= all);
    }
    out
}

/// The texts of a list with `sep` between each two of them.
pub open spec fn joined(v: Seq<Seq<char>>, sep: Seq<char>) -> Seq<char>
    decreases v.len(),
{
    if v.len() == 0 {
        Seq::empty()
    } else if v.len() == 1 {
        v[0]
    } else {
        joined(v.drop_last(), sep) + sep + v.last()
    }
}

/// The texts of a list with `sep` between each two of them.
pub fn join(v: &Vec<String>, sep: &str) -> (r: String)
    ensures
        r@ == joined(texts(v@), sep@),
{
    let mut out = String::new();
    let mut i: usize = 0;
    proof {
        assert(texts(v@).take(0) =~= Seq::empty());
        assert(out@ =~= joined(texts(v@).take(0), sep@));
    }
    while i < v.len()
        invariant
            i <= v@.len(),
            out@ == joined(texts(v@).take(i as int), sep@),
        decreases v@.len() - i,
    {
        proof {
            let t = texts(v@).take(i + 1);
            assert(t.drop_last() =~= texts(v@).take(i as int));
            assert(t.last() == v@[i as int]@);
            if i == 0 {
                assert(out@ + v@[0]@ =~= v@[0]@);
            }
        }
        if i > 0 {
            out.append(sep);
        }
        out.append(v[i].as_str());
        i += 1;
    }
    proof {
        assert(texts(v@).take(v@.len() as int) =~= texts(v@));
    }
    out
}

// --- layout ---

/// The first `n` characters of `s`, or all of it where it is no longer.
pub open spec fn first_of(s: Seq<char>, n: nat) -> Seq<char> {
    if s.len() <= n {
        s
    } else {
        s.take(n as int)
    }
}

/// The first `n` characters of a text, or all of it where it is no longer.
pub fn first_chars(s: &str, n: usize) -> (r: &str)
    ensures
        r@ == first_of(s@, n as nat),
{
    let len = s.unicode_len();
    if len <= n {
        s
    } else {
        let r = s.substring_char(0, n);
        proof {
            assert(r@ =~= s@.take(n as int));
        }
        r
    }
}

/// `s` followed by the blanks that make it at least `n` characters long.
pub open spec fn padded(s: Seq<char>, n: nat) -> Seq<char> {
    if s.len() >= n {
        s
    } else {
        s + Seq::new((n - s.len()) as nat, |i: int| ' ')
    }
}

/// The text followed by the blanks that make it at least `n` characters long.
pub fn pad(s: &str, n: usize) -> (r: String)
    ensures
        r@ == padded(s@, n as nat),
{
    let len = s.unicode_len();
    let mut out = s.to_owned();
    let mut i: usize = len;
    while i < n
        invariant
            len == s@.len(),
            len <= i,
            i <= n || i == len,
            out@ == s@ + Seq::new((i - len) as nat, |k: int| ' '),
        decreases n - i,
    {
        proof {
            reveal_strlit(" ");
            assert(" "@ =~= seq![' ']);
            assert(Seq::new((i + 1 - len) as nat, |k: int| ' ') =~= Seq::new(
                (i - len) as nat,
                |k: int| ' ',
            ).push(' '));
        }
        out.append(" ");
        i += 1;
    }
    proof {
        assert(s@ + Seq::new(0, |k: int| ' ') =~= s@);
    }
    out
}

/// The decimal digits of `n`.
pub open spec fn digits(n: nat) -> Seq<char>
    decreases n,
{
    if n < 10 {
        seq![(48 + n) as char]
    } else {
        digits(n / 10).push((48 + n % 10) as char)
    }
}

/// `n` in decimal, with a leading `-` where it is negative.
pub open spec fn decimal(n: int) -> Seq<char> {
    if n < 0 {
        "-"@ + digits((-n) as nat)
    } else {
        digits(n as nat)
    }
}

fn digit(n: u64) -> (r: &'static str)
    requires
        n < 10,
    ensures
        r@ == seq![(48 + n) as char],
{
    proof {
        reveal_strlit("0");
        reveal_strlit("1");
        reveal_strlit("2");
        reveal_strlit("3");
        reveal_strlit("4");
        reveal_strlit("5");
        reveal_strlit("6");
        reveal_strlit("7");
        reveal_strlit("8");
        reveal_strlit("9");
    }
    match n {
        0 => "0",
        1 => "1",
        2 => "2",
        3 => "3",
        4 => "4",
        5 => "5",
        6 => "6",
        7 => "7",
        8 => "8",
        _ => "9",
    }
}

fn digits_text(n: u64) -> (r: String)
    ensures
        r@ == digits(n as nat),
    decreases n,
{
    if n < 10 {
        digit(n).to_owned()
    } else {
        let mut out = digits_text(n / 10);
        proof {
            assert(out@ + seq![(48 + n % 10) as char] =~= out@.push((48 + n % 10) as char));
        }
        out.append(digit(n % 10));
        out
    }
}

/// A number in decimal.
pub fn number_text(n: i64) -> (r: String)
    ensures
        r@ == decimal(n as int),
{
    if n < 0 {
        let size: u64 = (-(n as i128)) as u64;
        let mut out = "-".to_owned();
        let tail = digits_text(size);
        out.append(tail.as_str());
        out
    } else {
        digits_text(n as u64)
    }
}

// --- order ---

/// Whether `a` stands before `b` in the lexicographic order of their characters.
pub open spec fn precedes(a: Seq<char>, b: Seq<char>) -> bool
    decreases a.len(),
{
    if b.len() == 0 {
        false
    } else if a.len() == 0 {
        true
    } else if a[0] != b[0] {
        a[0] < b[0]
    } else {
        precedes(a.drop_first(), b.drop_first())
    }
}

/// Of two texts one stands before the other, or they are the same.
pub proof fn precedes_is_total(a: Seq<char>, b: Seq<char>)
    ensures
        precedes(a, b) || precedes(b, a) || a == b,
        !(precedes(a, b) && precedes(b, a)),
        !precedes(a, a),
    decreases a.len(),
{
    if a.len() > 0 {
        precedes_is_total(a.drop_first(), a.drop_first());
        if b.len() > 0 && a[0] == b[0] {
            precedes_is_total(a.drop_first(), b.drop_first());
            if a.drop_first() == b.drop_first() {
                assert(a =~= seq![a[0]] + a.drop_first());
                assert(b =~= seq![b[0]] + b.drop_first());
            }
        }
    } else if b.len() == 0 {
        assert(a =~= b);
    }
}

/// The order of texts is transitive.
pub proof fn precedes_is_transitive(a: Seq<char>, b: Seq<char>, c: Seq<char>)
    requires
        precedes(a, b),
        precedes(b, c),
    ensures
        precedes(a, c),
    decreases a.len(),
{
    if a.len() > 0 && a[0] == b[0] && b[0] == c[0] {
        precedes_is_transitive(a.drop_first(), b.drop_first(), c.drop_first());
    }
}

/// Whether `a` stands before `b` in the lexicographic order of their characters.
pub fn is_before(a: &str, b: &str) -> (r: bool)
    ensures
        r == precedes(a@, b@),
{
    let v = chars_of(a);
    let w = chars_of(b);
    let mut i: usize = 0;
    proof {
        assert(v@.skip(0) =~= v@);
        assert(w@.skip(0) =~= w@);
    }
    while i < v.len() && i < w.len() && v[i] == w[i]
        invariant
            v@ == a@,
            w@ == b@,
            i <= v@.len(),
            i <= w@.len(),
            precedes(v@.skip(i as int), w@.skip(i as int)) == precedes(a@, b@),
        decreases v@.len() - i,
    {
        proof {
            assert(v@.skip(i as int).drop_first() =~= v@.skip(i + 1));
            assert(w@.skip(i as int).drop_first() =~= w@.skip(i + 1));
        }
        i += 1;
    }
    if i >= w.len() {
        false
    } else if i >= v.len() {
        true
    } else {
        v[i] < w[i]
    }
}

} // verus!
