//! The relay's own rules around the registry: who may connect, what a
//! device declares it can do, and which clipboard texts set off a command.
use vstd::prelude::*;

use crate::message::{strings_view, ClipboardContent};
use vstd::string::StringExecFns;
use crate::text::{
    chars_of, decimal, decimal_chars, digit_char, digit_value, is_digit, replace_all, replace_chars,
    string_of,
};

verus! {

/// Relies on `subtle`'s `ConstantTimeEq` for byte slices, whose result is
/// true exactly when both slices have the same length and the same bytes,
/// compared in time independent of their contents. Equal UTF-8 bytes are
/// equal strings.
#[verifier::external_body]
fn constant_time_equal(given: &str, expected: &str) -> (r: bool)
    ensures
        r == (given@ == expected@),
{
    bool::from(subtle::ConstantTimeEq::ct_eq(given.as_bytes(), expected.as_bytes()))
}

/// Whether the token a request carries is the relay's token, compared in
/// constant time.
pub fn tokens_match(given: &str, expected: &str) -> (r: bool)
    ensures
        r == (given@ == expected@),
{
    constant_time_equal(given, expected)
}

/// Whether `c` is white space, as `char::is_whitespace` has it.
pub open spec fn is_space(c: char) -> bool {
    ||| '\t' <= c <= '\r'
    ||| c == ' '
    ||| c == '\u{85}'
    ||| c == '\u{a0}'
    ||| c == '\u{1680}'
    ||| '\u{2000}' <= c <= '\u{200a}'
    ||| c == '\u{2028}'
    ||| c == '\u{2029}'
    ||| c == '\u{202f}'
    ||| c == '\u{205f}'
    ||| c == '\u{3000}'
}

fn space(c: char) -> (r: bool)
    ensures
        r == is_space(c),
{
    ('\t' <= c && c <= '\r') || c == ' ' || c == '\u{85}' || c == '\u{a0}' || c == '\u{1680}' || (
    '\u{2000}' <= c && c <= '\u{200a}') || c == '\u{2028}' || c == '\u{2029}' || c == '\u{202f}'
        || c == '\u{205f}' || c == '\u{3000}'
}

/// `s` without white space at its start.
pub open spec fn trim_start(s: Seq<char>) -> Seq<char>
    decreases s.len(),
{
    if s.len() > 0 && is_space(s[0]) {
        trim_start(s.skip(1))
    } else {
        s
    }
}

/// `s` without white space at its end.
pub open spec fn trim_end(s: Seq<char>) -> Seq<char>
    decreases s.len(),
{
    if s.len() > 0 && is_space(s.last()) {
        trim_end(s.drop_last())
    } else {
        s
    }
}

/// `s` without white space at either end.
pub open spec fn trim(s: Seq<char>) -> Seq<char> {
    trim_end(trim_start(s))
}

/// The pieces of `s` between the separators `sep`; always at least one.
pub open spec fn split_on(s: Seq<char>, sep: char) -> Seq<Seq<char>>
    decreases s.len(),
{
    if s.len() == 0 {
        seq![Seq::empty()]
    } else {
        let rest = split_on(s.drop_last(), sep);
        if s.last() == sep {
            rest.push(Seq::empty())
        } else {
            rest.update(rest.len() - 1, rest.last().push(s.last()))
        }
    }
}

/// The number that a string of decimal digits names.
pub open spec fn digits_value(d: Seq<char>) -> nat
    decreases d.len(),
{
    if d.len() == 0 {
        0
    } else {
        digits_value(d.drop_last()) * 10 + digit_value(d.last())
    }
}

/// `v` without a leading `+`.
pub open spec fn number_part(v: Seq<char>) -> Seq<char> {
    if v.len() > 0 && v[0] == '+' {
        v.skip(1)
    } else {
        v
    }
}

/// Whether every character of `d` is a decimal digit.
pub open spec fn all_digits(d: Seq<char>) -> bool {
    forall|i: int| 0 <= i < d.len() ==> is_digit(#[trigger] d[i])
}

/// The unsigned number that `v` spells, as `usize::from_str` reads it: an
/// optional `+`, then one or more decimal digits, naming a value that fits.
pub open spec fn parse_usize(v: Seq<char>) -> Option<usize> {
    let d = number_part(v);
    if d.len() > 0 && all_digits(d) && digits_value(d) <= usize::MAX {
        Some(digits_value(d) as usize)
    } else {
        None
    }
}

/// The position of the first `c` in `s`, if any.
pub open spec fn first_index_of(s: Seq<char>, c: char) -> Option<int> {
    if exists|i: int| 0 <= i < s.len() && s[i] == c {
        Some(choose|i: int| 0 <= i < s.len() && s[i] == c && forall|k: int| 0 <= k < i ==> s[k] != c)
    } else {
        None
    }
}

/// A `name:count` pair: the name and the count around the first `:`, each
/// trimmed; `None` where there is no `:` or the count is no number.
pub open spec fn parse_pair(p: Seq<char>) -> Option<(Seq<char>, usize)> {
    match first_index_of(p, ':') {
        None => None,
        Some(i) => match parse_usize(trim(p.skip(i + 1))) {
            None => None,
            Some(n) => Some((trim(p.take(i)), n)),
        },
    }
}

/// The pairs that parse, in order; the others are skipped.
pub open spec fn parse_pairs(ps: Seq<Seq<char>>) -> Seq<(Seq<char>, usize)>
    decreases ps.len(),
{
    if ps.len() == 0 {
        Seq::empty()
    } else {
        let rest = parse_pairs(ps.drop_last());
        match parse_pair(ps.last()) {
            Some(p) => rest.push(p),
            None => rest,
        }
    }
}

/// What a device declares it can do, from a comma-separated list of
/// `name:count` pairs.
pub open spec fn supported_actions_spec(s: Seq<char>) -> Seq<(Seq<char>, usize)> {
    parse_pairs(split_on(s, ','))
}

proof fn lemma_trim_start_skip(s: Seq<char>, i: int)
    requires
        0 <= i <= s.len(),
        forall|k: int| 0 <= k < i ==> is_space(#[trigger] s[k]),
    ensures
        trim_start(s) == trim_start(s.skip(i)),
    decreases i,
{
    if i > 0 {
        assert(s.skip(1).skip(i - 1) =~= s.skip(i));
        lemma_trim_start_skip(s.skip(1), i - 1);
    } else {
        assert(s.skip(0) =~= s);
    }
}

proof fn lemma_trim_end_take(s: Seq<char>, j: int)
    requires
        0 <= j <= s.len(),
        forall|k: int| j <= k < s.len() ==> is_space(#[trigger] s[k]),
    ensures
        trim_end(s) == trim_end(s.take(j)),
    decreases s.len() - j,
{
    if j < s.len() {
        assert(s.drop_last().take(j) =~= s.take(j));
        lemma_trim_end_take(s.drop_last(), j);
    } else {
        assert(s.take(j) =~= s);
    }
}

/// The characters of `s` from `lo` to `hi`, trimmed.
fn trimmed(s: &Vec<char>, lo: usize, hi: usize) -> (r: Vec<char>)
    requires
        lo <= hi <= s@.len(),
    ensures
        r@ == trim(s@.subrange(lo as int, hi as int)),
{
    let ghost t = s@.subrange(lo as int, hi as int);
    let mut a = lo;
    while a < hi && space(s[a])
        invariant
            lo <= a <= hi <= s@.len(),
            forall|k: int| lo <= k < a ==> is_space(#[trigger] s@[k]),
        decreases hi - a,
    {
        a = a + 1;
    }
    proof {
        assert forall|k: int| 0 <= k < a - lo implies is_space(#[trigger] t[k]) by {
            assert(t[k] == s@[lo + k]);
        }
        lemma_trim_start_skip(t, a - lo);
        assert(t.skip(a - lo) =~= s@.subrange(a as int, hi as int));
        if a < hi {
            assert(!is_space(s@.subrange(a as int, hi as int)[0]));
        }
    }
    let mut b = hi;
    while b > a && space(s[b - 1])
        invariant
            lo <= a <= b <= hi <= s@.len(),
            forall|k: int| b <= k < hi ==> is_space(#[trigger] s@[k]),
        decreases b - a,
    {
        b = b - 1;
    }
    let ghost u = s@.subrange(a as int, hi as int);
    proof {
        assert forall|k: int| b - a <= k < u.len() implies is_space(#[trigger] u[k]) by {
            assert(u[k] == s@[a + k]);
        }
        lemma_trim_end_take(u, b - a);
        assert(u.take(b - a) =~= s@.subrange(a as int, b as int));
        if a < b {
            assert(s@.subrange(a as int, b as int).last() == s@[b - 1]);
        }
    }
    let mut r: Vec<char> = Vec::new();
    let mut k = a;
    while k < b
        invariant
            a <= k <= b <= s@.len(),
            r@ == s@.subrange(a as int, k as int),
        decreases b - k,
    {
        r.push(s[k]);
        k = k + 1;
        assert(r@ =~= s@.subrange(a as int, k as int));
    }
    r
}

proof fn lemma_digits_value_grows(d: Seq<char>, c: char)
    requires
        digits_value(d) > usize::MAX,
    ensures
        digits_value(d.push(c)) > usize::MAX,
{
    assert(d.push(c).drop_last() =~= d);
    assert(digits_value(d) * 10 + digit_value(c) > usize::MAX) by (nonlinear_arith)
        requires
            digits_value(d) > usize::MAX,
    ;
}

/// Reads an unsigned number as `usize::from_str` does.
fn parse_number(v: &Vec<char>) -> (r: Option<usize>)
    ensures
        r == parse_usize(v@),
{
    let start: usize = if v.len() > 0 && v[0] == '+' {
        1
    } else {
        0
    };
    let ghost d = if v@.len() > 0 && v@[0] == '+' {
        v@.skip(1)
    } else {
        v@
    };
    proof {
        if start == 0 {
            assert(v@.skip(0) =~= v@);
        }
    }
    if start >= v.len() {
        assert(d.len() == 0);
        return None;
    }
    let mut value: usize = 0;
    let mut overflow = false;
    let mut i = start;
    while i < v.len()
        invariant
            start <= i <= v@.len(),
            d == v@.skip(start as int),
            d == number_part(v@),
            forall|k: int| start <= k < i ==> is_digit(#[trigger] v@[k]),
            overflow == (digits_value(v@.subrange(start as int, i as int)) > usize::MAX),
            !overflow ==> value == digits_value(v@.subrange(start as int, i as int)),
        decreases v@.len() - i,
    {
        let c = v[i];
        if !('0' <= c && c <= '9') {
            proof {
                assert(d[i - start] == c);
                assert(!is_digit(d[i - start]));
                assert(!all_digits(d));
            }
            return None;
        }
        let ghost prev = v@.subrange(start as int, i as int);
        proof {
            assert(v@.subrange(start as int, i + 1) =~= prev.push(c));
            assert(prev.push(c).drop_last() =~= prev);
        }
        let x = (c as u32 - '0' as u32) as usize;
        assert(x == digit_value(c));
        if overflow {
            proof {
                lemma_digits_value_grows(prev, c);
            }
        } else {
            match value.checked_mul(10) {
                Some(m) => match m.checked_add(x) {
                    Some(w) => {
                        value = w;
                    },
                    None => {
                        overflow = true;
                    },
                },
                None => {
                    overflow = true;
                    assert(digits_value(prev) * 10 + x > usize::MAX) by (nonlinear_arith)
                        requires
                            digits_value(prev) * 10 > usize::MAX,
                            x >= 0,
                    ;
                },
            }
        }
        i = i + 1;
    }
    proof {
        assert(v@.subrange(start as int, v@.len() as int) =~= d);
        assert forall|k: int| 0 <= k < d.len() implies is_digit(#[trigger] d[k]) by {
            assert(d[k] == v@[start + k]);
        }
        assert(all_digits(d));
    }
    if overflow {
        None
    } else {
        Some(value)
    }
}

/// Reads one `name:count` pair.
fn parse_one_pair(p: &Vec<char>) -> (r: Option<(String, usize)>)
    ensures
        match r {
            Some(x) => parse_pair(p@) == Some((x.0@, x.1)),
            None => parse_pair(p@).is_none(),
        },
{
    let mut i: usize = 0;
    while i < p.len() && p[i] != ':'
        invariant
            i <= p@.len(),
            forall|k: int| 0 <= k < i ==> p@[k] != ':',
        decreases p@.len() - i,
    {
        i = i + 1;
    }
    if i == p.len() {
        return None;
    }
    proof {
        let j = choose|j: int|
            0 <= j < p@.len() && p@[j] == ':' && forall|k: int| 0 <= k < j ==> p@[k] != ':';
        assert(j == i);
        assert(p@.subrange(0, i as int) =~= p@.take(i as int));
        assert(p@.subrange(i + 1, p@.len() as int) =~= p@.skip(i + 1));
    }
    let key = trimmed(p, 0, i);
    let value = trimmed(p, i + 1, p.len());
    match parse_number(&value) {
        Some(n) => Some((string_of(&key), n)),
        None => None,
    }
}

/// The actions a device declares, from a comma-separated list of
/// `name:count` pairs; pairs without a `:` or with a count that is no
/// number are skipped.
pub fn parse_supported_actions(s: &str) -> (r: Vec<(String, usize)>)
    ensures
        crate::registry::actions_view(r@) == supported_actions_spec(s@),
{
    let cs = chars_of(s);
    let mut pieces: Vec<Vec<char>> = Vec::new();
    let mut cur: Vec<char> = Vec::new();
    let mut i: usize = 0;
    while i < cs.len()
        invariant
            i <= cs@.len(),
            cs@ == s@,
            pieces@.map_values(|v: Vec<char>| v@).push(cur@) == split_on(cs@.take(i as int), ','),
        decreases cs@.len() - i,
    {
        let ghost before = pieces@.map_values(|v: Vec<char>| v@).push(cur@);
        proof {
            assert(cs@.take(i + 1).drop_last() =~= cs@.take(i as int));
        }
        if cs[i] == ',' {
            let done = cur;
            pieces.push(done);
            cur = Vec::new();
            proof {
                assert(pieces@.map_values(|v: Vec<char>| v@).push(cur@) =~= before.push(
                    Seq::empty(),
                ));
            }
        } else {
            cur.push(cs[i]);
            proof {
                assert(pieces@.map_values(|v: Vec<char>| v@).push(cur@) =~= before.update(
                    before.len() - 1,
                    before.last().push(cs@[i as int]),
                ));
            }
        }
        i = i + 1;
    }
    let ghost split = pieces@.map_values(|v: Vec<char>| v@).push(cur@);
    pieces.push(cur);
    let ghost ps = pieces@.map_values(|v: Vec<char>| v@);
    proof {
        assert(cs@.take(cs@.len() as int) =~= cs@);
        assert(ps =~= split);
        assert(ps == split_on(s@, ','));
    }
    let mut r: Vec<(String, usize)> = Vec::new();
    let mut k: usize = 0;
    while k < pieces.len()
        invariant
            k <= pieces@.len(),
            ps == pieces@.map_values(|v: Vec<char>| v@),
            crate::registry::actions_view(r@) == parse_pairs(ps.take(k as int)),
        decreases pieces@.len() - k,
    {
        proof {
            assert(ps.take(k + 1).drop_last() =~= ps.take(k as int));
        }
        let ghost before = r@;
        match parse_one_pair(&pieces[k]) {
            Some(pair) => {
                r.push(pair);
                proof {
                    assert(crate::registry::actions_view(r@) =~= crate::registry::actions_view(
                        before,
                    ).push((r@.last().0@, r@.last().1)));
                }
            },
            None => {},
        }
        k = k + 1;
    }
    proof {
        assert(ps.take(ps.len() as int) =~= ps);
        assert(k == ps.len());
    }
    r
}

/// Whether `s` holds the character `c`.
pub open spec fn holds_char(s: Seq<char>, c: char) -> bool {
    exists|i: int| 0 <= i < s.len() && s[i] == c
}

proof fn lemma_split_single(b: Seq<char>, sep: char)
    requires
        !holds_char(b, sep),
    ensures
        split_on(b, sep) == seq![b],
    decreases b.len(),
{
    if b.len() > 0 {
        assert(!holds_char(b.drop_last(), sep)) by {
            if holds_char(b.drop_last(), sep) {
                let i = choose|i: int| 0 <= i < b.drop_last().len() && b.drop_last()[i] == sep;
                assert(b[i] == sep);
            }
        }
        lemma_split_single(b.drop_last(), sep);
        assert(b.last() != sep) by {
            assert(b[b.len() - 1] == b.last());
        }
        assert(b.drop_last().push(b.last()) =~= b);
        assert(seq![b.drop_last()].update(0, b.drop_last().push(b.last())) =~= seq![b]);
    } else {
        assert(b =~= Seq::<char>::empty());
    }
}

proof fn lemma_split_append(a: Seq<char>, b: Seq<char>, sep: char)
    requires
        !holds_char(b, sep),
    ensures
        split_on(a + seq![sep] + b, sep) == split_on(a, sep).push(b),
    decreases b.len(),
{
    let s = a + seq![sep] + b;
    if b.len() == 0 {
        assert(s.drop_last() =~= a);
        assert(b =~= Seq::<char>::empty());
    } else {
        assert(!holds_char(b.drop_last(), sep)) by {
            if holds_char(b.drop_last(), sep) {
                let i = choose|i: int| 0 <= i < b.drop_last().len() && b.drop_last()[i] == sep;
                assert(b[i] == sep);
            }
        }
        lemma_split_append(a, b.drop_last(), sep);
        assert(s.drop_last() =~= a + seq![sep] + b.drop_last());
        assert(s.last() == b.last());
        assert(b.last() != sep) by {
            assert(b[b.len() - 1] == b.last());
        }
        let rest = split_on(a, sep).push(b.drop_last());
        assert(b.drop_last().push(b.last()) =~= b);
        assert(rest.last() == b.drop_last());
        assert(rest.update(rest.len() - 1, rest.last().push(b.last())) =~= split_on(a, sep).push(
            b,
        ));
    }
}

proof fn lemma_digit_char(d: nat)
    requires
        d < 10,
    ensures
        is_digit(digit_char(d)),
        digit_value(digit_char(d)) == d,
{
}

proof fn lemma_decimal(n: nat)
    ensures
        decimal(n).len() >= 1,
        all_digits(decimal(n)),
        digits_value(decimal(n)) == n,
    decreases n,
{
    if n < 10 {
        lemma_digit_char(n);
        let d = seq![digit_char(n)];
        assert(d.drop_last() =~= Seq::<char>::empty());
        assert(decimal(n) == d);
        assert(digits_value(d.drop_last()) == 0);
        assert(digits_value(d) == digits_value(d.drop_last()) * 10 + digit_value(d.last()));
        assert(all_digits(d)) by {
            assert forall|i: int| 0 <= i < d.len() implies is_digit(#[trigger] d[i]) by {
                assert(i == 0);
            }
        }
    } else {
        lemma_decimal(n / 10);
        lemma_digit_char(n % 10);
        let d = decimal(n / 10).push(digit_char(n % 10));
        assert(d.drop_last() =~= decimal(n / 10));
        assert(all_digits(d)) by {
            assert forall|i: int| 0 <= i < d.len() implies is_digit(#[trigger] d[i]) by {
                if i < d.len() - 1 {
                    assert(d[i] == decimal(n / 10)[i]);
                }
            }
        }
        assert(decimal(n) == d);
        assert(d.last() == digit_char(n % 10));
        assert(digits_value(d) == digits_value(d.drop_last()) * 10 + digit_value(d.last()));
        assert((n / 10) * 10 + n % 10 == n) by (nonlinear_arith);
    }
}

/// The text of one announced pair.
pub open spec fn pair_item(p: (Seq<char>, nat)) -> Seq<char> {
    p.0 + seq![':'] + decimal(p.1)
}

proof fn lemma_item_has_no_comma(p: (Seq<char>, nat))
    requires
        !holds_char(p.0, ','),
    ensures
        !holds_char(pair_item(p), ','),
{
    lemma_decimal(p.1);
    let s = pair_item(p);
    if holds_char(s, ',') {
        let i = choose|i: int| 0 <= i < s.len() && s[i] == ',';
        if i < p.0.len() {
            assert(p.0[i] == ',');
        } else if i > p.0.len() {
            assert(is_digit(decimal(p.1)[i - p.0.len() - 1]));
        }
    }
}

proof fn lemma_parse_item(p: (Seq<char>, nat))
    requires
        !holds_char(p.0, ':'),
        trim(p.0) == p.0,
        p.1 <= usize::MAX,
    ensures
        parse_pair(pair_item(p)) == Some((p.0, p.1 as usize)),
{
    let s = pair_item(p);
    let d = decimal(p.1);
    let k = p.0.len() as int;
    lemma_decimal(p.1);
    assert(s[k] == ':');
    assert forall|j: int| 0 <= j < k implies s[j] != ':' by {
        assert(s[j] == p.0[j]);
        if s[j] == ':' {
            assert(holds_char(p.0, ':'));
        }
    }
    let i = choose|i: int| 0 <= i < s.len() && s[i] == ':' && forall|j: int| 0 <= j < i ==> s[j] != ':';
    assert(i == k) by {
        if i < k {
        } else if i > k {
        }
    }
    assert(first_index_of(s, ':') == Some(k));
    assert(s.take(k) =~= p.0);
    assert(s.skip(k + 1) =~= d);
    assert(!is_space(d[0])) by {
        assert(is_digit(d[0]));
    }
    assert(trim_start(d) == d);
    assert(!is_space(d.last())) by {
        assert(is_digit(d[d.len() - 1]));
    }
    assert(trim_end(d) == d);
    assert(number_part(d) == d) by {
        assert(is_digit(d[0]));
    }
}

proof fn lemma_split_announcement(ps: Seq<(Seq<char>, nat)>)
    requires
        ps.len() >= 1,
        forall|i: int| 0 <= i < ps.len() ==> !holds_char(#[trigger] ps[i].0, ','),
    ensures
        split_on(crate::client::pairs_text(ps), ',') == ps.map_values(|p: (Seq<char>, nat)| pair_item(p)),
    decreases ps.len(),
{
    lemma_item_has_no_comma(ps.last());
    if ps.len() == 1 {
        lemma_split_single(pair_item(ps.last()), ',');
        assert(ps.map_values(|p: (Seq<char>, nat)| pair_item(p)) =~= seq![pair_item(ps.last())]);
    } else {
        let init = ps.drop_last();
        assert forall|i: int| 0 <= i < init.len() implies !holds_char(#[trigger] init[i].0, ',') by {
            assert(init[i] == ps[i]);
        }
        lemma_split_announcement(init);
        lemma_split_append(crate::client::pairs_text(init), pair_item(ps.last()), ',');
        assert(ps.map_values(|p: (Seq<char>, nat)| pair_item(p)) =~= init.map_values(
            |p: (Seq<char>, nat)| pair_item(p),
        ).push(pair_item(ps.last())));
    }
}

proof fn lemma_parse_items(ps: Seq<(Seq<char>, nat)>)
    requires
        forall|i: int|
            0 <= i < ps.len() ==> !holds_char(#[trigger] ps[i].0, ':') && trim(ps[i].0) == ps[i].0
                && ps[i].1 <= usize::MAX,
    ensures
        parse_pairs(ps.map_values(|p: (Seq<char>, nat)| pair_item(p))) == ps.map_values(
            |p: (Seq<char>, nat)| (p.0, p.1 as usize),
        ),
    decreases ps.len(),
{
    let items = ps.map_values(|p: (Seq<char>, nat)| pair_item(p));
    if ps.len() > 0 {
        let init = ps.drop_last();
        assert forall|i: int|
            0 <= i < init.len() implies !holds_char(#[trigger] init[i].0, ':') && trim(init[i].0)
            == init[i].0 && init[i].1 <= usize::MAX by {
            assert(init[i] == ps[i]);
        }
        lemma_parse_items(init);
        assert(items.drop_last() =~= init.map_values(|p: (Seq<char>, nat)| pair_item(p)));
        lemma_parse_item(ps.last());
        assert(ps.map_values(|p: (Seq<char>, nat)| (p.0, p.1 as usize)) =~= init.map_values(
            |p: (Seq<char>, nat)| (p.0, p.1 as usize),
        ).push((ps.last().0, ps.last().1 as usize)));
    } else {
        assert(items =~= Seq::<Seq<char>>::empty());
        assert(ps.map_values(|p: (Seq<char>, nat)| (p.0, p.1 as usize)) =~= Seq::<
            (Seq<char>, usize),
        >::empty());
    }
}

/// What a device announces of its actions parses back on the relay to the
/// same names and argument counts, in the same order, wherever no name
/// holds a `,` or `:` or begins or ends with white space.
pub proof fn lemma_announcement_round_trip(ps: Seq<(Seq<char>, nat)>)
    requires
        forall|i: int|
            0 <= i < ps.len() ==> {
                &&& !holds_char(#[trigger] ps[i].0, ',')
                &&& !holds_char(ps[i].0, ':')
                &&& trim(ps[i].0) == ps[i].0
                &&& ps[i].1 <= usize::MAX
            },
    ensures
        supported_actions_spec(crate::client::pairs_text(ps)) == ps.map_values(
            |p: (Seq<char>, nat)| (p.0, p.1 as usize),
        ),
{
    if ps.len() == 0 {
        assert(crate::client::pairs_text(ps) == Seq::<char>::empty());
        assert(split_on(Seq::<char>::empty(), ',') == seq![Seq::<char>::empty()]);
        let e = seq![Seq::<char>::empty()];
        assert(e.drop_last() =~= Seq::<Seq<char>>::empty());
        assert(first_index_of(Seq::<char>::empty(), ':').is_none());
        assert(parse_pair(e.last()).is_none());
        assert(parse_pairs(e.drop_last()) == Seq::<(Seq<char>, usize)>::empty());
        assert(parse_pairs(e) == Seq::<(Seq<char>, usize)>::empty());
        assert(ps.map_values(|p: (Seq<char>, nat)| (p.0, p.1 as usize)) =~= Seq::<
            (Seq<char>, usize),
        >::empty());
    } else {
        lemma_split_announcement(ps);
        lemma_parse_items(ps);
    }
}

/// `s` with every `:` followed by `mount`: each directory of a `:`-separated
/// list after the first prefixed with `mount`.
pub open spec fn mount_dirs(s: Seq<char>, mount: Seq<char>) -> Seq<char>
    decreases s.len(),
{
    if s.len() == 0 {
        Seq::empty()
    } else if s.last() == ':' {
        mount_dirs(s.drop_last(), mount) + seq![':'] + mount
    } else {
        mount_dirs(s.drop_last(), mount).push(s.last())
    }
}

/// The search path a clipboard command runs with: the current one, or, where
/// the host's path and mount point are known, the host's directories under
/// the mount point ahead of the current ones.
pub open spec fn search_path_spec(current: Seq<char>, host: Option<(Seq<char>, Seq<char>)>) -> Seq<
    char,
> {
    match host {
        None => current,
        Some((host_path, mount)) => {
            let mounted = mount + mount_dirs(host_path, mount);
            if current.len() == 0 {
                mounted
            } else {
                mounted + seq![':'] + current
            }
        },
    }
}

fn append_chars(out: &mut Vec<char>, s: &Vec<char>)
    ensures
        final(out)@ == old(out)@ + s@,
{
    let ghost start = out@;
    let mut i: usize = 0;
    while i < s.len()
        invariant
            i <= s@.len(),
            out@ == start + s@.take(i as int),
        decreases s@.len() - i,
    {
        out.push(s[i]);
        i = i + 1;
        assert(out@ =~= start + s@.take(i as int));
    }
    assert(s@.take(s@.len() as int) =~= s@);
}

/// The search path for a clipboard command, from the current one and, if
/// both are set, the host's path and the point where the host is mounted.
pub fn search_path(current: &str, host_path: Option<&str>, host_mount: Option<&str>) -> (r: String)
    ensures
        r@ == search_path_spec(
            current@,
            match (host_path, host_mount) {
                (Some(p), Some(m)) => Some((p@, m@)),
                _ => None,
            },
        ),
{
    match (host_path, host_mount) {
        (Some(p), Some(m)) => {
            let ps = chars_of(p);
            let ms = chars_of(m);
            let mut out: Vec<char> = Vec::new();
            append_chars(&mut out, &ms);
            let mut i: usize = 0;
            while i < ps.len()
                invariant
                    i <= ps@.len(),
                    out@ == ms@ + mount_dirs(ps@.take(i as int), ms@),
                decreases ps@.len() - i,
            {
                proof {
                    assert(ps@.take(i + 1).drop_last() =~= ps@.take(i as int));
                }
                if ps[i] == ':' {
                    out.push(':');
                    append_chars(&mut out, &ms);
                    assert(out@ =~= ms@ + mount_dirs(ps@.take(i + 1), ms@));
                } else {
                    out.push(ps[i]);
                    assert(out@ =~= ms@ + mount_dirs(ps@.take(i + 1), ms@));
                }
                i = i + 1;
            }
            assert(ps@.take(ps@.len() as int) =~= ps@);
            let cur = chars_of(current);
            if cur.len() > 0 {
                out.push(':');
                append_chars(&mut out, &cur);
            }
            string_of(&out)
        },
        _ => current.to_owned(),
    }
}

/// `cmd` with the placeholders of arguments `i + 1` onwards replaced, in
/// increasing order, `$k` before `%k`.
pub open spec fn fill_from(cmd: Seq<char>, args: Seq<Seq<char>>, i: nat) -> Seq<char>
    decreases args.len() - i,
{
    if i >= args.len() {
        cmd
    } else {
        let a = args[i as int];
        fill_from(
            replace_all(
                replace_all(cmd, seq!['$'] + decimal(i + 1), a),
                seq!['%'] + decimal(i + 1),
                a,
            ),
            args,
            i + 1,
        )
    }
}

/// The captures of a match: the groups after the whole match that took
/// part in it, in order.
pub open spec fn matched_groups(groups: Seq<Option<Seq<char>>>) -> Seq<Seq<char>>
    decreases groups.len(),
{
    if groups.len() <= 1 {
        Seq::empty()
    } else {
        let rest = matched_groups(groups.drop_last());
        match groups.last() {
            Some(g) => rest.push(g),
            None => rest,
        }
    }
}

pub open spec fn groups_view(g: Seq<Option<String>>) -> Seq<Option<Seq<char>>> {
    g.map_values(|o: Option<String>| match o {
        Some(s) => Some(s@),
        None => None,
    })
}

#[verifier::external_type_specification]
#[verifier::external_body]
pub struct ExRegex(regex::Regex);

/// Whether `regex::Regex::new` accepts the pattern `p`. It depends on the
/// pattern alone.
pub uninterp spec fn regex_compiles(p: Seq<char>) -> bool;

/// What `regex::Regex::captures` finds for the pattern `p` in the text `t`:
/// `None` where nothing matches, else the text of each capture group, `None`
/// for a group that took no part. It depends on the pattern and the text
/// alone.
pub uninterp spec fn captures_of(p: Seq<char>, t: Seq<char>) -> Option<Seq<Option<Seq<char>>>>;

/// A compiled regular expression with the pattern it was compiled from.
pub struct CompiledPattern {
    re: regex::Regex,
    pattern: Ghost<Seq<char>>,
}

impl CompiledPattern {
    /// The pattern the expression was compiled from.
    pub closed spec fn pattern(&self) -> Seq<char> {
        self.pattern@
    }
}

/// Relies on `regex::Regex::new`: compiles a pattern, failing where it is
/// not a valid regular expression.
#[verifier::external_body]
fn compile_regex(pattern: &str) -> (r: Option<CompiledPattern>)
    ensures
        r is Some <==> regex_compiles(pattern@),
        r matches Some(c) ==> c.pattern() == pattern@,
{
    match regex::Regex::new(pattern) {
        Ok(re) => Some(CompiledPattern { re, pattern: Ghost(pattern@) }),
        Err(_) => None,
    }
}

/// Relies on `regex::Regex::captures`: the first match in `text` with each
/// capture group's text, `None` for a group that took no part; group 0, the
/// whole match, is always there.
#[verifier::external_body]
fn capture_groups(c: &CompiledPattern, text: &str) -> (r: Option<Vec<Option<String>>>)
    ensures
        outcome_view(r) == captures_of(c.pattern(), text@),
        r matches Some(g) ==> g@.len() >= 1 && g@[0] is Some,
{
    c.re.captures(text).map(|m| m.iter().map(|g| g.map(|g| g.as_str().to_string())).collect())
}

/// A command that the relay runs when a clipboard text matches a pattern.
pub struct ClipboardAction {
    regex: String,
    compiled_regex: Option<CompiledPattern>,
    command: String,
}

/// Whether a match happened, and the texts of the groups that took part.
pub fn args_from_captures(groups: &Option<Vec<Option<String>>>) -> (r: (bool, Vec<String>))
    ensures
        match groups {
            None => !r.0 && r.1@.len() == 0,
            Some(g) => r.0 && strings_view(r.1@) == matched_groups(groups_view(g@)),
        },
{
    match groups {
        None => (false, Vec::new()),
        Some(g) => {
            let ghost gv = groups_view(g@);
            let mut args: Vec<String> = Vec::new();
            let mut i: usize = 1;
            proof {
                if g@.len() >= 1 {
                    assert(gv.take(1).len() <= 1);
                }
            }
            if g.len() == 0 {
                assert(strings_view(args@) =~= Seq::<Seq<char>>::empty());
                return (true, args);
            }
            while i < g.len()
                invariant
                    1 <= i <= g@.len(),
                    gv == groups_view(g@),
                    strings_view(args@) == matched_groups(gv.take(i as int)),
                decreases g@.len() - i,
            {
                proof {
                    assert(gv.take(i + 1).drop_last() =~= gv.take(i as int));
                }
                match &g[i] {
                    Some(s) => {
                        let ghost before = args@;
                        args.push(s.clone());
                        assert(strings_view(args@) =~= strings_view(before).push(s@));
                    },
                    None => {},
                }
                i = i + 1;
            }
            assert(gv.take(gv.len() as int) =~= gv);
            (true, args)
        },
    }
}

impl ClipboardAction {
    #[verifier::type_invariant]
    spec fn compiled_from_pattern(&self) -> bool {
        self.compiled_regex matches Some(c) ==> c.pattern() == self.regex@
    }

    /// The pattern.
    pub closed spec fn pattern(&self) -> Seq<char> {
        self.regex@
    }

    /// The command.
    pub closed spec fn command_text(&self) -> Seq<char> {
        self.command@
    }

    /// Whether the pattern has been compiled.
    pub closed spec fn is_compiled(&self) -> bool {
        self.compiled_regex is Some
    }

    /// A clipboard action for `regex`; the pattern itself is handed back
    /// where it does not compile.
    pub fn new(regex: String, command: String) -> (r: Result<ClipboardAction, String>)
        ensures
            r is Ok <==> regex_compiles(regex@),
            match r {
                Ok(a) => a.pattern() == regex@ && a.command_text() == command@ && a.is_compiled(),
                Err(p) => p@ == regex@,
            },
    {
        match compile_regex(regex.as_str()) {
            Some(re) => Ok(ClipboardAction { regex, compiled_regex: Some(re), command }),
            None => Err(regex),
        }
    }

    /// The pattern.
    pub fn regex(&self) -> (r: &String)
        ensures
            r@ == self.pattern(),
    {
        &self.regex
    }

    /// The command.
    pub fn command(&self) -> (r: &String)
        ensures
            r@ == self.command_text(),
    {
        &self.command
    }

    /// Whether `clipboard` matches the pattern, and the texts of the capture
    /// groups that took part in the match.
    pub fn matches(&self, clipboard: &str) -> (r: (bool, Vec<String>))
        ensures
            match outcome_for(*self, clipboard@) {
                None => !r.0 && r.1@.len() == 0,
                Some(g) => r.0 && strings_view(r.1@) == matched_groups(g),
            },
    {
        proof {
            use_type_invariant(self);
        }
        match &self.compiled_regex {
            Some(re) => args_from_captures(&capture_groups(re, clipboard)),
            None => (false, Vec::new()),
        }
    }

    /// The command with `$k` and `%k` replaced by argument `k`, for each
    /// argument in turn.
    pub fn command_with_args(&self, args: &Vec<String>) -> (r: String)
        ensures
            r@ == fill_from(self.command_text(), strings_view(args@), 0),
    {
        let ghost a = strings_view(args@);
        let mut cur = chars_of(self.command.as_str());
        let mut i: usize = 0;
        while i < args.len()
            invariant
                i <= args@.len(),
                a == strings_view(args@),
                fill_from(cur@, a, i as nat) == fill_from(self.command_text(), a, 0),
            decreases args@.len() - i,
        {
            let value = chars_of(args[i].as_str());
            let digits = decimal_chars(i + 1);
            let mut dollar: Vec<char> = Vec::new();
            dollar.push('$');
            append_chars(&mut dollar, &digits);
            let mut pct: Vec<char> = Vec::new();
            pct.push('%');
            append_chars(&mut pct, &digits);
            let once = replace_chars(&cur, &dollar, &value);
            cur = replace_chars(&once, &pct, &value);
            i = i + 1;
        }
        string_of(&cur)
    }
}

/// The outcome of one pattern on a text: `None` where it did not match,
/// else the texts of its capture groups.
pub open spec fn outcome_view(o: Option<Vec<Option<String>>>) -> Option<Seq<Option<Seq<char>>>> {
    match o {
        Some(g) => Some(groups_view(g@)),
        None => None,
    }
}

/// The commands set off by the outcomes of the patterns: for each matching
/// pattern, in order, its command filled with the groups that took part.
pub open spec fn commands_spec(
    commands: Seq<Seq<char>>,
    outcomes: Seq<Option<Seq<Option<Seq<char>>>>>,
) -> Seq<Seq<char>>
    decreases outcomes.len(),
{
    if outcomes.len() == 0 || commands.len() < outcomes.len() {
        Seq::empty()
    } else {
        let n = outcomes.len() - 1;
        let rest = commands_spec(commands, outcomes.drop_last());
        match outcomes.last() {
            Some(g) => rest.push(fill_from(commands[n], matched_groups(g), 0)),
            None => rest,
        }
    }
}

/// What the pattern of `a` finds in `text`; an action without a compiled
/// pattern finds nothing.
pub open spec fn outcome_for(a: ClipboardAction, text: Seq<char>) -> Option<Seq<Option<Seq<char>>>> {
    if a.is_compiled() {
        captures_of(a.pattern(), text)
    } else {
        None
    }
}

pub open spec fn commands_of(actions: Seq<ClipboardAction>) -> Seq<Seq<char>> {
    actions.map_values(|a: ClipboardAction| a.command_text())
}

/// The commands that the pattern outcomes `outcomes`, one per action, set off.
pub fn commands_from_outcomes(
    actions: &Vec<ClipboardAction>,
    outcomes: &Vec<Option<Vec<Option<String>>>>,
) -> (r: Vec<String>)
    requires
        outcomes@.len() == actions@.len(),
    ensures
        strings_view(r@) == commands_spec(
            commands_of(actions@),
            outcomes@.map_values(|o: Option<Vec<Option<String>>>| outcome_view(o)),
        ),
{
    let ghost cmds = commands_of(actions@);
    let ghost outs = outcomes@.map_values(|o: Option<Vec<Option<String>>>| outcome_view(o));
    let mut r: Vec<String> = Vec::new();
    let mut i: usize = 0;
    while i < outcomes.len()
        invariant
            i <= outcomes@.len(),
            outcomes@.len() == actions@.len(),
            cmds == commands_of(actions@),
            outs == outcomes@.map_values(|o: Option<Vec<Option<String>>>| outcome_view(o)),
            strings_view(r@) == commands_spec(cmds, outs.take(i as int)),
        decreases outcomes@.len() - i,
    {
        proof {
            assert(outs.take(i + 1).drop_last() =~= outs.take(i as int));
        }
        let (matched, args) = args_from_captures(&outcomes[i]);
        if matched {
            let ghost before = r@;
            let command = actions[i].command_with_args(&args);
            r.push(command);
            proof {
                assert(strings_view(r@) =~= strings_view(before).push(
                    fill_from(cmds[i as int], matched_groups(outs[i as int]->Some_0), 0),
                ));
            }
        }
        i = i + 1;
    }
    proof {
        assert(outs.take(outs.len() as int) =~= outs);
    }
    r
}

/// The commands that a newly accepted clipboard text sets off: one for each
/// action whose pattern matches, in the actions' order, filled with the
/// groups of the match.
pub fn triggered_commands(actions: &Vec<ClipboardAction>, text: &str) -> (r: Vec<String>)
    ensures
        strings_view(r@) == commands_spec(
            commands_of(actions@),
            actions@.map_values(|a: ClipboardAction| outcome_for(a, text@)),
        ),
{
    let mut outcomes: Vec<Option<Vec<Option<String>>>> = Vec::new();
    let mut i: usize = 0;
    while i < actions.len()
        invariant
            i <= actions@.len(),
            outcomes@.len() == i,
            forall|k: int|
                0 <= k < i ==> outcome_view(#[trigger] outcomes@[k]) == outcome_for(
                    actions@[k],
                    text@,
                ),
        decreases actions@.len() - i,
    {
        let action = &actions[i];
        proof {
            use_type_invariant(action);
        }
        let outcome = match &action.compiled_regex {
            Some(re) => capture_groups(re, text),
            None => None,
        };
        outcomes.push(outcome);
        i = i + 1;
    }
    let r = commands_from_outcomes(actions, &outcomes);
    proof {
        assert(outcomes@.map_values(|o: Option<Vec<Option<String>>>| outcome_view(o))
            =~= actions@.map_values(|a: ClipboardAction| outcome_for(a, text@)));
    }
    r
}

/// What the relay answers when asked for the clipboard content.
#[derive(Debug, PartialEq, Eq)]
pub enum ClipboardReply {
    /// The clipboard holds this text.
    Text(String),
    /// The clipboard holds an image in these encoded bytes; the web layer
    /// converts it to a JPEG.
    Image(Vec<u8>),
    /// The clipboard holds nothing.
    Notice(String),
}

pub open spec fn no_content_notice() -> Seq<char> {
    "No clipboard content"@
}

/// The reply for a request of the relay's clipboard content: the text
/// itself, the image's bytes, or a note that there is nothing to give.
pub fn clipboard_reply(content: &ClipboardContent) -> (r: ClipboardReply)
    ensures
        content matches ClipboardContent::Text(t) ==> (r matches ClipboardReply::Text(x) && x@
            == t@),
        content matches ClipboardContent::Image(b) ==> (r matches ClipboardReply::Image(x) && x@
            == b@),
        content matches ClipboardContent::Empty ==> (r matches ClipboardReply::Notice(n) && n@
            == no_content_notice()),
{
    match content {
        ClipboardContent::Text(t) => ClipboardReply::Text(t.clone()),
        ClipboardContent::Image(bytes) => ClipboardReply::Image(bytes.clone()),
        ClipboardContent::Empty => ClipboardReply::Notice(String::from_str("No clipboard content")),
    }
}

} // verus!
