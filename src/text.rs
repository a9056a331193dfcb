//! Character-level helpers: conversion between `str` and characters, splitting
//! on a separator, prefixes, and decimal integers.

use crate::number::{all_digits, digit_of, digits_of, digits_value, is_digit, unsigned_value};
use vstd::prelude::*;

verus! {

/// Relies on `str::chars`: it yields the characters of `s` in order.
#[verifier::external_body]
pub(crate) fn chars_of(s: &str) -> (r: Vec<char>)
    ensures
        r@ == s@,
{
    s.chars().collect()
}

/// Relies on `String: FromIterator<&char>`: the string holds exactly `cs`.
#[verifier::external_body]
pub(crate) fn string_of(cs: &Vec<char>) -> (r: String)
    ensures
        r@ == cs@,
{
    cs.iter().collect()
}

/// The fields of `s` between occurrences of `sep`, as `str::split` gives them:
/// there is always one field more than there are separators.
pub open spec fn split_on(s: Seq<char>, sep: char) -> Seq<Seq<char>>
    decreases s.len(),
{
    if s.len() == 0 {
        seq![Seq::<char>::empty()]
    } else {
        let prev = split_on(s.drop_last(), sep);
        if s.last() == sep {
            prev.push(Seq::<char>::empty())
        } else {
            prev.update(prev.len() - 1, prev.last().push(s.last()))
        }
    }
}

/// The character sequences that the vectors of `v` hold.
pub open spec fn views(v: Seq<Vec<char>>) -> Seq<Seq<char>> {
    v.map_values(|x: Vec<char>| x@)
}

/// Splits `s` at every `sep`.
pub fn split_fields(s: &Vec<char>, sep: char) -> (r: Vec<Vec<char>>)
    ensures
        views(r@) == split_on(s@, sep),
        r.len() >= 1,
{
    let mut fields: Vec<Vec<char>> = Vec::new();
    let mut cur: Vec<char> = Vec::new();
    let mut i: usize = 0;
    proof {
        assert(s@.subrange(0, 0) =~= Seq::<char>::empty());
        assert(views(fields@).push(cur@) =~= seq![Seq::<char>::empty()]);
    }
    while i < s.len()
        invariant
            0 <= i <= s.len(),
            views(fields@).push(cur@) == split_on(s@.subrange(0, i as int), sep),
        decreases s.len() - i,
    {
        let c = s[i];
        let ghost pre = s@.subrange(0, i as int);
        let ghost next = s@.subrange(0, i + 1);
        proof {
            assert(next.drop_last() =~= pre);
            assert(next.last() == c);
        }
        if c == sep {
            let ghost before = views(fields@);
            let ghost done = cur@;
            fields.push(cur);
            cur = Vec::new();
            assert(views(fields@) =~= before.push(done));
            assert(views(fields@).push(cur@) =~= split_on(next, sep));
        } else {
            cur.push(c);
            assert(views(fields@).push(cur@) =~= split_on(next, sep));
        }
        i += 1;
    }
    proof {
        assert(s@.subrange(0, s@.len() as int) =~= s@);
    }
    let ghost before = views(fields@);
    fields.push(cur);
    assert(views(fields@) =~= before.push(cur@));
    fields
}

pub open spec fn starts_with(s: Seq<char>, prefix: Seq<char>) -> bool {
    prefix.len() <= s.len() && s.subrange(0, prefix.len() as int) == prefix
}

/// Whether `s` begins with `prefix`.
pub fn has_prefix(s: &Vec<char>, prefix: &str) -> (r: bool)
    ensures
        r == starts_with(s@, prefix@),
{
    let p = chars_of(prefix);
    if p.len() > s.len() {
        return false;
    }
    let mut i: usize = 0;
    while i < p.len()
        invariant
            p@ == prefix@,
            p.len() <= s.len(),
            i <= p.len(),
            forall|j: int| 0 <= j < i ==> s@[j] == p@[j],
        decreases p.len() - i,
    {
        if s[i] != p[i] {
            assert(s@.subrange(0, p.len() as int)[i as int] != p@[i as int]);
            return false;
        }
        i += 1;
    }
    assert(s@.subrange(0, p.len() as int) =~= p@);
    true
}

/// Whether `s` holds exactly the characters of `t`.
pub fn same_text(s: &Vec<char>, t: &str) -> (r: bool)
    ensures
        r == (s@ == t@),
{
    let p = chars_of(t);
    if p.len() != s.len() {
        return false;
    }
    let mut i: usize = 0;
    while i < p.len()
        invariant
            p@ == t@,
            p.len() == s.len(),
            i <= p.len(),
            forall|j: int| 0 <= j < i ==> s@[j] == p@[j],
        decreases p.len() - i,
    {
        if s[i] != p[i] {
            return false;
        }
        i += 1;
    }
    assert(s@ =~= p@);
    true
}

/// What follows the first `sep` in `s`, if `s` holds one.
pub open spec fn after_first(s: Seq<char>, sep: char) -> Option<Seq<char>>
    decreases s.len(),
{
    if s.len() == 0 {
        None
    } else if s[0] == sep {
        Some(s.drop_first())
    } else {
        after_first(s.drop_first(), sep)
    }
}

/// The characters after the first `sep` in `s`.
pub fn text_after_first(s: &Vec<char>, sep: char) -> (r: Option<Vec<char>>)
    ensures
        r matches Some(t) ==> after_first(s@, sep) == Some(t@),
        r is None ==> after_first(s@, sep) is None,
{
    let mut i: usize = 0;
    assert(s@.skip(0) =~= s@);
    while i < s.len() && s[i] != sep
        invariant
            i <= s.len(),
            after_first(s@, sep) == after_first(s@.skip(i as int), sep),
        decreases s.len() - i,
    {
        assert(s@.skip(i as int).drop_first() =~= s@.skip(i + 1));
        i += 1;
    }
    if i == s.len() {
        assert(s@.skip(i as int).len() == 0);
        return None;
    }
    assert(s@.skip(i as int).drop_first() =~= s@.skip(i + 1));
    let mut rest: Vec<char> = Vec::new();
    let mut j = i + 1;
    while j < s.len()
        invariant
            i < j <= s.len(),
            rest@ == s@.subrange(i + 1, j as int),
        decreases s.len() - j,
    {
        rest.push(s[j]);
        assert(rest@ =~= s@.subrange(i + 1, j + 1));
        j += 1;
    }
    assert(rest@ =~= s@.skip(i + 1));
    Some(rest)
}

/// `a` followed by `b`.
pub fn concat(a: &Vec<char>, b: &Vec<char>) -> (r: Vec<char>)
    ensures
        r@ == a@ + b@,
{
    let mut out = a.clone();
    let mut i: usize = 0;
    while i < b.len()
        invariant
            i <= b.len(),
            out@ == a@ + b@.take(i as int),
        decreases b.len() - i,
    {
        out.push(b[i]);
        assert(out@ =~= a@ + b@.take(i + 1));
        i += 1;
    }
    assert(b@.take(b.len() as int) =~= b@);
    out
}

/// The message `prefix` followed by `detail`.
pub fn message(prefix: &str, detail: &Vec<char>) -> (r: String)
    ensures
        r@ == prefix@ + detail@,
{
    let p = chars_of(prefix);
    string_of(&concat(&p, detail))
}

/// The fields `fs` joined by commas.
pub open spec fn join_commas(fs: Seq<Seq<char>>) -> Seq<char>
    decreases fs.len(),
{
    if fs.len() == 0 {
        Seq::empty()
    } else if fs.len() == 1 {
        fs[0]
    } else {
        join_commas(fs.drop_last()) + seq![','] + fs.last()
    }
}

/// The fields `fields[lo..]` joined by commas.
pub fn join_from(fields: &Vec<Vec<char>>, lo: usize) -> (r: Vec<char>)
    requires
        lo <= fields.len(),
    ensures
        r@ == join_commas(views(fields@).skip(lo as int)),
{
    let mut out: Vec<char> = Vec::new();
    if lo == fields.len() {
        assert(views(fields@).skip(lo as int) =~= Seq::<Seq<char>>::empty());
        return out;
    }
    let mut i = lo;
    assert(views(fields@).subrange(lo as int, lo as int) =~= Seq::<Seq<char>>::empty());
    while i < fields.len()
        invariant
            lo <= i <= fields.len(),
            out@ == join_commas(views(fields@).subrange(lo as int, i as int)),
        decreases fields.len() - i,
    {
        let ghost prev = views(fields@).subrange(lo as int, i as int);
        let ghost next = views(fields@).subrange(lo as int, i + 1);
        assert(next.drop_last() =~= prev);
        assert(next.last() == fields@[i as int]@);
        if i > lo {
            out.push(',');
        } else {
            assert(next =~= seq![fields@[i as int]@]);
        }
        out = concat(&out, &fields[i]);
        assert(out@ =~= join_commas(next));
        i += 1;
    }
    assert(views(fields@).subrange(lo as int, fields.len() as int) =~= views(fields@).skip(lo as int));
    out
}

/// The character of the decimal digit `d`.
pub open spec fn digit_char(d: nat) -> char {
    if d == 0 {
        '0'
    } else if d == 1 {
        '1'
    } else if d == 2 {
        '2'
    } else if d == 3 {
        '3'
    } else if d == 4 {
        '4'
    } else if d == 5 {
        '5'
    } else if d == 6 {
        '6'
    } else if d == 7 {
        '7'
    } else if d == 8 {
        '8'
    } else {
        '9'
    }
}

/// `n` written in decimal, with no leading zero.
pub open spec fn decimal_chars(n: nat) -> Seq<char>
    decreases n,
{
    if n < 10 {
        seq![digit_char(n)]
    } else {
        decimal_chars(n / 10).push(digit_char(n % 10))
    }
}

/// `v` written in decimal, with a `-` when it is negative.
pub open spec fn signed_decimal_chars(v: int) -> Seq<char> {
    if v < 0 {
        seq!['-'] + decimal_chars((-v) as nat)
    } else {
        decimal_chars(v as nat)
    }
}

/// The decimal digits of `n`, most significant first, with no leading zero.
pub fn decimal_text(n: u64) -> (r: Vec<char>)
    ensures
        r@ == decimal_chars(n as nat),
        unsigned_value(r@) == Some(n as nat),
        r@.len() >= 1,
        r@[0] != '+',
        n > 0 ==> r@[0] != '0',
    decreases n,
{
    let d: char = if n % 10 == 0 { '0' } else if n % 10 == 1 { '1' } else if n % 10 == 2 { '2' }
        else if n % 10 == 3 { '3' } else if n % 10 == 4 { '4' } else if n % 10 == 5 { '5' }
        else if n % 10 == 6 { '6' } else if n % 10 == 7 { '7' } else if n % 10 == 8 { '8' }
        else { '9' };
    assert(digit_of(d) == n % 10);
    assert(d == digit_char((n % 10) as nat));
    let mut r = if n < 10 { Vec::new() } else { decimal_text(n / 10) };
    let ghost prev = r@;
    r.push(d);
    proof {
        use_digits(prev, d, n);
        if n < 10 {
            assert(r@ =~= seq![d]);
        }
    }
    r
}

/// `v` in decimal, with a `-` when it is negative.
pub fn signed_decimal_text(v: i64) -> (r: Vec<char>)
    requires
        v > i64::MIN,
    ensures
        r@ == signed_decimal_chars(v as int),
{
    if v < 0 {
        let minus: Vec<char> = vec!['-'];
        concat(&minus, &decimal_text((0 - v) as u64))
    } else {
        decimal_text(v as u64)
    }
}

proof fn use_digits(prev: Seq<char>, d: char, n: u64)
    requires
        is_digit(d),
        digit_of(d) == n % 10,
        n < 10 ==> prev.len() == 0,
        n >= 10 ==> unsigned_value(prev) == Some((n / 10) as nat) && prev.len() >= 1
            && prev[0] != '+' && prev[0] != '0',
    ensures
        unsigned_value(prev.push(d)) == Some(n as nat),
        n > 0 ==> prev.push(d)[0] != '0',
{
    let s = prev.push(d);
    assert(s.subrange(0, s.len() as int) =~= s);
    assert(digits_of(s).last() == digit_of(d));
    if n < 10 {
        assert(s =~= seq![d]);
        assert(s[0] != '+');
        assert(all_digits(s));
        assert(digits_of(s).drop_last() =~= Seq::<u8>::empty());
        assert(digits_value(Seq::<u8>::empty()) == 0);
        assert(n % 10 == n);
        assert(digits_value(digits_of(s)) == n);
    } else {
        assert(s[0] == prev[0]);
        assert(prev.subrange(0, prev.len() as int) =~= prev);
        assert(all_digits(s)) by {
            assert forall|i: int| 0 <= i < s.len() implies is_digit(#[trigger] s[i]) by {
                if i < prev.len() {
                    assert(prev[i] == s[i]);
                }
            }
        }
        assert(digits_of(s).drop_last() =~= digits_of(prev));
        assert(digits_value(digits_of(prev)) == n / 10);
        assert(digits_value(digits_of(s)) == (n / 10) * 10 + n % 10);
    }
}

} // verus!
