//! Decimal numbers as they appear in the text: integers, and measurements
//! written with an optional sign, fraction and exponent. Values are kept
//! exactly, as digits and a power of ten, so that comparisons with the
//! format's missing-value markers are exact.

use vstd::arithmetic::div_mod::*;
use vstd::arithmetic::mul::*;
use vstd::arithmetic::power::*;
use vstd::prelude::*;

verus! {

pub open spec fn is_digit(c: char) -> bool {
    '0' <= c && c <= '9'
}

pub open spec fn all_digits(s: Seq<char>) -> bool {
    forall|i: int| 0 <= i < s.len() ==> is_digit(#[trigger] s[i])
}

pub open spec fn digit_of(c: char) -> u8 {
    (c as u32 - '0' as u32) as u8
}

pub open spec fn digits_of(s: Seq<char>) -> Seq<u8> {
    s.map_values(|c: char| digit_of(c))
}

pub open spec fn small_digits(d: Seq<u8>) -> bool {
    forall|i: int| 0 <= i < d.len() ==> #[trigger] d[i] <= 9
}

/// The number that the decimal digits `d` spell, most significant first.
pub open spec fn digits_value(d: Seq<u8>) -> nat
    decreases d.len(),
{
    if d.len() == 0 {
        0
    } else {
        digits_value(d.drop_last()) * 10 + d.last() as nat
    }
}

pub open spec fn pow10(n: nat) -> nat {
    pow(10, n) as nat
}

pub proof fn lemma_pow10_positive(n: nat)
    ensures
        pow10(n) >= 1,
        pow(10, n) == pow10(n),
{
    lemma_pow_positive(10, n);
}

pub proof fn lemma_pow10_succ(n: nat)
    ensures
        pow10(n + 1) == 10 * pow10(n),
{
    lemma_pow10_positive(n);
    lemma_pow10_positive(n + 1);
    reveal(pow);
}

pub proof fn lemma_pow10_monotone(a: nat, b: nat)
    requires
        a <= b,
    ensures
        pow10(a) <= pow10(b),
{
    lemma_pow10_positive(a);
    lemma_pow10_positive(b);
    lemma_pow_increases(10, a, b);
}

pub proof fn lemma_digits_of_small(s: Seq<char>)
    requires
        all_digits(s),
    ensures
        small_digits(digits_of(s)),
        digits_of(s).len() == s.len(),
{
    assert forall|i: int| 0 <= i < digits_of(s).len() implies #[trigger] digits_of(s)[i] <= 9 by {
        assert(is_digit(s[i]));
    }
}

pub proof fn lemma_digits_value_append(a: Seq<u8>, b: Seq<u8>)
    ensures
        digits_value(a + b) == digits_value(a) * pow10(b.len()) + digits_value(b),
    decreases b.len(),
{
    if b.len() == 0 {
        assert(a + b =~= a);
        reveal(pow);
        assert(pow10(0) == 1);
    } else {
        lemma_digits_value_append(a, b.drop_last());
        assert((a + b).drop_last() =~= a + b.drop_last());
        lemma_pow10_succ((b.len() - 1) as nat);
        let p = pow10((b.len() - 1) as nat);
        let va = digits_value(a);
        let vb = digits_value(b.drop_last());
        assert((a + b).last() == b.last());
        assert(digits_value(a + b) == (va * p + vb) * 10 + b.last() as nat);
        assert(digits_value(b) == vb * 10 + b.last() as nat);
        assert((va * p + vb) * 10 == va * (10 * p) + vb * 10) by (nonlinear_arith);
        assert(pow10(b.len()) == 10 * p);
    }
}

pub proof fn lemma_digits_value_bound(d: Seq<u8>)
    requires
        small_digits(d),
    ensures
        digits_value(d) < pow10(d.len()),
    decreases d.len(),
{
    if d.len() == 0 {
        reveal(pow);
    } else {
        lemma_digits_value_bound(d.drop_last());
        lemma_pow10_succ((d.len() - 1) as nat);
        assert(d.last() <= 9);
    }
}

pub proof fn lemma_digits_value_zero(d: Seq<u8>)
    ensures
        digits_value(d) == 0 <==> (forall|i: int| 0 <= i < d.len() ==> #[trigger] d[i] == 0),
    decreases d.len(),
{
    if d.len() > 0 {
        lemma_digits_value_zero(d.drop_last());
        if digits_value(d) == 0 {
            assert forall|i: int| 0 <= i < d.len() implies #[trigger] d[i] == 0 by {
                if i < d.len() - 1 {
                    assert(d.drop_last()[i] == d[i]);
                }
            }
        }
        if forall|i: int| 0 <= i < d.len() ==> #[trigger] d[i] == 0 {
            assert forall|i: int| 0 <= i < d.drop_last().len() implies #[trigger] d.drop_last()[i]
                == 0 by {
                assert(d[i] == 0);
            }
            assert(d[d.len() - 1] == 0);
        }
    }
}

/// The digits of `s[lo..hi]`, all of which are decimal digits, as a number
/// capped at `cap`: the result is `min(value, cap)`.
fn digit_run_value_capped(s: &Vec<char>, lo: usize, hi: usize, cap: u128) -> (r: u128)
    requires
        lo <= hi <= s.len(),
        all_digits(s@.subrange(lo as int, hi as int)),
        cap <= 0x1_0000_0000_0000_0000,
    ensures
        r as nat == capped(digits_value(digits_of(s@.subrange(lo as int, hi as int))), cap as nat),
{
    let mut acc: u128 = 0;
    let mut i: usize = lo;
    proof {
        assert(digits_of(s@.subrange(lo as int, lo as int)) =~= Seq::<u8>::empty());
    }
    while i < hi
        invariant
            lo <= i <= hi <= s.len(),
            all_digits(s@.subrange(lo as int, hi as int)),
            cap <= 0x1_0000_0000_0000_0000,
            acc as nat == capped(digits_value(digits_of(s@.subrange(lo as int, i as int))), cap as nat),
        decreases hi - i,
    {
        let c = s[i];
        let ghost prev = digits_of(s@.subrange(lo as int, i as int));
        let ghost next = digits_of(s@.subrange(lo as int, i + 1));
        proof {
            assert(s@.subrange(lo as int, hi as int)[i - lo] == c);
            assert(is_digit(c));
            assert(next.drop_last() =~= prev);
            assert(next.last() == digit_of(c));
        }
        let d: u128 = (c as u32 - '0' as u32) as u128;
        if acc < cap {
            let v = acc * 10 + d;
            acc = if v < cap { v } else { cap };
        } else {
            assert(digits_value(next) >= digits_value(prev) * 10);
        }
        i += 1;
    }
    acc
}

/// The value of a decimal integer written with an optional `+` and at least
/// one digit, as `str::parse` reads an unsigned integer.
pub open spec fn unsigned_value(s: Seq<char>) -> Option<nat> {
    let a: int = if s.len() > 0 && s[0] == '+' { 1 } else { 0 };
    let body = s.subrange(a, s.len() as int);
    if body.len() > 0 && all_digits(body) {
        Some(digits_value(digits_of(body)))
    } else {
        None
    }
}

/// The value of a decimal integer written with an optional `+` or `-` and at
/// least one digit, as `str::parse` reads a signed integer.
pub open spec fn signed_value(s: Seq<char>) -> Option<int> {
    if s.len() > 0 && s[0] == '-' {
        let body = s.subrange(1, s.len() as int);
        if body.len() > 0 && all_digits(body) {
            Some(-digits_value(digits_of(body)))
        } else {
            None
        }
    } else {
        match unsigned_value(s) {
            Some(v) => Some(v as int),
            None => None,
        }
    }
}

fn all_digits_in(s: &Vec<char>, lo: usize, hi: usize) -> (r: bool)
    requires
        lo <= hi <= s.len(),
    ensures
        r == all_digits(s@.subrange(lo as int, hi as int)),
{
    let mut i = lo;
    while i < hi
        invariant
            lo <= i <= hi <= s.len(),
            all_digits(s@.subrange(lo as int, i as int)),
        decreases hi - i,
    {
        let c = s[i];
        if !('0' <= c && c <= '9') {
            assert(s@.subrange(lo as int, hi as int)[i - lo] == c);
            return false;
        }
        assert forall|j: int| 0 <= j < i + 1 - lo implies is_digit(
            #[trigger] s@.subrange(lo as int, i + 1)[j],
        ) by {
            if j < i - lo {
                assert(s@.subrange(lo as int, i as int)[j] == s@.subrange(lo as int, i + 1)[j]);
            }
        }
        i += 1;
    }
    true
}

/// Reads an unsigned decimal integer no greater than `max`, as `str::parse`
/// does for an unsigned integer type whose largest value is `max`.
pub fn parse_unsigned(s: &Vec<char>, max: u64) -> (r: Option<u64>)
    ensures
        r == (match unsigned_value(s@) {
            Some(v) => if v <= max { Some(v as u64) } else { None },
            None => None,
        }),
{
    let a: usize = if s.len() > 0 && s[0] == '+' { 1 } else { 0 };
    if a == s.len() || !all_digits_in(s, a, s.len()) {
        return None;
    }
    let v = digit_run_value_capped(s, a, s.len(), max as u128 + 1);
    if v <= max as u128 {
        Some(v as u64)
    } else {
        None
    }
}

/// Reads a decimal integer in `[min, max]`, as `str::parse` does for a
/// signed integer type with that range.
pub fn parse_signed(s: &Vec<char>, min: i64, max: i64) -> (r: Option<i64>)
    requires
        -1_000_000_000_000_000_000 <= min <= 0 <= max <= 1_000_000_000_000_000_000,
    ensures
        r == (match signed_value(s@) {
            Some(v) => if min <= v <= max { Some(v as i64) } else { None },
            None => None,
        }),
{
    if s.len() > 0 && s[0] == '-' {
        if s.len() == 1 || !all_digits_in(s, 1, s.len()) {
            return None;
        }
        let limit: u64 = (0 - min) as u64;
        let v = digit_run_value_capped(s, 1, s.len(), limit as u128 + 1);
        if v <= limit as u128 {
            Some(0 - v as i64)
        } else {
            None
        }
    } else {
        match parse_unsigned(s, max as u64) {
            Some(v) => Some(v as i64),
            None => None,
        }
    }
}

/// A finite decimal: `digits × 10^exponent`, negated when `negative` is set.
/// `digits` holds decimal digits, most significant first.
#[derive(Debug)]
pub struct Decimal {
    pub negative: bool,
    pub digits: Vec<u8>,
    pub exponent: i64,
}

/// A number as the text of a measurement writes it.
#[derive(Debug)]
pub enum Number {
    Finite(Decimal),
    Infinite { negative: bool },
    NotANumber,
}

/// The value of a [`Number`], with its digits as a sequence.
pub enum NumberModel {
    Finite { negative: bool, digits: Seq<u8>, exponent: int },
    Infinite { negative: bool },
    NotANumber,
}

impl View for Number {
    type V = NumberModel;

    open spec fn view(&self) -> NumberModel {
        match self {
            Number::Finite(d) => NumberModel::Finite {
                negative: d.negative,
                digits: d.digits@,
                exponent: d.exponent as int,
            },
            Number::Infinite { negative } => NumberModel::Infinite { negative: *negative },
            Number::NotANumber => NumberModel::NotANumber,
        }
    }
}

impl Number {
    /// Every digit of a finite number is below ten.
    pub open spec fn wf(&self) -> bool {
        match self {
            Number::Finite(d) => small_digits(d.digits@),
            _ => true,
        }
    }
}

pub open spec fn opt_model(o: Option<Number>) -> Option<NumberModel> {
    match o {
        Some(n) => Some(n@),
        None => None,
    }
}

pub open spec fn opt_wf(o: Option<Number>) -> bool {
    match o {
        Some(n) => n.wf(),
        None => true,
    }
}

/// The length of the run of decimal digits in `s` that starts at `from`.
pub open spec fn digit_run(s: Seq<char>, from: int) -> nat
    decreases s.len() - from,
{
    if 0 <= from < s.len() && is_digit(s[from]) {
        1 + digit_run(s, from + 1)
    } else {
        0
    }
}

/// 1 when `s[at]` is a sign, else 0.
pub open spec fn sign_at(s: Seq<char>, at: int) -> int {
    if 0 <= at < s.len() && (s[at] == '+' || s[at] == '-') {
        1
    } else {
        0
    }
}

/// `s` equals the lower-case ASCII `word` up to ASCII case.
pub open spec fn eq_ignore_case(s: Seq<char>, word: Seq<char>) -> bool {
    &&& s.len() == word.len()
    &&& forall|i: int|
        0 <= i < s.len() ==> #[trigger] s[i] == word[i] || s[i] as u32 + 32 == word[i] as u32
}

pub open spec fn special_value(body: Seq<char>, negative: bool) -> Option<NumberModel> {
    if eq_ignore_case(body, seq!['i', 'n', 'f']) || eq_ignore_case(
        body,
        seq!['i', 'n', 'f', 'i', 'n', 'i', 't', 'y'],
    ) {
        Some(NumberModel::Infinite { negative })
    } else if eq_ignore_case(body, seq!['n', 'a', 'n']) {
        Some(NumberModel::NotANumber)
    } else {
        None
    }
}

pub open spec fn finite_value(negative: bool, digits: Seq<u8>, exponent: int) -> Option<
    NumberModel,
> {
    if i64::MIN <= exponent <= i64::MAX {
        Some(NumberModel::Finite { negative, digits, exponent })
    } else {
        None
    }
}

/// The largest exponent magnitude that is read.
pub const MAX_EXPONENT_TEXT: u64 = 1_000_000_000_000_000_000;

/// The number that `s` writes, in the decimal grammar of `str::parse` for
/// floating-point types: an optional sign, then `inf`, `infinity` or `nan` in
/// any case, or digits with an optional point and fraction (at least one digit
/// in all) followed by an optional exponent `e`/`E`, sign and digits. The
/// value is kept exactly; an exponent whose digits exceed `MAX_EXPONENT_TEXT`,
/// or a resulting power of ten outside `i64`, is not read.
#[verifier::opaque]
pub open spec fn number_value(s: Seq<char>) -> Option<NumberModel> {
    let a = sign_at(s, 0);
    let negative = a == 1 && s[0] == '-';
    let special = special_value(s.subrange(a, s.len() as int), negative);
    if special is Some {
        special
    } else {
        let b = a + digit_run(s, a);
        let point = b < s.len() && s[b] == '.';
        let f = if point { b + 1 } else { b };
        let c = if point { f + digit_run(s, f) } else { b };
        let digits = digits_of(s.subrange(a, b) + s.subrange(f, c));
        let scale = c - f;
        if digits.len() == 0 {
            None
        } else if c == s.len() {
            finite_value(negative, digits, -scale)
        } else if s[c] == 'e' || s[c] == 'E' {
            match exponent_value(s, c) {
                Some(exp) => finite_value(negative, digits, exp - scale),
                None => None,
            }
        } else {
            None
        }
    }
}

/// The exponent written after the `e` or `E` at `s[c]`: an optional sign and
/// digits up to the end of `s`.
pub open spec fn exponent_value(s: Seq<char>, c: int) -> Option<int> {
    let d = c + 1 + sign_at(s, c + 1);
    let n = digit_run(s, d);
    let ev = digits_value(digits_of(s.subrange(d, s.len() as int)));
    if n == 0 || d + n != s.len() || ev > MAX_EXPONENT_TEXT {
        None
    } else if sign_at(s, c + 1) == 1 && s[c + 1] == '-' {
        Some(-ev)
    } else {
        Some(ev as int)
    }
}

/// The end of the run of digits in `s` that starts at `from`.
fn scan_digits(s: &Vec<char>, from: usize) -> (r: usize)
    requires
        from <= s.len(),
    ensures
        r == from + digit_run(s@, from as int),
        r <= s.len(),
        all_digits(s@.subrange(from as int, r as int)),
{
    let mut i = from;
    while i < s.len() && '0' <= s[i] && s[i] <= '9'
        invariant
            from <= i <= s.len(),
            digit_run(s@, from as int) == (i - from) + digit_run(s@, i as int),
            all_digits(s@.subrange(from as int, i as int)),
        decreases s.len() - i,
    {
        assert forall|j: int| 0 <= j < i + 1 - from implies is_digit(
            #[trigger] s@.subrange(from as int, i + 1)[j],
        ) by {
            if j < i - from {
                assert(s@.subrange(from as int, i as int)[j] == s@.subrange(from as int, i + 1)[j]);
            }
        }
        i += 1;
    }
    i
}

/// Whether `s[from..]` equals the lower-case ASCII `word` up to ASCII case.
fn rest_eq_ignore_case(s: &Vec<char>, from: usize, word: &str) -> (r: bool)
    requires
        from <= s.len(),
    ensures
        r == eq_ignore_case(s@.subrange(from as int, s@.len() as int), word@),
{
    let w = crate::text::chars_of(word);
    if s.len() - from != w.len() {
        return false;
    }
    let mut i: usize = 0;
    while i < w.len()
        invariant
            from <= s.len(),
            s.len() - from == w.len(),
            w@ == word@,
            0 <= i <= w.len(),
            forall|j: int|
                0 <= j < i ==> #[trigger] s@.subrange(from as int, s@.len() as int)[j] == w@[j]
                    || s@.subrange(from as int, s@.len() as int)[j] as u32 + 32 == w@[j] as u32,
        decreases w.len() - i,
    {
        let c = s[from + i];
        let d = w[i];
        if !(c == d || (d as u32 >= 32 && c as u32 == d as u32 - 32)) {
            assert(s@.subrange(from as int, s@.len() as int)[i as int] == c);
            return false;
        }
        i += 1;
    }
    true
}

/// The digits of `s[a..b]` followed by those of `s[f..c]`.
fn collect_digits(s: &Vec<char>, a: usize, b: usize, f: usize, c: usize) -> (r: Vec<u8>)
    requires
        a <= b <= f <= c <= s.len(),
        all_digits(s@.subrange(a as int, b as int)),
        all_digits(s@.subrange(f as int, c as int)),
    ensures
        r@ == digits_of(s@.subrange(a as int, b as int) + s@.subrange(f as int, c as int)),
        small_digits(r@),
{
    let ghost text_digits = s@.subrange(a as int, b as int) + s@.subrange(f as int, c as int);
    let mut digits: Vec<u8> = Vec::new();
    let mut i = a;
    while i < b
        invariant
            a <= i <= b <= s.len(),
            all_digits(s@.subrange(a as int, b as int)),
            digits@ == digits_of(s@.subrange(a as int, i as int)),
        decreases b - i,
    {
        assert(s@.subrange(a as int, b as int)[i - a] == s[i as int]);
        digits.push((s[i] as u32 - '0' as u32) as u8);
        assert(digits_of(s@.subrange(a as int, i + 1)) =~= digits_of(s@.subrange(a as int, i as int)).push(
            digit_of(s[i as int]),
        ));
        i += 1;
    }
    assert(s@.subrange(a as int, b as int) + s@.subrange(f as int, f as int) =~= s@.subrange(a as int, b as int));
    let mut j = f;
    while j < c
        invariant
            a <= b <= f <= j <= c <= s.len(),
            all_digits(s@.subrange(f as int, c as int)),
            digits@ == digits_of(s@.subrange(a as int, b as int) + s@.subrange(f as int, j as int)),
        decreases c - j,
    {
        assert(s@.subrange(f as int, c as int)[j - f] == s[j as int]);
        digits.push((s[j] as u32 - '0' as u32) as u8);
        assert(digits_of(s@.subrange(a as int, b as int) + s@.subrange(f as int, j + 1)) =~= digits_of(
            s@.subrange(a as int, b as int) + s@.subrange(f as int, j as int),
        ).push(digit_of(s[j as int])));
        j += 1;
    }
    proof {
        assert(all_digits(text_digits)) by {
            assert forall|k: int| 0 <= k < text_digits.len() implies is_digit(#[trigger] text_digits[k]) by {
                if k < b - a {
                    assert(text_digits[k] == s@.subrange(a as int, b as int)[k]);
                } else {
                    assert(text_digits[k] == s@.subrange(f as int, c as int)[k - (b - a)]);
                }
            }
        }
        lemma_digits_of_small(text_digits);
    }
    digits
}

/// Reads the exponent that follows the `e` or `E` at `s[c]`.
fn read_exponent(s: &Vec<char>, c: usize) -> (r: Option<i128>)
    requires
        c < s.len(),
    ensures
        r matches Some(v) ==> exponent_value(s@, c as int) == Some(v as int),
        r is None ==> exponent_value(s@, c as int) is None,
{
    let sign_exp: usize = if c + 1 < s.len() && (s[c + 1] == '+' || s[c + 1] == '-') { 1 } else { 0 };
    let d = c + 1 + sign_exp;
    let end = scan_digits(s, d);
    if end == d || end != s.len() {
        return None;
    }
    let ev = digit_run_value_capped(s, d, s.len(), MAX_EXPONENT_TEXT as u128 + 1);
    if ev > MAX_EXPONENT_TEXT as u128 {
        return None;
    }
    if sign_exp == 1 && s[c + 1] == '-' {
        Some(-(ev as i128))
    } else {
        Some(ev as i128)
    }
}

/// Reads a number in the grammar that [`number_value`] describes.
pub fn parse_number(s: &Vec<char>) -> (r: Option<Number>)
    ensures
        opt_model(r) == number_value(s@),
        opt_wf(r),
{
    let a: usize = if s.len() > 0 && (s[0] == '+' || s[0] == '-') { 1 } else { 0 };
    let negative = a == 1 && s[0] == '-';
    proof {
        reveal(number_value);
        reveal_strlit("inf");
        reveal_strlit("infinity");
        reveal_strlit("nan");
        assert("inf"@ =~= seq!['i', 'n', 'f']);
        assert("infinity"@ =~= seq!['i', 'n', 'f', 'i', 'n', 'i', 't', 'y']);
        assert("nan"@ =~= seq!['n', 'a', 'n']);
    }
    if rest_eq_ignore_case(s, a, "inf") || rest_eq_ignore_case(s, a, "infinity") {
        return Some(Number::Infinite { negative });
    }
    if rest_eq_ignore_case(s, a, "nan") {
        return Some(Number::NotANumber);
    }
    let b = scan_digits(s, a);
    let point = b < s.len() && s[b] == '.';
    let f = if point { b + 1 } else { b };
    let c = if point { scan_digits(s, f) } else { b };
    let digits = collect_digits(s, a, b, f, c);
    if digits.len() == 0 {
        return None;
    }
    let scale: i128 = (c - f) as i128;
    let exp_value: i128;
    if c == s.len() {
        exp_value = 0;
    } else if s[c] == 'e' || s[c] == 'E' {
        match read_exponent(s, c) {
            Some(v) => {
                exp_value = v;
            },
            None => {
                return None;
            },
        }
    } else {
        return None;
    }
    let e = exp_value - scale;
    if e < i64::MIN as i128 || e > i64::MAX as i128 {
        return None;
    }
    Some(Number::Finite(Decimal { negative, digits, exponent: e as i64 }))
}

/// The digits with their signs applied.
pub open spec fn signed_coefficient(negative: bool, digits: Seq<u8>) -> int {
    if negative {
        -digits_value(digits)
    } else {
        digits_value(digits) as int
    }
}

/// The number equals `tenths / 10`.
#[verifier::opaque]
pub open spec fn equals_tenths(m: NumberModel, tenths: nat) -> bool {
    match m {
        NumberModel::Finite { negative, digits, exponent } => {
            let v = signed_coefficient(negative, digits);
            let e = exponent + 1;
            if e >= 0 {
                v * pow10(e as nat) == tenths
            } else {
                v == tenths * pow10((-e) as nat)
            }
        },
        _ => false,
    }
}

/// The number is less than `bound`.
#[verifier::opaque]
pub open spec fn is_below(m: NumberModel, bound: nat) -> bool {
    match m {
        NumberModel::Finite { negative, digits, exponent } => {
            let v = signed_coefficient(negative, digits);
            if exponent >= 0 {
                v * pow10(exponent as nat) < bound
            } else {
                v < bound * pow10((-exponent) as nat)
            }
        },
        NumberModel::Infinite { negative } => negative,
        NumberModel::NotANumber => false,
    }
}

/// `c × 10^e`, rounded down.
pub open spec fn floor_scaled(c: nat, e: int) -> nat {
    if e >= 0 {
        c * pow10(e as nat)
    } else {
        c / pow10((-e) as nat)
    }
}

/// `c × 10^e` is a whole number.
pub open spec fn exact_scaled(c: nat, e: int) -> bool {
    e >= 0 || c % pow10((-e) as nat) == 0
}

pub open spec fn capped(x: nat, cap: nat) -> nat {
    if x < cap {
        x
    } else {
        cap
    }
}

fn prefix_value_capped(d: &Vec<u8>, hi: usize, cap: u64) -> (r: u64)
    requires
        hi <= d.len(),
        small_digits(d@),
        cap <= 1_000_000_000_000_000_001,
    ensures
        r as nat == capped(digits_value(d@.take(hi as int)), cap as nat),
{
    let mut acc: u64 = 0;
    let mut i: usize = 0;
    assert(d@.take(0) =~= Seq::<u8>::empty());
    while i < hi
        invariant
            i <= hi <= d.len(),
            small_digits(d@),
            cap <= 1_000_000_000_000_000_001,
            acc as nat == capped(digits_value(d@.take(i as int)), cap as nat),
        decreases hi - i,
    {
        let ghost prev = d@.take(i as int);
        let ghost next = d@.take(i + 1);
        assert(next.drop_last() =~= prev);
        assert(d[i as int] <= 9);
        if acc < cap {
            let v = acc * 10 + d[i] as u64;
            acc = if v < cap { v } else { cap };
        } else {
            assert(digits_value(next) >= digits_value(prev) * 10);
        }
        i += 1;
    }
    acc
}

fn all_zero_from(d: &Vec<u8>, lo: usize) -> (r: bool)
    requires
        lo <= d.len(),
    ensures
        r == (forall|i: int| 0 <= i < d@.skip(lo as int).len() ==> #[trigger] d@.skip(lo as int)[i] == 0),
{
    let mut i = lo;
    while i < d.len()
        invariant
            lo <= i <= d.len(),
            forall|j: int| lo <= j < i ==> #[trigger] d@[j] == 0,
        decreases d.len() - i,
    {
        if d[i] != 0 {
            assert(d@.skip(lo as int)[i - lo] != 0);
            return false;
        }
        i += 1;
    }
    assert forall|j: int| 0 <= j < d@.skip(lo as int).len() implies #[trigger] d@.skip(lo as int)[j] == 0 by {
        assert(d@[j + lo] == 0);
    }
    true
}

/// `min(floor(c × 10^e), cap)` and whether `c × 10^e` is whole, where `c` is
/// the value of `d`.
fn scaled_floor(d: &Vec<u8>, e: i128, cap: u64) -> (r: (u64, bool))
    requires
        small_digits(d@),
        1 <= cap <= 1_000_000_000_000_000_001,
        i64::MIN <= e <= i64::MAX as int + 1,
    ensures
        r.0 as nat == capped(floor_scaled(digits_value(d@), e as int), cap as nat),
        r.1 == exact_scaled(digits_value(d@), e as int),
{
    let ghost c = digits_value(d@);
    assert(d@.take(d.len() as int) =~= d@);
    if e >= 0 {
        let mut acc = prefix_value_capped(d, d.len(), cap);
        let mut j: i128 = 0;
        proof {
            lemma_pow10_positive(0);
            reveal(pow);
            assert(c * pow10(0) == c);
        }
        while j < e && 0 < acc && acc < cap
            invariant
                0 <= j <= e,
                1 <= cap <= 1_000_000_000_000_000_001,
                acc as nat == capped(c * pow10(j as nat), cap as nat),
            decreases e - j,
        {
            proof {
                lemma_pow10_succ(j as nat);
                assert(c * pow10((j + 1) as nat) == (c * pow10(j as nat)) * 10) by (nonlinear_arith)
                    requires
                        pow10((j + 1) as nat) == 10 * pow10(j as nat),
                ;
            }
            let v = acc * 10;
            acc = if v < cap { v } else { cap };
            j += 1;
        }
        proof {
            if j < e {
                lemma_pow10_monotone(j as nat, e as nat);
                let p = pow10(j as nat);
                let q = pow10(e as nat);
                if acc == 0 {
                    assert(c * p == 0);
                    lemma_pow10_positive(j as nat);
                    assert(c == 0) by (nonlinear_arith)
                        requires
                            c * p == 0,
                            p >= 1,
                    ;
                    assert(c * q == 0);
                } else {
                    assert(c * p >= cap);
                    assert(c * q >= c * p) by (nonlinear_arith)
                        requires
                            q >= p,
                    ;
                }
            }
        }
        (acc, true)
    } else {
        let m: i128 = -e;
        let keep: i128 = d.len() as i128 - m;
        let ghost pm = pow10(m as nat);
        proof {
            lemma_pow10_positive(m as nat);
        }
        if keep <= 0 {
            proof {
                lemma_digits_value_bound(d@);
                lemma_pow10_monotone(d@.len(), m as nat);
                lemma_fundamental_div_mod_converse(c as int, pm as int, 0, c as int);
                lemma_digits_value_zero(d@);
                assert(d@.skip(0) =~= d@);
            }
            let z = all_zero_from(d, 0);
            (0, z)
        } else {
            let k = keep as usize;
            proof {
                let hi = d@.take(k as int);
                let lo = d@.skip(k as int);
                assert(hi + lo =~= d@);
                lemma_digits_value_append(hi, lo);
                assert(lo.len() == m);
                assert(small_digits(lo)) by {
                    assert forall|i: int| 0 <= i < lo.len() implies #[trigger] lo[i] <= 9 by {
                        assert(lo[i] == d@[i + k]);
                    }
                }
                lemma_digits_value_bound(lo);
                lemma_fundamental_div_mod_converse(
                    c as int,
                    pm as int,
                    digits_value(hi) as int,
                    digits_value(lo) as int,
                );
                lemma_digits_value_zero(lo);
            }
            let q = prefix_value_capped(d, k, cap);
            let z = all_zero_from(d, k);
            (q, z)
        }
    }
}

/// Whether `n` equals `tenths / 10`.
pub fn number_equals_tenths(n: &Number, tenths: u64) -> (r: bool)
    requires
        n.wf(),
        0 < tenths <= 1_000_000_000_000_000_000,
    ensures
        r == equals_tenths(n@, tenths as nat),
{
    reveal(equals_tenths);
    match n {
        Number::Finite(d) => {
            let (q, exact) = scaled_floor(&d.digits, d.exponent as i128 + 1, tenths + 1);
            proof {
                let c = digits_value(d.digits@);
                let e = d.exponent + 1;
                if e >= 0 {
                    let p = pow10(e as nat);
                    lemma_pow10_positive(e as nat);
                    assert(c * p >= 0) by (nonlinear_arith)
                        requires
                            p >= 1,
                    ;
                    assert((-c) * p == -(c * p)) by (nonlinear_arith);
                } else {
                    let p = pow10((-e) as nat);
                    lemma_pow10_positive((-e) as nat);
                    lemma_fundamental_div_mod(c as int, p as int);
                    assert(tenths * p > 0) by (nonlinear_arith)
                        requires
                            p >= 1,
                            tenths > 0,
                    ;
                    if c == tenths * p {
                        lemma_fundamental_div_mod_converse(c as int, p as int, tenths as int, 0);
                    }
                    if q == tenths && exact {
                        assert(c == p * (c / p) + c % p);
                        assert(c == tenths * p) by (nonlinear_arith)
                            requires
                                c == p * (c / p) + c % p,
                                c / p == tenths,
                                c % p == 0,
                        ;
                    }
                }
            }
            !d.negative && q == tenths && exact
        },
        _ => false,
    }
}

/// Whether `n` is less than `bound`.
pub fn number_is_below(n: &Number, bound: u64) -> (r: bool)
    requires
        n.wf(),
        0 < bound <= 1_000_000_000_000_000_000,
    ensures
        r == is_below(n@, bound as nat),
{
    reveal(is_below);
    match n {
        Number::Finite(d) => {
            let (q, _exact) = scaled_floor(&d.digits, d.exponent as i128, bound);
            proof {
                let c = digits_value(d.digits@);
                let e = d.exponent as int;
                if e >= 0 {
                    let p = pow10(e as nat);
                    lemma_pow10_positive(e as nat);
                    assert(c * p >= 0) by (nonlinear_arith)
                        requires
                            p >= 1,
                    ;
                    assert((-c) * p == -(c * p)) by (nonlinear_arith);
                } else {
                    let p = pow10((-e) as nat);
                    lemma_pow10_positive((-e) as nat);
                    lemma_fundamental_div_mod(c as int, p as int);
                    let qq = c / p;
                    let rr = c % p;
                    assert(c == p * qq + rr);
                    if qq < bound {
                        assert(c < bound * p) by (nonlinear_arith)
                            requires
                                c == p * qq + rr,
                                0 <= rr < p,
                                qq < bound,
                        ;
                    } else {
                        assert(c >= bound * p) by (nonlinear_arith)
                            requires
                                c == p * qq + rr,
                                0 <= rr,
                                qq >= bound,
                                p >= 1,
                        ;
                    }
                    assert(bound * p > 0) by (nonlinear_arith)
                        requires
                            p >= 1,
                            bound > 0,
                    ;
                }
            }
            d.negative || q < bound
        },
        Number::Infinite { negative } => *negative,
        Number::NotANumber => false,
    }
}

/// The whole part of the number, rounded toward zero; `NaN` and the
/// infinities have none.
pub open spec fn whole_part(m: NumberModel) -> Option<int> {
    match m {
        NumberModel::Finite { negative, digits, exponent } => {
            let w = floor_scaled(digits_value(digits), exponent);
            Some(
                if negative {
                    -w
                } else {
                    w as int
                },
            )
        },
        NumberModel::Infinite { .. } => None,
        NumberModel::NotANumber => None,
    }
}

/// The whole part of `n` when it lies within `[-limit, limit]`.
pub fn whole_part_within(n: &Number, limit: u64) -> (r: Option<i64>)
    requires
        n.wf(),
        limit <= 1_000_000_000_000_000_000,
    ensures
        r == (match whole_part(n@) {
            Some(w) => if -limit <= w <= limit {
                Some(w as i64)
            } else {
                None
            },
            None => None,
        }),
{
    match n {
        Number::Finite(d) => {
            let (w, _exact) = scaled_floor(&d.digits, d.exponent as i128, limit + 1);
            if w > limit {
                None
            } else if d.negative {
                Some(0 - w as i64)
            } else {
                Some(w as i64)
            }
        },
        Number::Infinite { .. } => None,
        Number::NotANumber => None,
    }
}

} // verus!
