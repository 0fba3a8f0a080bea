//! Numeric precision input and output: reading a length typed as a
//! decimal number into ticks, and writing a length in ticks as a decimal
//! number of world units.
//!
//! A typed number is an optional sign, digits with at most one decimal
//! point among them, and optionally an exponent: the letter `e` or `E`,
//! an optional sign, and digits. It is read to the nearest tick.

use vstd::prelude::*;

verus! {

/// Largest magnitude, in ticks, that a typed number is read with;
/// anything larger counts as this.
pub const INPUT_CAP: u64 = 1_000_000_000_000_000;

/// Largest exponent that the reader counts up to; past it a number is
/// either zero or beyond [`INPUT_CAP`] whatever the exponent.
pub const EXPONENT_CAP: u128 = 100_000_000_000_000_000_000;

/// A decimal digit.
pub open spec fn is_digit(c: char) -> bool {
    '0' <= c && c <= '9'
}

/// The value of a decimal digit.
pub open spec fn digit_value(c: char) -> int {
    c as int - '0' as int
}

/// The decimal digit of a value under ten.
pub open spec fn digit_char(d: int) -> char {
    if d == 0 {
        '0'
    } else if d == 1 {
        '1'
    } else if d == 2 {
        '2'
    } else if d == 3 {
        '3'
    } else if d == 4 {
        '4'
    } else if d == 5 {
        '5'
    } else if d == 6 {
        '6'
    } else if d == 7 {
        '7'
    } else if d == 8 {
        '8'
    } else {
        '9'
    }
}

/// Every character of `s` is a decimal digit.
pub open spec fn all_digits(s: Seq<char>) -> bool {
    forall|i: int| 0 <= i < s.len() ==> is_digit(#[trigger] s[i])
}

/// The number that a sequence of decimal digits writes.
pub open spec fn digits_value(s: Seq<char>) -> nat
    decreases s.len(),
{
    if s.len() == 0 {
        0
    } else {
        (digits_value(s.drop_last()) * 10 + digit_value(s.last())) as nat
    }
}

/// The index of the first `'.'` in `s` at or after `from`, or the length
/// of `s` if there is none.
pub open spec fn dot_index(s: Seq<char>, from: int) -> int
    decreases s.len() - from,
{
    if from < 0 || from >= s.len() {
        s.len() as int
    } else if s[from] == '.' {
        from
    } else {
        dot_index(s, from + 1)
    }
}

/// A sign.
pub open spec fn is_sign(c: char) -> bool {
    c == '+' || c == '-'
}

/// The letter that introduces an exponent.
pub open spec fn is_exponent_mark(c: char) -> bool {
    c == 'e' || c == 'E'
}

/// `s` begins with a minus sign.
pub open spec fn is_negative(s: Seq<char>) -> bool {
    s.len() > 0 && s[0] == '-'
}

/// `s` without the sign that it begins with, if it begins with one.
pub open spec fn unsigned_part(s: Seq<char>) -> Seq<char> {
    if s.len() > 0 && is_sign(s[0]) {
        s.subrange(1, s.len() as int)
    } else {
        s
    }
}

/// The index of the first exponent mark in `s` at or after `from`, or the
/// length of `s` if there is none.
pub open spec fn exponent_index(s: Seq<char>, from: int) -> int
    decreases s.len() - from,
{
    if from < 0 || from >= s.len() {
        s.len() as int
    } else if is_exponent_mark(s[from]) {
        from
    } else {
        exponent_index(s, from + 1)
    }
}

/// What stands between the sign and the exponent mark.
pub open spec fn mantissa(s: Seq<char>) -> Seq<char> {
    let u = unsigned_part(s);
    u.subrange(0, exponent_index(u, 0))
}

/// `s` holds an exponent mark.
pub open spec fn has_exponent(s: Seq<char>) -> bool {
    let u = unsigned_part(s);
    exponent_index(u, 0) < u.len()
}

/// What stands after the exponent mark.
pub open spec fn exponent_text(s: Seq<char>) -> Seq<char> {
    let u = unsigned_part(s);
    if exponent_index(u, 0) < u.len() {
        u.subrange(exponent_index(u, 0) + 1, u.len() as int)
    } else {
        Seq::empty()
    }
}

/// `t` is an exponent: at least one digit after an optional sign.
pub open spec fn is_exponent(t: Seq<char>) -> bool {
    all_digits(unsigned_part(t)) && unsigned_part(t).len() >= 1
}

/// The number that the exponent `t` writes.
pub open spec fn exponent_value(t: Seq<char>) -> int {
    if is_negative(t) {
        -(digits_value(unsigned_part(t)) as int)
    } else {
        digits_value(unsigned_part(t)) as int
    }
}

/// The digits before the decimal point.
pub open spec fn whole_part(s: Seq<char>) -> Seq<char> {
    s.subrange(0, dot_index(s, 0))
}

/// The digits after the decimal point.
pub open spec fn fraction_part(s: Seq<char>) -> Seq<char> {
    if dot_index(s, 0) < s.len() {
        s.subrange(dot_index(s, 0) + 1, s.len() as int)
    } else {
        Seq::empty()
    }
}

/// `s` is a decimal number: digits, with at most one point among them
/// and at least one digit in all.
pub open spec fn is_decimal(s: Seq<char>) -> bool {
    &&& all_digits(whole_part(s))
    &&& all_digits(fraction_part(s))
    &&& whole_part(s).len() + fraction_part(s).len() >= 1
}

/// The value of the `i`-th digit of `f`, zero past its end.
pub open spec fn digit_at(f: Seq<char>, i: int) -> int {
    if 0 <= i < f.len() {
        digit_value(f[i])
    } else {
        0
    }
}

/// The smaller of two numbers.
pub open spec fn min(a: int, b: int) -> int {
    if a <= b {
        a
    } else {
        b
    }
}

/// `s` is a number: a decimal number after an optional sign, and after
/// that, if there is an exponent mark, an exponent.
pub open spec fn is_number(s: Seq<char>) -> bool {
    &&& is_decimal(mantissa(s))
    &&& has_exponent(s) ==> is_exponent(exponent_text(s))
}

/// The power of ten that the number `s` is multiplied by: its exponent,
/// or zero without one.
pub open spec fn power_of_ten(s: Seq<char>) -> int {
    if has_exponent(s) {
        exponent_value(exponent_text(s))
    } else {
        0
    }
}

/// The number that the first `q` digits of `d` write, zeros standing for
/// the digits past its end.
pub open spec fn leading_value(d: Seq<char>, q: int) -> int
    decreases q,
{
    if q <= 0 {
        0
    } else {
        leading_value(d, q - 1) * 10 + digit_at(d, q - 1)
    }
}

/// The digits `d`, read with the tick's place after the first `q` of
/// them, to the nearest tick: what stands before that place, at most
/// [`INPUT_CAP`], and one more where the digit after it is five or more.
pub open spec fn rounded_ticks(d: Seq<char>, q: int) -> int {
    min(leading_value(d, q), INPUT_CAP as int) + if digit_at(d, q) >= 5 {
        1int
    } else {
        0int
    }
}

/// The magnitude in ticks of the number `s`: the digits of its mantissa
/// with the decimal point moved right by the exponent and by the three
/// places of a tick, to the nearest tick.
pub open spec fn magnitude_ticks(s: Seq<char>) -> int {
    let m = mantissa(s);
    rounded_ticks(
        whole_part(m) + fraction_part(m),
        whole_part(m).len() + 3 + power_of_ten(s),
    )
}

/// The length in ticks that the text `s` stands for, if it is a number;
/// a number with a minus sign stands for a negative length.
pub open spec fn parse_length_spec(s: Seq<char>) -> Option<int> {
    if is_number(s) {
        Some(
            if is_negative(s) {
                -magnitude_ticks(s)
            } else {
                magnitude_ticks(s)
            },
        )
    } else {
        None
    }
}

/// The decimal digits of `n`, without leading zeros.
pub open spec fn decimal_digits(n: nat) -> Seq<char>
    decreases n,
{
    if n < 10 {
        seq![digit_char(n as int)]
    } else {
        decimal_digits(n / 10).push(digit_char((n % 10) as int))
    }
}

/// The digits of a fraction of `f` ticks (`0 < f < 1000`), without
/// trailing zeros.
pub open spec fn fraction_digits(f: int) -> Seq<char> {
    let h = digit_char(f / 100);
    let t = digit_char((f / 10) % 10);
    let u = digit_char(f % 10);
    if f % 10 != 0 {
        seq![h, t, u]
    } else if (f / 10) % 10 != 0 {
        seq![h, t]
    } else {
        seq![h]
    }
}

/// A length of `d` ticks written in world units: the whole part, and,
/// unless the length is a whole number of units, a point and up to three
/// decimals without trailing zeros.
pub open spec fn format_ticks(d: nat) -> Seq<char> {
    if d % 1000 == 0 {
        decimal_digits(d / 1000)
    } else {
        decimal_digits(d / 1000).push('.') + fraction_digits((d % 1000) as int)
    }
}

/// `String::push`: appends the character `c` to `s`.
#[verifier::external_body]
pub(crate) fn string_push(s: &mut String, c: char)
    ensures
        final(s)@ == old(s)@.push(c),
{
    s.push(c)
}

/// Whether a key's character goes into the numeric entry as it is
/// pressed: a digit or the decimal point.
pub fn is_entry_char(c: char) -> (b: bool)
    ensures
        b == (is_digit(c) || c == '.'),
{
    ('0' <= c && c <= '9') || c == '.'
}

fn digit_to_char(d: u64) -> (c: char)
    requires
        d < 10,
    ensures
        c == digit_char(d as int),
{
    if d == 0 {
        '0'
    } else if d == 1 {
        '1'
    } else if d == 2 {
        '2'
    } else if d == 3 {
        '3'
    } else if d == 4 {
        '4'
    } else if d == 5 {
        '5'
    } else if d == 6 {
        '6'
    } else if d == 7 {
        '7'
    } else if d == 8 {
        '8'
    } else {
        '9'
    }
}

fn char_to_digit(c: char) -> (d: Option<u64>)
    ensures
        d is Some <==> is_digit(c),
        d matches Some(v) ==> v == digit_value(c) && v < 10,
{
    if '0' <= c && c <= '9' {
        Some((c as u32 - '0' as u32) as u64)
    } else {
        None
    }
}

/// Appends the decimal digits of `n` to `s`.
pub fn push_decimal(s: &mut String, n: u64)
    ensures
        final(s)@ == old(s)@ + decimal_digits(n as nat),
    decreases n,
{
    if n < 10 {
        string_push(s, digit_to_char(n));
        assert(s@ =~= old(s)@ + decimal_digits(n as nat));
    } else {
        push_decimal(s, n / 10);
        string_push(s, digit_to_char(n % 10));
        assert(s@ =~= old(s)@ + decimal_digits(n as nat));
    }
}

/// Writes a length in ticks as a decimal number of world units.
pub fn format_length(d: u64) -> (text: String)
    ensures
        text@ == format_ticks(d as nat),
{
    let mut text = String::new();
    push_decimal(&mut text, d / 1000);
    let f = d % 1000;
    if f != 0 {
        string_push(&mut text, '.');
        string_push(&mut text, digit_to_char(f / 100));
        if f % 10 != 0 {
            string_push(&mut text, digit_to_char((f / 10) % 10));
            string_push(&mut text, digit_to_char(f % 10));
        } else if (f / 10) % 10 != 0 {
            string_push(&mut text, digit_to_char((f / 10) % 10));
        }
        assert(text@ =~= format_ticks(d as nat));
    } else {
        assert(text@ =~= format_ticks(d as nat));
    }
    text
}

proof fn lemma_dot_index_step(s: Seq<char>, from: int, i: int)
    requires
        0 <= from <= i <= s.len(),
        forall|j: int| from <= j < i ==> s[j] != '.',
    ensures
        dot_index(s, from) == dot_index(s, i),
    decreases i - from,
{
    if from < i {
        lemma_dot_index_step(s, from + 1, i);
    }
}

proof fn lemma_exponent_index_step(s: Seq<char>, from: int, i: int)
    requires
        0 <= from <= i <= s.len(),
        forall|j: int| from <= j < i ==> !is_exponent_mark(s[j]),
    ensures
        exponent_index(s, from) == exponent_index(s, i),
    decreases i - from,
{
    if from < i {
        lemma_exponent_index_step(s, from + 1, i);
    }
}

/// A digit of digits is between zero and nine.
proof fn lemma_digit_at_range(d: Seq<char>, i: int)
    requires
        all_digits(d),
    ensures
        0 <= digit_at(d, i) <= 9,
{
    if 0 <= i < d.len() {
        assert(is_digit(d[i]));
    }
}

/// Past the end of the digits a leading value of zero stays zero.
proof fn lemma_leading_zero_stays(d: Seq<char>, j: int, q: int)
    requires
        d.len() <= j <= q,
        leading_value(d, j) == 0,
    ensures
        leading_value(d, q) == 0,
    decreases q - j,
{
    if j < q {
        lemma_leading_zero_stays(d, j, q - 1);
    }
}

/// The leading value of digits is not negative.
proof fn lemma_leading_is_natural(d: Seq<char>, q: int)
    requires
        all_digits(d),
    ensures
        0 <= leading_value(d, q),
    decreases q,
{
    if q > 0 {
        lemma_leading_is_natural(d, q - 1);
        lemma_digit_at_range(d, q - 1);
    }
}

/// The leading value does not fall as more digits are taken.
proof fn lemma_leading_grows(d: Seq<char>, j: int, q: int)
    requires
        all_digits(d),
        0 <= j <= q,
    ensures
        0 <= leading_value(d, j) <= leading_value(d, q),
        j < q ==> 10 * leading_value(d, j) <= leading_value(d, q),
    decreases q - j,
{
    lemma_leading_is_natural(d, j);
    if j < q {
        lemma_leading_grows(d, j, q - 1);
        lemma_digit_at_range(d, q - 1);
    }
}

/// Sixteen places past the end of the digits, the leading value is zero
/// or beyond the cap, and more places change neither.
proof fn lemma_leading_saturates(d: Seq<char>, q: int)
    requires
        all_digits(d),
        q >= d.len() + 16,
    ensures
        min(leading_value(d, q), INPUT_CAP as int) == min(
            leading_value(d, d.len() as int + 16),
            INPUT_CAP as int,
        ),
{
    let n = d.len() as int;
    lemma_leading_grows(d, 0, n);
    if leading_value(d, n) == 0 {
        lemma_leading_zero_stays(d, n, n + 16);
        lemma_leading_zero_stays(d, n, q);
    } else {
        lemma_leading_grows(d, n, n + 1);
        lemma_leading_grows(d, n + 1, n + 2);
        lemma_leading_grows(d, n + 2, n + 3);
        lemma_leading_grows(d, n + 3, n + 4);
        lemma_leading_grows(d, n + 4, n + 5);
        lemma_leading_grows(d, n + 5, n + 6);
        lemma_leading_grows(d, n + 6, n + 7);
        lemma_leading_grows(d, n + 7, n + 8);
        lemma_leading_grows(d, n + 8, n + 9);
        lemma_leading_grows(d, n + 9, n + 10);
        lemma_leading_grows(d, n + 10, n + 11);
        lemma_leading_grows(d, n + 11, n + 12);
        lemma_leading_grows(d, n + 12, n + 13);
        lemma_leading_grows(d, n + 13, n + 14);
        lemma_leading_grows(d, n + 14, n + 15);
        lemma_leading_grows(d, n + 15, n + 16);
        lemma_leading_grows(d, n + 16, q);
    }
}

/// The characters of `text`.
fn chars_of(text: &str) -> (v: Vec<char>)
    ensures
        v@ == text@,
{
    let n = text.unicode_len();
    let mut v: Vec<char> = Vec::new();
    let mut i: usize = 0;
    while i < n
        invariant
            n == text@.len(),
            i <= n,
            v@ == text@.subrange(0, i as int),
        decreases n - i,
    {
        v.push(text.get_char(i));
        assert(v@ =~= text@.subrange(0, i + 1));
        i += 1;
    }
    assert(v@ =~= text@);
    v
}

/// The characters of `v` from `from` up to `to`.
fn slice_of(v: &Vec<char>, from: usize, to: usize) -> (r: Vec<char>)
    requires
        from <= to <= v@.len(),
    ensures
        r@ == v@.subrange(from as int, to as int),
{
    let mut r: Vec<char> = Vec::new();
    let mut i: usize = from;
    while i < to
        invariant
            from <= i <= to,
            to <= v@.len(),
            r@ == v@.subrange(from as int, i as int),
        decreases to - i,
    {
        r.push(v[i]);
        assert(r@ =~= v@.subrange(from as int, i + 1));
        i += 1;
    }
    r
}

fn starts_negative(v: &Vec<char>) -> (b: bool)
    ensures
        b == is_negative(v@),
{
    v.len() > 0 && v[0] == '-'
}

fn without_sign(v: &Vec<char>) -> (r: Vec<char>)
    ensures
        r@ == unsigned_part(v@),
{
    if v.len() > 0 && (v[0] == '+' || v[0] == '-') {
        slice_of(v, 1, v.len())
    } else {
        let r = slice_of(v, 0, v.len());
        assert(r@ =~= v@);
        r
    }
}

fn find_dot(v: &Vec<char>) -> (k: usize)
    ensures
        k == dot_index(v@, 0),
        k <= v@.len(),
{
    let mut i: usize = 0;
    while i < v.len()
        invariant
            i <= v@.len(),
            forall|j: int| 0 <= j < i ==> v@[j] != '.',
        decreases v@.len() - i,
    {
        if v[i] == '.' {
            proof {
                lemma_dot_index_step(v@, 0, i as int);
            }
            return i;
        }
        i += 1;
    }
    proof {
        lemma_dot_index_step(v@, 0, i as int);
    }
    i
}

fn find_exponent(v: &Vec<char>) -> (k: usize)
    ensures
        k == exponent_index(v@, 0),
        k <= v@.len(),
{
    let mut i: usize = 0;
    while i < v.len()
        invariant
            i <= v@.len(),
            forall|j: int| 0 <= j < i ==> !is_exponent_mark(v@[j]),
        decreases v@.len() - i,
    {
        if v[i] == 'e' || v[i] == 'E' {
            proof {
                lemma_exponent_index_step(v@, 0, i as int);
            }
            return i;
        }
        i += 1;
    }
    proof {
        lemma_exponent_index_step(v@, 0, i as int);
    }
    i
}

fn only_digits(v: &Vec<char>) -> (b: bool)
    ensures
        b == all_digits(v@),
{
    let mut i: usize = 0;
    while i < v.len()
        invariant
            i <= v@.len(),
            forall|j: int| 0 <= j < i ==> is_digit(#[trigger] v@[j]),
        decreases v@.len() - i,
    {
        if !('0' <= v[i] && v[i] <= '9') {
            assert(!is_digit(v@[i as int]));
            return false;
        }
        i += 1;
    }
    true
}

/// The number that the digits write, counted up to [`EXPONENT_CAP`].
fn capped_value(v: &Vec<char>) -> (r: u128)
    requires
        all_digits(v@),
    ensures
        r == min(digits_value(v@) as int, EXPONENT_CAP as int),
{
    let mut r: u128 = 0;
    let mut i: usize = 0;
    assert(v@.subrange(0, 0) =~= Seq::<char>::empty());
    while i < v.len()
        invariant
            i <= v@.len(),
            all_digits(v@),
            r == min(digits_value(v@.subrange(0, i as int)) as int, EXPONENT_CAP as int),
        decreases v@.len() - i,
    {
        let ghost next = v@.subrange(0, i + 1);
        proof {
            assert(next.drop_last() =~= v@.subrange(0, i as int));
            assert(next.last() == v@[i as int]);
            assert(is_digit(v@[i as int]));
        }
        let d: u128 = match char_to_digit(v[i]) {
            Some(d) => d as u128,
            None => 0,
        };
        let grown: u128 = r * 10 + d;
        r = if grown > EXPONENT_CAP {
            EXPONENT_CAP
        } else {
            grown
        };
        i += 1;
    }
    assert(v@.subrange(0, i as int) =~= v@);
    r
}

/// Reads digits with the tick's place after the first `q` of them.
fn round_to_ticks(d: &Vec<char>, q: i128) -> (r: u64)
    requires
        all_digits(d@),
        -EXPONENT_CAP <= q <= 2 * EXPONENT_CAP,
    ensures
        r == rounded_ticks(d@, q as int),
{
    let len: i128 = d.len() as i128;
    let m: i128 = if q <= 0 {
        0
    } else if q > len + 16 {
        len + 16
    } else {
        q
    };
    let mut acc: u64 = 0;
    let mut j: i128 = 0;
    while j < m
        invariant
            0 <= j <= m,
            m <= len + 16,
            len == d@.len(),
            len <= usize::MAX,
            all_digits(d@),
            acc == min(leading_value(d@, j as int), INPUT_CAP as int),
        decreases m - j,
    {
        proof {
            lemma_leading_grows(d@, 0, j as int);
            lemma_digit_at_range(d@, j as int);
        }
        let digit: u64 = if j < len {
            match char_to_digit(d[j as usize]) {
                Some(v) => v,
                None => 0,
            }
        } else {
            0
        };
        assert(digit == digit_at(d@, j as int)) by {
            if j < len {
                assert(is_digit(d@[j as int]));
            }
        }
        let grown: u64 = acc * 10 + digit;
        acc = if grown > INPUT_CAP {
            INPUT_CAP
        } else {
            grown
        };
        j += 1;
    }
    proof {
        if q > len + 16 {
            lemma_leading_saturates(d@, q as int);
        }
    }
    let up: bool = if 0 <= q && q < len {
        match char_to_digit(d[q as usize]) {
            Some(v) => v >= 5,
            None => false,
        }
    } else {
        false
    };
    assert(up == (digit_at(d@, q as int) >= 5)) by {
        if 0 <= q && q < len {
            assert(is_digit(d@[q as int]));
        }
    }
    if up {
        acc + 1
    } else {
        acc
    }
}

/// Reads a length typed as a number, in ticks: an optional sign, digits
/// with at most one decimal point among them and at least one digit, and
/// optionally an exponent. Anything else is refused.
pub fn parse_length(text: &str) -> (len: Option<i64>)
    ensures
        len is Some <==> parse_length_spec(text@) is Some,
        len matches Some(v) ==> parse_length_spec(text@) == Some(v as int),
{
    let chars = chars_of(text);
    let negative = starts_negative(&chars);
    let body = without_sign(&chars);
    let k = find_exponent(&body);
    let mant = slice_of(&body, 0, k);
    let p = find_dot(&mant);
    let mut digits = slice_of(&mant, 0, p);
    let mut frac = if p < mant.len() {
        slice_of(&mant, p + 1, mant.len())
    } else {
        Vec::new()
    };
    assert(digits@ == whole_part(mant@));
    assert(frac@ =~= fraction_part(mant@));
    if !only_digits(&digits) || !only_digits(&frac) || (digits.len() == 0 && frac.len() == 0) {
        return None;
    }
    let mut power: i128 = 0;
    if k < body.len() {
        let t = slice_of(&body, k + 1, body.len());
        let e = without_sign(&t);
        if e.len() == 0 || !only_digits(&e) {
            return None;
        }
        let size = capped_value(&e);
        power = if starts_negative(&t) {
            -(size as i128)
        } else {
            size as i128
        };
    }
    digits.append(&mut frac);
    let ghost d = whole_part(mant@) + fraction_part(mant@);
    assert(digits@ =~= d);
    assert(all_digits(d)) by {
        assert forall|i: int| 0 <= i < d.len() implies is_digit(#[trigger] d[i]) by {
            if i < whole_part(mant@).len() {
                assert(d[i] == whole_part(mant@)[i]);
            } else {
                assert(d[i] == fraction_part(mant@)[i - whole_part(mant@).len()]);
            }
        }
    }
    let q: i128 = p as i128 + 3 + power;
    let size = round_to_ticks(&digits, q);
    proof {
        let true_q = p + 3 + power_of_ten(text@);
        if true_q != q {
            // the exponent is beyond what is counted
            if power > 0 {
                assert(q >= d.len() + 16);
                lemma_leading_saturates(d, q as int);
                lemma_leading_saturates(d, true_q);
            } else {
                assert(q < 0 && true_q < 0);
            }
            assert(rounded_ticks(d, true_q) == rounded_ticks(d, q as int));
        }
        assert(size == magnitude_ticks(text@));
    }
    Some(
        if negative {
            -(size as i64)
        } else {
            size as i64
        },
    )
}

/// A digit written and read is the same digit.
pub proof fn lemma_digit_round_trip(d: int)
    requires
        0 <= d <= 9,
    ensures
        is_digit(digit_char(d)),
        digit_value(digit_char(d)) == d,
        digit_char(d) != '.',
{
}

/// The digits of a number are digits, at least one, and write that
/// number.
pub proof fn lemma_decimal_digits(n: nat)
    ensures
        decimal_digits(n).len() >= 1,
        all_digits(decimal_digits(n)),
        digits_value(decimal_digits(n)) == n,
    decreases n,
{
    let s = decimal_digits(n);
    if n < 10 {
        lemma_digit_round_trip(n as int);
        assert(s.len() == 1);
        assert(s.drop_last() =~= Seq::<char>::empty());
        assert(digits_value(s.drop_last()) == 0);
        assert(s.last() == digit_char(n as int));
    } else {
        lemma_decimal_digits(n / 10);
        lemma_digit_round_trip((n % 10) as int);
        let rest = decimal_digits(n / 10);
        assert(s.drop_last() =~= rest);
        assert(s.last() == digit_char((n % 10) as int));
        assert forall|i: int| 0 <= i < s.len() implies is_digit(#[trigger] s[i]) by {
            if i < rest.len() {
                assert(s[i] == rest[i]);
            }
        }
    }
}

/// The index of the first point in digits followed by `rest` is the
/// number of the digits, or beyond that if `rest` does not start with
/// a point.
proof fn lemma_dot_after_digits(w: Seq<char>, rest: Seq<char>)
    requires
        all_digits(w),
    ensures
        rest.len() > 0 && rest[0] == '.' ==> dot_index(w + rest, 0) == w.len(),
        rest.len() == 0 ==> dot_index(w + rest, 0) == w.len(),
{
    let s = w + rest;
    assert forall|j: int| 0 <= j < w.len() implies s[j] != '.' by {
        assert(s[j] == w[j]);
        assert(is_digit(w[j]));
    }
    lemma_dot_index_step(s, 0, w.len() as int);
    if rest.len() > 0 && rest[0] == '.' {
        assert(s[w.len() as int] == rest[0]);
    }
}

/// The leading value of digits followed by more digits, taken up to
/// the end of the first, is the number that the first write.
proof fn lemma_leading_prefix(w: Seq<char>, rest: Seq<char>, j: int)
    requires
        all_digits(w),
        0 <= j <= w.len(),
    ensures
        leading_value(w + rest, j) == digits_value(w.take(j)),
    decreases j,
{
    if j > 0 {
        lemma_leading_prefix(w, rest, j - 1);
        assert(w.take(j).drop_last() =~= w.take(j - 1));
        assert(w.take(j).last() == (w + rest)[j - 1]);
        assert(is_digit(w[j - 1]));
    }
}

/// Written lengths read back: a length written by [`format_length`] is
/// read by [`parse_length`] as the same length, as long as it is within
/// the cap of the reader.
pub proof fn lemma_written_lengths_read_back(d: nat)
    requires
        d <= INPUT_CAP,
    ensures
        parse_length_spec(format_ticks(d)) == Some(d as int),
{
    let w = decimal_digits(d / 1000);
    lemma_decimal_digits(d / 1000);
    let text = format_ticks(d);
    let f = (d % 1000) as int;
    let digits = if f == 0 {
        Seq::<char>::empty()
    } else {
        fraction_digits(f)
    };
    let rest = if f == 0 {
        Seq::<char>::empty()
    } else {
        seq!['.'] + digits
    };
    lemma_digit_round_trip(f / 100);
    lemma_digit_round_trip((f / 10) % 10);
    lemma_digit_round_trip(f % 10);
    assert(all_digits(digits));
    assert(text =~= w + rest);
    // neither a sign nor an exponent
    assert(is_digit(w[0]));
    assert(text[0] == w[0]);
    assert(unsigned_part(text) == text);
    assert forall|j: int| 0 <= j < text.len() implies !is_exponent_mark(text[j]) by {
        if j < w.len() {
            assert(text[j] == w[j]);
            assert(is_digit(w[j]));
        } else if j > w.len() {
            assert(text[j] == digits[j - w.len() - 1]);
            assert(is_digit(digits[j - w.len() - 1]));
        }
    }
    lemma_exponent_index_step(text, 0, text.len() as int);
    assert(mantissa(text) =~= text);
    assert(!has_exponent(text));
    // the two parts
    lemma_dot_after_digits(w, rest);
    assert(whole_part(text) =~= w);
    assert(fraction_part(text) =~= digits);
    // the value
    let all = w + digits;
    let n = w.len() as int;
    lemma_leading_prefix(w, digits, n);
    assert(w.take(n) =~= w);
    assert(leading_value(all, n) == d / 1000);
    assert(digit_at(all, n) == digit_at(digits, 0) && digit_at(all, n + 1) == digit_at(digits, 1)
        && digit_at(all, n + 2) == digit_at(digits, 2) && digit_at(all, n + 3) == 0);
    assert(leading_value(all, n + 1) == leading_value(all, n) * 10 + digit_at(all, n));
    assert(leading_value(all, n + 2) == leading_value(all, n + 1) * 10 + digit_at(all, n + 1));
    assert(leading_value(all, n + 3) == leading_value(all, n + 2) * 10 + digit_at(all, n + 2));
    assert(f == (f / 100) * 100 + ((f / 10) % 10) * 10 + f % 10);
    assert(digit_at(digits, 0) * 100 + digit_at(digits, 1) * 10 + digit_at(digits, 2) == f);
    assert(leading_value(all, n + 3) == d);
}

} // verus!
