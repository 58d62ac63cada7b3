//! Numbers as text: digits in a base from 2 to 16, and back.
use vstd::prelude::*;

use crate::text::chars_of;

verus! {

/// The character for a digit below 16.
pub open spec fn digit_char(d: int) -> char {
    if d < 10 {
        (('0' as int) + d) as char
    } else {
        (('a' as int) + d - 10) as char
    }
}

/// The digits of `n` in `base`, most significant first, without leading zeros.
pub open spec fn digits_of(n: nat, base: nat) -> Seq<char>
    decreases n,
{
    if n < base || base < 2 {
        seq![digit_char(n as int)]
    } else {
        proof {
            assert(n / base < n) by (nonlinear_arith)
                requires
                    n >= base,
                    base >= 2,
            ;
        }
        digits_of(n / base, base).push(digit_char((n % base) as int))
    }
}

/// `n` in decimal.
pub open spec fn decimal_of(n: int) -> Seq<char> {
    if n < 0 {
        seq!['-'] + digits_of((-n) as nat, 10)
    } else {
        digits_of(n as nat, 10)
    }
}

/// `s` with zeros in front up to `width` characters.
pub open spec fn zero_padded(s: Seq<char>, width: nat) -> Seq<char> {
    if s.len() >= width {
        s
    } else {
        Seq::new((width - s.len()) as nat, |i: int| '0') + s
    }
}

fn digit(d: u8) -> (c: char)
    requires
        d < 16,
    ensures
        c == digit_char(d as int),
{
    if d < 10 {
        (48 + d) as char
    } else {
        (97 + (d - 10)) as char
    }
}

/// The digits of `n` in `base`.
pub fn digits(n: u128, base: u8) -> (r: String)
    requires
        2 <= base <= 16,
    ensures
        r@ == digits_of(n as nat, base as nat),
    decreases n,
{
    if n < base as u128 {
        let mut r = String::new();
        r.push(digit(n as u8));
        assert(r@ =~= seq![digit_char(n as int)]);
        r
    } else {
        assert(n / (base as u128) < n) by (nonlinear_arith)
            requires
                n >= base,
                base >= 2,
        ;
        let mut r = digits(n / (base as u128), base);
        r.push(digit((n % (base as u128)) as u8));
        r
    }
}

/// `n` in decimal.
pub fn decimal(n: u128) -> (r: String)
    ensures
        r@ == decimal_of(n as int),
{
    digits(n, 10)
}

/// `n` in decimal, with a sign where it is negative.
pub fn signed_decimal(n: i64) -> (r: String)
    ensures
        r@ == decimal_of(n as int),
{
    if n < 0 {
        let mut r = String::new();
        r.push('-');
        let magnitude: u128 = (-(n as i128)) as u128;
        r.push_str(digits(magnitude, 10).as_str());
        assert(r@ =~= seq!['-'] + digits_of((-n) as nat, 10));
        r
    } else {
        digits(n as u128, 10)
    }
}

/// `n` in `base`, with zeros in front up to `width` characters.
pub fn padded_digits(n: u128, base: u8, width: usize) -> (r: String)
    requires
        2 <= base <= 16,
    ensures
        r@ == zero_padded(digits_of(n as nat, base as nat), width as nat),
{
    let body = digits(n, base);
    let len: usize = chars_of(body.as_str()).len();
    let mut r = String::new();
    let mut i: usize = len;
    while i < width
        invariant
            len == body@.len(),
            len <= i,
            len <= width ==> i <= width,
            len > width ==> i == len,
            r@ == Seq::new((i - len) as nat, |k: int| '0'),
        decreases width - i,
    {
        r.push('0');
        i += 1;
        assert(r@ =~= Seq::new((i - len) as nat, |k: int| '0'));
    }
    r.push_str(body.as_str());
    assert(len > width ==> r@ =~= body@);
    assert(r@ =~= zero_padded(body@, width as nat));
    r
}

/// The value of a character as a digit in `base`.
pub open spec fn digit_value(c: char, base: int) -> Option<int> {
    let value = if '0' <= c <= '9' {
        c as int - '0' as int
    } else if 'a' <= c <= 'z' {
        c as int - 'a' as int + 10
    } else if 'A' <= c <= 'Z' {
        c as int - 'A' as int + 10
    } else {
        99
    };
    if value < base {
        Some(value)
    } else {
        None
    }
}

pub open spec fn all_digits(s: Seq<char>, base: int) -> bool {
    forall|i: int| 0 <= i < s.len() ==> digit_value(#[trigger] s[i], base) is Some
}

/// The number that a text of digits stands for.
pub open spec fn value_of(s: Seq<char>, base: int) -> int
    decreases s.len(),
{
    if s.len() == 0 {
        0
    } else {
        value_of(s.drop_last(), base) * base + digit_value(s.last(), base).unwrap_or(0)
    }
}

/// `s` without one leading plus sign.
pub open spec fn without_plus(s: Seq<char>) -> Seq<char> {
    if s.len() > 0 && s[0] == '+' {
        s.skip(1)
    } else {
        s
    }
}

/// What reading `s` as a number from 0 to `max` gives: an optional plus sign and at least one
/// digit, and nothing else.
pub open spec fn number_in(s: Seq<char>, base: int, max: int) -> Option<int> {
    let body = without_plus(s);
    if body.len() == 0 || !all_digits(body, base) || value_of(body, base) > max {
        None
    } else {
        Some(value_of(body, base))
    }
}

/// What reading `s` as a signed number from `min` to `max` gives.
pub open spec fn signed_number_in(s: Seq<char>, base: int, min: int, max: int) -> Option<int> {
    if s.len() > 0 && s[0] == '-' {
        let body = s.skip(1);
        if body.len() == 0 || !all_digits(body, base) || -value_of(body, base) < min {
            None
        } else {
            Some(-value_of(body, base))
        }
    } else {
        number_in(s, base, max)
    }
}

proof fn lemma_value_nonnegative(s: Seq<char>, base: int)
    requires
        base >= 1,
    ensures
        value_of(s, base) >= 0,
    decreases s.len(),
{
    if s.len() > 0 {
        lemma_value_nonnegative(s.drop_last(), base);
        assert(value_of(s.drop_last(), base) * base >= 0) by (nonlinear_arith)
            requires
                value_of(s.drop_last(), base) >= 0,
                base >= 1,
        ;
    }
}

/// Reading more digits never makes the value smaller.
proof fn lemma_value_grows(s: Seq<char>, base: int, i: int)
    requires
        base >= 1,
        0 <= i <= s.len(),
    ensures
        value_of(s.take(i), base) <= value_of(s, base),
    decreases s.len() - i,
{
    if i < s.len() {
        lemma_value_grows(s, base, i + 1);
        let longer = s.take(i + 1);
        assert(longer.drop_last() =~= s.take(i));
        lemma_value_nonnegative(s.take(i), base);
        let v = value_of(s.take(i), base);
        assert(v * base >= v) by (nonlinear_arith)
            requires
                v >= 0,
                base >= 1,
        ;
    } else {
        assert(s.take(i) =~= s);
    }
}

proof fn lemma_digits_read_back(n: nat, base: nat)
    requires
        2 <= base <= 16,
    ensures
        digits_of(n, base).len() > 0,
        digits_of(n, base)[0] != '+',
        digits_of(n, base)[0] != '-',
        all_digits(digits_of(n, base), base as int),
        value_of(digits_of(n, base), base as int) == n,
    decreases n,
{
    let s = digits_of(n, base);
    if n < base {
        assert(s.drop_last() =~= Seq::<char>::empty());
        assert(value_of(s.drop_last(), base as int) == 0);
        assert(digit_value(s.last(), base as int) == Some(n as int));
    } else {
        assert(n / base < n) by (nonlinear_arith)
            requires
                n >= base,
                base >= 2,
        ;
        assert(n % base < base) by (nonlinear_arith)
            requires
                base >= 2,
        ;
        lemma_digits_read_back(n / base, base);
        let rest = digits_of(n / base, base);
        assert(s.drop_last() =~= rest);
        assert(digit_value(s.last(), base as int) == Some((n % base) as int));
        assert((n / base) * base + n % base == n) by (nonlinear_arith)
            requires
                base >= 2,
        ;
        assert forall|i: int| 0 <= i < s.len() implies digit_value(
            #[trigger] s[i],
            base as int,
        ) is Some by {
            if i < rest.len() {
                assert(s[i] == rest[i]);
            }
        }
    }
}

/// A number that was written in some base reads back.
pub proof fn law_written_numbers_read_back(n: nat, base: nat, max: int)
    requires
        2 <= base <= 16,
        n <= max,
    ensures
        number_in(digits_of(n, base), base as int, max) == Some(n as int),
{
    lemma_digits_read_back(n, base);
}

/// A signed number that was written in decimal reads back.
pub proof fn law_written_signed_numbers_read_back(n: int, min: int, max: int)
    requires
        min <= n <= max,
    ensures
        signed_number_in(decimal_of(n), 10, min, max) == Some(n),
{
    if n < 0 {
        lemma_digits_read_back((-n) as nat, 10);
        assert(decimal_of(n).skip(1) =~= digits_of((-n) as nat, 10));
    } else {
        lemma_digits_read_back(n as nat, 10);
    }
}

fn value(c: char, base: u8) -> (r: Option<u8>)
    requires
        2 <= base <= 36,
    ensures
        match r {
            Some(v) => digit_value(c, base as int) == Some(v as int) && v < base,
            None => digit_value(c, base as int) is None,
        },
{
    let code: u32 = c as u32;
    let v: u32 = if '0' <= c && c <= '9' {
        code - '0' as u32
    } else if 'a' <= c && c <= 'z' {
        code - 'a' as u32 + 10
    } else if 'A' <= c && c <= 'Z' {
        code - 'A' as u32 + 10
    } else {
        99
    };
    if v < base as u32 {
        Some(v as u8)
    } else {
        None
    }
}

/// Reads `chars[from..]` as digits in `base`, up to `max`.
fn read_digits(chars: &Vec<char>, from: usize, base: u8, max: u64) -> (r: Option<u64>)
    requires
        2 <= base <= 36,
        from <= chars@.len(),
    ensures
        ({
            let body = chars@.skip(from as int);
            match r {
                Some(n) => body.len() > 0 && all_digits(body, base as int) && value_of(
                    body,
                    base as int,
                ) == n && n <= max,
                None => body.len() == 0 || !all_digits(body, base as int) || value_of(
                    body,
                    base as int,
                ) > max,
            }
        }),
{
    let ghost body = chars@.skip(from as int);
    if from >= chars.len() {
        return None;
    }
    let mut total: u64 = 0;
    let mut i: usize = from;
    assert(body.take(0) =~= Seq::<char>::empty());
    while i < chars.len()
        invariant
            2 <= base <= 36,
            from <= i <= chars@.len(),
            body == chars@.skip(from as int),
            total <= max,
            total == value_of(body.take(i - from), base as int),
            forall|k: int| 0 <= k < i - from ==> digit_value(#[trigger] body[k], base as int) is Some,
        decreases chars.len() - i,
    {
        let ghost longer = body.take(i - from + 1);
        assert(longer.drop_last() =~= body.take(i - from));
        assert(longer.last() == body[i - from] && body[i - from] == chars@[i as int]);
        match value(chars[i], base) {
            None => {
                assert(digit_value(body[i - from], base as int) is None);
                return None;
            },
            Some(d) => {
                assert(0 <= total * base <= u64::MAX * 36) by (nonlinear_arith)
                    requires
                        2 <= base <= 36,
                        0 <= total <= u64::MAX,
                ;
                let next: u128 = (total as u128) * (base as u128) + d as u128;
                proof {
                    lemma_value_grows(body, base as int, i - from + 1);
                }
                if next > max as u128 {
                    return None;
                }
                total = next as u64;
            },
        }
        i += 1;
    }
    assert(body.take(body.len() as int) =~= body);
    Some(total)
}

/// Reads a number from 0 to `max` in `base`, as `from_str_radix` does on unsigned integers.
pub fn read_number(s: &str, base: u8, max: u64) -> (r: Option<u64>)
    requires
        2 <= base <= 36,
    ensures
        match r {
            Some(n) => number_in(s@, base as int, max as int) == Some(n as int) && n <= max,
            None => number_in(s@, base as int, max as int) is None,
        },
{
    let chars = chars_of(s);
    let from: usize = if chars.len() > 0 && chars[0] == '+' {
        1
    } else {
        0
    };
    assert(without_plus(s@) =~= chars@.skip(from as int));
    read_digits(&chars, from, base, max)
}

/// Reads an `i64` in `base`, as `from_str_radix` does.
pub fn read_signed(s: &str, base: u8) -> (r: Option<i64>)
    requires
        2 <= base <= 36,
    ensures
        match r {
            Some(n) => signed_number_in(s@, base as int, i64::MIN as int, i64::MAX as int) == Some(
                n as int,
            ),
            None => signed_number_in(s@, base as int, i64::MIN as int, i64::MAX as int) is None,
        },
{
    let chars = chars_of(s);
    if chars.len() > 0 && chars[0] == '-' {
        assert(s@.skip(1) =~= chars@.skip(1));
        match read_digits(&chars, 1, base, 0x8000_0000_0000_0000) {
            Some(n) => Some((-(n as i128)) as i64),
            None => None,
        }
    } else {
        match read_number(s, base, 0x7fff_ffff_ffff_ffff) {
            Some(n) => Some(n as i64),
            None => None,
        }
    }
}

/// Whether the first thing wrong with digits, from `k` on, is that the number so far is above
/// `limit`, rather than a character that is no digit.
pub open spec fn grows_first(digits: Seq<char>, base: int, limit: int, k: int) -> bool
    decreases digits.len() - k,
{
    if k >= digits.len() || digit_value(digits[k], base) is None {
        false
    } else {
        value_of(digits.take(k + 1), base) > limit || grows_first(digits, base, limit, k + 1)
    }
}

/// Why a text is no number from 0 to `max`.
pub open spec fn number_flaw(s: Seq<char>, base: int, max: int) -> Seq<char> {
    if s.len() == 0 {
        "cannot parse integer from empty string"@
    } else if grows_first(without_plus(s), base, max, 0) {
        "number too large to fit in target type"@
    } else {
        "invalid digit found in string"@
    }
}

/// Why a text is no number from `min` to `max`.
pub open spec fn signed_number_flaw(s: Seq<char>, base: int, min: int, max: int) -> Seq<char> {
    if s.len() > 0 && s[0] == '-' {
        if grows_first(s.skip(1), base, -min, 0) {
            "number too small to fit in target type"@
        } else {
            "invalid digit found in string"@
        }
    } else {
        number_flaw(s, base, max)
    }
}

fn outgrows(chars: &Vec<char>, from: usize, base: u8, limit: u64) -> (r: bool)
    requires
        2 <= base <= 36,
        from <= chars@.len(),
    ensures
        r == grows_first(chars@.skip(from as int), base as int, limit as int, 0),
{
    let ghost digits = chars@.skip(from as int);
    let mut total: u128 = 0;
    let mut i: usize = from;
    assert(digits.take(0) =~= Seq::<char>::empty());
    while i < chars.len()
        invariant
            2 <= base <= 36,
            from <= i <= chars@.len(),
            digits == chars@.skip(from as int),
            total == value_of(digits.take(i - from), base as int),
            total <= limit,
            grows_first(digits, base as int, limit as int, 0) == grows_first(
                digits,
                base as int,
                limit as int,
                i - from,
            ),
        decreases chars.len() - i,
    {
        let ghost k = i - from;
        assert(digits[k] == chars@[i as int]);
        match value(chars[i], base) {
            None => {
                return false;
            },
            Some(digit) => {
                assert(digits.take(k + 1).drop_last() =~= digits.take(k));
                assert(total * base <= u64::MAX * 36) by (nonlinear_arith)
                    requires
                        total <= u64::MAX,
                        base <= 36,
                ;
                total = total * base as u128 + digit as u128;
                if total > limit as u128 {
                    return true;
                }
            },
        }
        i += 1;
    }
    false
}

/// Says why a text is no number, in the words of `ParseIntError`.
pub fn explain_number(s: &str, base: u8, max: u64) -> (r: &'static str)
    requires
        2 <= base <= 36,
    ensures
        r@ == number_flaw(s@, base as int, max as int),
{
    let chars = chars_of(s);
    if chars.len() == 0 {
        return "cannot parse integer from empty string";
    }
    let from: usize = if chars[0] == '+' {
        1
    } else {
        0
    };
    assert(without_plus(s@) =~= chars@.skip(from as int));
    if outgrows(&chars, from, base, max) {
        "number too large to fit in target type"
    } else {
        "invalid digit found in string"
    }
}

/// Says why a text is no `i64`, in the words of `ParseIntError`.
pub fn explain_signed(s: &str, base: u8) -> (r: &'static str)
    requires
        2 <= base <= 36,
    ensures
        r@ == signed_number_flaw(s@, base as int, i64::MIN as int, i64::MAX as int),
{
    let chars = chars_of(s);
    if chars.len() > 0 && chars[0] == '-' {
        assert(s@.skip(1) =~= chars@.skip(1));
        if outgrows(&chars, 1, base, 0x8000_0000_0000_0000) {
            "number too small to fit in target type"
        } else {
            "invalid digit found in string"
        }
    } else {
        explain_number(s, base, 0x7fff_ffff_ffff_ffff)
    }
}

} // verus!
