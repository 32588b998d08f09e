//! Exact representations of the numeric TLE field encodings, and their
//! decoders: plain signed decimals ("123.45", "-.00002182") and the TLE
//! "assumed decimal point plus signed exponent" form ("12345-3").

use vstd::prelude::*;

use crate::digits::all_decimal_digits;
use crate::digits::as_digits;
use crate::digits::digits_value;
use crate::digits::first_index_of;
use crate::digits::lemma_digits_value_bound;
use crate::digits::lemma_digits_value_prefix_le;
use crate::digits::lemma_first_index_of;
use crate::digits::pow10;
use crate::digits::spec_trim;
use crate::digits::trim_leading_space;

verus! {

/// A signed decimal number held exactly: the value it denotes is
/// `digits / 10^scale`, negated when `negative` is set.
///
/// `digits` is the number formed by all digit characters of the field read in
/// order, with the decimal point ignored; `scale` is how many of those digits
/// stood after the point.
#[derive(Debug, Copy, Clone, Hash, PartialEq, Eq, PartialOrd, Ord)]
pub struct Decimal {
    pub negative: bool,
    pub digits: u64,
    pub scale: u32,
}

/// A value in the TLE power encoding, held exactly as the computation the
/// record prescribes: `base` raised to the power `exponent`, negated when
/// `negative` is set.
#[derive(Debug, Copy, Clone, Hash, PartialEq, Eq, PartialOrd, Ord)]
pub struct PowerValue {
    pub negative: bool,
    pub base: u32,
    pub exponent: i32,
}

/// Whether `i` splits `s` into a well-formed decimal body: everything before
/// `i` and after the point at `i` is a digit (with `i == s.len()` when there
/// is no point), and there is at least one digit.
pub open spec fn decimal_split_ok(s: Seq<char>, i: int) -> bool {
    &&& 0 <= i <= s.len()
    &&& (i < s.len() ==> s[i] == '.')
    &&& all_decimal_digits(s.subrange(0, i))
    &&& (i < s.len() ==> all_decimal_digits(s.subrange(i + 1, s.len() as int)))
    &&& (if i == s.len() {
        s.len() >= 1
    } else {
        s.len() >= 2
    })
}

/// The digit characters of a decimal body split at `i`, point removed.
pub open spec fn decimal_digit_chars(s: Seq<char>, i: int) -> Seq<char> {
    if i == s.len() {
        s
    } else {
        s.subrange(0, i) + s.subrange(i + 1, s.len() as int)
    }
}

/// How many digits of a decimal body split at `i` stand after the point.
pub open spec fn decimal_scale(s: Seq<char>, i: int) -> int {
    if i == s.len() {
        0
    } else {
        s.len() - i - 1
    }
}

/// The unsigned part of a decimal field: all characters after a leading
/// `-` or `+` sign, if one is present.
pub open spec fn spec_decimal_body(s: Seq<char>) -> Seq<char> {
    if s.len() > 0 && (s[0] == '-' || s[0] == '+') {
        s.drop_first()
    } else {
        s
    }
}

/// Whether a decimal field carries a leading minus sign.
pub open spec fn spec_decimal_negative(s: Seq<char>) -> bool {
    s.len() > 0 && s[0] == '-'
}

/// What `parse_decimal` returns: an optional sign, then digits with at most
/// one decimal point among them and at least one digit; nothing otherwise.
pub open spec fn spec_parse_decimal(s: Seq<char>) -> Option<Decimal> {
    let b = spec_decimal_body(s);
    let i = first_index_of(b, '.');
    if decimal_split_ok(b, i) {
        Some(
            Decimal {
                negative: spec_decimal_negative(s),
                digits: digits_value(decimal_digit_chars(b, i)) as u64,
                scale: decimal_scale(b, i) as u32,
            },
        )
    } else {
        None
    }
}

/// Whether `i` splits `s` into a well-formed power field: a non-empty digit
/// run, the `-` at `i`, and a non-empty digit run.
pub open spec fn power_split_ok(s: Seq<char>, i: int) -> bool {
    &&& 1 <= i
    &&& i + 1 < s.len()
    &&& s[i] == '-'
    &&& all_decimal_digits(s.subrange(0, i))
    &&& all_decimal_digits(s.subrange(i + 1, s.len() as int))
}

/// What `parse_power` returns: after trimming leading spaces, a mantissa
/// digit run, a `-`, and an exponent digit run give base `mantissa` and
/// exponent `-exponent`; anything else gives nothing.
pub open spec fn spec_parse_power(s: Seq<char>) -> Option<PowerValue> {
    let t = spec_trim(s);
    let i = first_index_of(t, '-');
    if power_split_ok(t, i) {
        Some(
            PowerValue {
                negative: false,
                base: digits_value(t.subrange(0, i)) as u32,
                exponent: (0 - digits_value(t.subrange(i + 1, t.len() as int))) as i32,
            },
        )
    } else {
        None
    }
}

/// Whether every character of `chars` is an ASCII decimal digit.
fn check_all_digits(chars: &[char]) -> (r: bool)
    ensures
        r == all_decimal_digits(chars@),
{
    let n = chars.len();
    let mut i: usize = 0;
    while i < n
        invariant
            n == chars@.len(),
            0 <= i <= n,
            forall|k: int| 0 <= k < i ==> crate::digits::is_decimal_digit(#[trigger] chars@[k]),
        decreases n - i,
    {
        let c = *vstd::slice::slice_index_get(chars, i);
        if c < '0' || c > '9' {
            return false;
        }
        i = i + 1;
    }
    true
}

/// Appends the digits of `chars` to an accumulator that already holds the
/// value of the digit run `pre`.
fn accumulate_digits(chars: &[char], acc: u64, Ghost(pre): Ghost<Seq<char>>) -> (r: u64)
    requires
        all_decimal_digits(pre),
        all_decimal_digits(chars@),
        acc == digits_value(pre),
        digits_value(pre + chars@) <= u64::MAX,
    ensures
        r == digits_value(pre + chars@),
{
    let n = chars.len();
    let mut val: u64 = acc;
    let mut i: usize = 0;
    proof {
        assert(pre + chars@.subrange(0, 0) =~= pre);
    }
    while i < n
        invariant
            n == chars@.len(),
            0 <= i <= n,
            all_decimal_digits(pre),
            all_decimal_digits(chars@),
            digits_value(pre + chars@) <= u64::MAX,
            val == digits_value(pre + chars@.subrange(0, i as int)),
        decreases n - i,
    {
        let c = *vstd::slice::slice_index_get(chars, i);
        let d: u64 = crate::digits::char_digit(c) as u64;
        proof {
            let whole = pre + chars@;
            assert(all_decimal_digits(whole));
            lemma_digits_value_prefix_le(whole, pre.len() + i + 1);
            assert(pre + chars@.subrange(0, i + 1) =~= whole.subrange(0, pre.len() + i + 1));
            assert((pre + chars@.subrange(0, i + 1)).drop_last() =~= pre + chars@.subrange(
                0,
                i as int,
            ));
            assert((pre + chars@.subrange(0, i + 1)).last() == chars@[i as int]);
            assert(digits_value(pre + chars@.subrange(0, i + 1)) == val * 10 + d);
        }
        val = val * 10 + d;
        i = i + 1;
    }
    proof {
        assert(pre + chars@.subrange(0, n as int) =~= pre + chars@);
    }
    val
}

/// Decodes a signed decimal field: an optional leading `-` or `+`, then
/// decimal digits with at most one `.` among them, at least one digit in all.
/// The result holds the digit string's value and how many digits followed the
/// point; no floating-point arithmetic is performed. TLE decimal fields are
/// at most 12 columns wide; up to 17 digits always fit a `u64`.
pub fn parse_decimal(chars: &[char]) -> (r: Option<Decimal>)
    requires
        chars@.len() <= 17,
    ensures
        r == spec_parse_decimal(chars@),
{
    let n = chars.len();
    let mut start: usize = 0;
    let mut negative = false;
    if n > 0 {
        let c0 = *vstd::slice::slice_index_get(chars, 0);
        if c0 == '-' {
            negative = true;
            start = 1;
        } else if c0 == '+' {
            start = 1;
        }
    }
    let body = vstd::slice::slice_subrange(chars, start, n);
    proof {
        assert(body@ =~= spec_decimal_body(chars@));
        assert(negative == spec_decimal_negative(chars@));
    }
    let m = body.len();

    // Find the first decimal point.
    let mut dot: usize = m;
    let mut j: usize = 0;
    while j < m
        invariant
            m == body@.len(),
            0 <= j <= m,
            dot <= m,
            dot == m ==> forall|k: int| 0 <= k < j ==> body@[k] != '.',
            dot < m ==> dot < j && body@[dot as int] == '.' && forall|k: int|
                0 <= k < dot ==> body@[k] != '.',
        decreases m - j,
    {
        let c = *vstd::slice::slice_index_get(body, j);
        if dot == m && c == '.' {
            dot = j;
        }
        j = j + 1;
    }
    proof {
        if dot == m {
            lemma_first_index_of(body@, '.', m as int);
        } else {
            lemma_first_index_of(body@, '.', dot as int);
        }
        assert(first_index_of(body@, '.') == dot);
    }

    let before = vstd::slice::slice_subrange(body, 0, dot);
    if !check_all_digits(before) {
        proof {
            assert(!decimal_split_ok(body@, dot as int));
        }
        return None;
    }
    let digit_count = if dot < m {
        let after = vstd::slice::slice_subrange(body, dot + 1, m);
        if !check_all_digits(after) {
            proof {
                assert(!decimal_split_ok(body@, dot as int));
            }
            return None;
        }
        m - 1
    } else {
        m
    };
    if digit_count == 0 {
        proof {
            assert(!decimal_split_ok(body@, dot as int));
        }
        return None;
    }
    proof {
        assert(decimal_split_ok(body@, dot as int));
    }

    // Accumulate the digit value across the point.
    let ghost digit_chars = decimal_digit_chars(body@, dot as int);
    proof {
        if dot < m {
            crate::digits::lemma_all_digits_concat(
                body@.subrange(0, dot as int),
                body@.subrange(dot + 1, m as int),
            );
        } else {
            assert(digit_chars =~= before@);
        }
        assert(all_decimal_digits(digit_chars));
        assert(digit_chars.len() <= 17);
        lemma_digits_value_bound(digit_chars);
        crate::digits::lemma_pow10_le(digit_chars.len(), 17);
        assert(pow10(17) == 100000000000000000) by {
            reveal_with_fuel(pow10, 18);
        }
        assert(digits_value(digit_chars) <= u64::MAX);
        assert(digit_chars.subrange(0, dot as int) =~= before@);
        lemma_digits_value_prefix_le(digit_chars, dot as int);
        assert(Seq::<char>::empty() + before@ =~= before@);
    }
    let acc = accumulate_digits(before, 0, Ghost(Seq::empty()));
    let value: u64;
    let scale: u32;
    if dot < m {
        let after = vstd::slice::slice_subrange(body, dot + 1, m);
        proof {
            assert(before@ + after@ =~= digit_chars);
        }
        value = accumulate_digits(after, acc, Ghost(before@));
        scale = (m - dot - 1) as u32;
    } else {
        value = acc;
        scale = 0;
    }
    Some(Decimal { negative, digits: value, scale })
}

/// Decodes a field in the TLE power encoding: leading spaces are trimmed,
/// then a non-empty mantissa digit run, a single `-`, and a non-empty
/// exponent digit run must follow. The result names the computation the
/// encoding prescribes: `mantissa` raised to the negated exponent value.
/// TLE power fields are at most 8 columns wide; either run of up to 10
/// columns always fits a `u32`.
pub fn parse_power(chars: &[char]) -> (r: Option<PowerValue>)
    requires
        chars@.len() <= 10,
    ensures
        r == spec_parse_power(chars@),
{
    let t = trim_leading_space(chars);
    let m = t.len();
    proof {
        crate::digits::lemma_trim_len(chars@);
    }

    // Find the first minus sign.
    let mut dash: usize = m;
    let mut j: usize = 0;
    while j < m
        invariant
            m == t@.len(),
            0 <= j <= m,
            dash <= m,
            dash == m ==> forall|k: int| 0 <= k < j ==> t@[k] != '-',
            dash < m ==> dash < j && t@[dash as int] == '-' && forall|k: int|
                0 <= k < dash ==> t@[k] != '-',
        decreases m - j,
    {
        let c = *vstd::slice::slice_index_get(t, j);
        if dash == m && c == '-' {
            dash = j;
        }
        j = j + 1;
    }
    proof {
        if dash == m {
            lemma_first_index_of(t@, '-', m as int);
        } else {
            lemma_first_index_of(t@, '-', dash as int);
        }
        assert(first_index_of(t@, '-') == dash);
    }

    if dash == 0 || dash >= m || dash + 1 >= m {
        return None;
    }
    let before = vstd::slice::slice_subrange(t, 0, dash);
    let after = vstd::slice::slice_subrange(t, dash + 1, m);
    if !check_all_digits(before) {
        return None;
    }
    if !check_all_digits(after) {
        return None;
    }
    proof {
        assert(power_split_ok(t@, dash as int));
        lemma_digits_value_bound(before@);
        lemma_digits_value_bound(after@);
        crate::digits::lemma_pow10_le(before@.len(), 9);
        crate::digits::lemma_pow10_le(after@.len(), 9);
        assert(pow10(9) == 1000000000) by {
            reveal_with_fuel(pow10, 10);
        }
    }
    let base = match as_digits(before) {
        Some(b) => b,
        None => {
            proof {
                assert(false);
            }
            return None;
        },
    };
    let exp = match as_digits(after) {
        Some(e) => e,
        None => {
            proof {
                assert(false);
            }
            return None;
        },
    };
    Some(PowerValue { negative: false, base, exponent: 0 - (exp as i32) })
}

} // verus!
