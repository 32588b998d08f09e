//! Decoding of runs of ASCII decimal digits, and trimming of leading spaces.

use vstd::prelude::*;

verus! {

/// Whether `c` is an ASCII decimal digit.
pub open spec fn is_decimal_digit(c: char) -> bool {
    '0' <= c <= '9'
}

/// The numeric value of a digit character (meaningful when `is_decimal_digit(c)`).
pub open spec fn digit_value(c: char) -> int {
    c as int - '0' as int
}

/// Whether every character of `s` is an ASCII decimal digit.
pub open spec fn all_decimal_digits(s: Seq<char>) -> bool {
    forall|i: int| 0 <= i < s.len() ==> is_decimal_digit(#[trigger] s[i])
}

/// The base-10 value of `s` read most-significant-first (its place-value sum).
pub open spec fn digits_value(s: Seq<char>) -> int
    decreases s.len(),
{
    if s.len() == 0 {
        0
    } else {
        digits_value(s.drop_last()) * 10 + digit_value(s.last())
    }
}

/// 10 to the power `n`.
pub open spec fn pow10(n: nat) -> int
    decreases n,
{
    if n == 0 {
        1
    } else {
        10 * pow10((n - 1) as nat)
    }
}

/// What `as_digits` returns: the place-value sum of a non-empty all-digit
/// slice, and nothing otherwise.
pub open spec fn spec_as_digits(s: Seq<char>) -> Option<u32> {
    if s.len() == 0 || !all_decimal_digits(s) {
        None
    } else {
        Some(digits_value(s) as u32)
    }
}

pub proof fn lemma_pow10_pos(n: nat)
    ensures
        pow10(n) >= 1,
    decreases n,
{
    if n > 0 {
        lemma_pow10_pos((n - 1) as nat);
    }
}

pub proof fn lemma_pow10_le(m: nat, n: nat)
    requires
        m <= n,
    ensures
        pow10(m) <= pow10(n),
    decreases n,
{
    if m < n {
        lemma_pow10_le(m, (n - 1) as nat);
        lemma_pow10_pos((n - 1) as nat);
    }
}

/// Two digit runs joined are one digit run.
pub proof fn lemma_all_digits_concat(a: Seq<char>, b: Seq<char>)
    requires
        all_decimal_digits(a),
        all_decimal_digits(b),
    ensures
        all_decimal_digits(a + b),
{
    assert forall|i: int| 0 <= i < (a + b).len() implies is_decimal_digit(#[trigger] (a + b)[i]) by {
        if i < a.len() {
            assert((a + b)[i] == a[i]);
        } else {
            assert((a + b)[i] == b[i - a.len()]);
        }
    }
}

/// Trimming never lengthens a sequence.
pub proof fn lemma_trim_len(s: Seq<char>)
    ensures
        spec_trim(s).len() <= s.len(),
    decreases s.len(),
{
    if s.len() > 0 && s[0] == ' ' {
        lemma_trim_len(s.drop_first());
    }
}

/// A run of `n` digits is below `pow10(n)` (and never negative).
pub proof fn lemma_digits_value_bound(s: Seq<char>)
    requires
        all_decimal_digits(s),
    ensures
        0 <= digits_value(s) < pow10(s.len()),
    decreases s.len(),
{
    if s.len() > 0 {
        assert(all_decimal_digits(s.drop_last()));
        lemma_digits_value_bound(s.drop_last());
        assert(0 <= digit_value(s.last()) <= 9);
    }
}

/// The value of a prefix of a digit run never exceeds the value of the run.
pub proof fn lemma_digits_value_prefix_le(s: Seq<char>, j: int)
    requires
        all_decimal_digits(s),
        0 <= j <= s.len(),
    ensures
        digits_value(s.subrange(0, j)) <= digits_value(s),
    decreases s.len() - j,
{
    if j < s.len() {
        lemma_digits_value_prefix_le(s, j + 1);
        let p = s.subrange(0, j + 1);
        assert(p.drop_last() =~= s.subrange(0, j));
        lemma_digits_value_bound(s.subrange(0, j));
    } else {
        assert(s.subrange(0, j) =~= s);
    }
}

/// The index of the first occurrence of `c` in `s`, or `s.len()` when `s`
/// holds no `c`.
pub open spec fn first_index_of(s: Seq<char>, c: char) -> int
    decreases s.len(),
{
    if s.len() == 0 {
        0
    } else if s[0] == c {
        0
    } else {
        1 + first_index_of(s.drop_first(), c)
    }
}

/// A position with no `c` before it that is the end or holds `c` is the
/// first occurrence.
pub proof fn lemma_first_index_of(s: Seq<char>, c: char, j: int)
    requires
        0 <= j <= s.len(),
        forall|k: int| 0 <= k < j ==> s[k] != c,
        j < s.len() ==> s[j] == c,
    ensures
        first_index_of(s, c) == j,
    decreases j,
{
    if j == 0 {
        if s.len() > 0 && s[0] != c {
            assert(false);
        }
    } else {
        assert(s[0] != c);
        let t = s.drop_first();
        assert(forall|k: int| 0 <= k < j - 1 ==> #[trigger] t[k] == s[k + 1]);
        lemma_first_index_of(t, c, j - 1);
    }
}

/// The floor of the base-10 logarithm (0 for values below 10).
pub open spec fn spec_ilog10(v: int) -> int
    decreases v,
{
    if v < 10 {
        0
    } else {
        1 + spec_ilog10(v / 10)
    }
}

/// The floor of the base-10 logarithm of a positive value.
pub(crate) fn ilog10_u32(v: u32) -> (r: u32)
    requires
        v >= 1,
    ensures
        r == spec_ilog10(v as int),
        r <= 9,
{
    let mut m: u32 = v;
    let mut k: u32 = 0;
    while m >= 10
        invariant
            1 <= m,
            spec_ilog10(v as int) == k + spec_ilog10(m as int),
            pow10(k as nat) * m <= v,
            k <= 9,
        decreases m,
    {
        proof {
            lemma_pow10_pos(k as nat);
            assert(pow10((k + 1) as nat) == 10 * pow10(k as nat));
            assert(pow10((k + 1) as nat) * (m as int / 10) <= pow10(k as nat) * m) by (nonlinear_arith)
                requires
                    pow10((k + 1) as nat) == 10 * pow10(k as nat),
                    pow10(k as nat) >= 1,
                    m >= 10,
            ;
            if k == 9 {
                assert(pow10(10) == 10000000000) by {
                    reveal_with_fuel(pow10, 11);
                }
                assert(pow10(10 as nat) * (m as int / 10) >= 10000000000) by (nonlinear_arith)
                    requires
                        pow10(10 as nat) == 10000000000,
                        m as int / 10 >= 1,
                ;
                assert(false);
            }
        }
        m = m / 10;
        k = k + 1;
    }
    k
}

/// The numeric value of a single decimal digit character.
pub(crate) fn char_digit(c: char) -> (d: u32)
    requires
        is_decimal_digit(c),
    ensures
        d == digit_value(c),
        d <= 9,
{
    match c {
        '0' => 0,
        '1' => 1,
        '2' => 2,
        '3' => 3,
        '4' => 4,
        '5' => 5,
        '6' => 6,
        '7' => 7,
        '8' => 8,
        _ => 9,
    }
}

/// Decodes a run of ASCII decimal digit characters into the unsigned integer
/// given by their place-value sum, most significant digit first. Yields
/// nothing for an empty slice or one holding any non-digit character; spaces
/// are never skipped here.
pub fn as_digits(chars: &[char]) -> (r: Option<u32>)
    requires
        all_decimal_digits(chars@) ==> digits_value(chars@) <= u32::MAX,
    ensures
        r == spec_as_digits(chars@),
{
    if chars.len() == 0 {
        return None;
    }
    let n = chars.len();
    let mut i: usize = 0;
    while i < n
        invariant
            n == chars@.len(),
            0 <= i <= n,
            forall|k: int| 0 <= k < i ==> is_decimal_digit(#[trigger] chars@[k]),
        decreases n - i,
    {
        let c = *vstd::slice::slice_index_get(chars, i);
        if c < '0' || c > '9' {
            return None;
        }
        i = i + 1;
    }
    assert(all_decimal_digits(chars@));
    let mut val: u32 = 0;
    let mut i: usize = 0;
    while i < n
        invariant
            n == chars@.len(),
            0 <= i <= n,
            all_decimal_digits(chars@),
            digits_value(chars@) <= u32::MAX,
            val == digits_value(chars@.subrange(0, i as int)),
        decreases n - i,
    {
        let c = *vstd::slice::slice_index_get(chars, i);
        let d: u32 = char_digit(c);
        proof {
            lemma_digits_value_prefix_le(chars@, i + 1);
            assert(chars@.subrange(0, i + 1).drop_last() =~= chars@.subrange(0, i as int));
            assert(digits_value(chars@.subrange(0, i + 1)) == val * 10 + d);
        }
        val = val * 10 + d;
        i = i + 1;
    }
    assert(chars@.subrange(0, n as int) =~= chars@);
    Some(val)
}

/// Decodes a short digit field; a run of at most 9 digits always fits a
/// `u32`.
pub(crate) fn field_digits(chars: &[char]) -> (r: Option<u32>)
    requires
        chars@.len() <= 9,
    ensures
        r == spec_as_digits(chars@),
{
    proof {
        if all_decimal_digits(chars@) {
            lemma_digits_value_bound(chars@);
            lemma_pow10_le(chars@.len(), 9);
            assert(pow10(9) == 1000000000) by {
                reveal_with_fuel(pow10, 10);
            }
        }
    }
    as_digits(chars)
}

/// The suffix of `s` from its first non-space character on; empty when `s`
/// is all spaces.
pub open spec fn spec_trim(s: Seq<char>) -> Seq<char>
    decreases s.len(),
{
    if s.len() > 0 && s[0] == ' ' {
        spec_trim(s.drop_first())
    } else {
        s
    }
}

/// Strips leading space characters, returning the suffix that starts at the
/// first non-space character (empty when there is none).
pub fn trim_leading_space(line: &[char]) -> (r: &[char])
    ensures
        r@ == spec_trim(line@),
{
    let n = line.len();
    let mut i: usize = 0;
    proof {
        assert(line@.subrange(0, n as int) =~= line@);
    }
    while i < n && *vstd::slice::slice_index_get(line, i) == ' '
        invariant
            n == line@.len(),
            0 <= i <= n,
            spec_trim(line@) == spec_trim(line@.subrange(i as int, n as int)),
        decreases n - i,
    {
        proof {
            let t = line@.subrange(i as int, n as int);
            assert(t[0] == ' ');
            assert(t.drop_first() =~= line@.subrange(i + 1, n as int));
        }
        i = i + 1;
    }
    proof {
        let t = line@.subrange(i as int, n as int);
        if i < n {
            assert(t[0] == line@[i as int]);
        }
        assert(spec_trim(t) == t);
    }
    vstd::slice::slice_subrange(line, i, n)
}

} // verus!
