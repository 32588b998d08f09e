//! Laws of the record parser: where in the left-to-right walk each
//! structural error is owed, for every input that reaches that point.

use vstd::prelude::*;

use crate::digits::spec_as_digits;
use crate::tle::Error;
use crate::tle::LINE_LEN;
use crate::tle::Line;
use crate::tle::all_ascii;
use crate::tle::ascii_chars;
use crate::tle::spec_parse;
use crate::tle::spec_parse_line1;
use crate::tle::spec_validate_line;

verus! {

/// The columns of line 1 that must hold a space character.
pub open spec fn is_separator_line1(p: int) -> bool {
    p == 1 || p == 8 || p == 17 || p == 32 || p == 43 || p == 52 || p == 61 || p == 63
}

/// The columns of line 2 that must hold a space character.
pub open spec fn is_separator_line2(p: int) -> bool {
    p == 1 || p == 7 || p == 16 || p == 25 || p == 33 || p == 42 || p == 51
}

/// A first line that is not exactly 69 bytes long yields the size error
/// naming line 1 and the actual length, whatever else either line holds.
pub proof fn lemma_size_error_line1(l1: Seq<u8>, l2: Seq<u8>)
    requires
        l1.len() != LINE_LEN,
        l1.len() <= usize::MAX,
    ensures
        spec_parse(l1, l2) == Err::<crate::tle::Tle, Error>(
            Error::InvalidLineSize(Line::Line1, l1.len() as usize),
        ),
{
}

/// Once line 1 has parsed, a second line that is not exactly 69 bytes long
/// yields the size error naming line 2 and the actual length, whatever else
/// it holds.
pub proof fn lemma_size_error_line2(l1: Seq<u8>, l2: Seq<u8>)
    requires
        spec_validate_line(l1, Line::Line1) is Ok,
        spec_parse_line1(ascii_chars(l1)) is Ok,
        l2.len() != LINE_LEN,
        l2.len() <= usize::MAX,
    ensures
        spec_parse(l1, l2) == Err::<crate::tle::Tle, Error>(
            Error::InvalidLineSize(Line::Line2, l2.len() as usize),
        ),
{
}

/// A non-ASCII byte anywhere in a 69-byte first line yields the non-ASCII
/// error naming line 1, before any field of it is decoded.
pub proof fn lemma_non_ascii_line1(l1: Seq<u8>, l2: Seq<u8>)
    requires
        l1.len() == LINE_LEN,
        !all_ascii(l1),
    ensures
        spec_parse(l1, l2) == Err::<crate::tle::Tle, Error>(
            Error::ContainsNonAsciiCharacter(Line::Line1),
        ),
{
}

/// Once line 1 has parsed, a non-ASCII byte anywhere in a 69-byte second
/// line yields the non-ASCII error naming line 2, before any field of it is
/// decoded.
pub proof fn lemma_non_ascii_line2(l1: Seq<u8>, l2: Seq<u8>)
    requires
        spec_validate_line(l1, Line::Line1) is Ok,
        spec_parse_line1(ascii_chars(l1)) is Ok,
        l2.len() == LINE_LEN,
        !all_ascii(l2),
    ensures
        spec_parse(l1, l2) == Err::<crate::tle::Tle, Error>(
            Error::ContainsNonAsciiCharacter(Line::Line2),
        ),
{
}

/// Once line 1 has parsed and line 2 opens correctly, catalog-number fields
/// that decode to different values yield the mismatch error carrying both
/// values, no matter what the rest of line 2 holds.
pub proof fn lemma_catalog_mismatch(l1: Seq<u8>, l2: Seq<u8>)
    requires
        spec_validate_line(l1, Line::Line1) is Ok,
        spec_parse_line1(ascii_chars(l1)) is Ok,
        l2.len() == LINE_LEN,
        all_ascii(l2),
        ascii_chars(l2)[0] == '2',
        ascii_chars(l2)[1] == ' ',
        spec_as_digits(ascii_chars(l2).subrange(2, 7)) is Some,
        spec_as_digits(ascii_chars(l2).subrange(2, 7))->Some_0 != spec_parse_line1(
            ascii_chars(l1),
        )->Ok_0.catalog,
    ensures
        spec_parse(l1, l2) == Err::<crate::tle::Tle, Error>(
            Error::SatelliteCatalogNumberMismatch(
                spec_parse_line1(ascii_chars(l1))->Ok_0.catalog,
                spec_as_digits(ascii_chars(l2).subrange(2, 7))->Some_0,
            ),
        ),
{
}

/// Substituting any non-space ASCII character at a separator column of line
/// 1 of a pair that parses turns the result into exactly the positional
/// space error naming that column and character.
pub proof fn lemma_separator_line1(l1: Seq<u8>, l2: Seq<u8>, p: int, b: u8)
    requires
        spec_parse(l1, l2) is Ok,
        is_separator_line1(p),
        b < 128,
        b != 32,
    ensures
        spec_parse(l1.update(p, b), l2) == Err::<crate::tle::Tle, Error>(
            Error::Space(Line::Line1, b as char, p as usize),
        ),
{
    let c = ascii_chars(l1);
    let lu = l1.update(p, b);
    let cu = ascii_chars(lu);
    assert(all_ascii(lu)) by {
        assert(forall|k: int| 0 <= k < lu.len() ==> #[trigger] lu[k] < 128);
    }
    assert(cu =~= c.update(p, (b as char)));
    assert(cu[p] == (b as char));
    assert((b as char) != ' ');
    if p == 8 {
        assert(cu.subrange(2, 7) =~= c.subrange(2, 7));
    } else if p == 17 {
        assert(cu.subrange(2, 7) =~= c.subrange(2, 7));
        assert(cu.subrange(9, 11) =~= c.subrange(9, 11));
        assert(cu.subrange(11, 14) =~= c.subrange(11, 14));
    } else if p == 32 {
        assert(cu.subrange(2, 7) =~= c.subrange(2, 7));
        assert(cu.subrange(9, 11) =~= c.subrange(9, 11));
        assert(cu.subrange(11, 14) =~= c.subrange(11, 14));
        assert(cu.subrange(18, 20) =~= c.subrange(18, 20));
        assert(cu.subrange(20, 32) =~= c.subrange(20, 32));
    } else if p == 43 {
        assert(cu.subrange(2, 7) =~= c.subrange(2, 7));
        assert(cu.subrange(9, 11) =~= c.subrange(9, 11));
        assert(cu.subrange(11, 14) =~= c.subrange(11, 14));
        assert(cu.subrange(18, 20) =~= c.subrange(18, 20));
        assert(cu.subrange(20, 32) =~= c.subrange(20, 32));
        assert(cu.subrange(33, 43) =~= c.subrange(33, 43));
    } else if p == 52 {
        assert(cu.subrange(2, 7) =~= c.subrange(2, 7));
        assert(cu.subrange(9, 11) =~= c.subrange(9, 11));
        assert(cu.subrange(11, 14) =~= c.subrange(11, 14));
        assert(cu.subrange(18, 20) =~= c.subrange(18, 20));
        assert(cu.subrange(20, 32) =~= c.subrange(20, 32));
        assert(cu.subrange(33, 43) =~= c.subrange(33, 43));
        assert(cu.subrange(44, 52) =~= c.subrange(44, 52));
    } else if p == 61 || p == 63 {
        assert(cu.subrange(2, 7) =~= c.subrange(2, 7));
        assert(cu.subrange(9, 11) =~= c.subrange(9, 11));
        assert(cu.subrange(11, 14) =~= c.subrange(11, 14));
        assert(cu.subrange(18, 20) =~= c.subrange(18, 20));
        assert(cu.subrange(20, 32) =~= c.subrange(20, 32));
        assert(cu.subrange(33, 43) =~= c.subrange(33, 43));
        assert(cu.subrange(44, 52) =~= c.subrange(44, 52));
        assert(cu.subrange(53, 61) =~= c.subrange(53, 61));
    }
    assert(spec_parse_line1(cu) == Err::<crate::tle::Line1Fields, Error>(
        Error::Space(Line::Line1, b as char, p as usize),
    ));
}

/// Substituting any non-space ASCII character at a separator column of line
/// 2 of a pair that parses turns the result into exactly the positional
/// space error naming that column and character.
pub proof fn lemma_separator_line2(l1: Seq<u8>, l2: Seq<u8>, p: int, b: u8)
    requires
        spec_parse(l1, l2) is Ok,
        is_separator_line2(p),
        b < 128,
        b != 32,
    ensures
        spec_parse(l1, l2.update(p, b)) == Err::<crate::tle::Tle, Error>(
            Error::Space(Line::Line2, b as char, p as usize),
        ),
{
    let c = ascii_chars(l2);
    let lu = l2.update(p, b);
    let cu = ascii_chars(lu);
    assert(all_ascii(lu)) by {
        assert(forall|k: int| 0 <= k < lu.len() ==> #[trigger] lu[k] < 128);
    }
    assert(cu =~= c.update(p, (b as char)));
    assert(cu[p] == (b as char));
    assert((b as char) != ' ');
    if p == 7 {
        assert(cu.subrange(2, 7) =~= c.subrange(2, 7));
    } else if p == 16 {
        assert(cu.subrange(2, 7) =~= c.subrange(2, 7));
        assert(cu.subrange(8, 16) =~= c.subrange(8, 16));
    } else if p == 25 {
        assert(cu.subrange(2, 7) =~= c.subrange(2, 7));
        assert(cu.subrange(8, 16) =~= c.subrange(8, 16));
        assert(cu.subrange(17, 25) =~= c.subrange(17, 25));
    } else if p == 33 {
        assert(cu.subrange(2, 7) =~= c.subrange(2, 7));
        assert(cu.subrange(8, 16) =~= c.subrange(8, 16));
        assert(cu.subrange(17, 25) =~= c.subrange(17, 25));
        assert(cu.subrange(26, 33) =~= c.subrange(26, 33));
    } else if p == 42 {
        assert(cu.subrange(2, 7) =~= c.subrange(2, 7));
        assert(cu.subrange(8, 16) =~= c.subrange(8, 16));
        assert(cu.subrange(17, 25) =~= c.subrange(17, 25));
        assert(cu.subrange(26, 33) =~= c.subrange(26, 33));
        assert(cu.subrange(34, 42) =~= c.subrange(34, 42));
    } else if p == 51 {
        assert(cu.subrange(2, 7) =~= c.subrange(2, 7));
        assert(cu.subrange(8, 16) =~= c.subrange(8, 16));
        assert(cu.subrange(17, 25) =~= c.subrange(17, 25));
        assert(cu.subrange(26, 33) =~= c.subrange(26, 33));
        assert(cu.subrange(34, 42) =~= c.subrange(34, 42));
        assert(cu.subrange(43, 51) =~= c.subrange(43, 51));
    }
    let f1 = spec_parse_line1(ascii_chars(l1))->Ok_0;
    assert(crate::tle::spec_parse_line2(cu, f1.catalog) == Err::<
        crate::tle::Line2Fields,
        Error,
    >(Error::Space(Line::Line2, b as char, p as usize)));
}

} // verus!
