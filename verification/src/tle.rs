//! The TLE record, its error taxonomy, and the record parser: a fixed
//! left-to-right walk over the columns of the two 69-character lines.

use vstd::prelude::*;

use crate::digits::lemma_trim_len;
use crate::digits::spec_as_digits;
use crate::digits::spec_ilog10;
use crate::digits::spec_trim;
use crate::digits::trim_leading_space;
use crate::fields::Decimal;
use crate::fields::PowerValue;
use crate::fields::parse_decimal;
use crate::fields::parse_power;
use crate::fields::spec_parse_decimal;
use crate::fields::spec_parse_power;

verus! {

/// Each line of a TLE is required to be exactly this many ASCII bytes.
pub const LINE_LEN: usize = 69;

/// Some errors are ambiguous as to the line in which they occur.
///
/// Where that is the case, this enum is used to disambiguate.
#[derive(Debug, Copy, Clone, Hash, PartialEq, Eq, PartialOrd, Ord)]
pub enum Line {
    Line1,
    Line2,
}

/// A description of where in the TLE the parsing and validation failed.
#[non_exhaustive]
#[derive(Debug, Copy, Clone, Hash, PartialEq, Eq, PartialOrd, Ord)]
pub enum Error {
    /// In a TLE each line is required to be 69 characters in length.
    ///
    /// For each line, this is the first validation conducted.
    InvalidLineSize(Line, usize),
    /// Certain columns of the TLE are required to hold an ASCII space. In
    /// those cases, if another character is encountered this error carries
    /// the character found and the position at which it was found.
    Space(Line, char, usize),
    /// Failed to parse the satellite catalog number in the given line.
    SatlliteCatalogNumber(Line),
    /// The classification must be one of three characters:
    ///
    /// 1. 'U': Unclassified
    /// 1. 'C': Classified
    /// 1. 'S': Secret
    ///
    /// If the classification field matches none of these, this error carries
    /// the character found.
    Classification(char),
    /// Failure to parse the international designator's two digit launch year.
    InternationalDesignatorLaunchYear,
    /// Failure to parse the international designator's three digit launch
    /// number.
    InternationalDesignatorLaunchNumber,
    /// Failure to parse the two digit epoch year.
    EpochYear,
    /// Failure to parse the epoch day.
    EpochDay,
    /// Failure to parse the first derivative of mean motion.
    FirstDerivative,
    /// Failure to parse the second derivative of mean motion.
    SecondDerivative,
    /// Failure to parse the B* drag term.
    BStar,
    /// A validation failure: the ephemeris type must be '0'.
    EphemerisType(char),
    /// Failure to parse the element set number.
    ElementSetNumber,
    /// Failure to parse the inclination.
    Inclination,
    /// Failure to parse the right ascension.
    RightAscension,
    /// Failure to parse the eccentricity.
    Eccentricty,
    /// Failure to parse the argument of perigee.
    ArgumentOfPerigee,
    /// Failure to parse the mean anomaly.
    MeanAnomaly,
    /// Failure to parse the mean motion.
    MeanMotion,
    /// Failure to parse the revolution number.
    RevolutionNumber,
    /// Failure to parse the checksum for the given line.
    ///
    /// This value must be a modulo 10 number.
    Checksum(Line, char),
    /// The TLE checksum is calculated by summing all of the digits in the
    /// line, plus 1 for each '-' character, modulo 10.
    ///
    /// This kind exists for a computed-versus-declared checksum mismatch,
    /// carrying the line, the found checksum and the calculated checksum.
    /// The parser stores the declared checksum digits without verifying
    /// them, so it never produces this error itself.
    InvalidChecksum(Line, u8, u8),
    /// The first character of each line must be the number of the line,
    /// i.e. '1' and '2'.
    ///
    /// If that check fails this error carries the line which failed and the
    /// character found in its first column.
    LineNumber(Line, char),
    /// The second sequence in each line of the TLE is the satellite catalog
    /// number; it must be consistent across both lines.
    ///
    /// The values carried are the satellite catalog numbers found in each
    /// line.
    SatelliteCatalogNumberMismatch(u32, u32),
    /// TLEs are required to contain only valid ASCII characters.
    ContainsNonAsciiCharacter(Line),
}

/// The launch that produced the object: a two digit launch year, a three
/// digit launch number within that year, and a three character launch piece
/// code stored verbatim.
#[derive(Debug, Copy, Clone, Hash, PartialEq, Eq, PartialOrd, Ord)]
pub struct InternationalDesignator {
    pub launch_year: u8,
    pub launch_num: u16,
    pub launch_piece: [char; 3],
}

/// The security classification of a TLE, from a single character field.
#[derive(Debug, Copy, Clone, Hash, PartialEq, Eq, PartialOrd, Ord)]
pub enum Classification {
    Unclassified,
    Classified,
    Secret,
}

/// A parsed and validated Two-Line Element set.
///
/// This is generated via the `parse` method. Fields whose TLE encoding
/// denotes a non-integer value are held exactly: see [`Decimal`] and
/// [`PowerValue`].
#[derive(Debug, Copy, Clone, Hash, PartialEq, Eq, PartialOrd, Ord)]
pub struct Tle {
    pub satellite_catalog_number: u32,
    pub classification: Classification,
    pub international_designator: InternationalDesignator,
    pub epoch_year: u8,
    pub epoch_day_and_fractional_part: Decimal,
    pub first_derivative_of_mean_motion: Decimal,
    pub second_derivative_of_mean_motion: PowerValue,
    pub b_star: PowerValue,
    pub element_set_number: u16,
    pub checksum_1: u8,
    pub inclination: Decimal,
    pub right_ascension_of_ascending_node: Decimal,
    pub eccentricity: PowerValue,
    pub argument_of_perigee: Decimal,
    pub mean_anomaly: Decimal,
    pub mean_motion: Decimal,
    pub revolution_number_at_epoch: u32,
    pub checksum_2: u8,
}

/// The fields of the first line, in column order.
pub struct Line1Fields {
    pub catalog: u32,
    pub classification: Classification,
    pub designator: InternationalDesignator,
    pub epoch_year: u8,
    pub epoch_day: Decimal,
    pub first_derivative: Decimal,
    pub second_derivative: PowerValue,
    pub b_star: PowerValue,
    pub element_set_number: u16,
    pub checksum: u8,
}

/// The fields of the second line, in column order.
pub struct Line2Fields {
    pub catalog: u32,
    pub inclination: Decimal,
    pub right_ascension: Decimal,
    pub eccentricity: PowerValue,
    pub argument_of_perigee: Decimal,
    pub mean_anomaly: Decimal,
    pub mean_motion: Decimal,
    pub revolution_number: u32,
    pub checksum: u8,
}

/// The characters of an ASCII line, one per byte.
pub open spec fn ascii_chars(line: Seq<u8>) -> Seq<char> {
    Seq::new(line.len(), |i: int| line[i] as char)
}

/// Whether every byte of `line` is ASCII.
pub open spec fn all_ascii(line: Seq<u8>) -> bool {
    forall|i: int| 0 <= i < line.len() ==> #[trigger] line[i] < 128
}

/// What validating one physical line yields: its characters when it is
/// exactly 69 ASCII bytes, and otherwise the error naming the line, with
/// length checked before content.
pub open spec fn spec_validate_line(line: Seq<u8>, which: Line) -> Result<Seq<char>, Error> {
    if line.len() != LINE_LEN {
        Err(Error::InvalidLineSize(which, line.len() as usize))
    } else if !all_ascii(line) {
        Err(Error::ContainsNonAsciiCharacter(which))
    } else {
        Ok(ascii_chars(line))
    }
}

/// The classification a single character denotes, if any.
pub open spec fn spec_classification(c: char) -> Option<Classification> {
    if c == 'U' {
        Some(Classification::Unclassified)
    } else if c == 'C' {
        Some(Classification::Classified)
    } else if c == 'S' {
        Some(Classification::Secret)
    } else {
        None
    }
}

/// What decoding the 7-digit eccentricity field yields: the digit value `d`
/// raised to the power `floor(log10 d) - 7`, the literal arithmetic the TLE
/// record prescribes; a zero or non-digit field fails.
pub open spec fn spec_eccentricity(s: Seq<char>) -> Option<PowerValue> {
    match spec_as_digits(s) {
        None => None,
        Some(d) => if d == 0 {
            None
        } else {
            Some(
                PowerValue {
                    negative: false,
                    base: d,
                    exponent: (spec_ilog10(d as int) - s.len()) as i32,
                },
            )
        },
    }
}

/// What decoding the B* field yields: an independent leading `-` negates the
/// value decoded from the rest of the field in the TLE power encoding.
pub open spec fn spec_b_star(f: Seq<char>) -> Option<PowerValue> {
    if f.len() > 0 && f[0] == '-' {
        match spec_parse_power(f.drop_first()) {
            None => None,
            Some(p) => Some(PowerValue { negative: true, base: p.base, exponent: p.exponent }),
        }
    } else {
        spec_parse_power(f)
    }
}

/// What parsing the first line yields, walking its 69 characters in fixed
/// column order and stopping at the first failure.
pub open spec fn spec_parse_line1(c: Seq<char>) -> Result<Line1Fields, Error> {
    if c[0] != '1' {
        Err(Error::LineNumber(Line::Line1, c[0]))
    } else if c[1] != ' ' {
        Err(Error::Space(Line::Line1, c[1], 1))
    } else {
        match spec_as_digits(c.subrange(2, 7)) {
            None => Err(Error::SatlliteCatalogNumber(Line::Line1)),
            Some(catalog) => match spec_classification(c[7]) {
                None => Err(Error::Classification(c[7])),
                Some(classification) => if c[8] != ' ' {
                    Err(Error::Space(Line::Line1, c[8], 8))
                } else {
                    match spec_as_digits(c.subrange(9, 11)) {
                        None => Err(Error::InternationalDesignatorLaunchYear),
                        Some(launch_year) => match spec_as_digits(c.subrange(11, 14)) {
                            None => Err(Error::InternationalDesignatorLaunchNumber),
                            Some(launch_num) => if c[17] != ' ' {
                                Err(Error::Space(Line::Line1, c[17], 17))
                            } else {
                                match spec_as_digits(c.subrange(18, 20)) {
                                    None => Err(Error::EpochYear),
                                    Some(epoch_year) => match spec_parse_decimal(
                                        spec_trim(c.subrange(20, 32)),
                                    ) {
                                        None => Err(Error::EpochDay),
                                        Some(epoch_day) => if c[32] != ' ' {
                                            Err(Error::Space(Line::Line1, c[32], 32))
                                        } else {
                                            match spec_parse_decimal(
                                                spec_trim(c.subrange(33, 43)),
                                            ) {
                                                None => Err(Error::FirstDerivative),
                                                Some(first_derivative) => if c[43] != ' ' {
                                                    Err(Error::Space(Line::Line1, c[43], 43))
                                                } else {
                                                    match spec_parse_power(c.subrange(44, 52)) {
                                                        None => Err(Error::SecondDerivative),
                                                        Some(second_derivative) => if c[52]
                                                            != ' ' {
                                                            Err(
                                                                Error::Space(
                                                                    Line::Line1,
                                                                    c[52],
                                                                    52,
                                                                ),
                                                            )
                                                        } else {
                                                            spec_parse_line1_tail(
                                                                c,
                                                                catalog,
                                                                classification,
                                                                launch_year,
                                                                launch_num,
                                                                epoch_year,
                                                                epoch_day,
                                                                first_derivative,
                                                                second_derivative,
                                                            )
                                                        },
                                                    }
                                                },
                                            }
                                        },
                                    },
                                }
                            },
                        },
                    }
                },
            },
        }
    }
}

/// The remaining columns of the first line, from the B* field on.
pub open spec fn spec_parse_line1_tail(
    c: Seq<char>,
    catalog: u32,
    classification: Classification,
    launch_year: u32,
    launch_num: u32,
    epoch_year: u32,
    epoch_day: Decimal,
    first_derivative: Decimal,
    second_derivative: PowerValue,
) -> Result<Line1Fields, Error> {
    match spec_b_star(c.subrange(53, 61)) {
        None => Err(Error::BStar),
        Some(b_star) => if c[61] != ' ' {
            Err(Error::Space(Line::Line1, c[61], 61))
        } else if c[62] != '0' {
            Err(Error::EphemerisType(c[62]))
        } else if c[63] != ' ' {
            Err(Error::Space(Line::Line1, c[63], 63))
        } else {
            match spec_as_digits(spec_trim(c.subrange(64, 68))) {
                None => Err(Error::ElementSetNumber),
                Some(element_set_number) => match spec_as_digits(c.subrange(68, 69)) {
                    None => Err(Error::Checksum(Line::Line1, c[68])),
                    Some(checksum) => Ok(
                        Line1Fields {
                            catalog,
                            classification,
                            designator: InternationalDesignator {
                                launch_year: launch_year as u8,
                                launch_num: launch_num as u16,
                                launch_piece: [c[14], c[15], c[16]],
                            },
                            epoch_year: epoch_year as u8,
                            epoch_day,
                            first_derivative,
                            second_derivative,
                            b_star,
                            element_set_number: element_set_number as u16,
                            checksum: checksum as u8,
                        },
                    ),
                },
            }
        },
    }
}

/// What parsing the second line yields, given the catalog number the first
/// line carried.
pub open spec fn spec_parse_line2(c: Seq<char>, catalog1: u32) -> Result<Line2Fields, Error> {
    if c[0] != '2' {
        Err(Error::LineNumber(Line::Line2, c[0]))
    } else if c[1] != ' ' {
        Err(Error::Space(Line::Line2, c[1], 1))
    } else {
        match spec_as_digits(c.subrange(2, 7)) {
            None => Err(Error::SatlliteCatalogNumber(Line::Line2)),
            Some(catalog2) => if catalog1 != catalog2 {
                Err(Error::SatelliteCatalogNumberMismatch(catalog1, catalog2))
            } else if c[7] != ' ' {
                Err(Error::Space(Line::Line2, c[7], 7))
            } else {
                match spec_parse_decimal(spec_trim(c.subrange(8, 16))) {
                    None => Err(Error::Inclination),
                    Some(inclination) => if c[16] != ' ' {
                        Err(Error::Space(Line::Line2, c[16], 16))
                    } else {
                        match spec_parse_decimal(c.subrange(17, 25)) {
                            None => Err(Error::RightAscension),
                            Some(right_ascension) => if c[25] != ' ' {
                                Err(Error::Space(Line::Line2, c[25], 25))
                            } else {
                                match spec_eccentricity(c.subrange(26, 33)) {
                                    None => Err(Error::Eccentricty),
                                    Some(eccentricity) => if c[33] != ' ' {
                                        Err(Error::Space(Line::Line2, c[33], 33))
                                    } else {
                                        match spec_parse_decimal(c.subrange(34, 42)) {
                                            None => Err(Error::ArgumentOfPerigee),
                                            Some(argument_of_perigee) => if c[42] != ' ' {
                                                Err(Error::Space(Line::Line2, c[42], 42))
                                            } else {
                                                match spec_parse_decimal(c.subrange(43, 51)) {
                                                    None => Err(Error::MeanAnomaly),
                                                    Some(mean_anomaly) => if c[51] != ' ' {
                                                        Err(Error::Space(Line::Line2, c[51], 51))
                                                    } else {
                                                        spec_parse_line2_tail(
                                                            c,
                                                            catalog2,
                                                            inclination,
                                                            right_ascension,
                                                            eccentricity,
                                                            argument_of_perigee,
                                                            mean_anomaly,
                                                        )
                                                    },
                                                }
                                            },
                                        }
                                    },
                                }
                            },
                        }
                    },
                }
            },
        }
    }
}

/// The remaining columns of the second line, from the mean motion field on.
pub open spec fn spec_parse_line2_tail(
    c: Seq<char>,
    catalog: u32,
    inclination: Decimal,
    right_ascension: Decimal,
    eccentricity: PowerValue,
    argument_of_perigee: Decimal,
    mean_anomaly: Decimal,
) -> Result<Line2Fields, Error> {
    match spec_parse_decimal(c.subrange(52, 63)) {
        None => Err(Error::MeanMotion),
        Some(mean_motion) => match spec_as_digits(c.subrange(63, 68)) {
            None => Err(Error::RevolutionNumber),
            Some(revolution_number) => match spec_as_digits(c.subrange(68, 69)) {
                None => Err(Error::Checksum(Line::Line2, c[68])),
                Some(checksum) => Ok(
                    Line2Fields {
                        catalog,
                        inclination,
                        right_ascension,
                        eccentricity,
                        argument_of_perigee,
                        mean_anomaly,
                        mean_motion,
                        revolution_number,
                        checksum: checksum as u8,
                    },
                ),
            },
        },
    }
}

/// The record the two lines' fields assemble into.
pub open spec fn spec_assemble(f1: Line1Fields, f2: Line2Fields) -> Tle {
    Tle {
        satellite_catalog_number: f1.catalog,
        classification: f1.classification,
        international_designator: f1.designator,
        epoch_year: f1.epoch_year,
        epoch_day_and_fractional_part: f1.epoch_day,
        first_derivative_of_mean_motion: f1.first_derivative,
        second_derivative_of_mean_motion: f1.second_derivative,
        b_star: f1.b_star,
        element_set_number: f1.element_set_number,
        checksum_1: f1.checksum,
        inclination: f2.inclination,
        right_ascension_of_ascending_node: f2.right_ascension,
        eccentricity: f2.eccentricity,
        argument_of_perigee: f2.argument_of_perigee,
        mean_anomaly: f2.mean_anomaly,
        mean_motion: f2.mean_motion,
        revolution_number_at_epoch: f2.revolution_number,
        checksum_2: f2.checksum,
    }
}

/// Converts the bytes of a line into characters, one per byte.
fn tle_line(line: &[u8]) -> (r: Vec<char>)
    ensures
        r@ == ascii_chars(line@),
{
    let n = line.len();
    let mut arr: Vec<char> = Vec::new();
    let mut i: usize = 0;
    while i < n
        invariant
            n == line@.len(),
            0 <= i <= n,
            arr@.len() == i,
            forall|k: int| 0 <= k < i ==> arr@[k] == (#[trigger] line@[k]) as char,
        decreases n - i,
    {
        let b = *vstd::slice::slice_index_get(line, i);
        arr.push(b as char);
        i = i + 1;
    }
    proof {
        assert(arr@ =~= ascii_chars(line@));
    }
    arr
}

/// Validates one physical line: exactly 69 bytes, all ASCII; yields its
/// characters.
pub(crate) fn validate_line(line: &[u8], line_num: Line) -> (r: Result<Vec<char>, Error>)
    ensures
        (match spec_validate_line(line@, line_num) {
            Ok(c) => r is Ok && r->Ok_0@ == c,
            Err(e) => r is Err && r->Err_0 == e,
        }),
{
    let n = line.len();
    if n != LINE_LEN {
        return Err(Error::InvalidLineSize(line_num, n));
    }
    let mut i: usize = 0;
    while i < n
        invariant
            n == line@.len(),
            n == LINE_LEN,
            0 <= i <= n,
            forall|k: int| 0 <= k < i ==> #[trigger] line@[k] < 128,
        decreases n - i,
    {
        let b = *vstd::slice::slice_index_get(line, i);
        if b >= 128 {
            assert(!all_ascii(line@)) by {
                assert(!(line@[i as int] < 128));
            }
            return Err(Error::ContainsNonAsciiCharacter(line_num));
        }
        i = i + 1;
    }
    Ok(tle_line(line))
}

/// Parses the first line of a TLE from its validated characters.
pub(crate) fn parse_line1(c: &[char]) -> (r: Result<Line1Fields, Error>)
    requires
        c@.len() == 69,
    ensures
        r == spec_parse_line1(c@),
{
    let c0 = *vstd::slice::slice_index_get(c, 0);
    if c0 != '1' {
        return Err(Error::LineNumber(Line::Line1, c0));
    }
    let c1 = *vstd::slice::slice_index_get(c, 1);
    if c1 != ' ' {
        return Err(Error::Space(Line::Line1, c1, 1));
    }
    let catalog = match crate::digits::field_digits(vstd::slice::slice_subrange(c, 2, 7)) {
        Some(v) => v,
        None => {
            return Err(Error::SatlliteCatalogNumber(Line::Line1));
        },
    };
    let c7 = *vstd::slice::slice_index_get(c, 7);
    let classification = if c7 == 'U' {
        Classification::Unclassified
    } else if c7 == 'C' {
        Classification::Classified
    } else if c7 == 'S' {
        Classification::Secret
    } else {
        return Err(Error::Classification(c7));
    };
    let c8 = *vstd::slice::slice_index_get(c, 8);
    if c8 != ' ' {
        return Err(Error::Space(Line::Line1, c8, 8));
    }
    let launch_year = match crate::digits::field_digits(vstd::slice::slice_subrange(c, 9, 11)) {
        Some(v) => v,
        None => {
            return Err(Error::InternationalDesignatorLaunchYear);
        },
    };
    let launch_num = match crate::digits::field_digits(vstd::slice::slice_subrange(c, 11, 14)) {
        Some(v) => v,
        None => {
            return Err(Error::InternationalDesignatorLaunchNumber);
        },
    };
    let c17 = *vstd::slice::slice_index_get(c, 17);
    if c17 != ' ' {
        return Err(Error::Space(Line::Line1, c17, 17));
    }
    let epoch_year = match crate::digits::field_digits(vstd::slice::slice_subrange(c, 18, 20)) {
        Some(v) => v,
        None => {
            return Err(Error::EpochYear);
        },
    };
    let epoch_day_field = vstd::slice::slice_subrange(c, 20, 32);
    proof {
        lemma_trim_len(c@.subrange(20, 32));
    }
    let epoch_day = match parse_decimal(trim_leading_space(epoch_day_field)) {
        Some(v) => v,
        None => {
            return Err(Error::EpochDay);
        },
    };
    let c32 = *vstd::slice::slice_index_get(c, 32);
    if c32 != ' ' {
        return Err(Error::Space(Line::Line1, c32, 32));
    }
    let first_derivative_field = vstd::slice::slice_subrange(c, 33, 43);
    proof {
        lemma_trim_len(c@.subrange(33, 43));
    }
    let first_derivative = match parse_decimal(trim_leading_space(first_derivative_field)) {
        Some(v) => v,
        None => {
            return Err(Error::FirstDerivative);
        },
    };
    let c43 = *vstd::slice::slice_index_get(c, 43);
    if c43 != ' ' {
        return Err(Error::Space(Line::Line1, c43, 43));
    }
    let second_derivative = match parse_power(vstd::slice::slice_subrange(c, 44, 52)) {
        Some(v) => v,
        None => {
            return Err(Error::SecondDerivative);
        },
    };
    let c52 = *vstd::slice::slice_index_get(c, 52);
    if c52 != ' ' {
        return Err(Error::Space(Line::Line1, c52, 52));
    }
    let c53 = *vstd::slice::slice_index_get(c, 53);
    let b_star = if c53 == '-' {
        proof {
            assert(c@.subrange(54, 61) =~= c@.subrange(53, 61).drop_first());
        }
        match parse_power(vstd::slice::slice_subrange(c, 54, 61)) {
            Some(p) => PowerValue { negative: true, base: p.base, exponent: p.exponent },
            None => {
                return Err(Error::BStar);
            },
        }
    } else {
        match parse_power(vstd::slice::slice_subrange(c, 53, 61)) {
            Some(p) => p,
            None => {
                return Err(Error::BStar);
            },
        }
    };
    let c61 = *vstd::slice::slice_index_get(c, 61);
    if c61 != ' ' {
        return Err(Error::Space(Line::Line1, c61, 61));
    }
    let c62 = *vstd::slice::slice_index_get(c, 62);
    if c62 != '0' {
        return Err(Error::EphemerisType(c62));
    }
    let c63 = *vstd::slice::slice_index_get(c, 63);
    if c63 != ' ' {
        return Err(Error::Space(Line::Line1, c63, 63));
    }
    let element_set_field = vstd::slice::slice_subrange(c, 64, 68);
    proof {
        lemma_trim_len(c@.subrange(64, 68));
    }
    let element_set_number = match crate::digits::field_digits(
        trim_leading_space(element_set_field),
    ) {
        Some(v) => v,
        None => {
            return Err(Error::ElementSetNumber);
        },
    };
    let c68 = *vstd::slice::slice_index_get(c, 68);
    let checksum = match crate::digits::field_digits(vstd::slice::slice_subrange(c, 68, 69)) {
        Some(v) => v,
        None => {
            return Err(Error::Checksum(Line::Line1, c68));
        },
    };
    let c14 = *vstd::slice::slice_index_get(c, 14);
    let c15 = *vstd::slice::slice_index_get(c, 15);
    let c16 = *vstd::slice::slice_index_get(c, 16);
    Ok(
        Line1Fields {
            catalog,
            classification,
            designator: InternationalDesignator {
                launch_year: launch_year as u8,
                launch_num: launch_num as u16,
                launch_piece: [c14, c15, c16],
            },
            epoch_year: epoch_year as u8,
            epoch_day,
            first_derivative,
            second_derivative,
            b_star,
            element_set_number: element_set_number as u16,
            checksum: checksum as u8,
        },
    )
}

/// Parses the second line of a TLE from its validated characters, checking
/// its catalog number against the first line's.
pub(crate) fn parse_line2(c: &[char], catalog1: u32) -> (r: Result<Line2Fields, Error>)
    requires
        c@.len() == 69,
    ensures
        r == spec_parse_line2(c@, catalog1),
{
    let c0 = *vstd::slice::slice_index_get(c, 0);
    if c0 != '2' {
        return Err(Error::LineNumber(Line::Line2, c0));
    }
    let c1 = *vstd::slice::slice_index_get(c, 1);
    if c1 != ' ' {
        return Err(Error::Space(Line::Line2, c1, 1));
    }
    let catalog2 = match crate::digits::field_digits(vstd::slice::slice_subrange(c, 2, 7)) {
        Some(v) => v,
        None => {
            return Err(Error::SatlliteCatalogNumber(Line::Line2));
        },
    };
    if catalog1 != catalog2 {
        return Err(Error::SatelliteCatalogNumberMismatch(catalog1, catalog2));
    }
    let c7 = *vstd::slice::slice_index_get(c, 7);
    if c7 != ' ' {
        return Err(Error::Space(Line::Line2, c7, 7));
    }
    let inclination_field = vstd::slice::slice_subrange(c, 8, 16);
    proof {
        lemma_trim_len(c@.subrange(8, 16));
    }
    let inclination = match parse_decimal(trim_leading_space(inclination_field)) {
        Some(v) => v,
        None => {
            return Err(Error::Inclination);
        },
    };
    let c16 = *vstd::slice::slice_index_get(c, 16);
    if c16 != ' ' {
        return Err(Error::Space(Line::Line2, c16, 16));
    }
    let right_ascension = match parse_decimal(vstd::slice::slice_subrange(c, 17, 25)) {
        Some(v) => v,
        None => {
            return Err(Error::RightAscension);
        },
    };
    let c25 = *vstd::slice::slice_index_get(c, 25);
    if c25 != ' ' {
        return Err(Error::Space(Line::Line2, c25, 25));
    }
    let eccentricity_digits = match crate::digits::field_digits(
        vstd::slice::slice_subrange(c, 26, 33),
    ) {
        Some(v) => v,
        None => {
            return Err(Error::Eccentricty);
        },
    };
    if eccentricity_digits == 0 {
        return Err(Error::Eccentricty);
    }
    let magnitude = crate::digits::ilog10_u32(eccentricity_digits);
    let eccentricity = PowerValue {
        negative: false,
        base: eccentricity_digits,
        exponent: (magnitude as i32) - 7,
    };
    let c33 = *vstd::slice::slice_index_get(c, 33);
    if c33 != ' ' {
        return Err(Error::Space(Line::Line2, c33, 33));
    }
    let argument_of_perigee = match parse_decimal(vstd::slice::slice_subrange(c, 34, 42)) {
        Some(v) => v,
        None => {
            return Err(Error::ArgumentOfPerigee);
        },
    };
    let c42 = *vstd::slice::slice_index_get(c, 42);
    if c42 != ' ' {
        return Err(Error::Space(Line::Line2, c42, 42));
    }
    let mean_anomaly = match parse_decimal(vstd::slice::slice_subrange(c, 43, 51)) {
        Some(v) => v,
        None => {
            return Err(Error::MeanAnomaly);
        },
    };
    let c51 = *vstd::slice::slice_index_get(c, 51);
    if c51 != ' ' {
        return Err(Error::Space(Line::Line2, c51, 51));
    }
    let mean_motion = match parse_decimal(vstd::slice::slice_subrange(c, 52, 63)) {
        Some(v) => v,
        None => {
            return Err(Error::MeanMotion);
        },
    };
    let revolution_number = match crate::digits::field_digits(
        vstd::slice::slice_subrange(c, 63, 68),
    ) {
        Some(v) => v,
        None => {
            return Err(Error::RevolutionNumber);
        },
    };
    let c68 = *vstd::slice::slice_index_get(c, 68);
    let checksum = match crate::digits::field_digits(vstd::slice::slice_subrange(c, 68, 69)) {
        Some(v) => v,
        None => {
            return Err(Error::Checksum(Line::Line2, c68));
        },
    };
    Ok(
        Line2Fields {
            catalog: catalog2,
            inclination,
            right_ascension,
            eccentricity,
            argument_of_perigee,
            mean_anomaly,
            mean_motion,
            revolution_number,
            checksum: checksum as u8,
        },
    )
}

impl Tle {
    /// Parses and validates a TLE from its two raw byte lines, yielding the
    /// typed record or the first error the fixed left-to-right walk over the
    /// columns encounters.
    ///
    /// The result is a function of the two byte sequences alone (see
    /// [`spec_parse`]): parsing the same lines again yields an identical
    /// record or an identical error, and no input makes the parser panic.
    pub fn parse(line1: &[u8], line2: &[u8]) -> (r: Result<Tle, Error>)
        ensures
            r == spec_parse(line1@, line2@),
    {
        let c1 = match validate_line(line1, Line::Line1) {
            Ok(v) => v,
            Err(e) => {
                return Err(e);
            },
        };
        let f1 = match parse_line1(c1.as_slice()) {
            Ok(f) => f,
            Err(e) => {
                return Err(e);
            },
        };
        let c2 = match validate_line(line2, Line::Line2) {
            Ok(v) => v,
            Err(e) => {
                return Err(e);
            },
        };
        let f2 = match parse_line2(c2.as_slice(), f1.catalog) {
            Ok(f) => f,
            Err(e) => {
                return Err(e);
            },
        };
        Ok(
            Tle {
                satellite_catalog_number: f1.catalog,
                classification: f1.classification,
                international_designator: f1.designator,
                epoch_year: f1.epoch_year,
                epoch_day_and_fractional_part: f1.epoch_day,
                first_derivative_of_mean_motion: f1.first_derivative,
                second_derivative_of_mean_motion: f1.second_derivative,
                b_star: f1.b_star,
                element_set_number: f1.element_set_number,
                checksum_1: f1.checksum,
                inclination: f2.inclination,
                right_ascension_of_ascending_node: f2.right_ascension,
                eccentricity: f2.eccentricity,
                argument_of_perigee: f2.argument_of_perigee,
                mean_anomaly: f2.mean_anomaly,
                mean_motion: f2.mean_motion,
                revolution_number_at_epoch: f2.revolution_number,
                checksum_2: f2.checksum,
            },
        )
    }
}

/// What `Tle::parse` returns for any pair of byte lines: line 1 is validated
/// and parsed in full, then line 2; the first failure is the result.
pub open spec fn spec_parse(l1: Seq<u8>, l2: Seq<u8>) -> Result<Tle, Error> {
    match spec_validate_line(l1, Line::Line1) {
        Err(e) => Err(e),
        Ok(c1) => match spec_parse_line1(c1) {
            Err(e) => Err(e),
            Ok(f1) => match spec_validate_line(l2, Line::Line2) {
                Err(e) => Err(e),
                Ok(c2) => match spec_parse_line2(c2, f1.catalog) {
                    Err(e) => Err(e),
                    Ok(f2) => Ok(spec_assemble(f1, f2)),
                },
            },
        },
    }
}

} // verus!
