use tle::Classification;
use tle::Decimal;
use tle::Error;
use tle::Line;
use tle::PowerValue;
use tle::Tle;

const ISS_1: &[u8; 69] = b"1 25544U 98067A   08264.51782528 -.00002182  00000-0 -11606-4 0  2927";
const ISS_2: &[u8; 69] = b"2 25544  51.6416 247.4627 0006703 130.5360 325.0288 15.72125391563537";
const NOAA_1: &[u8; 69] = b"1 23455U 94089A   97320.90946019  .00000140  00000-0  10191-3 0  2621";
const NOAA_2: &[u8; 69] = b"2 23455  99.0090 272.6745 0008546 223.1686 136.8816 14.11711747148495";

#[test]
fn tle_test() {
    // ISS
    let line1 = ISS_1;
    let line2 = ISS_2;
    let _ = Tle::parse(line1, line2).unwrap();
    // NOAA 14
    let line1 = NOAA_1;
    let line2 = NOAA_2;
    let _ = Tle::parse(line1, line2).unwrap();
}

#[test]
fn iss_round_trip_fields() {
    let t = Tle::parse(ISS_1, ISS_2).unwrap();
    assert_eq!(t.satellite_catalog_number, 25544);
    assert_eq!(t.classification, Classification::Unclassified);
    assert_eq!(t.international_designator.launch_year, 98);
    assert_eq!(t.international_designator.launch_num, 67);
    assert_eq!(t.international_designator.launch_piece, ['A', ' ', ' ']);
    assert_eq!(t.epoch_year, 8);
    assert_eq!(
        t.epoch_day_and_fractional_part,
        Decimal { negative: false, digits: 26451782528, scale: 8 }
    );
    assert_eq!(
        t.first_derivative_of_mean_motion,
        Decimal { negative: true, digits: 2182, scale: 8 }
    );
    assert_eq!(
        t.second_derivative_of_mean_motion,
        PowerValue { negative: false, base: 0, exponent: 0 }
    );
    assert_eq!(t.b_star, PowerValue { negative: true, base: 11606, exponent: -4 });
    assert_eq!(t.element_set_number, 292);
    assert_eq!(t.checksum_1, 7);
    assert_eq!(t.inclination, Decimal { negative: false, digits: 516416, scale: 4 });
    assert_eq!(
        t.right_ascension_of_ascending_node,
        Decimal { negative: false, digits: 2474627, scale: 4 }
    );
    assert_eq!(t.eccentricity, PowerValue { negative: false, base: 6703, exponent: -4 });
    assert_eq!(t.argument_of_perigee, Decimal { negative: false, digits: 1305360, scale: 4 });
    assert_eq!(t.mean_anomaly, Decimal { negative: false, digits: 3250288, scale: 4 });
    assert_eq!(t.mean_motion, Decimal { negative: false, digits: 1572125391, scale: 8 });
    assert_eq!(t.revolution_number_at_epoch, 56353);
    assert_eq!(t.checksum_2, 7);
}

#[test]
fn noaa_fields() {
    let t = Tle::parse(NOAA_1, NOAA_2).unwrap();
    assert_eq!(t.satellite_catalog_number, 23455);
    assert_eq!(t.classification, Classification::Unclassified);
    assert_eq!(
        t.first_derivative_of_mean_motion,
        Decimal { negative: false, digits: 140, scale: 8 }
    );
    assert_eq!(t.b_star, PowerValue { negative: false, base: 10191, exponent: -3 });
    assert_eq!(t.eccentricity, PowerValue { negative: false, base: 8546, exponent: -4 });
    assert_eq!(t.element_set_number, 262);
    assert_eq!(t.checksum_1, 1);
    assert_eq!(t.revolution_number_at_epoch, 14849);
    assert_eq!(t.checksum_2, 5);
}

#[test]
fn parsing_is_deterministic() {
    let first = Tle::parse(ISS_1, ISS_2);
    let second = Tle::parse(ISS_1, ISS_2);
    assert_eq!(first, second);
    let mut bad = *ISS_1;
    bad[7] = b'X';
    let first_err = Tle::parse(&bad, ISS_2);
    let second_err = Tle::parse(&bad, ISS_2);
    assert_eq!(first_err, second_err);
}

#[test]
fn line_size_errors() {
    let short: &[u8] = &ISS_1[..68];
    assert_eq!(
        Tle::parse(short, ISS_2),
        Err(Error::InvalidLineSize(Line::Line1, 68))
    );
    let mut long = ISS_2.to_vec();
    long.push(b' ');
    assert_eq!(
        Tle::parse(ISS_1, &long),
        Err(Error::InvalidLineSize(Line::Line2, 70))
    );
    assert_eq!(
        Tle::parse(&[], &[]),
        Err(Error::InvalidLineSize(Line::Line1, 0))
    );
}

#[test]
fn non_ascii_errors() {
    let mut bad = *ISS_1;
    bad[30] = 0xc3;
    assert_eq!(
        Tle::parse(&bad, ISS_2),
        Err(Error::ContainsNonAsciiCharacter(Line::Line1))
    );
    let mut bad2 = *ISS_2;
    bad2[68] = 0xff;
    assert_eq!(
        Tle::parse(ISS_1, &bad2),
        Err(Error::ContainsNonAsciiCharacter(Line::Line2))
    );
    // A non-ASCII byte is reported even when a field before it is also bad.
    let mut both = *ISS_1;
    both[2] = b'x';
    both[50] = 0x80;
    assert_eq!(
        Tle::parse(&both, ISS_2),
        Err(Error::ContainsNonAsciiCharacter(Line::Line1))
    );
}

#[test]
fn catalog_mismatch_carries_both_values() {
    let mut other = *ISS_2;
    other[2] = b'1';
    assert_eq!(
        Tle::parse(ISS_1, &other),
        Err(Error::SatelliteCatalogNumberMismatch(25544, 15544))
    );
    // The mismatch is found before the rest of line 2 is looked at.
    let mut mangled = other;
    for b in mangled[8..].iter_mut() {
        *b = b'z';
    }
    assert_eq!(
        Tle::parse(ISS_1, &mangled),
        Err(Error::SatelliteCatalogNumberMismatch(25544, 15544))
    );
}

#[test]
fn separator_errors_line1() {
    for &pos in &[1usize, 8, 17, 32, 43, 52, 61, 63] {
        let mut bad = *ISS_1;
        bad[pos] = b'#';
        assert_eq!(
            Tle::parse(&bad, ISS_2),
            Err(Error::Space(Line::Line1, '#', pos)),
            "separator at column {pos}"
        );
    }
}

#[test]
fn separator_errors_line2() {
    for &pos in &[1usize, 7, 16, 25, 33, 42, 51] {
        let mut bad = *ISS_2;
        bad[pos] = b'_';
        assert_eq!(
            Tle::parse(ISS_1, &bad),
            Err(Error::Space(Line::Line2, '_', pos)),
            "separator at column {pos}"
        );
    }
}

#[test]
fn epoch_day_trims_leading_spaces() {
    let mut line1 = *ISS_1;
    line1[20] = b' ';
    let t = Tle::parse(&line1, ISS_2).unwrap();
    assert_eq!(
        t.epoch_day_and_fractional_part,
        Decimal { negative: false, digits: 6451782528, scale: 8 }
    );
}

#[test]
fn first_derivative_accepts_plus_sign() {
    let mut line1 = *ISS_1;
    line1[33] = b'+';
    let t = Tle::parse(&line1, ISS_2).unwrap();
    assert_eq!(
        t.first_derivative_of_mean_motion,
        Decimal { negative: false, digits: 2182, scale: 8 }
    );
}

#[test]
fn line_number_errors() {
    let mut bad = *ISS_1;
    bad[0] = b'3';
    assert_eq!(
        Tle::parse(&bad, ISS_2),
        Err(Error::LineNumber(Line::Line1, '3'))
    );
    let mut bad2 = *ISS_2;
    bad2[0] = b'1';
    assert_eq!(
        Tle::parse(ISS_1, &bad2),
        Err(Error::LineNumber(Line::Line2, '1'))
    );
}
