use tle::Error;
use tle::Line;
use tle::Tle;

const ISS_1: &[u8; 69] = b"1 25544U 98067A   08264.51782528 -.00002182  00000-0 -11606-4 0  2927";
const ISS_2: &[u8; 69] = b"2 25544  51.6416 247.4627 0006703 130.5360 325.0288 15.72125391563537";

fn with_byte(line: &[u8; 69], pos: usize, b: u8) -> [u8; 69] {
    let mut out = *line;
    out[pos] = b;
    out
}

#[test]
fn catalog_number_errors() {
    let bad = with_byte(ISS_1, 4, b'x');
    assert_eq!(
        Tle::parse(&bad, ISS_2),
        Err(Error::SatlliteCatalogNumber(Line::Line1))
    );
    let bad2 = with_byte(ISS_2, 6, b' ');
    assert_eq!(
        Tle::parse(ISS_1, &bad2),
        Err(Error::SatlliteCatalogNumber(Line::Line2))
    );
}

#[test]
fn classification_error() {
    let bad = with_byte(ISS_1, 7, b'q');
    assert_eq!(Tle::parse(&bad, ISS_2), Err(Error::Classification('q')));
    for (b, ok) in [(b'U', true), (b'C', true), (b'S', true), (b'u', false)] {
        let line = with_byte(ISS_1, 7, b);
        let r = Tle::parse(&line, ISS_2);
        assert_eq!(r.is_ok(), ok);
    }
}

#[test]
fn designator_errors() {
    let bad_year = with_byte(ISS_1, 9, b'a');
    assert_eq!(
        Tle::parse(&bad_year, ISS_2),
        Err(Error::InternationalDesignatorLaunchYear)
    );
    let bad_num = with_byte(ISS_1, 13, b'-');
    assert_eq!(
        Tle::parse(&bad_num, ISS_2),
        Err(Error::InternationalDesignatorLaunchNumber)
    );
    // The launch piece is stored verbatim, never validated.
    let odd_piece = with_byte(ISS_1, 15, b'?');
    assert_eq!(
        Tle::parse(&odd_piece, ISS_2)
            .unwrap()
            .international_designator
            .launch_piece,
        ['A', '?', ' ']
    );
}

#[test]
fn epoch_errors() {
    let bad_year = with_byte(ISS_1, 18, b'.');
    assert_eq!(Tle::parse(&bad_year, ISS_2), Err(Error::EpochYear));
    let two_points = with_byte(ISS_1, 25, b'.');
    assert_eq!(Tle::parse(&two_points, ISS_2), Err(Error::EpochDay));
    let letter = with_byte(ISS_1, 21, b'e');
    assert_eq!(Tle::parse(&letter, ISS_2), Err(Error::EpochDay));
}

#[test]
fn first_derivative_error() {
    let bad = with_byte(ISS_1, 40, b'x');
    assert_eq!(Tle::parse(&bad, ISS_2), Err(Error::FirstDerivative));
    // A sign alone, with no digit, is not a decimal.
    let mut empty = *ISS_1;
    for b in empty[33..43].iter_mut() {
        *b = b' ';
    }
    empty[42] = b'-';
    assert_eq!(Tle::parse(&empty, ISS_2), Err(Error::FirstDerivative));
}

#[test]
fn second_derivative_errors() {
    // No exponent sign at all.
    let no_dash = with_byte(ISS_1, 50, b'0');
    assert_eq!(Tle::parse(&no_dash, ISS_2), Err(Error::SecondDerivative));
    // Two exponent signs.
    let two_dashes = with_byte(ISS_1, 47, b'-');
    assert_eq!(Tle::parse(&two_dashes, ISS_2), Err(Error::SecondDerivative));
    // Sign first, so the mantissa is empty.
    let mut dash_first = *ISS_1;
    for b in dash_first[44..52].iter_mut() {
        *b = b' ';
    }
    dash_first[50] = b'-';
    dash_first[51] = b'3';
    assert_eq!(Tle::parse(&dash_first, ISS_2), Err(Error::SecondDerivative));
}

#[test]
fn b_star_errors() {
    let no_dash = with_byte(ISS_1, 59, b'0');
    assert_eq!(Tle::parse(&no_dash, ISS_2), Err(Error::BStar));
    // An independent leading sign followed by a field without its own sign.
    let mut bad = *ISS_1;
    bad[53] = b'-';
    for b in bad[54..61].iter_mut() {
        *b = b'1';
    }
    assert_eq!(Tle::parse(&bad, ISS_2), Err(Error::BStar));
}

#[test]
fn ephemeris_type_error() {
    let bad = with_byte(ISS_1, 62, b'7');
    assert_eq!(Tle::parse(&bad, ISS_2), Err(Error::EphemerisType('7')));
}

#[test]
fn element_set_number_errors() {
    let bad = with_byte(ISS_1, 66, b'x');
    assert_eq!(Tle::parse(&bad, ISS_2), Err(Error::ElementSetNumber));
    // An all-space field trims to nothing, which is not a number.
    let mut spaces = *ISS_1;
    for b in spaces[64..68].iter_mut() {
        *b = b' ';
    }
    assert_eq!(Tle::parse(&spaces, ISS_2), Err(Error::ElementSetNumber));
}

#[test]
fn checksum_errors() {
    let bad1 = with_byte(ISS_1, 68, b'x');
    assert_eq!(
        Tle::parse(&bad1, ISS_2),
        Err(Error::Checksum(Line::Line1, 'x'))
    );
    let bad2 = with_byte(ISS_2, 68, b' ');
    assert_eq!(
        Tle::parse(ISS_1, &bad2),
        Err(Error::Checksum(Line::Line2, ' '))
    );
}

#[test]
fn angular_field_errors() {
    let bad_inclination = with_byte(ISS_2, 12, b'x');
    assert_eq!(Tle::parse(ISS_1, &bad_inclination), Err(Error::Inclination));
    let bad_raan = with_byte(ISS_2, 17, b' ');
    assert_eq!(Tle::parse(ISS_1, &bad_raan), Err(Error::RightAscension));
    let bad_perigee = with_byte(ISS_2, 38, b'/');
    assert_eq!(Tle::parse(ISS_1, &bad_perigee), Err(Error::ArgumentOfPerigee));
    let bad_anomaly = with_byte(ISS_2, 45, b':');
    assert_eq!(Tle::parse(ISS_1, &bad_anomaly), Err(Error::MeanAnomaly));
    let bad_motion = with_byte(ISS_2, 54, b'x');
    assert_eq!(Tle::parse(ISS_1, &bad_motion), Err(Error::MeanMotion));
}

#[test]
fn eccentricity_errors() {
    let letter = with_byte(ISS_2, 28, b'x');
    assert_eq!(Tle::parse(ISS_1, &letter), Err(Error::Eccentricty));
    // An all-zero field has no leading digit to take a logarithm of.
    let mut zero = *ISS_2;
    for b in zero[26..33].iter_mut() {
        *b = b'0';
    }
    assert_eq!(Tle::parse(ISS_1, &zero), Err(Error::Eccentricty));
}

#[test]
fn revolution_number_error() {
    let bad = with_byte(ISS_2, 65, b'x');
    assert_eq!(Tle::parse(ISS_1, &bad), Err(Error::RevolutionNumber));
}
