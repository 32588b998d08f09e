use tle::Decimal;
use tle::PowerValue;
use tle::as_digits;
use tle::parse_decimal;
use tle::parse_power;
use tle::trim_leading_space;

#[test]
fn as_digits_is_valid() {
    let x = ['1', '2', '3', '4'];
    assert_eq!(as_digits(&x), Some(1234_u32));
    let x = ['0', '2', '3', '4'];
    assert_eq!(as_digits(&x), Some(234_u32));
    let x = ['9', '0', '0', '9'];
    assert_eq!(as_digits(&x), Some(9009_u32));
    let x = ['8'];
    assert_eq!(as_digits(&x), Some(8_u32));
}

#[test]
fn as_digits_rejects() {
    assert_eq!(as_digits(&[]), None);
    assert_eq!(as_digits(&[' ', '1']), None);
    assert_eq!(as_digits(&['1', ' ']), None);
    assert_eq!(as_digits(&['1', 'a', '2']), None);
    assert_eq!(as_digits(&['-', '1']), None);
    assert_eq!(as_digits(&['0', '0', '0']), Some(0));
}

#[test]
fn trim_strips_only_leading_spaces() {
    let x = [' ', ' ', '4', '2', ' '];
    assert_eq!(trim_leading_space(&x), &['4', '2', ' ']);
    let all_spaces = [' ', ' ', ' '];
    assert_eq!(trim_leading_space(&all_spaces), &[] as &[char]);
    let none = ['7', ' '];
    assert_eq!(trim_leading_space(&none), &['7', ' ']);
    assert_eq!(trim_leading_space(&[]), &[] as &[char]);
}

#[test]
fn decimal_forms() {
    assert_eq!(
        parse_decimal(&['1', '2', '.', '5']),
        Some(Decimal { negative: false, digits: 125, scale: 1 })
    );
    assert_eq!(
        parse_decimal(&['-', '.', '0', '5']),
        Some(Decimal { negative: true, digits: 5, scale: 2 })
    );
    assert_eq!(
        parse_decimal(&['+', '3']),
        Some(Decimal { negative: false, digits: 3, scale: 0 })
    );
    assert_eq!(
        parse_decimal(&['7', '.']),
        Some(Decimal { negative: false, digits: 7, scale: 0 })
    );
    assert_eq!(
        parse_decimal(&['0', '0', '7']),
        Some(Decimal { negative: false, digits: 7, scale: 0 })
    );
}

#[test]
fn decimal_rejects() {
    assert_eq!(parse_decimal(&[]), None);
    assert_eq!(parse_decimal(&['-']), None);
    assert_eq!(parse_decimal(&['.']), None);
    assert_eq!(parse_decimal(&['-', '.']), None);
    assert_eq!(parse_decimal(&['1', '.', '2', '.', '3']), None);
    assert_eq!(parse_decimal(&[' ', '1']), None);
    assert_eq!(parse_decimal(&['1', '-', '2']), None);
}

#[test]
fn power_forms() {
    assert_eq!(
        parse_power(&['1', '2', '3', '4', '5', '-', '3']),
        Some(PowerValue { negative: false, base: 12345, exponent: -3 })
    );
    assert_eq!(
        parse_power(&[' ', ' ', '0', '-', '0']),
        Some(PowerValue { negative: false, base: 0, exponent: 0 })
    );
    assert_eq!(
        parse_power(&['9', '-', '1', '2']),
        Some(PowerValue { negative: false, base: 9, exponent: -12 })
    );
}

#[test]
fn power_rejects() {
    assert_eq!(parse_power(&[]), None);
    assert_eq!(parse_power(&['1', '2', '3']), None);
    assert_eq!(parse_power(&['-', '3']), None);
    assert_eq!(parse_power(&['3', '-']), None);
    assert_eq!(parse_power(&['1', '-', '2', '-', '3']), None);
    assert_eq!(parse_power(&['1', ' ', '2', '-', '3']), None);
    assert_eq!(parse_power(&['1', '.', '5', '-', '3']), None);
}
