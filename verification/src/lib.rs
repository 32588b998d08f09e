//! Parser and validator for Two-Line Element sets (TLEs): fixed-width,
//! 69-character-per-line ASCII records carrying satellite orbital parameters.
//!
//! The parser turns two raw byte lines into a strongly typed record, or
//! reports precisely which field or position failed validation. Numeric
//! fields whose values are not integers are kept in exact form: a decimal
//! field as sign, digit value and scale, and the TLE "assumed decimal point
//! plus signed exponent" fields as a base and a signed exponent. Turning
//! those exact forms into floating-point numbers is left to callers.

pub mod digits;
pub mod fields;
pub mod laws;
pub mod tle;

pub use fields::Decimal;
pub use fields::PowerValue;
pub use fields::parse_decimal;
pub use fields::parse_power;
pub use tle::Classification;
pub use tle::Error;
pub use tle::InternationalDesignator;
pub use tle::Line;
pub use tle::Tle;

pub use digits::as_digits;
pub use digits::trim_leading_space;
