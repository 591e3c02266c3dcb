use rmms_core::mmp::coerce::{Coerce, Real, Version};
use rmms_core::mmp::text::{
    bytes_eq, check_float_literal, format_integer, is_blank_text, parse_integer, parse_version,
    scan_digits, str_eq, Cause,
};
use rmms_core::mmp::xml::{Target, TypeCoercionError};

#[test]
fn integer_three_reads_as_three() {
    assert_eq!(<i32 as Coerce>::coerce("3").unwrap(), 3);
    assert_eq!(<u8 as Coerce>::coerce("3").unwrap(), 3);
}

#[test]
fn integer_of_letters_is_a_coercion_error() {
    let e = <i32 as Coerce>::coerce("abc").unwrap_err();
    assert_eq!(e.input, "abc");
    assert_eq!(e.target, Target::I32);
    assert_eq!(e.cause, Cause::InvalidDigit);
}

#[test]
fn bool_reads_one_and_zero_only() {
    assert_eq!(<bool as Coerce>::coerce("1").unwrap(), true);
    assert_eq!(<bool as Coerce>::coerce("0").unwrap(), false);
    let e = <bool as Coerce>::coerce("2").unwrap_err();
    assert_eq!(e.input, "2");
    assert_eq!(e.target, Target::Bool);
    assert_eq!(e.cause, Cause::InvalidBool);
    assert!(<bool as Coerce>::coerce("true").is_err());
    assert!(<bool as Coerce>::coerce("").is_err());
    assert!(<bool as Coerce>::coerce("01").is_err());
}

#[test]
fn integers_keep_to_their_ranges() {
    assert_eq!(<u8 as Coerce>::coerce("255").unwrap(), 255);
    assert_eq!(<u8 as Coerce>::coerce("256").unwrap_err().cause, Cause::PosOverflow);
    assert_eq!(<i8 as Coerce>::coerce("-128").unwrap(), -128);
    assert_eq!(<i8 as Coerce>::coerce("-129").unwrap_err().cause, Cause::NegOverflow);
    assert_eq!(<i8 as Coerce>::coerce("128").unwrap_err().cause, Cause::PosOverflow);
    assert_eq!(<u16 as Coerce>::coerce("65535").unwrap(), 65535);
    assert_eq!(<u16 as Coerce>::coerce("65536").unwrap_err().cause, Cause::PosOverflow);
    assert_eq!(<i32 as Coerce>::coerce("-2147483648").unwrap(), i32::MIN);
    assert_eq!(<i32 as Coerce>::coerce("2147483648").unwrap_err().cause, Cause::PosOverflow);
    assert_eq!(<u32 as Coerce>::coerce("4294967295").unwrap(), u32::MAX);
    assert_eq!(<usize as Coerce>::coerce("12").unwrap(), 12);
    assert_eq!(
        <usize as Coerce>::coerce("99999999999999999999999").unwrap_err().cause,
        Cause::PosOverflow
    );
}

#[test]
fn integers_read_as_the_standard_library_reads_them() {
    let texts = [
        "", "+", "-", "0", "-0", "+7", "007", "12a", "999x", "-5", "+-5", " 1", "1 ", "1.0",
        "256", "-129", "99999999999999999999",
    ];
    for t in texts {
        assert_eq!(<u8 as Coerce>::coerce(t).ok(), t.parse::<u8>().ok());
        assert_eq!(<i8 as Coerce>::coerce(t).ok(), t.parse::<i8>().ok());
        assert_eq!(<u16 as Coerce>::coerce(t).ok(), t.parse::<u16>().ok());
        assert_eq!(<i32 as Coerce>::coerce(t).ok(), t.parse::<i32>().ok());
        assert_eq!(<u32 as Coerce>::coerce(t).ok(), t.parse::<u32>().ok());
        assert_eq!(<usize as Coerce>::coerce(t).ok(), t.parse::<usize>().ok());
    }
}

#[test]
fn integer_errors_name_their_cause() {
    assert_eq!(parse_integer(b"", false, 0, 255), Err(Cause::Empty));
    assert_eq!(parse_integer(b"+", false, 0, 255), Err(Cause::InvalidDigit));
    assert_eq!(parse_integer(b"-", true, -128, 127), Err(Cause::InvalidDigit));
    assert_eq!(parse_integer(b"-5", false, 0, 255), Err(Cause::InvalidDigit));
    assert_eq!(parse_integer(b"99x", false, 0, 255), Err(Cause::InvalidDigit));
    assert_eq!(parse_integer(b"999x", false, 0, 255), Err(Cause::PosOverflow));
    assert_eq!(parse_integer(b"-999x", true, -128, 127), Err(Cause::NegOverflow));
    assert_eq!(parse_integer(b"+12", false, 0, 255), Ok(12));
    assert_eq!(parse_integer(b"-12", true, -128, 127), Ok(-12));
}

#[test]
fn text_is_itself() {
    assert_eq!(<String as Coerce>::coerce("Triple Osc \u{e9}").unwrap(), "Triple Osc \u{e9}");
    assert_eq!(<String as Coerce>::coerce("").unwrap(), "");
}

#[test]
fn real_keeps_its_literal() {
    let r = <Real as Coerce>::coerce("0.8").unwrap();
    assert_eq!(r.as_bytes(), b"0.8");
    let f: f32 = std::str::from_utf8(r.as_bytes()).unwrap().parse().unwrap();
    assert_eq!(f, 0.8);
    let e = <Real as Coerce>::coerce("0.8x").unwrap_err();
    assert_eq!(e.cause, Cause::InvalidFloat);
    assert_eq!(e.target, Target::Real);
    assert_eq!(e.input, "0.8x");
    assert_eq!(<Real as Coerce>::coerce("").unwrap_err().cause, Cause::Empty);
}

#[test]
fn float_literals_are_those_that_the_standard_library_reads() {
    let texts = [
        "", "0", "1", "1.", ".5", ".", "+", "-", "1e5", "1E5", "1e", "e5", "1e+5", "1e-5", "1e+",
        "1.5e10", "1.e5", ".e5", ".5e5", "inf", "INF", "Infinity", "infinit", "infinityx", "nan",
        "NaN", "-nan", "+inf", "--1", "1..2", "1.2.3", " 1", "1 ", "0x10", "1_0", "1f32",
        "-0.0", "+.5", "12345678901234567890.12345678901234567890e-300", "in", "na", "1e5.3",
        "1e5e5", "\u{e9}",
    ];
    for t in texts {
        assert_eq!(check_float_literal(t.as_bytes()), t.parse::<f32>().is_ok(), "{}", t);
        assert_eq!(Real::parse(t.as_bytes()).is_some(), t.parse::<f32>().is_ok(), "{}", t);
    }
}

#[test]
fn real_of_an_integer_is_its_decimal_text() {
    assert_eq!(Real::from_integer(140).as_bytes(), b"140");
    assert_eq!(Real::from_integer(0).as_bytes(), b"0");
    assert_eq!(Real::from_integer(-7).as_bytes(), b"-7");
    assert!(Real::from_integer(5).same(&Real::parse(b"5").unwrap()));
    assert!(!Real::from_integer(5).same(&Real::parse(b"5.0").unwrap()));
    let c = Real::from_integer(12).clone();
    assert_eq!(c.as_bytes(), b"12");
}

#[test]
fn version_may_have_a_fraction() {
    assert_eq!(<Version as Coerce>::coerce("1.0").unwrap(), Version(1));
    assert_eq!(<Version as Coerce>::coerce("20").unwrap(), Version(20));
    assert_eq!(<Version as Coerce>::coerce("1.").unwrap(), Version(1));
    assert_eq!(<Version as Coerce>::coerce("1.75").unwrap(), Version(1));
    assert_eq!(<Version as Coerce>::coerce("").unwrap_err().cause, Cause::Empty);
    assert_eq!(<Version as Coerce>::coerce(".5").unwrap_err().cause, Cause::Empty);
    assert_eq!(<Version as Coerce>::coerce("1.0a").unwrap_err().cause, Cause::InvalidDigit);
    assert_eq!(<Version as Coerce>::coerce("1.0.1").unwrap_err().cause, Cause::InvalidDigit);
    assert_eq!(<Version as Coerce>::coerce("-1").unwrap_err().cause, Cause::InvalidDigit);
    assert_eq!(<Version as Coerce>::coerce("x").unwrap_err().target, Target::Version);
    assert_eq!(parse_version(b"3.9", 10), Ok(3));
    assert_eq!(parse_version(b"30.9", 10), Err(Cause::PosOverflow));
}

#[test]
fn integers_are_written_as_they_are_read() {
    assert_eq!(format_integer(0), b"0");
    assert_eq!(format_integer(7), b"7");
    assert_eq!(format_integer(140), b"140");
    assert_eq!(format_integer(-128), b"-128");
    assert_eq!(format_integer(1234567890123), b"1234567890123");
    for v in -128i128..=127 {
        assert_eq!(parse_integer(&format_integer(v), true, -128, 127), Ok(v));
    }
}

#[test]
fn digits_are_scanned_to_their_end() {
    assert_eq!(scan_digits(b"123abc", 0), 3);
    assert_eq!(scan_digits(b"123abc", 1), 3);
    assert_eq!(scan_digits(b"123abc", 3), 3);
    assert_eq!(scan_digits(b"123", 0), 3);
    assert_eq!(scan_digits(b"", 0), 0);
}

#[test]
fn bytes_and_texts_compare_by_content() {
    assert!(bytes_eq(b"head", b"head"));
    assert!(!bytes_eq(b"head", b"heads"));
    assert!(!bytes_eq(b"head", b"heap"));
    assert!(bytes_eq(b"", b""));
    assert!(str_eq("song", "song"));
    assert!(!str_eq("song", "pattern"));
}

#[test]
fn white_space_is_blank() {
    assert!(is_blank_text(b""));
    assert!(is_blank_text(b" \t\r\n\x0b\x0c"));
    assert!(is_blank_text(&[0x85, 0xA0]));
    assert!(!is_blank_text(b"  x "));
    assert!(!is_blank_text(&[0xC2]));
}

#[test]
fn coercion_error_holds_what_it_is_given() {
    let e = TypeCoercionError::new("abc", Target::U16, Cause::InvalidDigit);
    assert_eq!(e.input, "abc");
    assert_eq!(e.target, Target::U16);
    assert_eq!(e.cause, Cause::InvalidDigit);
}
