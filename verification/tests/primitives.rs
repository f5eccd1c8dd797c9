use student_service::error::{ErrorKind, ServiceError};
use student_service::gpa::{gpa_bits_in_range, GPA_MAX_BITS, NEGATIVE_ZERO_BITS};
use student_service::order::id_precedes;
use student_service::text::{char_is_whitespace, str_is_blank};
use student_service::token::{format_offset, parse_offset};

#[test]
fn whitespace_agrees_with_std_on_every_char() {
    for code in 0..=0x10FFFFu32 {
        if let Some(c) = char::from_u32(code) {
            assert_eq!(char_is_whitespace(c), c.is_whitespace(), "U+{:04X}", code);
        }
    }
}

#[test]
fn blank_is_what_trim_leaves_empty() {
    let samples = [
        "", " ", "\t\n\r", "\u{a0}", "\u{3000}\u{2003}", "a", " a ", "\u{200b}", "  x", "\u{85}",
        "Alice Johnson", "\u{1680}\u{2028}\u{2029}\u{202f}\u{205f}", "\u{feff}",
    ];
    for s in samples {
        assert_eq!(str_is_blank(s), s.trim().is_empty(), "{:?}", s);
    }
    assert!(str_is_blank(""));
    assert!(str_is_blank("   "));
    assert!(!str_is_blank(" a "));
}

#[test]
fn id_order_is_the_order_of_strings() {
    let samples = [
        "", "a", "ab", "b", "B", "0", "10", "9", "é", "z", "zz", "\u{10000}", "\u{ffff}", "a\u{0}",
        "ａ", "-", "~", "student-1", "student-10", "student-2",
    ];
    for a in samples {
        for b in samples {
            assert_eq!(id_precedes(a, b), a < b, "{:?} {:?}", a, b);
        }
    }
    assert!(id_precedes("a", "ab"));
    assert!(!id_precedes("ab", "a"));
    assert!(!id_precedes("a", "a"));
    assert!(id_precedes("student-10", "student-2"));
}

#[test]
fn gpa_range_agrees_with_float_comparison() {
    let samples = [
        0.0f64, -0.0, 4.0, 4.01, 3.8, 3.6, 3.95, 2.5, 1.0, 0.5, -0.1, -1.0, -4.0, 5.0, 1e300, -1e300,
        f64::NAN, -f64::NAN, f64::INFINITY, f64::NEG_INFINITY, f64::MIN_POSITIVE, -f64::MIN_POSITIVE,
        f64::MAX, f64::MIN, f64::EPSILON, 3.9999999999999996, 4.000000000000001,
        f64::from_bits(1), f64::from_bits(0x8000_0000_0000_0001), f64::from_bits(0x7FF0_0000_0000_0001),
        f64::from_bits(0x000F_FFFF_FFFF_FFFF), f64::from_bits(0x0010_0000_0000_0000),
    ];
    for x in samples {
        let expected = !(x < 0.0 || x > 4.0) && !x.is_nan();
        assert_eq!(gpa_bits_in_range(x.to_bits()), expected, "{:?}", x);
    }
}

#[test]
fn gpa_range_boundaries() {
    assert!(gpa_bits_in_range(0.0f64.to_bits()));
    assert!(gpa_bits_in_range(4.0f64.to_bits()));
    assert!(!gpa_bits_in_range(4.01f64.to_bits()));
    assert!(!gpa_bits_in_range((-0.01f64).to_bits()));
    assert!(gpa_bits_in_range((-0.0f64).to_bits()));
    assert!(!gpa_bits_in_range(f64::NAN.to_bits()));
    assert_eq!(GPA_MAX_BITS, 4.0f64.to_bits());
    assert_eq!(NEGATIVE_ZERO_BITS, (-0.0f64).to_bits());
    assert!(!gpa_bits_in_range(GPA_MAX_BITS + 1));
    assert!(gpa_bits_in_range(GPA_MAX_BITS - 1));
}

#[test]
fn tokens_read_as_std_parses_them() {
    let samples = [
        "", "0", "5", "+5", "-5", "007", " 5", "5 ", "abc", "12a", "a12", "+", "++5", "+-5", "５",
        "1_000", "18446744073709551615", "18446744073709551616", "99999999999999999999999",
        "4294967295", "4294967296", "000000000000000000000000000001", "+0", "-0", "1.5", "0x10",
        "٣", "2é", "\u{0}", "9223372036854775807",
    ];
    for s in samples {
        assert_eq!(parse_offset(s), s.parse::<usize>().unwrap_or(0), "{:?}", s);
    }
}

#[test]
fn token_values() {
    assert_eq!(parse_offset(""), 0);
    assert_eq!(parse_offset("2"), 2);
    assert_eq!(parse_offset("+17"), 17);
    assert_eq!(parse_offset("0042"), 42);
    assert_eq!(parse_offset("not a number"), 0);
    assert_eq!(parse_offset("-3"), 0);
    assert_eq!(parse_offset("99999999999999999999999999"), 0);
    assert_eq!(parse_offset(&usize::MAX.to_string()), usize::MAX);
}

#[test]
fn tokens_are_written_in_decimal() {
    let samples = [0usize, 1, 2, 9, 10, 11, 99, 100, 101, 12345, 4294967295, usize::MAX, usize::MAX - 1];
    for n in samples {
        assert_eq!(format_offset(n), n.to_string());
    }
    assert_eq!(format_offset(0), "0");
    assert_eq!(format_offset(2), "2");
    assert_eq!(format_offset(1200), "1200");
}

#[test]
fn tokens_round_trip() {
    for n in 0..2000usize {
        assert_eq!(parse_offset(&format_offset(n)), n);
    }
    assert_eq!(parse_offset(&format_offset(usize::MAX)), usize::MAX);
}

#[test]
fn error_kinds() {
    assert_eq!(ServiceError::MissingStudent.kind(), ErrorKind::InvalidArgument);
    assert_eq!(ServiceError::BlankName.kind(), ErrorKind::InvalidArgument);
    assert_eq!(ServiceError::BlankEmail.kind(), ErrorKind::InvalidArgument);
    assert_eq!(ServiceError::AgeOutOfRange.kind(), ErrorKind::InvalidArgument);
    assert_eq!(ServiceError::GpaOutOfRange.kind(), ErrorKind::InvalidArgument);
    assert_eq!(ServiceError::BlankId.kind(), ErrorKind::InvalidArgument);
    assert_eq!(ServiceError::NotFound.kind(), ErrorKind::NotFound);
    assert_eq!(ServiceError::AlreadyExists.kind(), ErrorKind::AlreadyExists);
}

#[test]
fn error_messages() {
    assert_eq!(ServiceError::MissingStudent.message(), "Student record is required");
    assert_eq!(ServiceError::BlankName.message(), "Student name cannot be empty");
    assert_eq!(ServiceError::BlankEmail.message(), "Student email cannot be empty");
    assert_eq!(ServiceError::AgeOutOfRange.message(), "Student age must be between 0 and 150");
    assert_eq!(ServiceError::GpaOutOfRange.message(), "Student GPA must be between 0.0 and 4.0");
    assert_eq!(ServiceError::BlankId.message(), "Student ID cannot be empty");
    assert_eq!(ServiceError::NotFound.message(), "Student not found");
    assert_eq!(ServiceError::AlreadyExists.message(), "Student with this ID already exists");
}
