use rustoki::num::{parse_hex_u32_chars, parse_i64_chars, parse_u64_chars, IntErrorKind};

fn chars(s: &str) -> Vec<char> {
    s.chars().collect()
}

const SAMPLES: [&str; 22] = [
    "", "0", "7", "+7", "-7", "+", "-", "12a", "007", "18446744073709551615", "18446744073709551616",
    "9223372036854775807", "9223372036854775808", "-9223372036854775808", "-9223372036854775809",
    " 1", "1 ", "++1", "-+1", "１２", "99999999999999999999999", "-0",
];

#[test]
fn unsigned_parse_agrees_with_std() {
    for s in SAMPLES {
        assert_eq!(parse_u64_chars(&chars(s)), s.parse::<u64>().ok(), "text {:?}", s);
    }
}

#[test]
fn signed_parse_agrees_with_std() {
    for s in SAMPLES {
        assert_eq!(parse_i64_chars(&chars(s)), s.parse::<i64>().ok(), "text {:?}", s);
    }
}

fn kind_of(e: &std::num::ParseIntError) -> IntErrorKind {
    match e.kind() {
        std::num::IntErrorKind::Empty => IntErrorKind::Empty,
        std::num::IntErrorKind::InvalidDigit => IntErrorKind::InvalidDigit,
        std::num::IntErrorKind::PosOverflow => IntErrorKind::PosOverflow,
        other => panic!("unexpected kind {:?}", other),
    }
}

#[test]
fn hex_parse_agrees_with_std() {
    let samples = [
        "", "ff", "FF", "fFaA00", "+1", "-1", "+", "-", "g", "ffffffff", "100000000", "0x10", "123456789abcdef",
    ];
    for s in samples {
        let ours = parse_hex_u32_chars(&chars(s));
        match u32::from_str_radix(s, 16) {
            Ok(v) => assert_eq!(ours, Ok(v), "text {:?}", s),
            Err(e) => assert_eq!(ours, Err(kind_of(&e)), "text {:?}", s),
        }
    }
}

#[test]
fn parse_error_kinds() {
    assert_eq!(parse_hex_u32_chars(&chars("")), Err(IntErrorKind::Empty));
    assert_eq!(parse_hex_u32_chars(&chars("zz")), Err(IntErrorKind::InvalidDigit));
    assert_eq!(parse_hex_u32_chars(&chars("1ffffffff")), Err(IntErrorKind::PosOverflow));
    assert_eq!(parse_hex_u32_chars(&chars("FFAA88")), Ok(0xFFAA88));
}
