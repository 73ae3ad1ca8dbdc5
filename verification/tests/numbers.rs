use synd::IntParseError;
use synd::number::parse_uint_exec;

fn p(s: &str) -> Result<u64, IntParseError> {
    let cs: Vec<char> = s.chars().collect();
    parse_uint_exec(&cs, u64::MAX)
}

#[test]
fn parses_like_str_parse() {
    for s in ["0", "7", "+7", "007", "18446744073709551615", "", "+", "-", "-1", "1a", "a1",
        "18446744073709551616", "99999999999999999999x", "1 ", " 1", "+-1", "١"] {
        let expected = s.parse::<u64>().map_err(|e| match e.kind() {
            std::num::IntErrorKind::Empty => IntParseError::Empty,
            std::num::IntErrorKind::InvalidDigit => IntParseError::InvalidDigit,
            std::num::IntErrorKind::PosOverflow => IntParseError::PosOverflow,
            _ => unreachable!(),
        });
        assert_eq!(p(s), expected, "on {s:?}");
    }
}

#[test]
fn smaller_bound() {
    let cs: Vec<char> = "256".chars().collect();
    assert_eq!(parse_uint_exec(&cs, 255), Err(IntParseError::PosOverflow));
    assert_eq!(parse_uint_exec(&cs, 256), Ok(256));
}
