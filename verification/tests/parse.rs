use pre::parse::{parse_u32, split_chars, trim_chars, IntErrorKind};

fn chars(s: &str) -> Vec<char> {
    s.chars().collect()
}

#[test]
fn reads_plain_numbers() {
    assert_eq!(parse_u32(&chars("42")), Ok(42));
    assert_eq!(parse_u32(&chars("+7")), Ok(7));
    assert_eq!(parse_u32(&chars("0000000000042")), Ok(42));
    assert_eq!(parse_u32(&chars("4294967295")), Ok(u32::MAX));
}

#[test]
fn reports_why_a_text_is_no_number() {
    assert_eq!(parse_u32(&chars("")), Err(IntErrorKind::Empty));
    assert_eq!(parse_u32(&chars("+")), Err(IntErrorKind::InvalidDigit));
    assert_eq!(parse_u32(&chars("-")), Err(IntErrorKind::InvalidDigit));
    assert_eq!(parse_u32(&chars("-3")), Err(IntErrorKind::InvalidDigit));
    assert_eq!(parse_u32(&chars("12a")), Err(IntErrorKind::InvalidDigit));
    assert_eq!(parse_u32(&chars(" 1")), Err(IntErrorKind::InvalidDigit));
    assert_eq!(parse_u32(&chars("1.5")), Err(IntErrorKind::InvalidDigit));
    assert_eq!(parse_u32(&chars("4294967296")), Err(IntErrorKind::PosOverflow));
    assert_eq!(parse_u32(&chars("99999999999")), Err(IntErrorKind::PosOverflow));
}

#[test]
fn agrees_with_the_standard_parser() {
    let cases = [
        "0", "1", "+1", "++1", "+-1", "-0", "12", "007", "65535", "4294967295", "4294967296",
        "18446744073709551616", "1_000", "\u{0661}", "", "+", "-", " ", "9 ", "٣",
    ];
    for c in cases.iter() {
        let ours = parse_u32(&chars(c));
        let std = c.parse::<u32>();
        assert_eq!(ours.ok(), std.clone().ok(), "{:?}", c);
        if let Err(e) = std {
            let kind = match e.kind() {
                std::num::IntErrorKind::Empty => IntErrorKind::Empty,
                std::num::IntErrorKind::InvalidDigit => IntErrorKind::InvalidDigit,
                std::num::IntErrorKind::PosOverflow => IntErrorKind::PosOverflow,
                _ => panic!("unexpected kind"),
            };
            assert_eq!(ours, Err(kind), "{:?}", c);
        }
    }
}

#[test]
fn decimal_numbers_read_back() {
    for n in [0u32, 7, 10, 99, 100, 255, 65536, 4294967295] {
        assert_eq!(parse_u32(&chars(&n.to_string())), Ok(n));
    }
}

#[test]
fn trims_like_the_standard_library() {
    let cases = ["", "  ", " a ", "\t1920,1080\n", "\u{3000}x\u{85}", "a b", "\u{200B}x"];
    for c in cases.iter() {
        let ours: String = trim_chars(&chars(c)).into_iter().collect();
        assert_eq!(ours, c.trim(), "{:?}", c);
    }
}

#[test]
fn splits_like_the_standard_library() {
    let cases = ["", ",", "a", "a,b", ",a,", "1920,1080,30/1", "a,,b"];
    for c in cases.iter() {
        let ours: Vec<String> =
            split_chars(&chars(c), ',').into_iter().map(|p| p.into_iter().collect()).collect();
        let std: Vec<String> = c.split(',').map(|p| p.to_string()).collect();
        assert_eq!(ours, std, "{:?}", c);
    }
}
