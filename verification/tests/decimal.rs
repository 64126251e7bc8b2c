use eve_mumble_bridge::decimal::{int_error_message, parse_u64, u64_to_decimal, IntErrorKind};

#[test]
fn decimal_round_trips() {
    for n in [0u64, 7, 10, 99, 100, 91234567, u64::MAX] {
        let s = u64_to_decimal(n);
        assert_eq!(s, n.to_string());
        assert_eq!(parse_u64(&s), Ok(n));
    }
}

#[test]
fn parsing_follows_std() {
    for s in ["", "+", "-1", "+12", "012", "1 2", "18446744073709551615", "18446744073709551616", "99999999999999999999x", "١٢"] {
        let ours = parse_u64(s);
        let std = s.parse::<u64>();
        match (ours, std) {
            (Ok(a), Ok(b)) => assert_eq!(a, b),
            (Err(k), Err(e)) => assert_eq!(int_error_message(k), e.to_string()),
            (a, b) => panic!("{s:?}: {a:?} vs {b:?}"),
        }
    }
    assert_eq!(parse_u64(""), Err(IntErrorKind::Empty));
    assert_eq!(parse_u64("99999999999999999999x"), Err(IntErrorKind::PosOverflow));
}
