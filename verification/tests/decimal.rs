use weathr::decimal::Decimal;

fn dec(neg: bool, mantissa: u64, scale: u32) -> Decimal {
    Decimal { neg, mantissa, scale }
}

#[test]
fn parse_simple_decimal() {
    assert_eq!(Decimal::parse("42.2793"), Some(dec(false, 422793, 4)));
}

#[test]
fn parse_negative_decimal() {
    assert_eq!(Decimal::parse("-71.4162"), Some(dec(true, 714162, 4)));
}

#[test]
fn parse_integer() {
    assert_eq!(Decimal::parse("40"), Some(dec(false, 40, 0)));
    assert_eq!(Decimal::parse("0"), Some(dec(false, 0, 0)));
    assert_eq!(Decimal::parse("-7"), Some(dec(true, 7, 0)));
}

#[test]
fn parse_trailing_zeros_kept() {
    assert_eq!(Decimal::parse("50.0"), Some(dec(false, 500, 1)));
    assert_eq!(Decimal::parse("60.10"), Some(dec(false, 6010, 2)));
}

#[test]
fn parse_rejects_malformed_text() {
    assert_eq!(Decimal::parse(""), None);
    assert_eq!(Decimal::parse("-"), None);
    assert_eq!(Decimal::parse("1."), None);
    assert_eq!(Decimal::parse(".5"), None);
    assert_eq!(Decimal::parse("-.5"), None);
    assert_eq!(Decimal::parse("1.2.3"), None);
    assert_eq!(Decimal::parse("12a"), None);
    assert_eq!(Decimal::parse("1e5"), None);
    assert_eq!(Decimal::parse(" 1"), None);
}

#[test]
fn parse_rejects_oversized_values() {
    // twenty significant digits exceed the parser's 10^18 bound
    assert_eq!(Decimal::parse("10000000000000000000"), None);
    assert_eq!(Decimal::parse("1.0000000000000000000"), None);
    // nineteen fraction digits exceed the scale bound
    assert_eq!(Decimal::parse("0.1234567890123456789"), None);
    // but eighteen significant digits fit
    assert_eq!(
        Decimal::parse("999999999999999999"),
        Some(dec(false, 999999999999999999, 0))
    );
}

#[test]
fn format_pads_to_six_fraction_digits() {
    assert_eq!(dec(false, 554, 1).to_query_string(), "55.400000");
    assert_eq!(dec(true, 714162, 4).to_query_string(), "-71.416200");
    assert_eq!(dec(false, 0, 0).to_query_string(), "0.000000");
    assert_eq!(dec(false, 422793, 4).to_query_string(), "42.279300");
}

#[test]
fn format_keeps_scales_beyond_six() {
    assert_eq!(dec(false, 1234567890123, 10).to_query_string(), "123.4567890123");
    assert_eq!(dec(true, 5, 7).to_query_string(), "-0.0000005");
}

#[test]
fn format_parse_round_trip_preserves_value() {
    let cases = [
        dec(false, 422793, 4),
        dec(true, 714162, 4),
        dec(false, 554, 1),
        dec(false, 0, 0),
        dec(true, 5, 7),
        dec(false, 123456789, 2),
    ];
    for d in cases {
        let text = d.to_query_string();
        let back = Decimal::parse(&text).expect("formatted text must reparse");
        // same numeric value: a.m / 10^a.s == b.m / 10^b.s, cross multiplied
        let sign = |x: &Decimal| if x.neg { -1i128 } else { 1i128 };
        let lhs = sign(&back) * back.mantissa as i128 * 10i128.pow(d.scale);
        let rhs = sign(&d) * d.mantissa as i128 * 10i128.pow(back.scale);
        assert_eq!(lhs, rhs, "value changed for {}", text);
        assert!(back.scale >= 6);
    }
}
