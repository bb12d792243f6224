use sitemap_generator::Decimal;

#[test]
fn decimals_print_in_plain_notation() {
    assert_eq!(Decimal::new(false, 0, 0).to_text(), "0");
    assert_eq!(Decimal::new(false, 1, 0).to_text(), "1");
    assert_eq!(Decimal::new(false, 8, 1).to_text(), "0.8");
    assert_eq!(Decimal::new(false, 45, 1).to_text(), "4.5");
    assert_eq!(Decimal::new(true, 25, 2).to_text(), "-0.25");
    assert_eq!(Decimal::new(false, 5, 3).to_text(), "0.005");
    assert_eq!(Decimal::new(false, 12345, 2).to_text(), "123.45");
    assert_eq!(Decimal::new(true, 0, 0).to_text(), "-0");
    assert_eq!(Decimal::new(false, 10, 1).to_text(), "1.0");
    assert_eq!(Decimal::new(false, u64::MAX, 0).to_text(), "18446744073709551615");
    assert_eq!(Decimal::new(false, u64::MAX, 20).to_text(), "0.18446744073709551615");
}

#[test]
fn decimals_are_read_in_canonical_form() {
    assert_eq!(Decimal::parse("1.0"), Some(Decimal::new(false, 1, 0)));
    assert_eq!(Decimal::parse("1"), Some(Decimal::new(false, 1, 0)));
    assert_eq!(Decimal::parse("0.8"), Some(Decimal::new(false, 8, 1)));
    assert_eq!(Decimal::parse("0.80"), Some(Decimal::new(false, 8, 1)));
    assert_eq!(Decimal::parse("00.5"), Some(Decimal::new(false, 5, 1)));
    assert_eq!(Decimal::parse("-0.25"), Some(Decimal::new(true, 25, 2)));
    assert_eq!(Decimal::parse("+3"), Some(Decimal::new(false, 3, 0)));
    assert_eq!(Decimal::parse(".5"), Some(Decimal::new(false, 5, 1)));
    assert_eq!(Decimal::parse("5."), Some(Decimal::new(false, 5, 0)));
    assert_eq!(Decimal::parse("-0"), Some(Decimal::new(true, 0, 0)));
    assert_eq!(Decimal::parse("0.000"), Some(Decimal::new(false, 0, 0)));
    assert_eq!(Decimal::parse("18446744073709551615"), Some(Decimal::new(false, u64::MAX, 0)));
}

#[test]
fn what_is_no_decimal_is_not_read() {
    assert_eq!(Decimal::parse(""), None);
    assert_eq!(Decimal::parse("-"), None);
    assert_eq!(Decimal::parse("."), None);
    assert_eq!(Decimal::parse("-."), None);
    assert_eq!(Decimal::parse("1.2.3"), None);
    assert_eq!(Decimal::parse("NaN"), None);
    assert_eq!(Decimal::parse("inf"), None);
    assert_eq!(Decimal::parse(" 1"), None);
    assert_eq!(Decimal::parse("1 "), None);
    assert_eq!(Decimal::parse("--1"), None);
    assert_eq!(Decimal::parse("1-"), None);
    assert_eq!(Decimal::parse("\u{0663}"), None);
    assert_eq!(Decimal::parse("18446744073709551616"), None);
    assert_eq!(Decimal::parse("1.8446744073709551616"), None);
    let long = format!("0.{}1", "0".repeat(255));
    assert_eq!(Decimal::parse(&long), None);
    let fits = format!("0.{}1", "0".repeat(254));
    assert_eq!(Decimal::parse(&fits), Some(Decimal::new(false, 1, 255)));
}

#[test]
fn reading_what_was_printed_gives_the_decimal_back() {
    let samples = [
        Decimal::new(false, 0, 0),
        Decimal::new(true, 0, 0),
        Decimal::new(false, 7, 0),
        Decimal::new(false, 1, 1),
        Decimal::new(true, 123, 2),
        Decimal::new(false, 1, 255),
        Decimal::new(false, u64::MAX, 5),
        Decimal::new(false, 1234567, 7),
        Decimal::new(false, 1234567, 9),
    ];
    for d in samples {
        assert_eq!(Decimal::parse(&d.to_text()), Some(d));
    }
}

#[test]
fn ranges_include_their_bounds() {
    assert!(Decimal::new(false, 0, 0).in_range(1));
    assert!(Decimal::new(true, 0, 0).in_range(1));
    assert!(Decimal::new(false, 1, 0).in_range(1));
    assert!(Decimal::new(false, 1000, 3).in_range(1));
    assert!(!Decimal::new(false, 1001, 3).in_range(1));
    assert!(!Decimal::new(true, 1, 3).in_range(1));
    assert!(!Decimal::new(false, 2, 0).in_range(1));
    assert!(Decimal::new(false, 5, 0).in_range(5));
    assert!(Decimal::new(false, 50, 1).in_range(5));
    assert!(!Decimal::new(false, 51, 1).in_range(5));
    assert!(Decimal::new(false, u64::MAX, 20).in_range(1));
    assert!(Decimal::new(false, u64::MAX, 19).in_range(5));
    assert!(!Decimal::new(false, u64::MAX, 19).in_range(1));
    assert!(!Decimal::new(false, 1, 0).in_range(0));
    assert!(!Decimal::new(false, 1, 255).in_range(0));
    assert!(Decimal::new(false, 0, 3).in_range(0));
    assert!(Decimal::new(false, 1, 255).in_range(u64::MAX));
}

#[test]
fn normalizing_cuts_trailing_zeros() {
    assert_eq!(Decimal::new(false, 10, 1).normalized(), Decimal::new(false, 1, 0));
    assert_eq!(Decimal::new(true, 1200, 3).normalized(), Decimal::new(true, 12, 1));
    assert_eq!(Decimal::new(false, 0, 7).normalized(), Decimal::new(false, 0, 0));
    assert_eq!(Decimal::new(false, 100, 0).normalized(), Decimal::new(false, 100, 0));
    assert_eq!(Decimal::new(false, 105, 2).normalized(), Decimal::new(false, 105, 2));
    assert_eq!(Decimal::new(false, 10, 1).normalized().to_text(), "1");
}

#[test]
fn decimals_are_read_with_an_exponent() {
    assert_eq!(Decimal::parse("1e-1"), Some(Decimal::new(false, 1, 1)));
    assert_eq!(Decimal::parse("1e5"), Some(Decimal::new(false, 100_000, 0)));
    assert_eq!(Decimal::parse("2.5E3"), Some(Decimal::new(false, 2500, 0)));
    assert_eq!(Decimal::parse("1.5e1"), Some(Decimal::new(false, 15, 0)));
    assert_eq!(Decimal::parse("1.25e1"), Some(Decimal::new(false, 125, 1)));
    assert_eq!(Decimal::parse("-1.25e-2"), Some(Decimal::new(true, 125, 4)));
    assert_eq!(Decimal::parse("1e+2"), Some(Decimal::new(false, 100, 0)));
    assert_eq!(Decimal::parse("1E0"), Some(Decimal::new(false, 1, 0)));
    assert_eq!(Decimal::parse("1e-0"), Some(Decimal::new(false, 1, 0)));
    assert_eq!(Decimal::parse("1e007"), Some(Decimal::new(false, 10_000_000, 0)));
    // The result is canonical.
    assert_eq!(Decimal::parse("10e-1"), Some(Decimal::new(false, 1, 0)));
    assert_eq!(Decimal::parse("1200e-3"), Some(Decimal::new(false, 12, 1)));
    assert_eq!(Decimal::parse("1.50e0"), Some(Decimal::new(false, 15, 1)));
    // Zero stays zero.
    assert_eq!(Decimal::parse("0e999"), Some(Decimal::new(false, 0, 0)));
    assert_eq!(Decimal::parse("0e-999"), Some(Decimal::new(false, 0, 0)));
    assert_eq!(Decimal::parse("-0.0e5"), Some(Decimal::new(true, 0, 0)));
    // The edges of what a decimal holds.
    assert_eq!(
        Decimal::parse("1e19"),
        Some(Decimal::new(false, 10_000_000_000_000_000_000, 0))
    );
    assert_eq!(Decimal::parse("1e20"), None);
    assert_eq!(Decimal::parse("1.8446744073709551615e19"), Some(Decimal::new(false, u64::MAX, 0)));
    assert_eq!(Decimal::parse("1.8446744073709551616e19"), None);
    assert_eq!(Decimal::parse("1e-255"), Some(Decimal::new(false, 1, 255)));
    assert_eq!(Decimal::parse("1e-256"), None);
    assert_eq!(Decimal::parse("1000e-258"), Some(Decimal::new(false, 1, 255)));
    assert_eq!(Decimal::parse("0.1e-254"), Some(Decimal::new(false, 1, 255)));
    assert_eq!(Decimal::parse("0.1e-255"), None);
    // Agreement with floats where both read the text.
    for text in ["1e-1", "2.5E3", "1.25e1", "-1.25e-2", "1e+2", "5e-1", "12.5e-1"] {
        let float: f32 = text.parse().unwrap();
        let decimal = Decimal::parse(text).unwrap();
        assert_eq!(decimal.to_text().parse::<f32>().unwrap(), float);
    }
}

#[test]
fn what_is_no_exponent_is_not_read() {
    assert_eq!(Decimal::parse("e5"), None);
    assert_eq!(Decimal::parse("1e"), None);
    assert_eq!(Decimal::parse("1e-"), None);
    assert_eq!(Decimal::parse("1e+"), None);
    assert_eq!(Decimal::parse("1e5e5"), None);
    assert_eq!(Decimal::parse("1e5.5"), None);
    assert_eq!(Decimal::parse("1e 5"), None);
    assert_eq!(Decimal::parse("1ee5"), None);
    assert_eq!(Decimal::parse("-e5"), None);
    assert_eq!(Decimal::parse(".e5"), None);
    assert_eq!(Decimal::parse("1e--5"), None);
    assert_eq!(Decimal::parse("0e1000"), None);
    assert_eq!(Decimal::parse("1e-1000"), None);
    assert_eq!(Decimal::parse("1e99999999999999999999999"), None);
    assert_eq!(Decimal::parse("infinity"), None);
    assert_eq!(Decimal::parse("-inf"), None);
    assert_eq!(Decimal::parse("nan"), None);
}
