use sitemap_generator::{Decimal, Error, Validator};

fn dec(x: f32) -> Decimal {
    Decimal::parse(&x.to_string()).unwrap()
}

#[test]
fn test_validate_url() {
    assert!(Validator::validate_url("https://example.com").is_ok());
    assert!(Validator::validate_url("https://example.com/page").is_ok());
    assert!(Validator::validate_url("not a url").is_err());

    // Test URL too long
    let long_url = format!("https://example.com/{}", "a".repeat(2100));
    assert!(Validator::validate_url(&long_url).is_err());
}

#[test]
fn test_validate_priority() {
    assert!(Validator::validate_priority(dec(0.0)).is_ok());
    assert!(Validator::validate_priority(dec(0.5)).is_ok());
    assert!(Validator::validate_priority(dec(1.0)).is_ok());
    assert!(Validator::validate_priority(dec(-0.1)).is_err());
    assert!(Validator::validate_priority(dec(1.1)).is_err());
}

#[test]
fn test_validate_date() {
    assert!(Validator::validate_date("2025-11-01").is_ok());
    assert!(Validator::validate_date("2024-12-31").is_ok());
    assert!(Validator::validate_date("2025-11-01T12:00:00Z").is_ok());
    assert!(Validator::validate_date("invalid").is_err());
    assert!(Validator::validate_date("24-01-01").is_err());
}

#[test]
fn test_validate_url_count() {
    assert!(Validator::validate_url_count(1000).is_ok());
    assert!(Validator::validate_url_count(50_000).is_ok());
    assert!(Validator::validate_url_count(50_001).is_err());
}

#[test]
fn test_validate_video_rating() {
    assert!(Validator::validate_video_rating(dec(0.0)).is_ok());
    assert!(Validator::validate_video_rating(dec(2.5)).is_ok());
    assert!(Validator::validate_video_rating(dec(5.0)).is_ok());
    assert!(Validator::validate_video_rating(dec(-0.1)).is_err());
    assert!(Validator::validate_video_rating(dec(5.1)).is_err());
}

#[test]
fn test_validate_news_url_count() {
    assert!(Validator::validate_news_url_count(100).is_ok());
    assert!(Validator::validate_news_url_count(1_000).is_ok());
    assert!(Validator::validate_news_url_count(1_001).is_err());
}

#[test]
fn test_validate_language_code() {
    // Valid 2-letter codes
    assert!(Validator::validate_language_code("en").is_ok());
    assert!(Validator::validate_language_code("vi").is_ok());
    assert!(Validator::validate_language_code("fr").is_ok());

    // Valid 3-letter codes
    assert!(Validator::validate_language_code("eng").is_ok());
    assert!(Validator::validate_language_code("vie").is_ok());

    // Special Chinese variants
    assert!(Validator::validate_language_code("zh-cn").is_ok());
    assert!(Validator::validate_language_code("zh-tw").is_ok());

    // Invalid codes
    assert!(Validator::validate_language_code("EN").is_err()); // uppercase
    assert!(Validator::validate_language_code("e").is_err()); // too short
    assert!(Validator::validate_language_code("engl").is_err()); // too long
    assert!(Validator::validate_language_code("en-us").is_err()); // not allowed
}

#[test]
fn test_validate_stock_tickers() {
    assert!(Validator::validate_stock_tickers("AAPL").is_ok());
    assert!(Validator::validate_stock_tickers("AAPL,GOOGL,MSFT").is_ok());
    assert!(Validator::validate_stock_tickers("AAPL, GOOGL, MSFT, TSLA, AMZN").is_ok());
    assert!(Validator::validate_stock_tickers("AAPL,GOOGL,MSFT,TSLA,AMZN,FB").is_err()); // 6 tickers
}

#[test]
fn priority_bounds_are_inclusive() {
    assert!(matches!(
        Validator::validate_priority(dec(-0.01)),
        Err(Error::InvalidPriority(p)) if p == Decimal::parse("-0.01").unwrap()
    ));
    assert!(matches!(Validator::validate_priority(dec(1.01)), Err(Error::InvalidPriority(_))));
    assert!(Validator::validate_priority(dec(0.0)).is_ok());
    assert!(Validator::validate_priority(dec(1.0)).is_ok());
    assert!(Validator::validate_priority(Decimal::parse("-0").unwrap()).is_ok());
    assert!(Validator::validate_priority(Decimal::parse("1.000").unwrap()).is_ok());
    assert!(Validator::validate_priority(Decimal::parse("1.0000000000000000001").unwrap()).is_err());
    assert!(Validator::validate_priority(Decimal::new(false, 1, 200)).is_ok());
    assert!(Validator::validate_priority(Decimal::new(false, 100, 2)).is_ok());
    assert!(Validator::validate_priority(Decimal::new(false, 101, 2)).is_err());
}

#[test]
fn url_errors_say_which_rule() {
    let long_url = format!("https://example.com/{}", "a".repeat(2029));
    assert_eq!(long_url.len(), 2049);
    assert!(matches!(Validator::validate_url(&long_url), Err(Error::UrlTooLong(u)) if u == long_url));
    let fits = &long_url[..2048];
    assert!(Validator::validate_url(fits).is_ok());
    assert!(matches!(Validator::validate_url("not a url"), Err(Error::InvalidUrl(u)) if u == "not a url"));
    assert!(matches!(Validator::validate_url("/relative/path"), Err(Error::InvalidUrl(_))));
    assert!(matches!(Validator::validate_url(""), Err(Error::InvalidUrl(_))));
    // Too long is said before the text is parsed.
    let long_junk = " ".repeat(2049);
    assert!(matches!(Validator::validate_url(&long_junk), Err(Error::UrlTooLong(_))));
    assert!(matches!(Validator::url_verdict("x", true), Ok(())));
    assert!(matches!(Validator::url_verdict("x", false), Err(Error::InvalidUrl(_))));
    assert!(matches!(Validator::url_verdict(&long_junk, true), Err(Error::UrlTooLong(_))));
}

#[test]
fn date_shape_is_loose() {
    assert!(Validator::validate_date("2025-13-99").is_ok());
    assert!(Validator::validate_date("2025-11-01T12:00:00+02:00").is_ok());
    assert!(Validator::validate_date("2025-11-0").is_err());
    assert!(Validator::validate_date("2025-11").is_err());
    assert!(Validator::validate_date("2025/11/01").is_err());
    assert!(Validator::validate_date("20x5-11-01").is_err());
    assert!(Validator::validate_date("2025-1x-01").is_err());
    assert!(Validator::validate_date("2025-11-x1").is_err());
    assert!(Validator::validate_date("2025-11-0x").is_err());
    assert!(Validator::validate_date("02025-11-01").is_err());
    assert!(Validator::validate_date("2025-011-01").is_err());
    assert!(Validator::validate_date("").is_err());
    assert!(matches!(Validator::validate_date("invalid"), Err(Error::InvalidDate(d)) if d == "invalid"));
    // Numerals beyond ASCII are numeric too.
    assert!(Validator::validate_date("\u{0663}\u{0663}-11-01x").is_ok());
}

#[test]
fn size_and_counts_have_exact_limits() {
    assert!(Validator::validate_size(52_428_800).is_ok());
    assert!(matches!(Validator::validate_size(52_428_801), Err(Error::SizeExceeded(52_428_801))));
    assert!(matches!(Validator::validate_url_count(50_001), Err(Error::TooManyUrls(50_001))));
    assert!(Validator::validate_url_count(0).is_ok());
    match Validator::validate_news_url_count(1_001) {
        Err(Error::Validation(message)) => {
            assert_eq!(message, "News sitemap exceeds maximum of 1000 URLs: 1001")
        }
        other => panic!("unexpected: {:?}", other),
    }
}

#[test]
fn video_limits_are_exact() {
    assert!(Validator::validate_video_duration(0).is_ok());
    assert!(Validator::validate_video_duration(28_800).is_ok());
    match Validator::validate_video_duration(28_801) {
        Err(Error::Validation(message)) => {
            assert_eq!(message, "Video duration exceeds maximum (28800 seconds): 28801")
        }
        other => panic!("unexpected: {:?}", other),
    }
    assert!(Validator::validate_video_title(&"t".repeat(100)).is_ok());
    match Validator::validate_video_title(&"t".repeat(101)) {
        Err(Error::Validation(message)) => {
            assert_eq!(message, "Video title exceeds 100 characters: 101")
        }
        other => panic!("unexpected: {:?}", other),
    }
    // Lengths are counted in bytes.
    assert!(Validator::validate_video_title(&"\u{00e9}".repeat(50)).is_ok());
    assert!(Validator::validate_video_title(&"\u{00e9}".repeat(51)).is_err());
    assert!(Validator::validate_video_description(&"d".repeat(2048)).is_ok());
    match Validator::validate_video_description(&"d".repeat(2049)) {
        Err(Error::Validation(message)) => {
            assert_eq!(message, "Video description exceeds 2048 characters: 2049")
        }
        other => panic!("unexpected: {:?}", other),
    }
    match Validator::validate_video_rating(Decimal::parse("5.5").unwrap()) {
        Err(Error::Validation(message)) => {
            assert_eq!(message, "Video rating must be between 0.0 and 5.0: 5.5")
        }
        other => panic!("unexpected: {:?}", other),
    }
}

#[test]
fn language_and_tickers_errors_have_messages() {
    match Validator::validate_language_code("EN") {
        Err(Error::Validation(message)) => assert_eq!(
            message,
            "Invalid language code (must be ISO 639 2-3 letters or zh-cn/zh-tw): EN"
        ),
        other => panic!("unexpected: {:?}", other),
    }
    assert!(Validator::validate_language_code("").is_err());
    assert!(Validator::validate_language_code("e1").is_err());
    assert!(Validator::validate_language_code("\u{00e9}").is_err());
    assert!(Validator::validate_language_code("zh-CN").is_err());
    // Empty tickers count.
    assert!(Validator::validate_stock_tickers("").is_ok());
    assert!(Validator::validate_stock_tickers(",,,,").is_ok());
    match Validator::validate_stock_tickers(",,,,,") {
        Err(Error::Validation(message)) => {
            assert_eq!(message, "Stock tickers exceed maximum of 5: 6")
        }
        other => panic!("unexpected: {:?}", other),
    }
}

#[test]
fn error_messages_name_the_value() {
    assert_eq!(Error::InvalidUrl("x".to_string()).message(), "Invalid URL: x");
    assert_eq!(Error::UrlTooLong("x".to_string()).message(), "URL too long (max 2048 chars): x");
    assert_eq!(Error::TooManyUrls(50_001).message(), "Too many URLs in sitemap (max 50,000): 50001");
    assert_eq!(Error::SizeExceeded(7).message(), "Sitemap size exceeds 50MB: 7 bytes");
    assert_eq!(Error::InvalidDate("d".to_string()).message(), "Invalid date format: d");
    assert_eq!(
        Error::InvalidPriority(Decimal::parse("1.5").unwrap()).message(),
        "Invalid priority (must be 0.0-1.0): 1.5"
    );
    assert_eq!(Error::InvalidChangeFreq("often".to_string()).message(), "Invalid changefreq: often");
    assert_eq!(Error::Io("gone".to_string()).message(), "IO error: gone");
    assert_eq!(Error::Xml("bad".to_string()).message(), "XML error: bad");
    assert_eq!(Error::Compression("bad".to_string()).message(), "Compression error: bad");
    assert_eq!(Error::Validation("bad".to_string()).message(), "Validation error: bad");
}
