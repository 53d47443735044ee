use tabelog_scrape::decimal::Decimal;
use tabelog_scrape::extract::parse_rating;

fn text(s: &str) -> Option<String> {
    Decimal::parse(s).map(|d| d.to_text())
}

#[test]
fn rating_three_and_a_half() {
    assert_eq!(parse_rating("3.5").map(|d| d.to_text()), Some("3.5".to_string()));
}

#[test]
fn rating_not_available_is_absent() {
    assert!(parse_rating("N/A").is_none());
}

#[test]
fn rating_zero_is_present() {
    assert_eq!(parse_rating("0.0").map(|d| d.to_text()), Some("0".to_string()));
}

#[test]
fn decimal_canonical_forms() {
    assert_eq!(text("35.0"), Some("35".to_string()));
    assert_eq!(text("007.50"), Some("7.5".to_string()));
    assert_eq!(text("+1"), Some("1".to_string()));
    assert_eq!(text("-2.25"), Some("-2.25".to_string()));
    assert_eq!(text("-0.0"), Some("0".to_string()));
    assert_eq!(text(".5"), Some("0.5".to_string()));
    assert_eq!(text("5."), Some("5".to_string()));
    assert_eq!(text("139.767"), Some("139.767".to_string()));
}

#[test]
fn decimal_rejects_non_literals() {
    assert_eq!(text(""), None);
    assert_eq!(text("."), None);
    assert_eq!(text("-"), None);
    assert_eq!(text("1.2.3"), None);
    assert_eq!(text("1e3"), None);
    assert_eq!(text(" 3.5"), None);
    assert_eq!(text("3,5"), None);
}

#[test]
fn decimal_zero_text() {
    assert_eq!(Decimal::zero().to_text(), "0");
}
