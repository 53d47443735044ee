use tabelog_scrape::coords::{coordinates_from_url, group_coordinates, marker_coordinates};

fn texts(c: (tabelog_scrape::decimal::Decimal, tabelog_scrape::decimal::Decimal)) -> (String, String) {
    (c.0.to_text(), c.1.to_text())
}

fn origin() -> (String, String) {
    ("0".to_string(), "0".to_string())
}

#[test]
fn second_marker_group_is_taken() {
    let url = "https://maps.example.com/img?markers=35.0,139.0|35.681,139.767";
    assert_eq!(texts(coordinates_from_url(url)), ("35.681".to_string(), "139.767".to_string()));
}

#[test]
fn markers_after_other_parameters() {
    let url = "https://maps.example.com/img?size=200x200&markers=1,2|-35.5,139.25&zoom=3";
    assert_eq!(texts(coordinates_from_url(url)), ("-35.5".to_string(), "139.25".to_string()));
}

#[test]
fn missing_markers_gives_origin() {
    let url = "https://maps.example.com/img?center=35.0,139.0";
    assert_eq!(texts(coordinates_from_url(url)), origin());
}

#[test]
fn malformed_url_gives_origin() {
    assert_eq!(texts(coordinates_from_url("not a url")), origin());
    assert_eq!(texts(coordinates_from_url("")), origin());
}

#[test]
fn single_group_gives_origin() {
    let url = "https://maps.example.com/img?markers=35.0,139.0";
    assert_eq!(texts(coordinates_from_url(url)), origin());
}

#[test]
fn non_numeric_token_gives_origin() {
    let url = "https://maps.example.com/img?markers=35.0,139.0|north,139.767";
    assert_eq!(texts(coordinates_from_url(url)), origin());
}

#[test]
fn group_needs_exactly_two_tokens() {
    assert_eq!(texts(group_coordinates("1,2,3")), origin());
    assert_eq!(texts(group_coordinates("1")), origin());
    assert_eq!(texts(group_coordinates("1.5,2")), ("1.5".to_string(), "2".to_string()));
}

#[test]
fn first_markers_pair_with_second_group_wins() {
    let pairs = vec![
        ("markers".to_string(), "9,9".to_string()),
        ("markers".to_string(), "0,0|1,2".to_string()),
        ("markers".to_string(), "0,0|3,4".to_string()),
    ];
    assert_eq!(texts(marker_coordinates(&pairs)), ("1".to_string(), "2".to_string()));
}

#[test]
fn percent_encoded_separator_is_decoded() {
    let url = "https://maps.example.com/img?markers=35.0,139.0%7C35.681,139.767";
    assert_eq!(texts(coordinates_from_url(url)), ("35.681".to_string(), "139.767".to_string()));
}
