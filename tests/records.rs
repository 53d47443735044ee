use tabelog_scrape::decimal::Decimal;
use tabelog_scrape::driver::{restaurant_ids, restaurant_url, scrape_restaurant, BASE_URL};
use tabelog_scrape::extract::{category_of, page_fields, parse_restaurant_info, ExtractError};
use tabelog_scrape::record::{csv_line, Restaurant};

fn dec(s: &str) -> Decimal {
    Decimal::parse(s).unwrap()
}

fn sushi() -> Restaurant {
    Restaurant::new(
        13000001,
        "Sushi A".to_string(),
        "Sushi".to_string(),
        Some(dec("4.2")),
        dec("35.1"),
        dec("139.2"),
    )
}

#[test]
fn csv_line_of_sushi_record() {
    assert_eq!(csv_line(&sushi()), "13000001,Sushi A,Sushi,4.2,35.1,139.2\n");
}

#[test]
fn csv_line_without_rating_writes_null() {
    let r = Restaurant::new(7, String::new(), String::new(), None, Decimal::zero(), Decimal::zero());
    assert_eq!(csv_line(&r), "7,,,null,0,0\n");
}

#[test]
fn csv_lines_are_identical_on_rerun() {
    let first: String = vec![sushi(), sushi()].iter().map(csv_line).collect();
    let second: String = vec![sushi(), sushi()].iter().map(csv_line).collect();
    assert_eq!(first, second);
    assert_eq!(first.as_bytes(), second.as_bytes());
}

#[test]
fn ids_are_visited_once_in_order() {
    let ids = restaurant_ids(13000001, 100);
    assert_eq!(ids.len(), 100);
    assert_eq!(ids[0], 13000001);
    assert_eq!(ids[99], 13000100);
    assert!(ids.windows(2).all(|w| w[0] + 1 == w[1]));
    assert_eq!(restaurant_ids(5, 3), vec![5, 6, 7]);
    assert!(restaurant_ids(5, 0).is_empty());
}

#[test]
fn url_of_a_page() {
    assert_eq!(restaurant_url(13000001), format!("{}/13000001", BASE_URL));
}

#[test]
fn category_first_match_wins() {
    let rows = vec![
        ("Address".to_string(), "Tokyo".to_string()),
        ("  Categories \n".to_string(), "  Sushi, Seafood ".to_string()),
        ("Categories".to_string(), "Ramen".to_string()),
    ];
    assert_eq!(category_of(&rows), "Sushi, Seafood");
    assert_eq!(category_of(&vec![("Category".to_string(), "x".to_string())]), "");
}

#[test]
fn page_fields_with_only_a_name() {
    let f = page_fields(Some("  Sushi A\n".to_string()), None, &Vec::new(), None);
    assert_eq!(f.name, "Sushi A");
    assert_eq!(f.category, "");
    assert!(f.rating.is_none());
    assert_eq!(f.latitude.to_text(), "0");
    assert_eq!(f.longitude.to_text(), "0");
}

#[test]
fn page_with_only_a_name() {
    let body = "<html><body><table class=\"rstinfo-table\"><tr><td>\
        <div class=\"rstinfo-table__name-wrap\"> <span>Sushi</span> <span>A</span> </div>\
        </td></tr></table></body></html>";
    let r = scrape_restaurant(42, body).unwrap();
    assert_eq!(r.id, 42);
    assert_eq!(r.name, "Sushi A");
    assert_eq!(r.category, "");
    assert!(r.rating.is_none());
    assert_eq!(r.latitude.to_text(), "0");
    assert_eq!(r.longitude.to_text(), "0");
}

#[test]
fn full_page() {
    let body = "<html><body>\
        <b class=\"rdheader-rating__score-val-dtl\">3.58</b>\
        <table class=\"rstinfo-table\">\
        <tr><th>Name</th><td><div class=\"rstinfo-table__name-wrap\">Sushi A</div></td></tr>\
        <tr><th> Categories </th><td> Sushi </td></tr>\
        <tr><th>Address</th><td>Tokyo\
        <img class=\"rstinfo-table__map-image\" \
        data-original=\"https://maps.example.com/img?markers=35.0,139.0|35.681,139.767\"></td></tr>\
        </table></body></html>";
    let r = scrape_restaurant(13000001, body).unwrap();
    assert_eq!(csv_line(&r), "13000001,Sushi A,Sushi,3.58,35.681,139.767\n");
}

#[test]
fn page_without_info_panel_is_skipped() {
    let body = "<html><body><p>Not found</p></body></html>";
    assert!(matches!(scrape_restaurant(1, body), Err(ExtractError::MissingInfoPanel)));
}

#[test]
fn info_with_only_a_name() {
    let body = "<html><body><table class=\"rstinfo-table\"><tr><th>Name</th><td>\
        <span class=\"rstinfo-table__name-wrap\">\n  Ramen B \n</span></td></tr></table></body></html>";
    let f = parse_restaurant_info(body).unwrap();
    assert_eq!(f.name, "Ramen B");
    assert_eq!(f.category, "");
    assert!(f.rating.is_none());
    assert_eq!(f.latitude.to_text(), "0");
    assert_eq!(f.longitude.to_text(), "0");
}

#[test]
fn info_with_map_url_without_markers() {
    let body = "<html><body><b class=\"rdheader-rating__score-val-dtl\">N/A</b>\
        <table class=\"rstinfo-table\">\
        <tr><th>Categories</th><td>Izakaya</td></tr>\
        <tr><td><img class=\"rstinfo-table__map-image\" \
        data-original=\"https://maps.example.com/img?center=35.0,139.0\"></td></tr>\
        </table></body></html>";
    let f = parse_restaurant_info(body).unwrap();
    assert_eq!(f.category, "Izakaya");
    assert!(f.rating.is_none());
    assert_eq!(f.latitude.to_text(), "0");
    assert_eq!(f.longitude.to_text(), "0");
}

#[test]
fn info_without_panel_is_an_error() {
    let body = "<html><body><div class=\"rstinfo-table__name-wrap\">Sushi A</div></body></html>";
    assert!(matches!(parse_restaurant_info(body), Err(ExtractError::MissingInfoPanel)));
}
