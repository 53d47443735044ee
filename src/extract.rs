//! Reading the fields of a listing page out of its HTML text.

use vstd::prelude::*;
use scraper::{Html, Selector};
use crate::coords::{
    coordinates_from_url, lemma_no_markers_gives_origin, markers_key, query_pairs_of, url_coords,
};
use crate::decimal::{Decimal, DecimalView, decimal_of, zero_view};
use crate::record::{FieldsView, TabelogRestaurantPageData};
use crate::text::{trim_text, trimmed};

verus! {

/// The info panel of a page.
pub const PANEL_SELECTOR: &'static str = ".rstinfo-table";

/// The restaurant's name, inside the info panel.
pub const NAME_SELECTOR: &'static str = ".rstinfo-table__name-wrap";

/// The rating score, anywhere on the page.
pub const RATING_SELECTOR: &'static str = ".rdheader-rating__score-val-dtl";

/// The map image, anywhere on the page.
pub const MAP_IMAGE_SELECTOR: &'static str = ".rstinfo-table__map-image";

/// The attribute of the map image that holds its URL.
pub const MAP_IMAGE_ATTRIBUTE: &'static str = "data-original";

/// The rows of the info panel.
pub const ROW_SELECTOR: &'static str = "tr";

/// The header cell of a row.
pub const HEADER_SELECTOR: &'static str = "th";

/// The value cell of a row.
pub const VALUE_SELECTOR: &'static str = "td";

/// Why a page yields no record.
#[derive(Debug, Clone, Copy, PartialEq, Eq)]
pub enum ExtractError {
    /// The page has no info panel.
    MissingInfoPanel,
}

/// The joined text nodes of the first element of the HTML page `body` that the
/// CSS selector `sel` matches; `None` where none does.
pub uninterp spec fn first_text(body: Seq<char>, sel: Seq<char>) -> Option<Seq<char>>;

/// The joined text nodes of the first element that `sel` matches below the first
/// element of the page `body` that `scope` matches.
pub uninterp spec fn first_text_within(body: Seq<char>, scope: Seq<char>, sel: Seq<char>) -> Option<
    Seq<char>,
>;

/// The value of attribute `attr` of the first element of the page `body` that
/// `sel` matches.
pub uninterp spec fn first_attr(body: Seq<char>, sel: Seq<char>, attr: Seq<char>) -> Option<
    Seq<char>,
>;

/// For each element that `row` matches below the first element of the page
/// `body` that `scope` matches, in document order: the joined text of its first
/// `header` element and of its first `value` element.
pub uninterp spec fn row_cells(
    body: Seq<char>,
    scope: Seq<char>,
    row: Seq<char>,
    header: Seq<char>,
    value: Seq<char>,
) -> Seq<(Option<Seq<char>>, Option<Seq<char>>)>;

/// Relies on scraper's `Html::parse_document`, `Selector::parse`, `Html::select`
/// and `ElementRef::text`: the text of the first match of `sel` in the page.
#[verifier::external_body]
fn page_first_text(body: &str, sel: &str) -> (r: Option<String>)
    ensures
        r.deep_view() == first_text(body@, sel@),
{
    let doc = Html::parse_document(body);
    match Selector::parse(sel) {
        Ok(s) => doc.select(&s).next().map(|e| e.text().collect()),
        Err(_) => None,
    }
}

/// Relies on scraper's `Html::parse_document`, `Selector::parse`, `Html::select`,
/// `ElementRef::select` and `ElementRef::text`: the text of the first match of
/// `sel` below the first match of `scope`.
#[verifier::external_body]
fn page_first_text_within(body: &str, scope: &str, sel: &str) -> (r: Option<String>)
    ensures
        r.deep_view() == first_text_within(body@, scope@, sel@),
{
    let doc = Html::parse_document(body);
    match (Selector::parse(scope), Selector::parse(sel)) {
        (Ok(p), Ok(s)) => doc.select(&p).next().and_then(|t| t.select(&s).next()).map(
            |e| e.text().collect(),
        ),
        _ => None,
    }
}

/// Relies on scraper's `Html::parse_document`, `Selector::parse`, `Html::select`
/// and `Element::attr`: attribute `attr` of the first match of `sel`.
#[verifier::external_body]
fn page_first_attr(body: &str, sel: &str, attr: &str) -> (r: Option<String>)
    ensures
        r.deep_view() == first_attr(body@, sel@, attr@),
{
    let doc = Html::parse_document(body);
    match Selector::parse(sel) {
        Ok(s) => doc.select(&s).next().and_then(|e| e.value().attr(attr)).map(|a| a.to_string()),
        Err(_) => None,
    }
}

/// Relies on scraper's `Html::parse_document`, `Selector::parse`, `Html::select`,
/// `ElementRef::select` and `ElementRef::text`: the header and value texts of the
/// rows below the first match of `scope`.
#[verifier::external_body]
fn page_row_cells(body: &str, scope: &str, row: &str, header: &str, value: &str) -> (r: Vec<
    (Option<String>, Option<String>),
>)
    ensures
        r.deep_view() == row_cells(body@, scope@, row@, header@, value@),
{
    let doc = Html::parse_document(body);
    match (Selector::parse(scope), Selector::parse(row), Selector::parse(header), Selector::parse(value)) {
        (Ok(p), Ok(r), Ok(h), Ok(v)) => doc.select(&p).next().map_or(Vec::new(), |t| t.select(&r).map(
            |e| (e.select(&h).next().map(|c| c.text().collect()), e.select(&v).next().map(|c| c.text().collect())),
        ).collect()),
        _ => Vec::new(),
    }
}

pub open spec fn categories_key() -> Seq<char> {
    seq!['C', 'a', 't', 'e', 'g', 'o', 'r', 'i', 'e', 's']
}

/// The name: the trimmed text of the name element; empty without one.
pub open spec fn name_field(text: Option<Seq<char>>) -> Seq<char> {
    match text {
        Some(t) => trimmed(t),
        None => Seq::empty(),
    }
}

/// The rating: the text of the rating element read as a decimal literal, as it
/// stands; none without the element or where its text is no literal.
pub open spec fn rating_field(text: Option<Seq<char>>) -> Option<DecimalView> {
    match text {
        Some(t) => decimal_of(t),
        None => None,
    }
}

/// The category: the trimmed value of the first row, among the panel's rows with
/// a header cell and a value cell, whose header trims to `Categories`; empty
/// where there is none.
pub open spec fn category_field(rows: Seq<(Seq<char>, Seq<char>)>) -> Seq<char>
    decreases rows.len(),
{
    if rows.len() == 0 {
        Seq::empty()
    } else if trimmed(rows[0].0) == categories_key() {
        trimmed(rows[0].1)
    } else {
        category_field(rows.drop_first())
    }
}

/// The coordinates: those of the map image's URL, `(0, 0)` without one.
pub open spec fn coords_field(url: Option<Seq<char>>) -> (DecimalView, DecimalView) {
    match url {
        Some(u) => url_coords(u),
        None => (zero_view(), zero_view()),
    }
}

/// All the fields of a page, from the texts read out of it: the name element's
/// text, the rating element's text, the (header, value) texts of the panel's
/// rows, and the map image's URL.
pub open spec fn fields_of(
    name_text: Option<Seq<char>>,
    rating_text: Option<Seq<char>>,
    rows: Seq<(Seq<char>, Seq<char>)>,
    map_url: Option<Seq<char>>,
) -> FieldsView {
    FieldsView {
        name: name_field(name_text),
        category: category_field(rows),
        rating: rating_field(rating_text),
        latitude: coords_field(map_url).0,
        longitude: coords_field(map_url).1,
    }
}

/// Reads a rating from the text of its element; `None` where it is no decimal literal.
pub fn parse_rating(text: &str) -> (r: Option<Decimal>)
    ensures
        match r {
            Some(d) => decimal_of(text@) == Some(d@),
            None => decimal_of(text@) is None,
        },
{
    Decimal::parse(text)
}

/// Finds the category among the (header, value) texts of the panel's rows: the
/// first row whose header is `Categories` wins.
pub fn category_of(rows: &Vec<(String, String)>) -> (r: String)
    ensures
        r@ == category_field(rows.deep_view()),
{
    let key = String::from_str("Categories");
    proof {
        reveal_strlit("Categories");
        assert(key@ =~= categories_key());
    }
    let ghost all = rows.deep_view();
    let mut i: usize = 0;
    assert(all.skip(0) =~= all);
    while i < rows.len()
        invariant
            i <= rows@.len(),
            all == rows.deep_view(),
            key@ == categories_key(),
            category_field(all) == category_field(all.skip(i as int)),
        decreases rows.len() - i,
    {
        assert(all[i as int] == (rows@[i as int].0@, rows@[i as int].1@));
        assert(all.skip(i as int).drop_first() =~= all.skip(i + 1));
        let header = trim_text(rows[i].0.as_str());
        if header == key {
            return trim_text(rows[i].1.as_str());
        }
        i += 1;
    }
    String::new()
}

/// Puts together the fields of a page from the texts read out of it.
pub fn page_fields(
    name_text: Option<String>,
    rating_text: Option<String>,
    rows: &Vec<(String, String)>,
    map_url: Option<String>,
) -> (r: TabelogRestaurantPageData)
    ensures
        r@ == fields_of(name_text.deep_view(), rating_text.deep_view(), rows.deep_view(), map_url.deep_view()),
{
    let name = match &name_text {
        Some(t) => trim_text(t.as_str()),
        None => String::new(),
    };
    let rating = match &rating_text {
        Some(t) => parse_rating(t.as_str()),
        None => None,
    };
    let category = category_of(rows);
    let (latitude, longitude) = match &map_url {
        Some(u) => coordinates_from_url(u.as_str()),
        None => (Decimal::zero(), Decimal::zero()),
    };
    TabelogRestaurantPageData::new(name, category, rating, latitude, longitude)
}

/// The rows that have both a header cell and a value cell, in order.
pub open spec fn complete_rows(cells: Seq<(Option<Seq<char>>, Option<Seq<char>>)>) -> Seq<
    (Seq<char>, Seq<char>),
>
    decreases cells.len(),
{
    if cells.len() == 0 {
        Seq::empty()
    } else {
        let rest = complete_rows(cells.drop_last());
        match cells.last() {
            (Some(h), Some(v)) => rest.push((h, v)),
            _ => rest,
        }
    }
}

/// Whether the page `body` has an info panel.
pub open spec fn has_panel(body: Seq<char>) -> bool {
    first_text(body, PANEL_SELECTOR@) is Some
}

/// The fields of the page `body`: the name below the info panel, the rating, the
/// category among the panel's complete rows, and the map image's URL.
pub open spec fn page_fields_of(body: Seq<char>) -> FieldsView {
    fields_of(
        first_text_within(body, PANEL_SELECTOR@, NAME_SELECTOR@),
        first_text(body, RATING_SELECTOR@),
        complete_rows(
            row_cells(body, PANEL_SELECTOR@, ROW_SELECTOR@, HEADER_SELECTOR@, VALUE_SELECTOR@),
        ),
        first_attr(body, MAP_IMAGE_SELECTOR@, MAP_IMAGE_ATTRIBUTE@),
    )
}

/// Reads the fields of a listing page from its HTML text. Fails exactly where the
/// page has no info panel; a missing or unreadable field takes its default instead.
pub fn parse_restaurant_info(body: &str) -> (r: Result<TabelogRestaurantPageData, ExtractError>)
    ensures
        r is Err <==> !has_panel(body@),
        r matches Ok(d) ==> d@ == page_fields_of(body@),
        r matches Err(e) ==> e == ExtractError::MissingInfoPanel,
{
    match page_first_text(body, PANEL_SELECTOR) {
        Some(_) => {},
        None => {
            return Err(ExtractError::MissingInfoPanel);
        },
    }
    let name_text = page_first_text_within(body, PANEL_SELECTOR, NAME_SELECTOR);
    let rating_text = page_first_text(body, RATING_SELECTOR);
    let cells = page_row_cells(
        body,
        PANEL_SELECTOR,
        ROW_SELECTOR,
        HEADER_SELECTOR,
        VALUE_SELECTOR,
    );
    let ghost all = cells.deep_view();
    let mut rows: Vec<(String, String)> = Vec::new();
    let mut i: usize = 0;
    while i < cells.len()
        invariant
            i <= cells@.len(),
            all == cells.deep_view(),
            rows.deep_view() == complete_rows(all.take(i as int)),
        decreases cells.len() - i,
    {
        assert(all.take(i + 1).drop_last() =~= all.take(i as int));
        assert(all[i as int] == cells@[i as int].deep_view());
        match (&cells[i].0, &cells[i].1) {
            (Some(h), Some(v)) => {
                rows.push((h.clone(), v.clone()));
                assert(rows.deep_view() =~= complete_rows(all.take(i + 1)));
            },
            _ => {},
        }
        i += 1;
    }
    assert(all.take(i as int) =~= all);
    let map_url = page_first_attr(body, MAP_IMAGE_SELECTOR, MAP_IMAGE_ATTRIBUTE);
    Ok(page_fields(name_text, rating_text, &rows, map_url))
}

/// A page whose info panel shows only a name, with no rating, no `Categories` row
/// and no map image, is read without error and yields that name, trimmed, no
/// rating, an empty category and the coordinates `(0, 0)`.
pub proof fn lemma_name_only_page(body: Seq<char>, name_text: Seq<char>)
    requires
        has_panel(body),
        first_text_within(body, PANEL_SELECTOR@, NAME_SELECTOR@) == Some(name_text),
        first_text(body, RATING_SELECTOR@) is None,
        forall|i: int|
            0 <= i < complete_rows(
                row_cells(body, PANEL_SELECTOR@, ROW_SELECTOR@, HEADER_SELECTOR@, VALUE_SELECTOR@),
            ).len() ==> trimmed(
                #[trigger] complete_rows(
                    row_cells(body, PANEL_SELECTOR@, ROW_SELECTOR@, HEADER_SELECTOR@, VALUE_SELECTOR@),
                )[i].0,
            ) != categories_key(),
        first_attr(body, MAP_IMAGE_SELECTOR@, MAP_IMAGE_ATTRIBUTE@) is None,
    ensures
        page_fields_of(body) == (FieldsView {
            name: trimmed(name_text),
            category: Seq::empty(),
            rating: None,
            latitude: zero_view(),
            longitude: zero_view(),
        }),
{
    lemma_no_category_row(
        complete_rows(
            row_cells(body, PANEL_SELECTOR@, ROW_SELECTOR@, HEADER_SELECTOR@, VALUE_SELECTOR@),
        ),
    );
}

/// A page whose map image's URL has no `markers` parameter yields the
/// coordinates `(0, 0)`; the page is still read wherever it has an info panel.
pub proof fn lemma_page_without_markers(body: Seq<char>, url: Seq<char>)
    requires
        first_attr(body, MAP_IMAGE_SELECTOR@, MAP_IMAGE_ATTRIBUTE@) == Some(url),
        match query_pairs_of(url) {
            Some(pairs) => forall|i: int|
                0 <= i < pairs.len() ==> #[trigger] pairs[i].0 != markers_key(),
            None => true,
        },
    ensures
        page_fields_of(body).latitude == zero_view(),
        page_fields_of(body).longitude == zero_view(),
{
    lemma_no_markers_gives_origin(url);
}

proof fn lemma_no_category_row(rows: Seq<(Seq<char>, Seq<char>)>)
    requires
        forall|i: int| 0 <= i < rows.len() ==> trimmed(#[trigger] rows[i].0) != categories_key(),
    ensures
        category_field(rows) == Seq::<char>::empty(),
    decreases rows.len(),
{
    if rows.len() > 0 {
        assert(trimmed(rows[0].0) != categories_key());
        let rest = rows.drop_first();
        assert forall|i: int| 0 <= i < rest.len() implies trimmed(#[trigger] rest[i].0)
            != categories_key() by {
            assert(rest[i] == rows[i + 1]);
        }
        lemma_no_category_row(rest);
    }
}

} // verus!
