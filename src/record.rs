//! Restaurant records and their comma-separated rendering.

use vstd::prelude::*;
use crate::decimal::{Decimal, DecimalView, decimal_text};
use crate::text::{numeral, u32_text};

verus! {

pub open spec fn opt_view(d: Option<Decimal>) -> Option<DecimalView> {
    match d {
        Some(x) => Some(x@),
        None => None,
    }
}

/// What one page yields, in the abstract.
pub struct FieldsView {
    pub name: Seq<char>,
    pub category: Seq<char>,
    pub rating: Option<DecimalView>,
    pub latitude: DecimalView,
    pub longitude: DecimalView,
}

/// A record in the abstract.
pub struct RecordView {
    pub id: u32,
    pub name: Seq<char>,
    pub category: Seq<char>,
    pub rating: Option<DecimalView>,
    pub latitude: DecimalView,
    pub longitude: DecimalView,
}

/// The fields read from one listing page, before they are tied to an identifier.
#[derive(Debug)]
pub struct TabelogRestaurantPageData {
    pub name: String,
    pub category: String,
    pub rating: Option<Decimal>,
    pub latitude: Decimal,
    pub longitude: Decimal,
}

impl View for TabelogRestaurantPageData {
    type V = FieldsView;

    open spec fn view(&self) -> FieldsView {
        FieldsView {
            name: self.name@,
            category: self.category@,
            rating: opt_view(self.rating),
            latitude: self.latitude@,
            longitude: self.longitude@,
        }
    }
}

impl TabelogRestaurantPageData {
    pub fn new(
        name: String,
        category: String,
        rating: Option<Decimal>,
        latitude: Decimal,
        longitude: Decimal,
    ) -> (r: Self)
        ensures
            r@ == (FieldsView {
                name: name@,
                category: category@,
                rating: opt_view(rating),
                latitude: latitude@,
                longitude: longitude@,
            }),
    {
        TabelogRestaurantPageData { name, category, rating, latitude, longitude }
    }
}

/// One restaurant: its identifier and the fields read from its page.
#[derive(Debug)]
pub struct Restaurant {
    pub id: u32,
    pub name: String,
    pub category: String,
    pub rating: Option<Decimal>,
    pub latitude: Decimal,
    pub longitude: Decimal,
}

impl View for Restaurant {
    type V = RecordView;

    open spec fn view(&self) -> RecordView {
        RecordView {
            id: self.id,
            name: self.name@,
            category: self.category@,
            rating: opt_view(self.rating),
            latitude: self.latitude@,
            longitude: self.longitude@,
        }
    }
}

/// The record of `id` with the fields `f`.
pub open spec fn record_of(id: u32, f: FieldsView) -> RecordView {
    RecordView {
        id,
        name: f.name,
        category: f.category,
        rating: f.rating,
        latitude: f.latitude,
        longitude: f.longitude,
    }
}

impl Restaurant {
    pub fn new(
        id: u32,
        name: String,
        category: String,
        rating: Option<Decimal>,
        latitude: Decimal,
        longitude: Decimal,
    ) -> (r: Self)
        ensures
            r@ == (RecordView {
                id,
                name: name@,
                category: category@,
                rating: opt_view(rating),
                latitude: latitude@,
                longitude: longitude@,
            }),
    {
        Restaurant { id, name, category, rating, latitude, longitude }
    }
}

/// How a rating is written: its literal, or `null` where there is none.
pub open spec fn rating_cell(r: Option<DecimalView>) -> Seq<char> {
    match r {
        Some(d) => decimal_text(d),
        None => seq!['n', 'u', 'l', 'l'],
    }
}

/// The line of a record: its six fields in the order id, name, category, rating,
/// latitude, longitude, separated by commas, ended by a newline, nothing quoted.
pub open spec fn csv_line_of(v: RecordView) -> Seq<char> {
    numeral(v.id as nat) + seq![','] + v.name + seq![','] + v.category + seq![','] + rating_cell(
        v.rating,
    ) + seq![','] + decimal_text(v.latitude) + seq![','] + decimal_text(v.longitude) + seq!['\n']
}

/// What a fresh sink holds after the lines of `records` were written to it in order.
pub open spec fn sink_text(records: Seq<RecordView>) -> Seq<char>
    decreases records.len(),
{
    if records.len() == 0 {
        Seq::empty()
    } else {
        sink_text(records.drop_last()) + csv_line_of(records.last())
    }
}

/// Renders the line that stands for `restaurant` in the output file.
pub fn csv_line(restaurant: &Restaurant) -> (r: String)
    ensures
        r@ == csv_line_of(restaurant@),
{
    proof {
        reveal_strlit(",");
        reveal_strlit("null");
        reveal_strlit("\n");
    }
    let mut line = u32_text(restaurant.id);
    line.append(",");
    line.append(restaurant.name.as_str());
    line.append(",");
    line.append(restaurant.category.as_str());
    line.append(",");
    match &restaurant.rating {
        Some(d) => {
            let t = d.to_text();
            line.append(t.as_str());
        },
        None => {
            line.append("null");
        },
    }
    line.append(",");
    let lat = restaurant.latitude.to_text();
    line.append(lat.as_str());
    line.append(",");
    let lon = restaurant.longitude.to_text();
    line.append(lon.as_str());
    line.append("\n");
    assert(line@ =~= csv_line_of(restaurant@));
    line
}

/// Writing the same records, in the same order, to a fresh sink gives the same
/// text every time.
pub proof fn lemma_rewrite_is_identical(a: Seq<RecordView>, b: Seq<RecordView>)
    requires
        a == b,
    ensures
        sink_text(a) == sink_text(b),
{
}

} // verus!
