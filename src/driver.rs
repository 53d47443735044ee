//! The run over a range of identifiers, one page at a time.

use vstd::prelude::*;
use crate::extract::{ExtractError, has_panel, page_fields_of, parse_restaurant_info};
use crate::record::{Restaurant, record_of};
use crate::text::{numeral, u32_text};

verus! {

/// Where the listing pages are found; a page's URL adds `/` and its identifier.
pub const BASE_URL: &'static str = "https://tabelog.com/en/tokyo/A0000/A000000/";

/// The identifiers `start`, `start + 1`, ... below `start + quantity`, in order.
pub open spec fn id_range(start: u32, quantity: u32) -> Seq<u32> {
    Seq::new(quantity as nat, |i: int| (start + i) as u32)
}

/// The identifiers to visit, in the order of the run.
pub fn restaurant_ids(start: u32, quantity: u32) -> (r: Vec<u32>)
    requires
        start + quantity <= u32::MAX,
    ensures
        r@ == id_range(start, quantity),
{
    let mut ids: Vec<u32> = Vec::new();
    let end = start + quantity;
    let mut i = start;
    while i < end
        invariant
            start <= i <= end,
            end == start + quantity,
            ids@ == id_range(start, (i - start) as u32),
        decreases end - i,
    {
        ids.push(i);
        assert(ids@ =~= id_range(start, (i + 1 - start) as u32));
        i += 1;
    }
    assert(ids@ =~= id_range(start, quantity));
    ids
}

/// Every identifier of `[start, start + quantity)` is visited exactly once, and
/// in ascending order.
pub proof fn lemma_ids_once_in_order(start: u32, quantity: u32)
    requires
        start + quantity <= u32::MAX,
    ensures
        forall|i: int, j: int|
            0 <= i < j < quantity ==> #[trigger] id_range(start, quantity)[i] < #[trigger] id_range(start, quantity)[j],
        forall|id: u32|
            start <= id < start + quantity ==> #[trigger] id_range(start, quantity).contains(id),
        forall|i: int, j: int|
            0 <= i < quantity && 0 <= j < quantity && #[trigger] id_range(start, quantity)[i]
                == #[trigger] id_range(start, quantity)[j] ==> i == j,
{
    assert forall|id: u32| start <= id < start + quantity implies #[trigger] id_range(
        start,
        quantity,
    ).contains(id) by {
        assert(id_range(start, quantity)[id - start] == id);
    }
}

/// The URL of the page of `id`.
pub fn restaurant_url(id: u32) -> (r: String)
    ensures
        r@ == BASE_URL@ + seq!['/'] + numeral(id as nat),
{
    let mut url = String::from_str(BASE_URL);
    proof {
        reveal_strlit("/");
    }
    url.append("/");
    let digits = u32_text(id);
    url.append(digits.as_str());
    url
}

/// The record of `id` from the HTML text of its page: the page's fields under that
/// identifier, or, where the page has no info panel, that error.
pub fn scrape_restaurant(id: u32, body: &str) -> (r: Result<Restaurant, ExtractError>)
    ensures
        r is Err <==> !has_panel(body@),
        r matches Ok(rec) ==> rec@ == record_of(id, page_fields_of(body@)),
        r matches Err(e) ==> e == ExtractError::MissingInfoPanel,
{
    match parse_restaurant_info(body) {
        Ok(f) => Ok(Restaurant::new(id, f.name, f.category, f.rating, f.latitude, f.longitude)),
        Err(e) => Err(e),
    }
}

} // verus!
