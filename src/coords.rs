//! Coordinates read from the `markers` parameter of a map image's URL.

use vstd::prelude::*;
use crate::decimal::{Decimal, decimal_of, zero_view};
use crate::text::{pieces, split_on};

verus! {

/// The name/value pairs of the query of `url`, decoded, in order; `None` where
/// `url` is no absolute URL.
pub uninterp spec fn query_pairs_of(url: Seq<char>) -> Option<Seq<(Seq<char>, Seq<char>)>>;

/// Relies on `Url::parse` (the `url` crate, as reqwest re-exports it) and on
/// `Url::query_pairs`: the decoded query pairs of an absolute URL; the empty
/// text is no absolute URL.
#[verifier::external_body]
fn url_query_pairs(url: &str) -> (r: Option<Vec<(String, String)>>)
    ensures
        r.deep_view() == query_pairs_of(url@),
        url@.len() == 0 ==> r is None,
{
    match reqwest::Url::parse(url) {
        Ok(u) => Some(u.query_pairs().map(|(k, v)| (k.into_owned(), v.into_owned())).collect()),
        Err(_) => None,
    }
}

pub open spec fn markers_key() -> Seq<char> {
    seq!['m', 'a', 'r', 'k', 'e', 'r', 's']
}

/// The second `|`-separated group of the first `markers` pair that has one.
pub open spec fn marker_group(pairs: Seq<(Seq<char>, Seq<char>)>) -> Option<Seq<char>>
    decreases pairs.len(),
{
    if pairs.len() == 0 {
        None
    } else if pairs[0].0 == markers_key() && pieces(pairs[0].1, '|').len() >= 2 {
        Some(pieces(pairs[0].1, '|')[1])
    } else {
        marker_group(pairs.drop_first())
    }
}

/// Latitude and longitude of a group `lat,lon`: exactly two tokens, each a
/// decimal literal; `(0, 0)` otherwise.
pub open spec fn group_coords(g: Seq<char>) -> ((bool, Seq<char>, Seq<char>), (bool, Seq<char>, Seq<char>)) {
    let t = pieces(g, ',');
    if t.len() == 2 && decimal_of(t[0]) is Some && decimal_of(t[1]) is Some {
        (decimal_of(t[0])->0, decimal_of(t[1])->0)
    } else {
        (zero_view(), zero_view())
    }
}

/// The coordinates that a list of query pairs gives; `(0, 0)` without a usable group.
pub open spec fn pairs_coords(pairs: Seq<(Seq<char>, Seq<char>)>) -> ((bool, Seq<char>, Seq<char>), (bool, Seq<char>, Seq<char>)) {
    match marker_group(pairs) {
        Some(g) => group_coords(g),
        None => (zero_view(), zero_view()),
    }
}

/// The coordinates that a map image's URL gives; `(0, 0)` where it is no URL.
pub open spec fn url_coords(url: Seq<char>) -> ((bool, Seq<char>, Seq<char>), (bool, Seq<char>, Seq<char>)) {
    match query_pairs_of(url) {
        Some(pairs) => pairs_coords(pairs),
        None => (zero_view(), zero_view()),
    }
}

/// Reads the coordinates of one marker group `lat,lon`.
pub fn group_coordinates(group: &str) -> (r: (Decimal, Decimal))
    ensures
        (r.0@, r.1@) == group_coords(group@),
{
    let tokens = split_on(group, ',');
    assert(tokens.deep_view().len() == tokens@.len());
    if tokens.len() == 2 {
        assert(tokens.deep_view()[0] == tokens@[0]@);
        assert(tokens.deep_view()[1] == tokens@[1]@);
        let lat = Decimal::parse(tokens[0].as_str());
        let lon = Decimal::parse(tokens[1].as_str());
        match (lat, lon) {
            (Some(a), Some(b)) => {
                return (a, b);
            },
            _ => {},
        }
    }
    (Decimal::zero(), Decimal::zero())
}

/// Reads the coordinates from the query pairs of a map image's URL: the second
/// `|`-separated group of the first `markers` pair that has two.
pub fn marker_coordinates(pairs: &Vec<(String, String)>) -> (r: (Decimal, Decimal))
    ensures
        (r.0@, r.1@) == pairs_coords(pairs.deep_view()),
{
    let key = String::from_str("markers");
    proof {
        reveal_strlit("markers");
        assert(key@ =~= markers_key());
    }
    let ghost all = pairs.deep_view();
    let mut i: usize = 0;
    assert(all.skip(0) =~= all);
    while i < pairs.len()
        invariant
            i <= pairs@.len(),
            all == pairs.deep_view(),
            key@ == markers_key(),
            marker_group(all) == marker_group(all.skip(i as int)),
        decreases pairs.len() - i,
    {
        let groups = split_on(pairs[i].1.as_str(), '|');
        assert(all[i as int] == (pairs@[i as int].0@, pairs@[i as int].1@));
        assert(all.skip(i as int).drop_first() =~= all.skip(i + 1));
        assert(groups.deep_view().len() == groups@.len());
        if pairs[i].0 == key && groups.len() >= 2 {
            assert(groups.deep_view()[1] == groups@[1]@);
            return group_coordinates(groups[1].as_str());
        }
        i += 1;
    }
    (Decimal::zero(), Decimal::zero())
}

/// Reads the coordinates of a map image from its URL; `(0, 0)` wherever the URL,
/// its `markers` parameter or the group in it is missing or malformed.
pub fn coordinates_from_url(url: &str) -> (r: (Decimal, Decimal))
    ensures
        (r.0@, r.1@) == url_coords(url@),
{
    match url_query_pairs(url) {
        Some(pairs) => marker_coordinates(&pairs),
        None => (Decimal::zero(), Decimal::zero()),
    }
}

/// A URL without a `markers` parameter, or no URL at all, gives the coordinates
/// `(0, 0)`, and no error.
pub proof fn lemma_no_markers_gives_origin(url: Seq<char>)
    requires
        match query_pairs_of(url) {
            Some(pairs) => forall|i: int| 0 <= i < pairs.len() ==> #[trigger] pairs[i].0 != markers_key(),
            None => true,
        },
    ensures
        url_coords(url) == (zero_view(), zero_view()),
{
    if let Some(pairs) = query_pairs_of(url) {
        lemma_no_marker_group(pairs);
    }
}

proof fn lemma_no_marker_group(pairs: Seq<(Seq<char>, Seq<char>)>)
    requires
        forall|i: int| 0 <= i < pairs.len() ==> #[trigger] pairs[i].0 != markers_key(),
    ensures
        marker_group(pairs) is None,
    decreases pairs.len(),
{
    if pairs.len() > 0 {
        assert(pairs[0].0 != markers_key());
        let rest = pairs.drop_first();
        assert forall|i: int| 0 <= i < rest.len() implies #[trigger] rest[i].0 != markers_key() by {
            assert(rest[i] == pairs[i + 1]);
        }
        lemma_no_marker_group(rest);
    }
}

} // verus!
