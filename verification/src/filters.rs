//! Query filters: the price bands and categories that a client may ask for,
//! and the bounds that the store is queried with.
//!
//! Prices are counted in hundredths of the currency unit.

use vstd::prelude::*;
use crate::text::views_of;

verus! {

/// Lower bound of the lowest band, in hundredths.
pub const MIN_POSSIBLE_PRICE: u32 = 0;

/// Upper bound of the highest band, in hundredths.
pub const MAX_POSSIBLE_PRICE: u32 = 100_000_000;

/// The filters as a client sends them: category tags and price band numbers.
#[derive(Debug, Clone)]
pub struct Filters {
    pub type_: Vec<String>,
    pub price: Vec<u32>,
}

/// The price range that a set of bands covers, in hundredths. A `min` of
/// `None` lies above every price, so that no item is in the range.
#[derive(Debug, Clone, Copy, PartialEq, Eq)]
pub struct PriceBounds {
    pub min: Option<u32>,
    pub max: u32,
}

/// The filters as the store is queried with them.
#[derive(Debug, Clone)]
pub struct DbFilters {
    pub type_: Vec<String>,
    pub price_min: Option<u32>,
    pub price_max: u32,
}

/// Whether `band` is one of the four price bands.
pub open spec fn is_band(band: u32) -> bool {
    1 <= band <= 4
}

/// The lowest price of a band, in hundredths.
pub open spec fn band_low(band: u32) -> u32
    recommends
        is_band(band),
{
    if band == 1 {
        MIN_POSSIBLE_PRICE
    } else if band == 2 {
        2_000
    } else if band == 3 {
        5_000
    } else {
        10_000
    }
}

/// The highest price of a band, in hundredths.
pub open spec fn band_high(band: u32) -> u32
    recommends
        is_band(band),
{
    if band == 1 {
        1_999
    } else if band == 2 {
        4_999
    } else if band == 3 {
        9_999
    } else {
        MAX_POSSIBLE_PRICE
    }
}

/// The range that the bands named in `price_filter` cover together: every
/// price where no band is named; otherwise from the lowest price of the lowest
/// band named to the highest price of the highest one. Numbers that name no
/// band are ignored, and a filter of such numbers alone covers nothing.
pub open spec fn bounds_of(price_filter: Seq<u32>) -> PriceBounds {
    if price_filter.len() == 0 {
        PriceBounds { min: Some(MIN_POSSIBLE_PRICE), max: MAX_POSSIBLE_PRICE }
    } else {
        PriceBounds {
            min: if price_filter.contains(1) {
                Some(band_low(1))
            } else if price_filter.contains(2) {
                Some(band_low(2))
            } else if price_filter.contains(3) {
                Some(band_low(3))
            } else if price_filter.contains(4) {
                Some(band_low(4))
            } else {
                None
            },
            max: if price_filter.contains(4) {
                band_high(4)
            } else if price_filter.contains(3) {
                band_high(3)
            } else if price_filter.contains(2) {
                band_high(2)
            } else if price_filter.contains(1) {
                band_high(1)
            } else {
                0
            },
        }
    }
}

/// The category tags that are queried where the client names none.
pub open spec fn default_types() -> Seq<Seq<char>> {
    seq!["necklace"@, "bracelet"@, "ring"@, "earring"@]
}

/// Whether `band` occurs in `price_filter`.
fn names_band(price_filter: &[u32], band: u32) -> (found: bool)
    ensures
        found == price_filter@.contains(band),
{
    let mut i: usize = 0;
    while i < price_filter.len()
        invariant
            i <= price_filter.len(),
            forall|k: int| 0 <= k < i ==> price_filter@[k] != band,
        decreases price_filter.len() - i,
    {
        if price_filter[i] == band {
            return true;
        }
        i += 1;
    }
    false
}

/// The price range that the bands in `price_filter` cover. It holds the whole
/// of every band that the filter names.
pub fn to_min_max(price_filter: &[u32]) -> (bounds: PriceBounds)
    ensures
        bounds == bounds_of(price_filter@),
        forall|band: u32|
            is_band(band) && #[trigger] price_filter@.contains(band) ==> bounds.min is Some
                && bounds.min->0 <= band_low(band) && band_high(band) <= bounds.max,
{
    proof {
        assert forall|band: u32| is_band(band) && #[trigger] price_filter@.contains(band) implies {
            let covered = bounds_of(price_filter@);
            covered.min is Some && covered.min->0 <= band_low(band) && band_high(band)
                <= covered.max
        } by {
            lemma_bounds_cover_named_bands(price_filter@, band);
        }
    }
    if price_filter.len() == 0 {
        return PriceBounds { min: Some(MIN_POSSIBLE_PRICE), max: MAX_POSSIBLE_PRICE };
    }
    let mut min: Option<u32> = None;
    let mut max: u32 = 0;
    if names_band(price_filter, 4) {
        min = Some(10_000);
        max = MAX_POSSIBLE_PRICE;
    }
    if names_band(price_filter, 3) {
        min = Some(5_000);
        if max < 9_999 {
            max = 9_999;
        }
    }
    if names_band(price_filter, 2) {
        min = Some(2_000);
        if max < 4_999 {
            max = 4_999;
        }
    }
    if names_band(price_filter, 1) {
        min = Some(MIN_POSSIBLE_PRICE);
        if max < 1_999 {
            max = 1_999;
        }
    }
    PriceBounds { min, max }
}

/// Where a filter names a band, the range runs from the lowest price of a band
/// that it names to the highest price of a band that it names, and holds the
/// whole of every band that it names.
pub proof fn lemma_bounds_cover_named_bands(price_filter: Seq<u32>, band: u32)
    requires
        is_band(band),
        price_filter.contains(band),
    ensures
        bounds_of(price_filter).min matches Some(low) && low <= band_low(band) && exists|b: u32|
            is_band(b) && price_filter.contains(b) && low == #[trigger] band_low(b),
        band_high(band) <= bounds_of(price_filter).max,
        exists|b: u32|
            is_band(b) && price_filter.contains(b) && bounds_of(price_filter).max
                == #[trigger] band_high(b),
{
    let bounds = bounds_of(price_filter);
    let lowest: u32 = if price_filter.contains(1) {
        1
    } else if price_filter.contains(2) {
        2
    } else if price_filter.contains(3) {
        3
    } else {
        4
    };
    let highest: u32 = if price_filter.contains(4) {
        4
    } else if price_filter.contains(3) {
        3
    } else if price_filter.contains(2) {
        2
    } else {
        1
    };
    assert(bounds.min == Some(band_low(lowest)));
    assert(bounds.max == band_high(highest));
}

/// The filters to query the store with: the client's category tags, or the
/// four default ones where it names none, and the range of its price bands.
pub fn to_db_filters(filters: &Filters) -> (out: DbFilters)
    ensures
        views_of(out.type_@) == if filters.type_@.len() == 0 {
            default_types()
        } else {
            views_of(filters.type_@)
        },
        out.price_min == bounds_of(filters.price@).min,
        out.price_max == bounds_of(filters.price@).max,
{
    let mut type_filter: Vec<String> = Vec::new();
    if filters.type_.len() == 0 {
        type_filter.push("necklace".to_owned());
        type_filter.push("bracelet".to_owned());
        type_filter.push("ring".to_owned());
        type_filter.push("earring".to_owned());
        assert(views_of(type_filter@) =~= default_types());
    } else {
        let mut i: usize = 0;
        while i < filters.type_.len()
            invariant
                i <= filters.type_.len(),
                views_of(type_filter@) == views_of(filters.type_@).take(i as int),
            decreases filters.type_.len() - i,
        {
            let ghost copied = views_of(type_filter@);
            type_filter.push(filters.type_[i].clone());
            assert(views_of(type_filter@) =~= copied.push(filters.type_@[i as int]@));
            assert(views_of(type_filter@) =~= views_of(filters.type_@).take(i + 1));
            i += 1;
        }
        assert(views_of(filters.type_@).take(i as int) =~= views_of(filters.type_@));
    }
    let price_bounds = to_min_max(filters.price.as_slice());
    DbFilters { type_: type_filter, price_min: price_bounds.min, price_max: price_bounds.max }
}

} // verus!
