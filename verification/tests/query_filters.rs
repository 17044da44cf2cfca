use product_scraper::filters::{
    to_db_filters, to_min_max, Filters, PriceBounds, MAX_POSSIBLE_PRICE, MIN_POSSIBLE_PRICE,
};

fn bounds(min: u32, max: u32) -> PriceBounds {
    PriceBounds { min: Some(min), max }
}

#[test]
fn no_band_covers_every_price() {
    assert_eq!(to_min_max(&[]), bounds(0, 100_000_000));
    assert_eq!(to_min_max(&[]), bounds(MIN_POSSIBLE_PRICE, MAX_POSSIBLE_PRICE));
}

#[test]
fn single_bands() {
    assert_eq!(to_min_max(&[1]), bounds(0, 1_999));
    assert_eq!(to_min_max(&[2]), bounds(2_000, 4_999));
    assert_eq!(to_min_max(&[3]), bounds(5_000, 9_999));
    assert_eq!(to_min_max(&[4]), bounds(10_000, 100_000_000));
}

#[test]
fn several_bands_run_from_the_lowest_to_the_highest() {
    assert_eq!(to_min_max(&[2, 3]), bounds(2_000, 9_999));
    assert_eq!(to_min_max(&[3, 1]), bounds(0, 9_999));
    assert_eq!(to_min_max(&[4, 2]), bounds(2_000, 100_000_000));
    assert_eq!(to_min_max(&[1, 2, 3, 4]), bounds(0, 100_000_000));
    assert_eq!(to_min_max(&[3, 3, 3]), bounds(5_000, 9_999));
}

#[test]
fn numbers_that_name_no_band_are_ignored() {
    assert_eq!(to_min_max(&[0, 2, 9]), bounds(2_000, 4_999));
    assert_eq!(to_min_max(&[7]), PriceBounds { min: None, max: 0 });
    assert_eq!(to_min_max(&[0, 5, u32::MAX]), PriceBounds { min: None, max: 0 });
}

#[test]
fn bounds_in_hundredths_give_the_prices() {
    let found = to_min_max(&[2]);
    assert_eq!(found.min.unwrap() as f32 / 100.0, 20.0_f32);
    assert_eq!(found.max as f32 / 100.0, 49.99_f32);
    assert_eq!(to_min_max(&[1]).max as f32 / 100.0, 19.99_f32);
    assert_eq!(to_min_max(&[3]).max as f32 / 100.0, 99.99_f32);
    assert_eq!(to_min_max(&[4]).max as f32 / 100.0, 1_000_000.0_f32);
}

#[test]
fn named_types_and_all_bands() {
    let filters = Filters {
        type_: vec!["necklace".to_string(), "bracelet".to_string()],
        price: vec![1, 2, 3, 4],
    };
    let db_filters = to_db_filters(&filters);
    assert_eq!(db_filters.type_, vec!["necklace", "bracelet"]);
    assert_eq!(db_filters.price_min, Some(0));
    assert_eq!(db_filters.price_max, 100_000_000);
}

#[test]
fn no_type_means_the_four_default_types() {
    let filters = Filters { type_: Vec::new(), price: vec![3] };
    let db_filters = to_db_filters(&filters);
    assert_eq!(db_filters.type_, vec!["necklace", "bracelet", "ring", "earring"]);
    assert_eq!(db_filters.price_min, Some(5_000));
    assert_eq!(db_filters.price_max, 9_999);
}

#[test]
fn no_type_and_no_band_means_everything() {
    let db_filters = to_db_filters(&Filters { type_: Vec::new(), price: Vec::new() });
    assert_eq!(db_filters.type_.len(), 4);
    assert_eq!(db_filters.price_min, Some(0));
    assert_eq!(db_filters.price_max, 100_000_000);
}
