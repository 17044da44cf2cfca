use product_scraper::image::ImageError;
use product_scraper::link::LinkError;
use product_scraper::listing::{
    extract_img, extract_infos, extract_link, extract_name, extract_price, extract_product_info,
    listing_warnings, Attr, Cause, ExtractError, Field, LinkWrapper, ListingMarkup, NameWrapper,
    PricePart, ProductInfo, Skipped, Warning,
};
use product_scraper::price::Price;

fn listing(name: &str, id: &str) -> ListingMarkup {
    ListingMarkup {
        link_wrappers: Some(vec![LinkWrapper {
            anchors: Some(vec![Attr::Present(format!("/{}/dp/{}/ref=sr_1_1?qid=1", name, id))]),
        }]),
        name_wrappers: Some(vec![NameWrapper { spans: Some(vec![Some(format!(" {} ", name))]) }]),
        price_whole: Some("123".to_string()),
        price_fraction: Some("12".to_string()),
        price_symbol: Some("€".to_string()),
        image: Some(Attr::Present(format!("https://img.test/{}_1.png 1x, https://img.test/{}_3.png 3x", id, id))),
    }
}

fn product(name: &str, id: &str) -> ProductInfo {
    ProductInfo {
        name: name.to_string(),
        details_link: format!("https://www.amazon.de/dp/{}?tag=glam0d9-21", id),
        price: Price { text: "123.12".to_string(), currency: "€".to_string() },
        img: format!("https://img.test/{}_3.png", id),
    }
}

fn failed(field: Field, cause: Cause) -> ExtractError {
    ExtractError { field, cause }
}

#[test]
fn complete_listing_gives_a_product() {
    assert_eq!(extract_product_info(&listing("Ring", "B07FD729LJ")), Ok(product("Ring", "B07FD729LJ")));
}

#[test]
fn listing_without_price_whole_is_skipped_alone() {
    let mut broken = listing("Broken", "B000000001");
    broken.price_whole = None;
    let page = vec![listing("First", "B000000000"), broken, listing("Third", "B000000002")];
    let found = extract_infos(&page);
    assert_eq!(found.infos, vec![product("First", "B000000000"), product("Third", "B000000002")]);
    assert_eq!(
        found.skipped,
        vec![Skipped { index: 1, error: failed(Field::Price, Cause::MissingPart(PricePart::Whole)) }]
    );
}

#[test]
fn page_without_listings_gives_nothing() {
    let found = extract_infos(&Vec::new());
    assert_eq!(found.infos, Vec::<ProductInfo>::new());
    assert_eq!(found.skipped, Vec::<Skipped>::new());
}

#[test]
fn page_of_failing_listings_reports_each() {
    let mut first = listing("A", "B000000001");
    first.image = None;
    let mut second = listing("B", "B000000002");
    second.name_wrappers = Some(Vec::new());
    let found = extract_infos(&vec![first, second]);
    assert_eq!(found.infos, Vec::<ProductInfo>::new());
    assert_eq!(
        found.skipped,
        vec![
            Skipped { index: 0, error: failed(Field::Image, Cause::LookupFailed) },
            Skipped { index: 1, error: failed(Field::Name, Cause::WrapperCount(0)) },
        ]
    );
}

#[test]
fn first_failing_field_gives_the_error() {
    let mut markup = listing("Ring", "B07FD729LJ");
    markup.image = None;
    markup.price_fraction = None;
    markup.name_wrappers = None;
    assert_eq!(extract_product_info(&markup), Err(failed(Field::Name, Cause::LookupFailed)));
    markup.link_wrappers = Some(Vec::new());
    assert_eq!(extract_product_info(&markup), Err(failed(Field::Link, Cause::WrapperCount(0))));
}

#[test]
fn link_needs_one_wrapper_and_one_anchor() {
    let mut markup = listing("Ring", "B07FD729LJ");
    assert_eq!(
        extract_link(&markup),
        Ok("https://www.amazon.de/dp/B07FD729LJ?tag=glam0d9-21".to_string())
    );
    let wrapper = LinkWrapper { anchors: Some(vec![Attr::Present("/dp/X".to_string())]) };
    markup.link_wrappers = Some(vec![wrapper.clone(), wrapper.clone()]);
    assert_eq!(extract_link(&markup), Err(failed(Field::Link, Cause::WrapperCount(2))));
    markup.link_wrappers = None;
    assert_eq!(extract_link(&markup), Err(failed(Field::Link, Cause::LookupFailed)));
    markup.link_wrappers = Some(vec![LinkWrapper { anchors: Some(Vec::new()) }]);
    assert_eq!(extract_link(&markup), Err(failed(Field::Link, Cause::InnerCount(0))));
    markup.link_wrappers = Some(vec![LinkWrapper {
        anchors: Some(vec![Attr::Missing, Attr::Missing, Attr::Missing]),
    }]);
    assert_eq!(extract_link(&markup), Err(failed(Field::Link, Cause::InnerCount(3))));
    markup.link_wrappers = Some(vec![LinkWrapper { anchors: None }]);
    assert_eq!(extract_link(&markup), Err(failed(Field::Link, Cause::LookupFailed)));
    markup.link_wrappers = Some(vec![LinkWrapper { anchors: Some(vec![Attr::Unreadable]) }]);
    assert_eq!(extract_link(&markup), Err(failed(Field::Link, Cause::Unreadable)));
}

#[test]
fn anchor_without_href_reads_as_an_empty_link() {
    let mut markup = listing("Ring", "B07FD729LJ");
    markup.link_wrappers = Some(vec![LinkWrapper { anchors: Some(vec![Attr::Missing]) }]);
    assert_eq!(extract_link(&markup), Ok("https://www.amazon.de/?tag=glam0d9-21".to_string()));
}

#[test]
fn link_that_does_not_parse_fails_the_listing() {
    let mut markup = listing("Ring", "B07FD729LJ");
    markup.link_wrappers = Some(vec![LinkWrapper {
        anchors: Some(vec![Attr::Present("https://[::1/dp/B07FD729LJ".to_string())]),
    }]);
    assert_eq!(
        extract_product_info(&markup),
        Err(failed(Field::Link, Cause::BadLink(LinkError::Malformed)))
    );
}

#[test]
fn name_needs_one_wrapper_and_one_span() {
    let mut markup = listing("Silver Ring", "B07FD729LJ");
    assert_eq!(extract_name(&markup), Ok("Silver Ring".to_string()));
    markup.name_wrappers = None;
    assert_eq!(extract_name(&markup), Err(failed(Field::Name, Cause::LookupFailed)));
    let wrapper = NameWrapper { spans: Some(vec![Some("x".to_string())]) };
    markup.name_wrappers = Some(vec![wrapper.clone(), wrapper.clone(), wrapper.clone()]);
    assert_eq!(extract_name(&markup), Err(failed(Field::Name, Cause::WrapperCount(3))));
    markup.name_wrappers = Some(vec![NameWrapper { spans: None }]);
    assert_eq!(extract_name(&markup), Err(failed(Field::Name, Cause::LookupFailed)));
    markup.name_wrappers = Some(vec![NameWrapper { spans: Some(Vec::new()) }]);
    assert_eq!(extract_name(&markup), Err(failed(Field::Name, Cause::InnerCount(0))));
    markup.name_wrappers =
        Some(vec![NameWrapper { spans: Some(vec![Some("a".to_string()), Some("b".to_string())]) }]);
    assert_eq!(extract_name(&markup), Err(failed(Field::Name, Cause::InnerCount(2))));
    markup.name_wrappers = Some(vec![NameWrapper { spans: Some(vec![None]) }]);
    assert_eq!(extract_name(&markup), Err(failed(Field::Name, Cause::Unreadable)));
}

#[test]
fn price_needs_all_three_parts() {
    let mut markup = listing("Ring", "B07FD729LJ");
    assert_eq!(
        extract_price(&markup),
        Ok(Price { text: "123.12".to_string(), currency: "€".to_string() })
    );
    markup.price_symbol = None;
    assert_eq!(
        extract_price(&markup),
        Err(failed(Field::Price, Cause::MissingPart(PricePart::Symbol)))
    );
    markup.price_fraction = None;
    assert_eq!(
        extract_price(&markup),
        Err(failed(Field::Price, Cause::MissingPart(PricePart::Fraction)))
    );
    markup.price_whole = None;
    assert_eq!(
        extract_price(&markup),
        Err(failed(Field::Price, Cause::MissingPart(PricePart::Whole)))
    );
}

#[test]
fn price_that_is_no_decimal_fails_the_listing() {
    let mut markup = listing("Ring", "B07FD729LJ");
    markup.price_whole = Some("1.299".to_string());
    assert_eq!(extract_product_info(&markup), Err(failed(Field::Price, Cause::NotDecimal)));
}

#[test]
fn unexpected_currency_does_not_fail_the_listing() {
    let mut markup = listing("Ring", "B07FD729LJ");
    markup.price_symbol = Some(" $ ".to_string());
    let info = extract_product_info(&markup).unwrap();
    assert_eq!(info.price.currency, "$");
    assert!(!info.price.has_expected_currency());
}

#[test]
fn image_is_chosen_from_the_candidate_set() {
    let mut markup = listing("Ring", "B07FD729LJ");
    assert_eq!(extract_img(&markup), Ok("https://img.test/B07FD729LJ_3.png".to_string()));
    markup.image = None;
    assert_eq!(extract_img(&markup), Err(failed(Field::Image, Cause::LookupFailed)));
    markup.image = Some(Attr::Unreadable);
    assert_eq!(extract_img(&markup), Err(failed(Field::Image, Cause::Unreadable)));
    markup.image = Some(Attr::Present("only-an-address".to_string()));
    assert_eq!(
        extract_img(&markup),
        Err(failed(Field::Image, Cause::BadImage(ImageError::MalformedCandidate)))
    );
}

#[test]
fn thumbnail_without_candidate_set_gives_an_empty_image() {
    let mut markup = listing("Ring", "B07FD729LJ");
    markup.image = Some(Attr::Missing);
    assert_eq!(extract_img(&markup), Ok("".to_string()));
    let mut expected = product("Ring", "B07FD729LJ");
    expected.img = "".to_string();
    assert_eq!(extract_product_info(&markup), Ok(expected));
    let found = extract_infos(&vec![markup]);
    assert_eq!(found.infos.len(), 1);
    assert_eq!(found.skipped, Vec::<Skipped>::new());
}

#[test]
fn listing_with_empty_candidate_set_is_skipped() {
    let mut markup = listing("Ring", "B07FD729LJ");
    markup.image = Some(Attr::Present("".to_string()));
    assert_eq!(
        extract_product_info(&markup),
        Err(failed(Field::Image, Cause::BadImage(ImageError::NoCandidates)))
    );
}

#[test]
fn usual_listing_gives_no_warning() {
    assert_eq!(listing_warnings(&listing("Ring", "B07FD729LJ")), Vec::<Warning>::new());
}

#[test]
fn unexpected_currency_and_density_are_warned_of() {
    let mut markup = listing("Ring", "B07FD729LJ");
    markup.price_symbol = Some("$".to_string());
    assert_eq!(listing_warnings(&markup), vec![Warning::UnexpectedCurrency]);
    markup.image = Some(Attr::Present("a.png 1x, b.png 2x".to_string()));
    assert_eq!(
        listing_warnings(&markup),
        vec![Warning::UnexpectedCurrency, Warning::UnexpectedDensity]
    );
    markup.price_symbol = Some(" € ".to_string());
    assert_eq!(listing_warnings(&markup), vec![Warning::UnexpectedDensity]);
    assert!(extract_product_info(&markup).is_ok());
}

#[test]
fn no_warning_where_nothing_is_extracted() {
    let mut markup = listing("Ring", "B07FD729LJ");
    markup.price_symbol = Some("$".to_string());
    markup.price_whole = Some("abc".to_string());
    markup.image = Some(Attr::Present("only-an-address".to_string()));
    assert_eq!(listing_warnings(&markup), Vec::<Warning>::new());
    markup.image = Some(Attr::Missing);
    markup.price_whole = None;
    assert_eq!(listing_warnings(&markup), Vec::<Warning>::new());
}

#[test]
fn no_warning_of_a_field_that_is_not_reached() {
    let mut markup = listing("Ring", "B07FD729LJ");
    markup.price_symbol = Some("$".to_string());
    markup.image = Some(Attr::Present("a.png 1x, b.png 2x".to_string()));
    assert_eq!(
        listing_warnings(&markup),
        vec![Warning::UnexpectedCurrency, Warning::UnexpectedDensity]
    );
    let mut no_name = markup.clone();
    no_name.name_wrappers = Some(Vec::new());
    assert_eq!(listing_warnings(&no_name), Vec::<Warning>::new());
    let mut no_link = markup.clone();
    no_link.link_wrappers = None;
    assert_eq!(listing_warnings(&no_link), Vec::<Warning>::new());
    let mut no_price = markup.clone();
    no_price.price_fraction = None;
    assert_eq!(listing_warnings(&no_price), Vec::<Warning>::new());
    let mut bad_image = markup.clone();
    bad_image.image = Some(Attr::Present("only-an-address".to_string()));
    assert_eq!(listing_warnings(&bad_image), vec![Warning::UnexpectedCurrency]);
}
