//! Extraction of product records from the listings of a results page.
//!
//! A listing is given as a `ListingMarkup`: what the lookups under the
//! listing's element found, taken down as plain values. The extractors read
//! nothing else.

use vstd::prelude::*;
use crate::image::{
    chosen_candidate, extract_highest_res_img, select_candidate, ImageError, MAX_DENSITY,
};
use crate::link::{
    canonical_link, process_infos_link, LinkError, BASE_ORIGIN, CANONICAL_ORIGIN, TAG_NAME,
    TAG_VALUE,
};
use crate::price::{
    display_text, is_decimal, parse_price, Price, PriceView, EXPECTED_CURRENCY,
};
use crate::text::{trim, trimmed};

verus! {

/// What reading an attribute of an element gave.
#[derive(Debug, Clone, PartialEq, Eq)]
pub enum Attr {
    /// The attribute and its value.
    Present(String),
    /// The element has no such attribute.
    Missing,
    /// The attribute could not be read.
    Unreadable,
}

/// An element that wraps the link of a listing: for each anchor inside it, its
/// `href` attribute; `None` where the anchors could not be looked up.
#[derive(Debug, Clone, PartialEq, Eq)]
pub struct LinkWrapper {
    pub anchors: Option<Vec<Attr>>,
}

/// An element that wraps the name of a listing: for each span inside it, its
/// text, or `None` where the text could not be read; `None` where the spans
/// could not be looked up.
#[derive(Debug, Clone, PartialEq, Eq)]
pub struct NameWrapper {
    pub spans: Option<Vec<Option<String>>>,
}

/// What the lookups under one listing found.
#[derive(Debug, Clone, PartialEq, Eq)]
pub struct ListingMarkup {
    /// The link wrappers; `None` where the lookup failed.
    pub link_wrappers: Option<Vec<LinkWrapper>>,
    /// The name wrappers; `None` where the lookup failed.
    pub name_wrappers: Option<Vec<NameWrapper>>,
    /// The text of the element with the whole part of the price; `None` where
    /// there is no such element or its text could not be read.
    pub price_whole: Option<String>,
    /// The same for the fraction part of the price.
    pub price_fraction: Option<String>,
    /// The same for the currency symbol.
    pub price_symbol: Option<String>,
    /// The candidate set attribute of the thumbnail; `None` where there is no
    /// thumbnail. A thumbnail without the attribute gives an empty image
    /// address.
    pub image: Option<Attr>,
}

/// A product as extracted from a listing.
#[derive(Debug, Clone, PartialEq, Eq)]
pub struct ProductInfo {
    pub name: String,
    pub details_link: String,
    pub price: Price,
    pub img: String,
}

/// A product, as plain character sequences.
pub struct ProductInfoView {
    pub name: Seq<char>,
    pub details_link: Seq<char>,
    pub price: PriceView,
    pub img: Seq<char>,
}

impl View for ProductInfo {
    type V = ProductInfoView;

    open spec fn view(&self) -> ProductInfoView {
        ProductInfoView {
            name: self.name@,
            details_link: self.details_link@,
            price: self.price@,
            img: self.img@,
        }
    }
}

/// The field that an extraction failed on.
#[derive(Debug, Clone, Copy, PartialEq, Eq)]
pub enum Field {
    Link,
    Name,
    Price,
    Image,
}

/// The part of a price that an element holds.
#[derive(Debug, Clone, Copy, PartialEq, Eq)]
pub enum PricePart {
    Whole,
    Fraction,
    Symbol,
}

/// Why a field could not be extracted.
#[derive(Debug, Clone, Copy, PartialEq, Eq)]
pub enum Cause {
    /// A lookup of elements failed.
    LookupFailed,
    /// The number of wrapper elements found, which is not one.
    WrapperCount(usize),
    /// The number of elements found inside the wrapper, which is not one.
    InnerCount(usize),
    /// The attribute or the text of the element could not be read.
    Unreadable,
    /// The link is not an address that can be made canonical.
    BadLink(LinkError),
    /// The element for a part of the price is missing.
    MissingPart(PricePart),
    /// The parts of the price make no decimal numeral.
    NotDecimal,
    /// No image can be chosen from the candidate set.
    BadImage(ImageError),
}

/// A failed extraction: the field and the cause.
#[derive(Debug, Clone, Copy, PartialEq, Eq)]
pub struct ExtractError {
    pub field: Field,
    pub cause: Cause,
}

/// The value of an attribute that was read; a missing attribute reads as the
/// empty text.
pub open spec fn attr_text(attr: Attr) -> Option<Seq<char>> {
    match attr {
        Attr::Present(value) => Some(value@),
        Attr::Missing => Some(Seq::<char>::empty()),
        Attr::Unreadable => None,
    }
}

/// The raw link of a listing: the `href` of the one anchor in the one link
/// wrapper.
pub open spec fn raw_link(listing: ListingMarkup) -> Result<Seq<char>, Cause> {
    match listing.link_wrappers {
        None => Err(Cause::LookupFailed),
        Some(wrappers) => if wrappers@.len() != 1 {
            Err(Cause::WrapperCount(wrappers@.len() as usize))
        } else {
            match wrappers@[0].anchors {
                None => Err(Cause::LookupFailed),
                Some(anchors) => if anchors@.len() != 1 {
                    Err(Cause::InnerCount(anchors@.len() as usize))
                } else {
                    match attr_text(anchors@[0]) {
                        Some(href) => Ok(href),
                        None => Err(Cause::Unreadable),
                    }
                },
            }
        },
    }
}

/// The canonical link of a listing.
pub open spec fn link_of(listing: ListingMarkup) -> Result<Seq<char>, ExtractError> {
    match raw_link(listing) {
        Err(cause) => Err(ExtractError { field: Field::Link, cause }),
        Ok(href) => match canonical_link(
            href,
            BASE_ORIGIN@,
            CANONICAL_ORIGIN@,
            TAG_NAME@,
            TAG_VALUE@,
        ) {
            Ok(link) => Ok(link),
            Err(e) => Err(ExtractError { field: Field::Link, cause: Cause::BadLink(e) }),
        },
    }
}

/// The name of a listing: the trimmed text of the one span in the one name
/// wrapper.
pub open spec fn name_of(listing: ListingMarkup) -> Result<Seq<char>, ExtractError> {
    match listing.name_wrappers {
        None => Err(ExtractError { field: Field::Name, cause: Cause::LookupFailed }),
        Some(wrappers) => if wrappers@.len() != 1 {
            Err(
                ExtractError {
                    field: Field::Name,
                    cause: Cause::WrapperCount(wrappers@.len() as usize),
                },
            )
        } else {
            match wrappers@[0].spans {
                None => Err(ExtractError { field: Field::Name, cause: Cause::LookupFailed }),
                Some(spans) => if spans@.len() != 1 {
                    Err(
                        ExtractError {
                            field: Field::Name,
                            cause: Cause::InnerCount(spans@.len() as usize),
                        },
                    )
                } else {
                    match spans@[0] {
                        Some(text) => Ok(trimmed(text@)),
                        None => Err(ExtractError { field: Field::Name, cause: Cause::Unreadable }),
                    }
                },
            }
        },
    }
}

/// The price of a listing. The three elements are looked for in the order
/// whole part, fraction part, symbol; the first one missing fails the price.
pub open spec fn price_of(listing: ListingMarkup) -> Result<PriceView, ExtractError> {
    match (listing.price_whole, listing.price_fraction, listing.price_symbol) {
        (None, _, _) => Err(
            ExtractError { field: Field::Price, cause: Cause::MissingPart(PricePart::Whole) },
        ),
        (Some(_), None, _) => Err(
            ExtractError { field: Field::Price, cause: Cause::MissingPart(PricePart::Fraction) },
        ),
        (Some(_), Some(_), None) => Err(
            ExtractError { field: Field::Price, cause: Cause::MissingPart(PricePart::Symbol) },
        ),
        (Some(whole), Some(fraction), Some(symbol)) => if is_decimal(
            display_text(whole@, fraction@),
        ) {
            Ok(PriceView { text: display_text(whole@, fraction@), currency: trimmed(symbol@) })
        } else {
            Err(ExtractError { field: Field::Price, cause: Cause::NotDecimal })
        },
    }
}

/// The image of a listing: the address chosen from the candidate set of its
/// thumbnail, or the empty text where the thumbnail has no candidate set.
pub open spec fn img_of(listing: ListingMarkup) -> Result<Seq<char>, ExtractError> {
    match listing.image {
        None => Err(ExtractError { field: Field::Image, cause: Cause::LookupFailed }),
        Some(Attr::Unreadable) => Err(
            ExtractError { field: Field::Image, cause: Cause::Unreadable },
        ),
        Some(Attr::Missing) => Ok(Seq::<char>::empty()),
        Some(Attr::Present(src_set)) => match chosen_candidate(src_set@) {
            Ok(candidate) => Ok(candidate.url),
            Err(e) => Err(ExtractError { field: Field::Image, cause: Cause::BadImage(e) }),
        },
    }
}

/// The product of a listing: link, name, price and image, taken in this
/// order; the first field that fails gives the error.
pub open spec fn product_of(listing: ListingMarkup) -> Result<ProductInfoView, ExtractError> {
    match link_of(listing) {
        Err(e) => Err(e),
        Ok(details_link) => match name_of(listing) {
            Err(e) => Err(e),
            Ok(name) => match price_of(listing) {
                Err(e) => Err(e),
                Ok(price) => match img_of(listing) {
                    Err(e) => Err(e),
                    Ok(img) => Ok(ProductInfoView { name, details_link, price, img }),
                },
            },
        },
    }
}

/// The value of an attribute that was read.
fn read_attr(attr: &Attr) -> (text: Option<String>)
    ensures
        match text {
            Some(value) => attr_text(*attr) == Some(value@),
            None => attr_text(*attr) is None,
        },
{
    match attr {
        Attr::Present(value) => Some(value.clone()),
        Attr::Missing => Some(String::new()),
        Attr::Unreadable => None,
    }
}

/// The canonical link of a listing.
pub fn extract_link(listing: &ListingMarkup) -> (out: Result<String, ExtractError>)
    ensures
        match out {
            Ok(link) => link_of(*listing) == Ok::<Seq<char>, ExtractError>(link@),
            Err(e) => link_of(*listing) == Err::<Seq<char>, ExtractError>(e),
        },
{
    let wrappers = match &listing.link_wrappers {
        Some(wrappers) => wrappers,
        None => {
            return Err(ExtractError { field: Field::Link, cause: Cause::LookupFailed });
        },
    };
    if wrappers.len() != 1 {
        return Err(ExtractError { field: Field::Link, cause: Cause::WrapperCount(wrappers.len()) });
    }
    let anchors = match &wrappers[0].anchors {
        Some(anchors) => anchors,
        None => {
            return Err(ExtractError { field: Field::Link, cause: Cause::LookupFailed });
        },
    };
    if anchors.len() != 1 {
        return Err(ExtractError { field: Field::Link, cause: Cause::InnerCount(anchors.len()) });
    }
    let href = match read_attr(&anchors[0]) {
        Some(href) => href,
        None => {
            return Err(ExtractError { field: Field::Link, cause: Cause::Unreadable });
        },
    };
    match process_infos_link(href) {
        Ok(link) => Ok(link),
        Err(e) => Err(ExtractError { field: Field::Link, cause: Cause::BadLink(e) }),
    }
}

/// The name of a listing.
pub fn extract_name(listing: &ListingMarkup) -> (out: Result<String, ExtractError>)
    ensures
        match out {
            Ok(name) => name_of(*listing) == Ok::<Seq<char>, ExtractError>(name@),
            Err(e) => name_of(*listing) == Err::<Seq<char>, ExtractError>(e),
        },
{
    let wrappers = match &listing.name_wrappers {
        Some(wrappers) => wrappers,
        None => {
            return Err(ExtractError { field: Field::Name, cause: Cause::LookupFailed });
        },
    };
    if wrappers.len() != 1 {
        return Err(ExtractError { field: Field::Name, cause: Cause::WrapperCount(wrappers.len()) });
    }
    let spans = match &wrappers[0].spans {
        Some(spans) => spans,
        None => {
            return Err(ExtractError { field: Field::Name, cause: Cause::LookupFailed });
        },
    };
    if spans.len() != 1 {
        return Err(ExtractError { field: Field::Name, cause: Cause::InnerCount(spans.len()) });
    }
    match &spans[0] {
        Some(text) => Ok(trim(text.as_str())),
        None => Err(ExtractError { field: Field::Name, cause: Cause::Unreadable }),
    }
}

/// The price of a listing.
pub fn extract_price(listing: &ListingMarkup) -> (out: Result<Price, ExtractError>)
    ensures
        match out {
            Ok(price) => price_of(*listing) == Ok::<PriceView, ExtractError>(price@),
            Err(e) => price_of(*listing) == Err::<PriceView, ExtractError>(e),
        },
{
    let whole = match &listing.price_whole {
        Some(text) => text,
        None => {
            return Err(
                ExtractError { field: Field::Price, cause: Cause::MissingPart(PricePart::Whole) },
            );
        },
    };
    let fraction = match &listing.price_fraction {
        Some(text) => text,
        None => {
            return Err(
                ExtractError {
                    field: Field::Price,
                    cause: Cause::MissingPart(PricePart::Fraction),
                },
            );
        },
    };
    let symbol = match &listing.price_symbol {
        Some(text) => text,
        None => {
            return Err(
                ExtractError { field: Field::Price, cause: Cause::MissingPart(PricePart::Symbol) },
            );
        },
    };
    match parse_price(whole.as_str(), fraction.as_str(), symbol.as_str()) {
        Ok(price) => Ok(price),
        Err(_) => Err(ExtractError { field: Field::Price, cause: Cause::NotDecimal }),
    }
}

/// The image of a listing.
pub fn extract_img(listing: &ListingMarkup) -> (out: Result<String, ExtractError>)
    ensures
        match out {
            Ok(img) => img_of(*listing) == Ok::<Seq<char>, ExtractError>(img@),
            Err(e) => img_of(*listing) == Err::<Seq<char>, ExtractError>(e),
        },
{
    match &listing.image {
        None => Err(ExtractError { field: Field::Image, cause: Cause::LookupFailed }),
        Some(Attr::Unreadable) => Err(
            ExtractError { field: Field::Image, cause: Cause::Unreadable },
        ),
        Some(Attr::Missing) => Ok(String::new()),
        Some(Attr::Present(src_set)) => match extract_highest_res_img(src_set.as_str()) {
            Ok(img) => Ok(img),
            Err(e) => Err(ExtractError { field: Field::Image, cause: Cause::BadImage(e) }),
        },
    }
}

/// The product of a listing, or the first field that could not be extracted.
pub fn extract_product_info(listing: &ListingMarkup) -> (out: Result<ProductInfo, ExtractError>)
    ensures
        match out {
            Ok(info) => product_of(*listing) == Ok::<ProductInfoView, ExtractError>(info@),
            Err(e) => product_of(*listing) == Err::<ProductInfoView, ExtractError>(e),
        },
{
    let details_link = match extract_link(listing) {
        Ok(link) => link,
        Err(e) => {
            return Err(e);
        },
    };
    let name = match extract_name(listing) {
        Ok(name) => name,
        Err(e) => {
            return Err(e);
        },
    };
    let price = match extract_price(listing) {
        Ok(price) => price,
        Err(e) => {
            return Err(e);
        },
    };
    let img = match extract_img(listing) {
        Ok(img) => img,
        Err(e) => {
            return Err(e);
        },
    };
    Ok(ProductInfo { name, details_link, price, img })
}

/// Something unexpected in a listing that does not keep it from being
/// extracted.
#[derive(Debug, Clone, Copy, PartialEq, Eq)]
pub enum Warning {
    /// The price carries another currency symbol than the expected one.
    UnexpectedCurrency,
    /// The image chosen carries another descriptor than the highest density
    /// known: the candidates may not be in the order assumed.
    UnexpectedDensity,
}

/// Whether the price of the listing is reached and extracted, and carries
/// another currency symbol than the expected one. The price is reached once
/// link and name are extracted.
pub open spec fn currency_is_unexpected(listing: ListingMarkup) -> bool {
    &&& link_of(listing) is Ok
    &&& name_of(listing) is Ok
    &&& match price_of(listing) {
        Ok(price) => price.currency != EXPECTED_CURRENCY@,
        Err(_) => false,
    }
}

/// Whether the image of the listing is reached and chosen from a candidate
/// set, and carries another descriptor than the highest density known. The
/// image is reached once link, name and price are extracted.
pub open spec fn density_is_unexpected(listing: ListingMarkup) -> bool {
    &&& link_of(listing) is Ok
    &&& name_of(listing) is Ok
    &&& price_of(listing) is Ok
    &&& match listing.image {
        Some(Attr::Present(src_set)) => match chosen_candidate(src_set@) {
            Ok(candidate) => candidate.density != MAX_DENSITY@,
            Err(_) => false,
        },
        _ => false,
    }
}

/// The warnings that the extraction of a listing gives rise to: for its
/// currency, then for the density of its image.
pub open spec fn warnings_of(listing: ListingMarkup) -> Seq<Warning> {
    let currency = if currency_is_unexpected(listing) {
        seq![Warning::UnexpectedCurrency]
    } else {
        Seq::<Warning>::empty()
    };
    let density = if density_is_unexpected(listing) {
        seq![Warning::UnexpectedDensity]
    } else {
        Seq::<Warning>::empty()
    };
    currency + density
}

/// The warnings that the extraction of a listing gives rise to. None of them
/// fails the listing. A field that is not reached, because a field before it
/// failed, gives none.
pub fn listing_warnings(listing: &ListingMarkup) -> (out: Vec<Warning>)
    ensures
        out@ == warnings_of(*listing),
{
    let mut out: Vec<Warning> = Vec::new();
    if extract_link(listing).is_err() || extract_name(listing).is_err() {
        proof {
            assert(out@ =~= warnings_of(*listing));
        }
        return out;
    }
    match extract_price(listing) {
        Ok(price) => {
            if !price.has_expected_currency() {
                out.push(Warning::UnexpectedCurrency);
            }
        },
        Err(_) => {
            proof {
                assert(out@ =~= warnings_of(*listing));
            }
            return out;
        },
    }
    match &listing.image {
        Some(Attr::Present(src_set)) => match select_candidate(src_set.as_str()) {
            Ok(candidate) => {
                if !candidate.has_max_density() {
                    out.push(Warning::UnexpectedDensity);
                }
            },
            Err(_) => {},
        },
        _ => {},
    }
    proof {
        assert(out@ =~= warnings_of(*listing));
    }
    out
}

/// A listing that was passed over: its position among the listings of the
/// page, and why.
#[derive(Debug, Clone, Copy, PartialEq, Eq)]
pub struct Skipped {
    pub index: usize,
    pub error: ExtractError,
}

/// What a page yielded: the products of the listings that could be extracted,
/// and the listings that were passed over, both in the order of the page.
#[derive(Debug, Clone, PartialEq, Eq)]
pub struct PageInfos {
    pub infos: Vec<ProductInfo>,
    pub skipped: Vec<Skipped>,
}

/// The products that a vector holds, as plain values.
pub open spec fn infos_view(infos: Seq<ProductInfo>) -> Seq<ProductInfoView> {
    Seq::new(infos.len(), |i: int| infos[i]@)
}

/// The products of the listings that can be extracted, in order.
pub open spec fn products_of(listings: Seq<ListingMarkup>) -> Seq<ProductInfoView>
    decreases listings.len(),
{
    if listings.len() == 0 {
        Seq::<ProductInfoView>::empty()
    } else {
        let before = products_of(listings.drop_last());
        match product_of(listings.last()) {
            Ok(info) => before.push(info),
            Err(_) => before,
        }
    }
}

/// The listings that cannot be extracted, in order.
pub open spec fn skipped_of(listings: Seq<ListingMarkup>) -> Seq<Skipped>
    decreases listings.len(),
{
    if listings.len() == 0 {
        Seq::<Skipped>::empty()
    } else {
        let before = skipped_of(listings.drop_last());
        match product_of(listings.last()) {
            Ok(_) => before,
            Err(error) => before.push(Skipped { index: (listings.len() - 1) as usize, error }),
        }
    }
}

/// The products of all the listings of a page. A listing that fails is passed
/// over and reported; the others are extracted all the same.
pub fn extract_infos(listings: &Vec<ListingMarkup>) -> (out: PageInfos)
    ensures
        infos_view(out.infos@) == products_of(listings@),
        out.skipped@ == skipped_of(listings@),
{
    let mut infos: Vec<ProductInfo> = Vec::new();
    let mut skipped: Vec<Skipped> = Vec::new();
    let mut i: usize = 0;
    proof {
        assert(listings@.take(0) =~= Seq::<ListingMarkup>::empty());
        assert(infos_view(infos@) =~= Seq::<ProductInfoView>::empty());
    }
    while i < listings.len()
        invariant
            i <= listings.len(),
            infos_view(infos@) == products_of(listings@.take(i as int)),
            skipped@ == skipped_of(listings@.take(i as int)),
        decreases listings.len() - i,
    {
        let ghost done = infos_view(infos@);
        proof {
            assert(listings@.take(i + 1).drop_last() =~= listings@.take(i as int));
            assert(listings@.take(i + 1).last() == listings@[i as int]);
        }
        match extract_product_info(&listings[i]) {
            Ok(info) => {
                infos.push(info);
                proof {
                    assert(infos_view(infos@) =~= done.push(info@));
                }
            },
            Err(error) => {
                skipped.push(Skipped { index: i, error });
            },
        }
        i += 1;
    }
    proof {
        assert(listings@.take(listings.len() as int) =~= listings@);
    }
    PageInfos { infos, skipped }
}

/// The products of a run of listings are those of its first part followed by
/// those of its second part: whether a listing fails has no effect on the
/// listings around it.
pub proof fn lemma_products_of_concat(first: Seq<ListingMarkup>, second: Seq<ListingMarkup>)
    ensures
        products_of(first + second) == products_of(first) + products_of(second),
    decreases second.len(),
{
    if second.len() == 0 {
        assert(first + second =~= first);
        assert(products_of(first) + products_of(second) =~= products_of(first));
    } else {
        assert((first + second).drop_last() =~= first + second.drop_last());
        assert((first + second).last() == second.last());
        lemma_products_of_concat(first, second.drop_last());
        let before = products_of(first) + products_of(second.drop_last());
        match product_of(second.last()) {
            Ok(info) => {
                assert(before.push(info) =~= products_of(first) + products_of(second));
            },
            Err(_) => {},
        }
    }
}

/// A listing that fails is left out, and the listings before and after it are
/// extracted as if it were not there.
pub proof fn lemma_failed_listing_is_skipped_alone(
    before: Seq<ListingMarkup>,
    failed: ListingMarkup,
    after: Seq<ListingMarkup>,
)
    requires
        product_of(failed) is Err,
    ensures
        products_of(before + seq![failed] + after) == products_of(before) + products_of(after),
{
    lemma_products_of_concat(before + seq![failed], after);
    lemma_products_of_concat(before, seq![failed]);
    assert(seq![failed].drop_last() =~= Seq::<ListingMarkup>::empty());
    assert(seq![failed].last() == failed);
    assert(products_of(Seq::<ListingMarkup>::empty()) =~= Seq::<ProductInfoView>::empty());
    assert(products_of(seq![failed]) =~= Seq::<ProductInfoView>::empty());
    assert(products_of(before) + Seq::<ProductInfoView>::empty() =~= products_of(before));
}

/// The price of every product extracted is a decimal numeral, so that its
/// number can be read from its text.
pub proof fn lemma_extracted_price_is_decimal(listing: ListingMarkup)
    requires
        product_of(listing) is Ok,
    ensures
        is_decimal(product_of(listing)->Ok_0.price.text),
{
}

} // verus!
