//! Extraction from the detail page of a product: its title and its large
//! images.

use vstd::prelude::*;
use crate::listing::{attr_text, Attr};
use crate::text::views_of;

verus! {

/// An element that wraps a large image: for each image inside it, its `src`
/// attribute; `None` where the images could not be looked up.
#[derive(Debug, Clone, PartialEq, Eq)]
pub struct ImageWrapper {
    pub images: Option<Vec<Attr>>,
}

/// What the lookups on a detail page found.
#[derive(Debug, Clone, PartialEq, Eq)]
pub struct DetailsMarkup {
    /// The text of the title; `None` where there is no title or its text could
    /// not be read.
    pub title: Option<String>,
    /// The image wrappers; `None` where the lookup failed.
    pub image_wrappers: Option<Vec<ImageWrapper>>,
}

/// The details of a product.
#[derive(Debug, Clone, PartialEq, Eq)]
pub struct ProductDetails {
    pub name: String,
    pub images: Vec<String>,
}

/// The details of a product, as plain values.
pub struct ProductDetailsView {
    pub name: Seq<char>,
    pub images: Seq<Seq<char>>,
}

impl View for ProductDetails {
    type V = ProductDetailsView;

    open spec fn view(&self) -> ProductDetailsView {
        ProductDetailsView { name: self.name@, images: views_of(self.images@) }
    }
}

/// Why the details of a product could not be extracted.
#[derive(Debug, Clone, Copy, PartialEq, Eq)]
pub enum DetailsError {
    /// A lookup of elements failed.
    LookupFailed,
    /// The `src` attribute of an image could not be read.
    Unreadable,
    /// The page has no title.
    MissingTitle,
}

/// The addresses of the images in the wrappers: one for each wrapper that
/// holds exactly one image, in order. A wrapper with no image or with several
/// gives none. A failed lookup or an unreadable attribute fails them all.
pub open spec fn images_in(wrappers: Seq<ImageWrapper>) -> Result<Seq<Seq<char>>, DetailsError>
    decreases wrappers.len(),
{
    if wrappers.len() == 0 {
        Ok(Seq::<Seq<char>>::empty())
    } else {
        match images_in(wrappers.drop_last()) {
            Err(e) => Err(e),
            Ok(before) => match wrappers.last().images {
                None => Err(DetailsError::LookupFailed),
                Some(images) => if images@.len() != 1 {
                    Ok(before)
                } else {
                    match attr_text(images@[0]) {
                        Some(src) => Ok(before.push(src)),
                        None => Err(DetailsError::Unreadable),
                    }
                },
            },
        }
    }
}

/// The details that a detail page gives.
pub open spec fn details_of(page: DetailsMarkup) -> Result<ProductDetailsView, DetailsError> {
    match page.image_wrappers {
        None => Err(DetailsError::LookupFailed),
        Some(wrappers) => match images_in(wrappers@) {
            Err(e) => Err(e),
            Ok(images) => match page.title {
                None => Err(DetailsError::MissingTitle),
                Some(title) => Ok(ProductDetailsView { name: title@, images }),
            },
        },
    }
}

/// The addresses of the large images of a detail page.
pub fn extract_imgs_from_details(wrappers: &Vec<ImageWrapper>) -> (out: Result<
    Vec<String>,
    DetailsError,
>)
    ensures
        match out {
            Ok(images) => images_in(wrappers@) == Ok::<Seq<Seq<char>>, DetailsError>(
                views_of(images@),
            ),
            Err(e) => images_in(wrappers@) == Err::<Seq<Seq<char>>, DetailsError>(e),
        },
{
    let mut imgs: Vec<String> = Vec::new();
    let mut i: usize = 0;
    proof {
        assert(wrappers@.take(0) =~= Seq::<ImageWrapper>::empty());
        assert(views_of(imgs@) =~= Seq::<Seq<char>>::empty());
    }
    while i < wrappers.len()
        invariant
            i <= wrappers.len(),
            images_in(wrappers@.take(i as int)) == Ok::<Seq<Seq<char>>, DetailsError>(
                views_of(imgs@),
            ),
        decreases wrappers.len() - i,
    {
        let ghost done = views_of(imgs@);
        proof {
            assert(wrappers@.take(i + 1).drop_last() =~= wrappers@.take(i as int));
            assert(wrappers@.take(i + 1).last() == wrappers@[i as int]);
        }
        let failure: Option<DetailsError> = match &wrappers[i].images {
            None => Some(DetailsError::LookupFailed),
            Some(images) => {
                if images.len() == 1 {
                    match &images[0] {
                        Attr::Present(src) => {
                            imgs.push(src.clone());
                            proof {
                                assert(views_of(imgs@) =~= done.push(src@));
                            }
                            None
                        },
                        Attr::Missing => {
                            imgs.push(String::new());
                            proof {
                                assert(views_of(imgs@) =~= done.push(Seq::<char>::empty()));
                            }
                            None
                        },
                        Attr::Unreadable => Some(DetailsError::Unreadable),
                    }
                } else {
                    None
                }
            },
        };
        if let Some(e) = failure {
            proof {
                lemma_images_in_fails_on(wrappers@, i as int);
            }
            return Err(e);
        }
        i += 1;
    }
    proof {
        assert(wrappers@.take(wrappers.len() as int) =~= wrappers@);
    }
    Ok(imgs)
}

/// Where the wrappers up to one of them fail, all of them fail the same way.
proof fn lemma_images_in_fails_on(wrappers: Seq<ImageWrapper>, i: int)
    requires
        0 <= i < wrappers.len(),
        images_in(wrappers.take(i + 1)) is Err,
    ensures
        images_in(wrappers) == images_in(wrappers.take(i + 1)),
    decreases wrappers.len(),
{
    if i + 1 == wrappers.len() {
        assert(wrappers.take(i + 1) =~= wrappers);
    } else {
        assert(wrappers.drop_last().take(i + 1) =~= wrappers.take(i + 1));
        lemma_images_in_fails_on(wrappers.drop_last(), i);
    }
}

/// The details that a detail page gives: its title and its large images.
pub fn extract_product_details(page: &DetailsMarkup) -> (out: Result<ProductDetails, DetailsError>)
    ensures
        match out {
            Ok(details) => details_of(*page) == Ok::<ProductDetailsView, DetailsError>(details@),
            Err(e) => details_of(*page) == Err::<ProductDetailsView, DetailsError>(e),
        },
{
    let wrappers = match &page.image_wrappers {
        Some(wrappers) => wrappers,
        None => {
            return Err(DetailsError::LookupFailed);
        },
    };
    let images = match extract_imgs_from_details(wrappers) {
        Ok(images) => images,
        Err(e) => {
            return Err(e);
        },
    };
    match &page.title {
        Some(title) => Ok(ProductDetails { name: title.clone(), images }),
        None => Err(DetailsError::MissingTitle),
    }
}

} // verus!
