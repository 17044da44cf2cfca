//! Canonical product links.
//!
//! A raw link found in a listing is resolved against the base origin, cut
//! down to the marker segment of a product page and the product identifier
//! that follows it, and rebuilt on the canonical origin with the affiliate tag
//! as its only query parameter. Addresses are parsed, resolved and written by
//! the `url` crate.

use vstd::prelude::*;
use url::{ParseError, Url};
use crate::text::{join, joined, same_text, views_of};

verus! {

/// The origin that relative links of a listing are resolved against.
pub const BASE_ORIGIN: &'static str = "https://amazon.de";

/// The origin of canonical links.
pub const CANONICAL_ORIGIN: &'static str = "https://www.amazon.de";

/// The path segment that comes before a product identifier.
pub const PRODUCT_MARKER: &'static str = "dp";

/// The name of the affiliate parameter.
pub const TAG_NAME: &'static str = "tag";

/// The value of the affiliate parameter.
pub const TAG_VALUE: &'static str = "glam0d9-21";

/// The longest path, parameter name or parameter value, in characters, that
/// is written into an address. The `url` crate keeps positions in 32 bits, and
/// a character may take twelve bytes once it is percent-encoded.
pub const MAX_URL_CHARS: usize = 0x0400_0000;

/// The longest origin, in characters, that an address is rebuilt on.
pub const MAX_ORIGIN_CHARS: usize = 0x1_0000;

/// Why a link could not be made canonical.
#[derive(Debug, Clone, Copy, PartialEq, Eq)]
pub enum LinkError {
    /// The link does not resolve to an address against the base origin.
    Malformed,
    /// The canonical origin does not parse as an address.
    BadOrigin,
    /// The canonical origin is longer than `MAX_ORIGIN_CHARS`, or a part to be
    /// written into the address is longer than `MAX_URL_CHARS`.
    TooLong,
}

#[verifier::external_type_specification]
#[verifier::external_body]
pub struct ExParseError(ParseError);

/// The path segments of the address that `link` resolves to against `base`:
/// what `Url::path_segments` gives for `Url::parse(base)` joined with `link`
/// by `Url::join`. The outer `None` stands for an error of `Url::parse` or of
/// `Url::join`, the inner one for an address without path segments.
pub uninterp spec fn url_resolved_segments(base: Seq<char>, link: Seq<char>) -> Option<
    Option<Seq<Seq<char>>>,
>;

/// The serialization of the address that `Url::parse` makes of `origin`,
/// after `Url::set_path` with `path`, `Url::set_query` with `None` and
/// `append_pair` with `name` and `value` on its `Url::query_pairs_mut`; `None`
/// where `Url::parse` reports an error.
pub uninterp spec fn url_rebuilt(
    origin: Seq<char>,
    path: Seq<char>,
    name: Seq<char>,
    value: Seq<char>,
) -> Option<Seq<char>>;

/// `Url::parse` of `base`, `Url::join` with `link`, and `Url::path_segments`
/// of the result, each segment copied into a `String`. The address is made
/// anew from the two texts, so the segments are a function of them.
#[verifier::external_body]
fn resolved_segments(base: &str, link: &str) -> (found: Result<Option<Vec<String>>, ParseError>)
    ensures
        match found {
            Ok(Some(list)) => url_resolved_segments(base@, link@) == Some(Some(views_of(list@))),
            Ok(None) => url_resolved_segments(base@, link@) == Some(
                None::<Seq<Seq<char>>>,
            ),
            Err(_) => url_resolved_segments(base@, link@) is None,
        },
{
    let url = Url::parse(base)?.join(link)?;
    Ok(url.path_segments().map(|parts| parts.map(|part| part.to_owned()).collect()))
}

/// `Url::parse` of `origin`, then `Url::set_path`, `Url::set_query` with
/// `None` and `append_pair` on `Url::query_pairs_mut`, and the serialization
/// of the result. The address is made anew from `origin`, so the result is a
/// function of the four texts.
///
/// The crate panics where it has to keep a position behind `u32::MAX` bytes.
/// The bounds keep every position far below that: the three parts take at most
/// twelve bytes a character, and the parsed origin would have to be sixteen
/// thousand times as long as the text it is parsed from to take up the rest.
#[verifier::external_body]
fn rebuilt_address(origin: &str, path: &str, name: &str, value: &str) -> (made: Result<
    String,
    ParseError,
>)
    requires
        origin@.len() <= MAX_ORIGIN_CHARS,
        path@.len() <= MAX_URL_CHARS,
        name@.len() <= MAX_URL_CHARS,
        value@.len() <= MAX_URL_CHARS,
    ensures
        match made {
            Ok(text) => url_rebuilt(origin@, path@, name@, value@) == Some(text@),
            Err(_) => url_rebuilt(origin@, path@, name@, value@) is None,
        },
{
    let mut url = Url::parse(origin)?;
    url.set_path(path);
    url.set_query(None);
    url.query_pairs_mut().append_pair(name, value);
    Ok(url.into())
}

/// The segments kept of a path: the first marker segment and the segment that
/// follows it. Nothing is kept where the path has no marker segment, and the
/// marker alone where it is the last segment.
pub open spec fn kept_segments(segments: Seq<Seq<char>>) -> Seq<Seq<char>>
    decreases segments.len(),
{
    if segments.len() == 0 {
        Seq::<Seq<char>>::empty()
    } else if segments[0] == PRODUCT_MARKER@ {
        if segments.len() >= 2 {
            segments.take(2)
        } else {
            segments
        }
    } else {
        kept_segments(segments.drop_first())
    }
}

/// The path of the canonical link for the given segments of the raw link.
pub open spec fn canonical_path(segments: Seq<Seq<char>>) -> Seq<char> {
    seq!['/'] + joined(kept_segments(segments), seq!['/'])
}

/// Whether the texts that an address is rebuilt from are within the limits.
pub open spec fn within_limits(
    origin: Seq<char>,
    path: Seq<char>,
    name: Seq<char>,
    value: Seq<char>,
) -> bool {
    &&& origin.len() <= MAX_ORIGIN_CHARS
    &&& path.len() <= MAX_URL_CHARS
    &&& name.len() <= MAX_URL_CHARS
    &&& value.len() <= MAX_URL_CHARS
}

/// The canonical link for the raw link `link`: the link is resolved against
/// `base`; the path is cut down to the segments kept; the address is rebuilt
/// on `origin` with that path and the one parameter `name`=`value`.
pub open spec fn canonical_link(
    link: Seq<char>,
    base: Seq<char>,
    origin: Seq<char>,
    name: Seq<char>,
    value: Seq<char>,
) -> Result<Seq<char>, LinkError> {
    match url_resolved_segments(base, link) {
        None => Err(LinkError::Malformed),
        Some(found) => {
            let segments = match found {
                Some(list) => list,
                None => Seq::<Seq<char>>::empty(),
            };
            let path = canonical_path(segments);
            if !within_limits(origin, path, name, value) {
                Err(LinkError::TooLong)
            } else {
                match url_rebuilt(origin, path, name, value) {
                    Some(text) => Ok(text),
                    None => Err(LinkError::BadOrigin),
                }
            }
        },
    }
}

/// The segments kept of a path.
pub fn product_segments(segments: &Vec<String>) -> (kept: Vec<String>)
    ensures
        views_of(kept@) == kept_segments(views_of(segments@)),
{
    let mut kept: Vec<String> = Vec::new();
    let mut i: usize = 0;
    let ghost all = views_of(segments@);
    proof {
        assert(all.skip(0) =~= all);
    }
    while i < segments.len()
        invariant
            i <= segments.len(),
            all == views_of(segments@),
            kept@.len() == 0,
            kept_segments(all) == kept_segments(all.skip(i as int)),
        decreases segments.len() - i,
    {
        let ghost rest = all.skip(i as int);
        proof {
            assert(rest[0] == segments@[i as int]@);
            assert(rest.drop_first() =~= all.skip(i + 1));
        }
        if same_text(segments[i].as_str(), PRODUCT_MARKER) {
            kept.push(segments[i].clone());
            if i + 1 < segments.len() {
                kept.push(segments[i + 1].clone());
                proof {
                    assert(rest[1] == segments@[i + 1]@);
                    assert(views_of(kept@) =~= rest.take(2));
                }
            } else {
                proof {
                    assert(views_of(kept@) =~= rest);
                }
            }
            return kept;
        }
        i += 1;
    }
    proof {
        assert(views_of(kept@) =~= Seq::<Seq<char>>::empty());
    }
    kept
}

/// The path of the canonical link for the given segments of the raw link.
pub fn product_path(segments: &Vec<String>) -> (path: String)
    ensures
        path@ == canonical_path(views_of(segments@)),
{
    let kept = product_segments(segments);
    let mut path = "/".to_owned();
    path.append(join(&kept, "/").as_str());
    proof {
        reveal_strlit("/");
        assert("/"@ =~= seq!['/']);
    }
    path
}

/// The canonical link for `link`, with the origins and the parameter given.
pub fn canonicalize(link: &str, base: &str, origin: &str, name: &str, value: &str) -> (out: Result<
    String,
    LinkError,
>)
    ensures
        match out {
            Ok(text) => canonical_link(link@, base@, origin@, name@, value@) == Ok::<
                Seq<char>,
                LinkError,
            >(text@),
            Err(e) => canonical_link(link@, base@, origin@, name@, value@) == Err::<
                Seq<char>,
                LinkError,
            >(e),
        },
{
    let segments = match resolved_segments(base, link) {
        Ok(Some(list)) => list,
        Ok(None) => Vec::new(),
        Err(_) => {
            return Err(LinkError::Malformed);
        },
    };
    proof {
        assert(views_of(Seq::<String>::empty()) =~= Seq::<Seq<char>>::empty());
    }
    let path = product_path(&segments);
    if origin.unicode_len() > MAX_ORIGIN_CHARS || path.as_str().unicode_len() > MAX_URL_CHARS
        || name.unicode_len() > MAX_URL_CHARS || value.unicode_len() > MAX_URL_CHARS {
        return Err(LinkError::TooLong);
    }
    match rebuilt_address(origin, path.as_str(), name, value) {
        Ok(text) => Ok(text),
        Err(_) => Err(LinkError::BadOrigin),
    }
}

/// The canonical link for a raw link of a listing.
pub fn process_infos_link(link: String) -> (out: Result<String, LinkError>)
    ensures
        match out {
            Ok(text) => canonical_link(
                link@,
                BASE_ORIGIN@,
                CANONICAL_ORIGIN@,
                TAG_NAME@,
                TAG_VALUE@,
            ) == Ok::<Seq<char>, LinkError>(text@),
            Err(e) => canonical_link(link@, BASE_ORIGIN@, CANONICAL_ORIGIN@, TAG_NAME@, TAG_VALUE@)
                == Err::<Seq<char>, LinkError>(e),
        },
{
    canonicalize(link.as_str(), BASE_ORIGIN, CANONICAL_ORIGIN, TAG_NAME, TAG_VALUE)
}

/// What is kept of a path starts with the marker, or is empty.
pub proof fn lemma_kept_segments_start_with_marker(segments: Seq<Seq<char>>)
    ensures
        kept_segments(segments).len() <= 2,
        kept_segments(segments).len() > 0 ==> kept_segments(segments)[0] == PRODUCT_MARKER@,
    decreases segments.len(),
{
    if segments.len() > 0 && segments[0] != PRODUCT_MARKER@ {
        lemma_kept_segments_start_with_marker(segments.drop_first());
    }
}

/// Cutting a path down a second time changes nothing.
pub proof fn lemma_kept_segments_idempotent(segments: Seq<Seq<char>>)
    ensures
        kept_segments(kept_segments(segments)) == kept_segments(segments),
{
    lemma_kept_segments_start_with_marker(segments);
    let kept = kept_segments(segments);
    if kept.len() == 2 {
        assert(kept.take(2) =~= kept);
    }
}

/// Segments without the marker before a path do not change what is kept of it.
pub proof fn lemma_kept_segments_skip_prefix(prefix: Seq<Seq<char>>, segments: Seq<Seq<char>>)
    requires
        forall|i: int| 0 <= i < prefix.len() ==> prefix[i] != PRODUCT_MARKER@,
    ensures
        kept_segments(prefix + segments) == kept_segments(segments),
    decreases prefix.len(),
{
    if prefix.len() == 0 {
        assert(prefix + segments =~= segments);
    } else {
        assert((prefix + segments).drop_first() =~= prefix.drop_first() + segments);
        assert((prefix + segments)[0] == prefix[0]);
        lemma_kept_segments_skip_prefix(prefix.drop_first(), segments);
    }
}

/// A canonical link is made canonical into itself, provided that the `url`
/// crate reads back from it, behind segments without the marker, the path
/// segments that were kept when it was made.
pub proof fn lemma_canonical_link_is_fixed(
    link: Seq<char>,
    base: Seq<char>,
    origin: Seq<char>,
    name: Seq<char>,
    value: Seq<char>,
    prefix: Seq<Seq<char>>,
)
    requires
        canonical_link(link, base, origin, name, value) is Ok,
        forall|i: int| 0 <= i < prefix.len() ==> prefix[i] != PRODUCT_MARKER@,
        ({
            let segments = match url_resolved_segments(base, link)->0 {
                Some(list) => list,
                None => Seq::<Seq<char>>::empty(),
            };
            let made = canonical_link(link, base, origin, name, value)->Ok_0;
            url_resolved_segments(base, made) == Some(Some(prefix + kept_segments(segments)))
        }),
    ensures
        canonical_link(
            canonical_link(link, base, origin, name, value)->Ok_0,
            base,
            origin,
            name,
            value,
        ) == canonical_link(link, base, origin, name, value),
{
    let segments = match url_resolved_segments(base, link)->0 {
        Some(list) => list,
        None => Seq::<Seq<char>>::empty(),
    };
    lemma_kept_segments_skip_prefix(prefix, kept_segments(segments));
    lemma_kept_segments_idempotent(segments);
}

} // verus!
