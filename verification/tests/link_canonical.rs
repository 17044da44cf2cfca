use product_scraper::link::{
    canonicalize, process_infos_link, product_path, product_segments, LinkError,
    MAX_ORIGIN_CHARS, MAX_URL_CHARS, TAG_NAME, TAG_VALUE,
};

fn strings(parts: &[&str]) -> Vec<String> {
    parts.iter().map(|part| part.to_string()).collect()
}

#[test]
fn link_is_cut_down_and_tagged() {
    let link = canonicalize(
        "/foo/bar/dp/B07FD729LJ/ref=xyz?qid=1&other=2",
        "https://example.test",
        "https://canon.test",
        TAG_NAME,
        TAG_VALUE,
    );
    assert_eq!(link, Ok("https://canon.test/dp/B07FD729LJ?tag=glam0d9-21".to_string()));
}

#[test]
fn canonical_link_has_exactly_one_parameter() {
    let link = canonicalize(
        "/foo/bar/dp/B07FD729LJ/ref=xyz?qid=1&other=2&tag=other-20",
        "https://example.test",
        "https://canon.test",
        TAG_NAME,
        TAG_VALUE,
    )
    .unwrap();
    let parsed = url::Url::parse(&link).unwrap();
    let pairs: Vec<(String, String)> =
        parsed.query_pairs().map(|(name, value)| (name.into_owned(), value.into_owned())).collect();
    assert_eq!(pairs, vec![("tag".to_string(), "glam0d9-21".to_string())]);
    assert_eq!(parsed.fragment(), None);
}

#[test]
fn canonicalizing_twice_gives_the_same_link() {
    let once = canonicalize(
        "/foo/bar/dp/B07FD729LJ/ref=xyz?qid=1&other=2",
        "https://example.test",
        "https://canon.test",
        TAG_NAME,
        TAG_VALUE,
    )
    .unwrap();
    let twice =
        canonicalize(&once, "https://example.test", "https://canon.test", TAG_NAME, TAG_VALUE);
    assert_eq!(twice, Ok(once));
}

#[test]
fn store_link_canonicalized_twice_gives_the_same_link() {
    let links = [
        "/Some-Ring/dp/B07FD729LJ/ref=sr_1_1?keywords=ringe&qid=1739281517",
        "/no/marker/here",
        "/dp",
        "",
        "/sspa/click?ie=UTF8&url=%2FRing%2Fdp%2FB07FD729LJ%2Fref%3Dsr_1_1",
    ];
    for link in links {
        let once = process_infos_link(link.to_string()).unwrap();
        assert_eq!(process_infos_link(once.clone()), Ok(once), "link {:?}", link);
    }
}

#[test]
fn store_link_is_rebuilt_on_the_canonical_origin() {
    assert_eq!(
        process_infos_link(
            "/Some-Ring/dp/B07FD729LJ/ref=sr_1_1?keywords=ringe&qid=1739281517".to_string()
        ),
        Ok("https://www.amazon.de/dp/B07FD729LJ?tag=glam0d9-21".to_string())
    );
}

#[test]
fn link_without_marker_has_an_empty_path() {
    assert_eq!(
        process_infos_link("/gp/bestsellers/ref=zg?x=1".to_string()),
        Ok("https://www.amazon.de/?tag=glam0d9-21".to_string())
    );
    assert_eq!(
        process_infos_link("".to_string()),
        Ok("https://www.amazon.de/?tag=glam0d9-21".to_string())
    );
}

#[test]
fn marker_as_last_segment_is_kept_alone() {
    assert_eq!(
        process_infos_link("/Ring/dp".to_string()),
        Ok("https://www.amazon.de/dp?tag=glam0d9-21".to_string())
    );
    assert_eq!(
        process_infos_link("/Ring/dp/".to_string()),
        Ok("https://www.amazon.de/dp/?tag=glam0d9-21".to_string())
    );
}

#[test]
fn first_marker_counts() {
    assert_eq!(
        process_infos_link("/dp/FIRST/dp/SECOND".to_string()),
        Ok("https://www.amazon.de/dp/FIRST?tag=glam0d9-21".to_string())
    );
}

#[test]
fn marker_hidden_in_the_query_is_not_seen() {
    assert_eq!(
        process_infos_link("/sspa/click?url=/Ring/dp/B07FD729LJ".to_string()),
        Ok("https://www.amazon.de/?tag=glam0d9-21".to_string())
    );
}

#[test]
fn link_that_does_not_resolve_is_malformed() {
    assert_eq!(
        process_infos_link("https://[::1/dp/B07FD729LJ".to_string()),
        Err(LinkError::Malformed)
    );
    assert_eq!(
        canonicalize("/dp/B07FD729LJ", "", "https://canon.test", TAG_NAME, TAG_VALUE),
        Err(LinkError::Malformed)
    );
}

#[test]
fn link_without_leading_slash_is_resolved_against_the_base() {
    assert_eq!(
        process_infos_link("dp/B07FD729LJ".to_string()),
        Ok("https://www.amazon.de/dp/B07FD729LJ?tag=glam0d9-21".to_string())
    );
    assert_eq!(
        canonicalize(
            "B07FD729LJ?qid=1",
            "https://example.test/Ring/dp/OLD",
            "https://canon.test",
            TAG_NAME,
            TAG_VALUE
        ),
        Ok("https://canon.test/dp/B07FD729LJ?tag=glam0d9-21".to_string())
    );
}

#[test]
fn absolute_link_is_taken_as_it_is() {
    assert_eq!(
        process_infos_link("https://www.amazon.de/Ring/dp/B07FD729LJ/ref=x?qid=1#top".to_string()),
        Ok("https://www.amazon.de/dp/B07FD729LJ?tag=glam0d9-21".to_string())
    );
    assert_eq!(
        process_infos_link("//other.test/dp/X1".to_string()),
        Ok("https://www.amazon.de/dp/X1?tag=glam0d9-21".to_string())
    );
}

#[test]
fn dot_segments_are_resolved_before_the_marker_is_sought() {
    assert_eq!(
        process_infos_link("/a/dp/../dp/B07FD729LJ".to_string()),
        Ok("https://www.amazon.de/dp/B07FD729LJ?tag=glam0d9-21".to_string())
    );
    assert_eq!(
        process_infos_link("/dp/../B07FD729LJ".to_string()),
        Ok("https://www.amazon.de/?tag=glam0d9-21".to_string())
    );
}

#[test]
fn link_without_path_segments_has_an_empty_path() {
    assert_eq!(
        process_infos_link("mailto:dp/B07FD729LJ".to_string()),
        Ok("https://www.amazon.de/?tag=glam0d9-21".to_string())
    );
}

#[test]
fn origin_that_does_not_parse_is_refused() {
    assert_eq!(
        canonicalize("/dp/B07FD729LJ", "https://example.test", "canon", TAG_NAME, TAG_VALUE),
        Err(LinkError::BadOrigin)
    );
}

#[test]
fn malformed_link_is_reported_before_a_bad_origin() {
    assert_eq!(
        canonicalize("/dp/B07FD729LJ", "", "canon", TAG_NAME, TAG_VALUE),
        Err(LinkError::Malformed)
    );
}

#[test]
fn parameter_is_encoded_as_a_form_pair() {
    assert_eq!(
        canonicalize("/dp/X1", "https://example.test", "https://canon.test", "a b", "c&d"),
        Ok("https://canon.test/dp/X1?a+b=c%26d".to_string())
    );
}

#[test]
fn query_of_the_origin_is_removed() {
    assert_eq!(
        canonicalize(
            "/dp/X1",
            "https://example.test",
            "https://canon.test/old/path?stale=1",
            TAG_NAME,
            TAG_VALUE
        ),
        Ok("https://canon.test/dp/X1?tag=glam0d9-21".to_string())
    );
}

#[test]
fn segments_are_kept_from_the_first_marker() {
    assert_eq!(
        product_segments(&strings(&["foo", "bar", "dp", "B07FD729LJ", "ref=xyz"])),
        strings(&["dp", "B07FD729LJ"])
    );
    assert_eq!(product_segments(&strings(&["foo", "dp"])), strings(&["dp"]));
    assert_eq!(product_segments(&strings(&["foo", "bar"])), Vec::<String>::new());
    assert_eq!(product_segments(&Vec::new()), Vec::<String>::new());
    assert_eq!(product_segments(&strings(&["dp", "dp", "dp"])), strings(&["dp", "dp"]));
    assert_eq!(product_segments(&strings(&["DP", "x"])), Vec::<String>::new());
}

#[test]
fn kept_segments_are_kept_again() {
    let kept = product_segments(&strings(&["foo", "bar", "dp", "B07FD729LJ", "ref=xyz"]));
    assert_eq!(product_segments(&kept), kept);
}

#[test]
fn path_starts_with_a_slash() {
    assert_eq!(product_path(&strings(&["foo", "dp", "B07FD729LJ", "x"])), "/dp/B07FD729LJ");
    assert_eq!(product_path(&strings(&["foo"])), "/");
    assert_eq!(product_path(&strings(&["dp"])), "/dp");
}

#[test]
fn parameter_beyond_the_limit_is_too_long() {
    let value = "v".repeat(MAX_URL_CHARS + 1);
    assert_eq!(
        canonicalize("/dp/X1", "https://example.test", "https://canon.test", TAG_NAME, &value),
        Err(LinkError::TooLong)
    );
}

#[test]
fn parameter_at_the_limit_is_written() {
    let value = "v".repeat(MAX_URL_CHARS);
    let link =
        canonicalize("/dp/X1", "https://example.test", "https://canon.test", TAG_NAME, &value)
            .unwrap();
    assert_eq!(link.len(), "https://canon.test/dp/X1?tag=".len() + MAX_URL_CHARS);
    assert!(link.starts_with("https://canon.test/dp/X1?tag=vvv"));
}

#[test]
fn origin_beyond_the_limit_is_too_long() {
    let origin = format!("https://canon.test/{}", "a".repeat(MAX_ORIGIN_CHARS));
    assert_eq!(
        canonicalize("/dp/X1", "https://example.test", &origin, TAG_NAME, TAG_VALUE),
        Err(LinkError::TooLong)
    );
    let long_but_allowed = format!("https://canon.test/{}", "a".repeat(MAX_ORIGIN_CHARS - 19));
    assert_eq!(
        canonicalize("/dp/X1", "https://example.test", &long_but_allowed, TAG_NAME, TAG_VALUE),
        Ok("https://canon.test/dp/X1?tag=glam0d9-21".to_string())
    );
}

#[test]
fn long_link_is_too_long_before_a_bad_origin_is_seen() {
    let name = "n".repeat(MAX_URL_CHARS + 1);
    assert_eq!(
        canonicalize("/dp/X1", "https://example.test", "canon", &name, TAG_VALUE),
        Err(LinkError::TooLong)
    );
}

#[test]
fn rebuilding_on_an_origin_that_cannot_be_a_base() {
    assert_eq!(
        canonicalize("/dp/X1", "https://example.test", "data:x", TAG_NAME, TAG_VALUE),
        Ok("data:%2Fdp/X1?tag=glam0d9-21".to_string())
    );
}
