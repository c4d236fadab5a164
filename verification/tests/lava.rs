use lava_api::lava::{Lava, LavaError, Lookup, TagResolution};
use lava_api::paginator::{Page, PaginationError, Paginator, Pull};
use lava_api::tag::Tag;
use lava_api::test::TestCase;
use std::collections::VecDeque;

fn tag(id: u32, name: &str) -> Tag {
    Tag {
        id,
        name: String::from(name),
        description: Some(format!("the tag {}", name)),
    }
}

fn fresh() -> Lava {
    Lava::new("http://lava.example", None).expect("failed to make lava")
}

fn page(next: Option<&str>, tags: &[Tag]) -> Page<Tag> {
    Page {
        count: 99,
        next: next.map(String::from),
        results: tags.iter().cloned().collect::<VecDeque<Tag>>(),
    }
}

#[test]
fn the_api_lives_below_the_servers_address() {
    assert_eq!(fresh().base(), "http://lava.example/api/v0.2/");
    let lava = Lava::new("https://Lava.Example:443/sub/dir/file?x=1#frag", None).unwrap();
    assert_eq!(lava.base(), "https://lava.example/sub/dir/api/v0.2/");
    let lava = Lava::new("http://lava.example/sub/", None).unwrap();
    assert_eq!(lava.base(), "http://lava.example/sub/api/v0.2/");
}

#[test]
fn an_address_that_is_no_url_is_refused() {
    match Lava::new("lava.example", None) {
        Err(LavaError::ParseUrlError(reason)) => {
            assert_eq!(reason, url::ParseError::RelativeUrlWithoutBase)
        }
        other => panic!("unexpected result {:?}", other),
    }
    match Lava::new("http://", None) {
        Err(LavaError::ParseUrlError(reason)) => assert_eq!(reason, url::ParseError::EmptyHost),
        other => panic!("unexpected result {:?}", other),
    }
    // The address parses, but nothing can be joined to it.
    match Lava::new("mailto:lab@lava.example", None) {
        Err(LavaError::ParseUrlError(reason)) => {
            assert_eq!(reason, url::ParseError::RelativeUrlWithCannotBeABaseBase)
        }
        other => panic!("unexpected result {:?}", other),
    }
}

#[test]
fn a_token_becomes_an_authorisation_header() {
    let lava = Lava::new("http://lava.example", Some(String::from("s3cr3t"))).unwrap();
    assert_eq!(lava.authorization().unwrap(), "Token s3cr3t");
    assert!(fresh().authorization().is_none());
    // Tabs and bytes above the ASCII range may stand in a header.
    let lava = Lava::new("http://lava.example", Some(String::from("a\tb\u{e9}"))).unwrap();
    assert_eq!(
        lava.authorization().unwrap().as_bytes(),
        "Token a\tb\u{e9}".as_bytes()
    );
}

#[test]
fn a_token_that_cannot_stand_in_a_header_is_refused() {
    for token in ["line\nbreak", "bell\u{7}", "delete\u{7f}", "\r"] {
        assert!(matches!(
            Lava::new("http://lava.example", Some(String::from(token))),
            Err(LavaError::InvalidToken(_))
        ));
    }
    // The address is looked at first.
    assert!(matches!(
        Lava::new("nowhere", Some(String::from("line\nbreak"))),
        Err(LavaError::ParseUrlError(_))
    ));
}

#[test]
fn a_known_tag_is_found_without_a_refresh() {
    let mut lava = fresh();
    lava.store(tag(4, "four"));
    assert_eq!(lava.tag(4, false), Lookup::Found(tag(4, "four")));
    assert_eq!(lava.tag(4, true), Lookup::Found(tag(4, "four")));
    assert_eq!(lava.tag(4, false), Lookup::Found(tag(4, "four")));
}

#[test]
fn an_unknown_tag_asks_for_one_refresh() {
    let mut lava = fresh();
    lava.store(tag(4, "four"));
    assert_eq!(lava.tag(5, false), Lookup::Refresh);
    // The refresh did not bring it.
    assert_eq!(lava.tag(5, true), Lookup::Missing);
    // The refresh brought it.
    lava.store(tag(5, "five"));
    assert_eq!(lava.tag(5, true), Lookup::Found(tag(5, "five")));
    assert_eq!(lava.tag(5, false), Lookup::Found(tag(5, "five")));
}

#[test]
fn storing_overwrites_and_never_purges() {
    let mut lava = fresh();
    lava.store(tag(1, "one"));
    lava.store(tag(2, "two"));
    lava.store(tag(1, "uno"));
    assert_eq!(lava.tag(1, false), Lookup::Found(tag(1, "uno")));
    assert_eq!(lava.tag(2, false), Lookup::Found(tag(2, "two")));
    let mut all = lava.tags();
    all.sort_by_key(|tag| tag.id);
    assert_eq!(all, vec![tag(1, "uno"), tag(2, "two")]);
    assert!(fresh().tags().is_empty());
}

#[test]
fn a_refresh_walks_all_the_tags() {
    let mut lava = fresh();
    lava.store(tag(7, "stale"));
    lava.store(tag(9, "kept"));
    let mut walk = lava.refresh_tags().unwrap();
    match lava.absorb(&mut walk) {
        Pull::Fetch(address) => assert_eq!(address, "http://lava.example/api/v0.2/tags/"),
        other => panic!("unexpected answer {:?}", other),
    }
    let first = page(
        Some("http://lava.example/api/v0.2/tags/?offset=2"),
        &[tag(1, "one"), tag(7, "seven")],
    );
    assert_eq!(walk.deliver(Ok(first)), None);
    match lava.absorb(&mut walk) {
        Pull::Fetch(address) => {
            assert_eq!(address, "http://lava.example/api/v0.2/tags/?offset=2")
        }
        other => panic!("unexpected answer {:?}", other),
    }
    assert_eq!(lava.tag(1, false), Lookup::Found(tag(1, "one")));
    assert_eq!(lava.tag(7, false), Lookup::Found(tag(7, "seven")));
    assert_eq!(lava.tag(3, false), Lookup::Refresh);
    assert_eq!(walk.deliver(Ok(page(None, &[tag(3, "three")]))), None);
    assert!(matches!(lava.absorb(&mut walk), Pull::End));
    assert_eq!(lava.tag(3, false), Lookup::Found(tag(3, "three")));
    assert_eq!(lava.tag(9, false), Lookup::Found(tag(9, "kept")));
    assert_eq!(lava.tags().len(), 4);
    assert_eq!(walk.reported_items(), Some(99));
}

#[test]
fn a_refresh_stops_at_a_failure_and_keeps_what_it_has() {
    let mut lava = fresh();
    let mut walk = lava.refresh_tags().unwrap();
    assert!(matches!(lava.absorb(&mut walk), Pull::Fetch(_)));
    assert_eq!(
        walk.deliver(Ok(page(Some("http://["), &[tag(1, "one"), tag(2, "two")]))),
        None
    );
    match lava.absorb(&mut walk) {
        Pull::Error(PaginationError::ParseNextError(_)) => {}
        other => panic!("unexpected answer {:?}", other),
    }
    assert_eq!(lava.tags().len(), 2);
    assert!(matches!(lava.absorb(&mut walk), Pull::End));
}

#[test]
fn tag_ids_resolve_in_their_order() {
    let mut lava = fresh();
    lava.store(tag(3, "three"));
    lava.store(tag(1, "one"));
    let mut resolution = TagResolution::new(vec![1, 2, 3]);
    // The unknown id asks for its refresh.
    assert!(!resolution.advance(&lava));
    // The refresh did not bring it: it is passed over.
    assert!(resolution.advance(&lava));
    assert_eq!(resolution.into_tags(), vec![tag(1, "one"), tag(3, "three")]);
}

#[test]
fn a_refresh_may_bring_the_missing_tag() {
    let mut lava = fresh();
    let mut resolution = TagResolution::new(vec![8, 8, 5]);
    assert!(!resolution.advance(&lava));
    lava.store(tag(8, "eight"));
    assert!(!resolution.advance(&lava));
    assert!(resolution.advance(&lava));
    assert_eq!(
        resolution.into_tags(),
        vec![tag(8, "eight"), tag(8, "eight")]
    );
}

#[test]
fn no_ids_need_no_refresh() {
    let lava = fresh();
    let mut resolution = TagResolution::new(Vec::new());
    assert!(resolution.advance(&lava));
    assert!(resolution.advance(&lava));
    assert!(resolution.into_tags().is_empty());
}

#[test]
fn collections_live_below_the_api() {
    let lava = Lava::new("https://lava.example/lab/", None).unwrap();
    let mut workers = lava.workers().unwrap();
    assert_eq!(workers.current(), "https://lava.example/lab/api/v0.2/workers/");
    assert!(matches!(workers.pull(), Pull::Fetch(_)));
    let walk: Paginator<u8> = lava.collection("aliases/?limit=3").unwrap();
    assert_eq!(
        walk.current(),
        "https://lava.example/lab/api/v0.2/aliases/?limit=3"
    );
    let walk: Paginator<u8> = lava.collection("/top").unwrap();
    assert_eq!(walk.current(), "https://lava.example/top");
    let broken: Result<Paginator<u8>, url::ParseError> = lava.collection("http://[");
    assert_eq!(broken.unwrap_err(), url::ParseError::InvalidIpv6Address);
}

#[test]
fn test_cases_are_nested_below_their_job() {
    let lava = fresh();
    let walk: Paginator<TestCase> = lava.test_cases(5790643).unwrap();
    assert_eq!(
        walk.current(),
        "http://lava.example/api/v0.2/jobs/5790643/tests/"
    );
    let walk = lava.test_cases(-3).unwrap();
    assert_eq!(walk.current(), "http://lava.example/api/v0.2/jobs/-3/tests/");
    let walk = lava.test_cases(0).unwrap();
    assert_eq!(walk.current(), "http://lava.example/api/v0.2/jobs/0/tests/");
}

#[test]
fn a_resolution_may_work_on_a_copy_of_the_ids() {
    let mut lava = fresh();
    lava.store(tag(2, "two"));
    let ids = vec![2, 2];
    let mut resolution = TagResolution::of(&ids);
    assert!(resolution.advance(&lava));
    assert_eq!(resolution.into_tags(), vec![tag(2, "two"), tag(2, "two")]);
    assert_eq!(ids, vec![2, 2]);
}

#[test]
fn a_refresh_ends_at_a_redirect_that_cannot_be_followed() {
    let mut lava = fresh();
    let mut walk = lava.refresh_tags().unwrap();
    assert!(matches!(lava.absorb(&mut walk), Pull::Fetch(_)));
    assert_eq!(
        walk.deliver(Ok(page(Some("?offset=1"), &[tag(1, "one")]))),
        None
    );
    match lava.absorb(&mut walk) {
        Pull::Fetch(address) => assert_eq!(address, "http://lava.example/api/v0.2/tags/?offset=1"),
        other => panic!("unexpected answer {:?}", other),
    }
    assert_eq!(
        walk.deliver(Err(PaginationError::RedirectMissing)),
        Some(PaginationError::RedirectMissing)
    );
    assert!(matches!(lava.absorb(&mut walk), Pull::End));
    assert_eq!(lava.tag(1, false), Lookup::Found(tag(1, "one")));
}

#[test]
fn every_cached_tag_is_kept_under_its_id() {
    let mut lava = fresh();
    for id in [9u32, 3, 7, 3] {
        lava.store(tag(id, "some"));
    }
    for found in lava.tags() {
        assert_eq!(lava.tag(found.id, false), Lookup::Found(found));
    }
    match lava.tag(7, true) {
        Lookup::Found(found) => assert_eq!(found.id, 7),
        other => panic!("unexpected answer {:?}", other),
    }
}
