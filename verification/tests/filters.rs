use aerostream::api::AppBskyFeedPost;
use aerostream::event::Event;
use aerostream::filter::{Change, Filter, FilterError, Filters, Keywords, Langs, Subscribes};
use aerostream::time::Timestamp;
use libipld::cbor::DagCborCodec;
use libipld::prelude::Codec;
use libipld::Ipld;

fn fl_map(entries: Vec<(&str, Ipld)>) -> Ipld {
    Ipld::StringMap(entries.into_iter().map(|(k, v)| (k.to_string(), v)).collect())
}

fn fl_encode(value: &Ipld) -> Vec<u8> {
    DagCborCodec.encode(value).unwrap()
}

fn fl_block(bytes: &[u8]) -> Vec<u8> {
    let mut out = Vec::new();
    leb128::write::unsigned(&mut out, bytes.len() as u64).unwrap();
    out.extend_from_slice(bytes);
    out
}

fn fl_commit_event(repo: &str, texts: &[(&str, Option<Vec<&str>>)]) -> Event {
    let header = fl_map(vec![("roots", Ipld::List(vec![]))]);
    let mut car = fl_block(&fl_encode(&header));
    let mut ops = Vec::new();
    for (n, (text, langs)) in texts.iter().enumerate() {
        let digest = [n as u8 + 1; 32];
        let cid = libipld::Cid::new_v1(0x71, libipld::multihash::Multihash::wrap(0x12, &digest).unwrap());
        let mut entries = vec![
            ("text", Ipld::String(text.to_string())),
            ("createdAt", Ipld::String("2024-01-01T00:00:00Z".to_string())),
        ];
        if let Some(l) = langs {
            entries.push(("langs", Ipld::List(l.iter().map(|x| Ipld::String(x.to_string())).collect())));
        }
        let mut body = cid.to_bytes();
        body.extend_from_slice(&fl_encode(&fl_map(entries)));
        car.extend_from_slice(&fl_block(&body));
        ops.push(fl_map(vec![
            ("action", Ipld::String("create".to_string())),
            ("path", Ipld::String(format!("app.bsky.feed.post/{}", n))),
            ("cid", Ipld::Link(cid)),
        ]));
    }
    let payload = fl_map(vec![
        ("seq", Ipld::Integer(1)),
        ("repo", Ipld::String(repo.to_string())),
        ("blocks", Ipld::Bytes(car)),
        ("ops", Ipld::List(ops)),
        ("blobs", Ipld::List(vec![])),
        ("time", Ipld::String("2024-01-01T00:00:00Z".to_string())),
    ]);
    let mut frame = fl_encode(&fl_map(vec![("op", Ipld::Integer(1)), ("t", Ipld::String("#commit".to_string()))]));
    frame.extend_from_slice(&fl_encode(&payload));
    Event::try_from(&frame).unwrap()
}

fn fl_handle_event(did: &str) -> Event {
    let payload = fl_map(vec![
        ("seq", Ipld::Integer(1)),
        ("did", Ipld::String(did.to_string())),
        ("handle", Ipld::String("new.name".to_string())),
        ("time", Ipld::String("2024-01-01T00:00:00Z".to_string())),
    ]);
    let mut frame = fl_encode(&fl_map(vec![("op", Ipld::Integer(1)), ("t", Ipld::String("#handle".to_string()))]));
    frame.extend_from_slice(&fl_encode(&payload));
    Event::try_from(&frame).unwrap()
}

fn fl_words(v: &[&str]) -> Option<Vec<String>> {
    Some(v.iter().map(|s| s.to_string()).collect())
}

fn fl_post(text: &str, langs: Option<Vec<&str>>) -> AppBskyFeedPost {
    AppBskyFeedPost {
        text: text.to_string(),
        created_at: Timestamp { secs: 0, nanos: 0 },
        langs: langs.map(|l| l.into_iter().map(|s| s.to_string()).collect()),
        tags: None,
        json: String::new(),
    }
}

#[test]
fn author_hit_with_content_veto() {
    let filter = Filter {
        name: "F".to_string(),
        subscribes: Some(Subscribes { dids: fl_words(&["did:plc:a"]), handles: None }),
        keywords: Some(Keywords { includes: None, excludes: fl_words(&["spam"]) }),
        langs: None,
    };
    assert!(filter.is_match(&fl_commit_event("did:plc:a", &[("hello world", None)])));
    assert!(!filter.is_match(&fl_commit_event("did:plc:a", &[("hello spam", None)])));
}

#[test]
fn content_hit_across_authors() {
    let filter = Filter {
        name: "F".to_string(),
        subscribes: Some(Subscribes { dids: fl_words(&[]), handles: None }),
        keywords: Some(Keywords { includes: fl_words(&["bluesky"]), excludes: None }),
        langs: None,
    };
    assert!(filter.is_match(&fl_commit_event("did:plc:b", &[("I love bluesky", None)])));
    assert!(!filter.is_match(&fl_commit_event("did:plc:b", &[("I love the sky", None)])));
}

#[test]
fn filter_without_clauses_matches_everything() {
    let filter = Filter { name: "All".to_string(), subscribes: None, keywords: None, langs: None };
    assert!(filter.is_match(&fl_commit_event("did:plc:b", &[("anything", None)])));
    assert!(filter.is_match(&fl_commit_event("did:plc:b", &[])));
    assert!(filter.is_match(&fl_handle_event("did:plc:zzz")));
}

#[test]
fn subscribed_author_is_not_matched_by_inclusion_alone() {
    // for a subscribed author only the exclusions count
    let filter = Filter {
        name: "F".to_string(),
        subscribes: Some(Subscribes { dids: fl_words(&["did:plc:a"]), handles: None }),
        keywords: Some(Keywords { includes: fl_words(&["never"]), excludes: None }),
        langs: None,
    };
    assert!(filter.is_match(&fl_commit_event("did:plc:a", &[("hello", None)])));
    assert!(!filter.is_match(&fl_commit_event("did:plc:b", &[("hello", None)])));
    assert!(filter.is_match(&fl_commit_event("did:plc:b", &[("never say", None)])));
}

#[test]
fn languages_include_and_exclude() {
    let filter = Filter {
        name: "F".to_string(),
        subscribes: Some(Subscribes { dids: fl_words(&["did:plc:a"]), handles: None }),
        keywords: None,
        langs: Some(Langs { includes: fl_words(&["ja"]), excludes: fl_words(&["de"]) }),
    };
    assert!(filter.is_match(&fl_commit_event("did:plc:b", &[("x", Some(vec!["en", "ja"]))])));
    assert!(!filter.is_match(&fl_commit_event("did:plc:b", &[("x", Some(vec!["en"]))])));
    assert!(!filter.is_match(&fl_commit_event("did:plc:b", &[("x", None)])));
    assert!(!filter.is_match(&fl_commit_event("did:plc:a", &[("x", Some(vec!["de"]))])));
    assert!(filter.is_match(&fl_commit_event("did:plc:a", &[("x", Some(vec!["ja"]))])));
    // any post of the commit counts
    assert!(filter.is_match(&fl_commit_event("did:plc:b", &[("x", None), ("y", Some(vec!["ja"]))])));
}

#[test]
fn handle_event_matches_by_account() {
    let filter = Filter {
        name: "F".to_string(),
        subscribes: Some(Subscribes { dids: fl_words(&["did:plc:a"]), handles: fl_words(&["a.test"]) }),
        keywords: None,
        langs: None,
    };
    assert!(filter.is_match(&fl_handle_event("did:plc:a")));
    assert!(!filter.is_match(&fl_handle_event("did:plc:b")));
    let no_subscribes = Filter {
        name: "K".to_string(),
        subscribes: None,
        keywords: Some(Keywords { includes: None, excludes: None }),
        langs: None,
    };
    assert!(!no_subscribes.is_match(&fl_handle_event("did:plc:a")));
}

#[test]
fn matching_is_pure() {
    let filter = Filter {
        name: "F".to_string(),
        subscribes: Some(Subscribes { dids: fl_words(&["did:plc:a"]), handles: None }),
        keywords: Some(Keywords { includes: fl_words(&["sky"]), excludes: fl_words(&["spam"]) }),
        langs: None,
    };
    let event = fl_commit_event("did:plc:b", &[("the sky", None)]);
    let first = filter.is_match(&event);
    for _ in 0..5 {
        assert_eq!(filter.is_match(&event), first);
        assert_eq!(filter.duplicate().is_match(&event.clone()), first);
    }
    assert_eq!(filter.duplicate(), filter);
}

#[test]
fn keywords_are_parts_of_the_text() {
    let k = Keywords { includes: fl_words(&["sky", "sea"]), excludes: fl_words(&[""]) };
    assert!(k.includes(&[fl_post("bluesky", None)]));
    assert!(k.includes(&[fl_post("no", None), fl_post("deep sea", None)]));
    assert!(!k.includes(&[fl_post("Sky", None)]));
    assert!(!k.includes(&[]));
    // the empty word is part of every text, but of no text where there is none
    assert!(k.excludes(&[fl_post("", None)]));
    assert!(!k.excludes(&[]));
    let none = Keywords { includes: None, excludes: None };
    assert!(!none.includes(&[fl_post("sky", None)]));
    assert!(!none.excludes(&[fl_post("sky", None)]));
    let l = Langs { includes: fl_words(&["en"]), excludes: None };
    assert!(l.includes(&[fl_post("x", Some(vec!["en"]))]));
    assert!(!l.includes(&[fl_post("x", Some(vec!["en-US"]))]));
    assert!(!l.excludes(&[fl_post("x", Some(vec!["en"]))]));
}

#[test]
fn subscribes_add_and_remove() {
    let mut s = Subscribes { dids: None, handles: None };
    assert!(!s.is_match("did:plc:a"));
    assert_eq!(s.unsubscribe_repo("did:plc:a"), Err(FilterError::NoSuchDid));
    assert_eq!(s.unsubscribe_handle("a.test"), Err(FilterError::NoSuchHandle));
    assert_eq!(s.subscribe_repo("did:plc:a"), Ok(()));
    assert_eq!(s.subscribe_repo("did:plc:b"), Ok(()));
    // a repository can be there twice, a handle cannot
    assert_eq!(s.subscribe_repo("did:plc:a"), Ok(()));
    assert_eq!(s.dids, fl_words(&["did:plc:a", "did:plc:b", "did:plc:a"]));
    assert!(s.is_match("did:plc:a"));
    assert_eq!(s.unsubscribe_repo("did:plc:a"), Ok(()));
    assert_eq!(s.dids, fl_words(&["did:plc:b"]));
    assert_eq!(s.unsubscribe_repo("did:plc:zzz"), Ok(()));
    assert_eq!(s.dids, fl_words(&["did:plc:b"]));
    assert_eq!(s.subscribe_handle("a.test"), Ok(()));
    assert_eq!(s.subscribe_handle("b.test"), Ok(()));
    assert_eq!(s.subscribe_handle("a.test"), Ok(()));
    assert_eq!(s.handles, fl_words(&["a.test", "b.test"]));
    assert_eq!(s.unsubscribe_handle("a.test"), Ok(()));
    assert_eq!(s.handles, fl_words(&["b.test"]));
    // a handle is no DID
    assert!(!s.is_match("b.test"));
}

#[test]
fn filter_changes_make_the_clause() {
    let mut f = Filter { name: "K".to_string(), subscribes: None, keywords: None, langs: None };
    assert_eq!(f.unsubscribe_repo("did:plc:a"), Err(FilterError::NoSuchDid));
    assert_eq!(f.unsubscribe_handle("a.test"), Err(FilterError::NoSuchHandle));
    assert_eq!(f.subscribes, None);
    assert_eq!(f.subscribe_handle("a.test"), Ok(()));
    assert_eq!(f.subscribes, Some(Subscribes { dids: None, handles: fl_words(&["a.test"]) }));
    assert_eq!(f.unsubscribe_repo("did:plc:a"), Err(FilterError::NoSuchDid));
    assert_eq!(f.subscribe_repo("did:plc:a"), Ok(()));
    assert_eq!(f.change(Change::UnsubscribeRepo, "did:plc:a"), Ok(()));
    assert_eq!(f.subscribes, Some(Subscribes { dids: fl_words(&[]), handles: fl_words(&["a.test"]) }));
}

#[test]
fn default_filters_are_all_and_favorites() {
    let filters = Filters::default();
    assert_eq!(filters.filters.len(), 2);
    assert_eq!(filters.filters[0], Filter { name: "All".to_string(), subscribes: None, keywords: None, langs: None });
    assert_eq!(filters.filters[1].name, "Favorites");
    assert_eq!(filters.filters[1].subscribes, Some(Subscribes { dids: fl_words(&[]), handles: fl_words(&[]) }));
    assert_eq!(filters.filters[1].keywords, Some(Keywords { includes: fl_words(&[]), excludes: fl_words(&[]) }));
    assert_eq!(filters.filters[1].langs, Some(Langs { includes: fl_words(&[]), excludes: fl_words(&[]) }));
    assert_eq!(filters.get_filters(), filters.filters);
    assert_eq!(Filter::default().name, "");
    // the empty favorites match nothing of a commit
    assert!(!filters.filters[1].is_match(&fl_commit_event("did:plc:a", &[("x", None)])));
}

#[test]
fn named_filter_is_changed() {
    let mut filters = Filters::default();
    assert_eq!(filters.subscribe_repo("Nope", "did:plc:a"), Err(FilterError::NoSuchFilter));
    assert_eq!(filters.unsubscribe_repo("Nope", "did:plc:a"), Err(FilterError::NoSuchFilter));
    assert_eq!(filters.subscribe_handle("Nope", "a.test"), Err(FilterError::NoSuchFilter));
    assert_eq!(filters.unsubscribe_handle("Nope", "a.test"), Err(FilterError::NoSuchFilter));
    assert_eq!(filters, Filters::default());
    assert_eq!(filters.subscribe_repo("Favorites", "did:plc:a"), Ok(()));
    assert_eq!(filters.subscribe_handle("Favorites", "a.test"), Ok(()));
    assert_eq!(filters.filters[1].subscribes, Some(Subscribes { dids: fl_words(&["did:plc:a"]), handles: fl_words(&["a.test"]) }));
    assert_eq!(filters.filters[0], Filters::default().filters[0]);
    assert_eq!(filters.unsubscribe_repo("Favorites", "did:plc:a"), Ok(()));
    assert_eq!(filters.unsubscribe_handle("Favorites", "a.test"), Ok(()));
    assert_eq!(filters, Filters::default());
    // `All` has no clause to take anything from
    assert_eq!(filters.unsubscribe_repo("All", "did:plc:a"), Err(FilterError::NoSuchDid));
    assert_eq!(filters.position("Favorites"), Some(1));
    assert_eq!(filters.position("favorites"), None);
}

#[test]
fn timeline_is_added_once() {
    let filters = Filters::default();
    let follows = vec!["did:plc:x".to_string(), "did:plc:y".to_string()];
    let with = filters.add_timeline("alice.test", follows.clone());
    assert_eq!(with.filters.len(), 3);
    assert_eq!(with.filters[2].name, "alice.test");
    assert_eq!(with.filters[2].subscribes, Some(Subscribes { dids: Some(follows), handles: None }));
    assert_eq!(with.filters[2].keywords, Filter::default().keywords);
    // adding it again replaces it
    let again = with.add_timeline("alice.test", vec!["did:plc:z".to_string()]);
    assert_eq!(again.filters.len(), 3);
    assert_eq!(again.filters[2].subscribes, Some(Subscribes { dids: fl_words(&["did:plc:z"]), handles: None }));
    assert!(again.filters[2].is_match(&fl_commit_event("did:plc:z", &[])));
    let mut removed = again;
    removed.remove_timeline("alice.test");
    assert_eq!(removed, Filters::default());
    removed.remove_timeline("alice.test");
    assert_eq!(removed, Filters::default());
}

#[test]
fn handles_are_resolved_to_dids() {
    let table = vec![
        ("a.test".to_string(), "did:plc:a".to_string()),
        ("b.test".to_string(), "did:plc:b".to_string()),
        ("a.test".to_string(), "did:plc:other".to_string()),
    ];
    let mut f = Filter {
        name: "F".to_string(),
        subscribes: Some(Subscribes {
            dids: fl_words(&["did:plc:b", "did:plc:c", "did:plc:b"]),
            handles: fl_words(&["a.test", "unknown.test", "b.test"]),
        }),
        keywords: None,
        langs: None,
    };
    f.init(&table);
    let s = f.subscribes.clone().unwrap();
    assert_eq!(s.dids, fl_words(&["did:plc:b", "did:plc:c", "did:plc:a"]));
    assert_eq!(s.handles, fl_words(&["a.test", "unknown.test", "b.test"]));
    // nothing to resolve, nothing subscribed: the list goes
    let mut empty = Filter::default();
    empty.init(&table);
    assert_eq!(empty.subscribes, Some(Subscribes { dids: None, handles: fl_words(&[]) }));
    // without a list of handles nothing changes
    let mut plain = Filter {
        name: "P".to_string(),
        subscribes: Some(Subscribes { dids: fl_words(&["did:plc:b", "did:plc:b"]), handles: None }),
        keywords: None,
        langs: None,
    };
    plain.init(&table);
    assert_eq!(plain.subscribes, Some(Subscribes { dids: fl_words(&["did:plc:b", "did:plc:b"]), handles: None }));
    let mut all = Filters::default();
    all.subscribe_handle("Favorites", "a.test").unwrap();
    all.init(&table);
    assert_eq!(all.filters[1].subscribes, Some(Subscribes { dids: fl_words(&["did:plc:a"]), handles: fl_words(&["a.test"]) }));
    assert_eq!(all.filters[0].subscribes, None);
}
