use aerostream::client::{
    dispatch, make_channel_names, make_url, subscribe_url, BoundedQueue, Phase, Step, Subscriber,
    DEFAULT_TIMEOUT, RETRY_DELAY,
};
use aerostream::event::{Event, FrameError};
use aerostream::filter::{Filter, Filters, Keywords, Subscribes};
use aerostream::time::Timestamp;
use libipld::cbor::DagCborCodec;
use libipld::prelude::Codec;
use libipld::Ipld;

fn st_map(entries: Vec<(&str, Ipld)>) -> Ipld {
    Ipld::StringMap(entries.into_iter().map(|(k, v)| (k.to_string(), v)).collect())
}

fn st_frame(op: i128, t: &str, payload: &Ipld) -> Vec<u8> {
    let mut out = DagCborCodec
        .encode(&st_map(vec![("op", Ipld::Integer(op)), ("t", Ipld::String(t.to_string()))]))
        .unwrap();
    out.extend_from_slice(&DagCborCodec.encode(payload).unwrap());
    out
}

fn st_commit(seq: i128, repo: &str) -> Vec<u8> {
    st_frame(
        1,
        "#commit",
        &st_map(vec![
            ("seq", Ipld::Integer(seq)),
            ("repo", Ipld::String(repo.to_string())),
            ("blocks", Ipld::Bytes(vec![])),
            ("ops", Ipld::List(vec![])),
            ("blobs", Ipld::List(vec![])),
            ("time", Ipld::String("2024-01-01T00:00:00Z".to_string())),
        ]),
    )
}

fn st_info(name: &str) -> Vec<u8> {
    st_frame(1, "#info", &st_map(vec![("name", Ipld::String(name.to_string()))]))
}

fn st_at(secs: i64) -> Timestamp {
    Timestamp { secs: 1_704_067_200 + secs, nanos: 0 }
}

fn st_author(name: &str, did: &str) -> Filter {
    Filter {
        name: name.to_string(),
        subscribes: Some(Subscribes { dids: Some(vec![did.to_string()]), handles: None }),
        keywords: Some(Keywords { includes: None, excludes: None }),
        langs: None,
    }
}

#[test]
fn watchdog_reconnects_from_the_last_seq() {
    let mut sub = Subscriber::new("bsky.network");
    sub.set_timeout(2);
    let first = sub.start().unwrap();
    assert!(first.starts_with("wss://bsky.network/xrpc/com.atproto.sync.subscribeRepos"));
    assert!(!first.contains("cursor"));
    // before the first frame the watchdog stays quiet
    assert_eq!(sub.check_and_restart(st_at(100)), None);
    match sub.on_frame(&st_commit(10, "did:plc:a"), st_at(0)) {
        Step::Deliver(event) => assert_eq!(event.get_seq(), Some(10)),
        other => panic!("not delivered: {:?}", other),
    }
    assert_eq!(sub.last_seq, Some(10));
    assert_eq!(sub.last_received, Some(st_at(0)));
    assert_eq!(sub.check_and_restart(st_at(1)), None);
    assert_eq!(sub.check_and_restart(st_at(2)), None);
    let again = sub.check_and_restart(Timestamp { secs: st_at(2).secs, nanos: 1 }).unwrap();
    assert!(again.contains("cursor=10"), "{}", again);
    assert_eq!(again, "wss://bsky.network/xrpc/com.atproto.sync.subscribeRepos?cursor=10");
    // the new connection has its own grace
    assert_eq!(sub.last_received, None);
    assert_eq!(sub.last_seq, Some(10));
    assert_eq!(sub.phase, Phase::Connected);
    assert_eq!(sub.check_and_restart(st_at(1000)), None);
}

#[test]
fn subscription_starts_idle_with_the_default_timeout() {
    let mut sub = Subscriber::new("relay.test");
    assert_eq!(sub.phase, Phase::Idle);
    assert_eq!(sub.timeout, DEFAULT_TIMEOUT);
    assert_eq!(sub.timeout, 60);
    assert_eq!(sub.last_seq, None);
    // an idle subscription has no watchdog
    assert_eq!(sub.check_and_restart(st_at(1_000_000)), None);
    assert_eq!(sub.phase, Phase::Idle);
    sub.start().unwrap();
    assert_eq!(sub.phase, Phase::Connected);
    sub.on_frame(&st_commit(1, "did:plc:a"), st_at(0));
    assert_eq!(sub.check_and_restart(st_at(60)), None);
    assert!(sub.check_and_restart(st_at(61)).is_some());
}

#[test]
fn reconnect_goes_on_after_the_last_seq() {
    let mut sub = Subscriber::new("relay.test");
    sub.start();
    assert_eq!(
        sub.reconnect(),
        Some("wss://relay.test/xrpc/com.atproto.sync.subscribeRepos?".to_string())
    );
    sub.on_frame(&st_commit(41, "did:plc:a"), st_at(0));
    assert_eq!(
        sub.reconnect(),
        Some("wss://relay.test/xrpc/com.atproto.sync.subscribeRepos?cursor=42".to_string())
    );
    assert_eq!(sub.last_seq, Some(41));
    assert_eq!(sub.last_received, None);
    sub.on_frame(&st_commit(i64::MAX as i128, "did:plc:a"), st_at(0));
    assert!(sub.reconnect().unwrap().ends_with(&format!("cursor={}", i64::MAX)));
}

#[test]
fn stopped_subscription_stays_stopped() {
    let mut sub = Subscriber::new("relay.test");
    sub.start();
    sub.on_frame(&st_commit(5, "did:plc:a"), st_at(0));
    sub.stop();
    assert_eq!(sub.phase, Phase::Stopped);
    assert_eq!(sub.start(), None);
    assert_eq!(sub.reconnect(), None);
    assert_eq!(sub.check_and_restart(st_at(1000)), None);
    assert_eq!(sub.phase, Phase::Stopped);
    assert_eq!(sub.last_seq, Some(5));
}

#[test]
fn frames_that_give_no_event_are_passed_over() {
    let mut sub = Subscriber::new("relay.test");
    sub.start();
    sub.on_frame(&st_commit(5, "did:plc:a"), st_at(0));
    let before = sub.clone();
    assert_eq!(sub.on_frame(&[0xff], st_at(9)), Step::Skip(FrameError::MalformedFrame));
    assert_eq!(sub, before);
    assert_eq!(
        sub.on_frame(&st_frame(1, "#future", &Ipld::Null), st_at(9)),
        Step::Skip(FrameError::UnknownVariant)
    );
    assert_eq!(sub, before);
    // an error frame of the relay resets the cursor
    assert_eq!(
        sub.on_frame(&st_frame(-1, "#commit", &Ipld::Null), st_at(9)),
        Step::Skip(FrameError::ErrorFrame)
    );
    assert_eq!(sub.last_seq, None);
    assert_eq!(sub.last_received, Some(st_at(0)));
}

#[test]
fn notices_are_delivered_without_moving_the_seq() {
    let mut sub = Subscriber::new("relay.test");
    sub.start();
    sub.on_frame(&st_commit(5, "did:plc:a"), st_at(0));
    assert!(matches!(sub.on_frame(&st_info("Hello"), st_at(1)), Step::Deliver(_)));
    assert_eq!(sub.last_seq, Some(5));
    assert_eq!(sub.last_received, Some(st_at(1)));
    assert!(matches!(sub.on_frame(&st_info("OutdatedCursor"), st_at(2)), Step::Deliver(_)));
    assert_eq!(sub.last_seq, None);
    assert_eq!(
        sub.reconnect(),
        Some("wss://relay.test/xrpc/com.atproto.sync.subscribeRepos?".to_string())
    );
}

#[test]
fn stream_address_is_made_by_the_url_crate() {
    assert_eq!(
        subscribe_url("bsky.network", Some(-7)),
        Some("wss://bsky.network/xrpc/com.atproto.sync.subscribeRepos?cursor=-7".to_string())
    );
    assert_eq!(
        subscribe_url("BSKY.Network:8443", None),
        Some("wss://bsky.network:8443/xrpc/com.atproto.sync.subscribeRepos?".to_string())
    );
    // without a host the first part of the path is taken for one
    assert_eq!(
        subscribe_url("", None),
        Some("wss://xrpc/com.atproto.sync.subscribeRepos?".to_string())
    );
    assert_eq!(subscribe_url("bad host", None), None);
}

#[test]
fn events_go_to_the_channels_of_matching_filters() {
    let filters = Filters {
        filters: vec![
            Filter { name: "All".to_string(), subscribes: None, keywords: None, langs: None },
            st_author("A", "did:plc:a"),
            st_author("B", "did:plc:b"),
            st_author("A2", "did:plc:a"),
        ],
    };
    let channels = make_channel_names(&filters);
    assert_eq!(channels, vec!["All", "A", "B", "A2"]);
    let event = match Event::try_from(&st_commit(1, "did:plc:a")) {
        Ok(e) => e,
        Err(e) => panic!("{:?}", e),
    };
    let targets = dispatch(&filters, &channels, &event);
    assert_eq!(targets, vec!["All", "A", "A2"]);
    // whatever goes to a channel with a name matches a filter of that name
    for name in &targets {
        assert!(filters.filters.iter().any(|f| &f.name == name && f.is_match(&event)));
    }
    // a filter without a channel gets nothing
    assert_eq!(dispatch(&filters, &vec!["B".to_string(), "A2".to_string()], &event), vec!["A2"]);
    assert_eq!(dispatch(&filters, &vec![], &event), Vec::<String>::new());
}

#[test]
fn without_filters_one_channel_gets_everything() {
    let none = Filters { filters: vec![] };
    let channels = make_channel_names(&none);
    assert_eq!(channels, vec![""]);
    let event = Event::try_from(&st_commit(1, "did:plc:a")).unwrap();
    assert_eq!(dispatch(&none, &channels, &event), vec![""]);
    // the channel without a name takes everything, whatever the filters say
    let filters = Filters { filters: vec![st_author("B", "did:plc:b")] };
    assert_eq!(dispatch(&filters, &vec!["".to_string(), "B".to_string()], &event), vec![""]);
}

#[test]
fn channel_names_are_not_repeated() {
    let filters = Filters {
        filters: vec![st_author("A", "did:plc:a"), st_author("B", "did:plc:b"), st_author("A", "did:plc:c")],
    };
    assert_eq!(make_channel_names(&filters), vec!["A", "B"]);
    let event = Event::try_from(&st_commit(1, "did:plc:c")).unwrap();
    assert_eq!(dispatch(&filters, &make_channel_names(&filters), &event), vec!["A"]);
}

#[test]
fn seqs_in_a_channel_grow_with_the_stream() {
    let filters = Filters { filters: vec![st_author("A", "did:plc:a"), st_author("B", "did:plc:b")] };
    let channels = make_channel_names(&filters);
    let mut sub = Subscriber::new("relay.test");
    sub.start();
    let mut seen_a: Vec<i64> = Vec::new();
    let mut seen_b: Vec<i64> = Vec::new();
    for (seq, repo) in [(1, "did:plc:a"), (2, "did:plc:b"), (3, "did:plc:c"), (5, "did:plc:a"), (8, "did:plc:b"), (9, "did:plc:a")] {
        if let Step::Deliver(event) = sub.on_frame(&st_commit(seq, repo), st_at(seq as i64)) {
            for name in dispatch(&filters, &channels, &event) {
                if name == "A" {
                    seen_a.push(event.get_seq().unwrap());
                } else {
                    seen_b.push(event.get_seq().unwrap());
                }
            }
        }
    }
    assert_eq!(seen_a, vec![1, 5, 9]);
    assert_eq!(seen_b, vec![2, 8]);
    assert_eq!(sub.last_seq, Some(9));
}

#[test]
fn queue_is_first_in_first_out_and_drops_when_full() {
    let mut queue: BoundedQueue<u32> = BoundedQueue::new(2);
    assert_eq!(queue.take(), None);
    assert!(queue.offer(1));
    assert!(queue.offer(2));
    assert!(!queue.offer(3));
    assert!(!queue.offer(4));
    assert_eq!(queue.dropped, 2);
    assert_eq!(queue.take(), Some(1));
    assert!(queue.offer(5));
    assert_eq!(queue.take(), Some(2));
    assert_eq!(queue.take(), Some(5));
    assert_eq!(queue.take(), None);
    assert_eq!(queue.dropped, 2);
    let mut none: BoundedQueue<u32> = BoundedQueue::new(0);
    assert!(!none.offer(1));
    assert_eq!(none.dropped, 1);
}

#[test]
fn failed_connect_is_tried_again_after_a_second_until_stopped() {
    assert_eq!(RETRY_DELAY, 1);
    let mut state = Subscriber::new("bsky.network");
    assert_eq!(state.connect_failed(), Some(1));
    let first = state.start();
    assert!(first.is_some());
    let before = state.clone();
    for _ in 0..1000 {
        assert_eq!(state.connect_failed(), Some(1));
    }
    assert_eq!(state, before);
    assert!(matches!(state.on_frame(&st_commit(5, "did:plc:a"), st_at(0)), Step::Deliver(_)));
    assert_eq!(state.connect_failed(), Some(1));
    assert_eq!(state.last_seq, Some(5));
    state.stop();
    assert_eq!(state.connect_failed(), None);
}

#[test]
fn address_is_the_base_with_the_pairs_as_its_query() {
    let pairs = vec![("cursor".to_string(), "5".to_string()), ("a b".to_string(), "c&d".to_string())];
    assert_eq!(
        make_url("wss://bsky.network/xrpc/x", &pairs),
        Some("wss://bsky.network/xrpc/x?cursor=5&a+b=c%26d".to_string())
    );
    assert_eq!(make_url("http://localhost", &vec![]), Some("http://localhost/?".to_string()));
    assert_eq!(make_url("no address", &pairs), None);
}
