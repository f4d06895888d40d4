use aerostream::api::{record_kind, Blob, CidString, RecordKind};
use aerostream::cid::Cid;
use aerostream::plc::{Plc, PlcOp};
use aerostream::text::{
    contains, find_char, from_chars, from_chars_range, int_to_string, joined, parse_i64, parse_usize, split,
    starts_with, str_eq, to_chars,
};
use aerostream::time::Timestamp;

fn vl_cid(version: u64, codec: u64, code: u64, digest: &[u8]) -> Cid {
    Cid { version, codec, hash_code: code, digest: digest.to_vec() }
}

fn vl_raw(c: &Cid) -> libipld::Cid {
    let hash = libipld::multihash::Multihash::wrap(c.hash_code, &c.digest).unwrap();
    if c.version == 0 {
        libipld::Cid::new_v0(hash).unwrap()
    } else {
        libipld::Cid::new_v1(c.codec, hash)
    }
}

#[test]
fn identifier_text_round_trip() {
    let text = "bafyreibjo4xmgaevkgud7mbifn3dzp4v4lyaui4yvqp3f2bqwtxcjrdqg4";
    let cid = Cid::from_str(text).unwrap();
    assert_eq!(cid.version, 1);
    assert_eq!(cid.codec, 113);
    assert_eq!(cid.hash_code, 18);
    assert_eq!(cid.digest.len(), 32);
    assert_eq!(cid.digest[0], 41);
    assert_eq!(cid.to_string(), text);
    assert!(cid.is_valid());
    let v0 = "QmdfTbBqBPQ7VNxZEYEj14VmRuZBkqFbiwReogJgS1zR1n";
    let cid = Cid::from_str(v0).unwrap();
    assert_eq!(cid.version, 0);
    assert_eq!(cid.codec, 0x70);
    assert_eq!(cid.to_string(), v0);
    assert_eq!(Cid::from_str(""), None);
    assert_eq!(Cid::from_str("b"), None);
    assert_eq!(Cid::from_str("not a cid"), None);
}

#[test]
fn identifier_that_is_none_is_written_as_the_default() {
    assert_eq!(Cid::default().to_string(), libipld::Cid::default().to_string());
    let bad = vl_cid(2, 1, 1, &[1]);
    assert!(!bad.is_valid());
    assert_eq!(bad.to_string(), Cid::default().to_string());
    let long = vl_cid(1, 1, 1, &[0u8; 65]);
    assert!(!long.is_valid());
    assert_eq!(long.to_string(), Cid::default().to_string());
    let v0 = vl_cid(0, 0x71, 0x12, &[0u8; 32]);
    assert!(!v0.is_valid());
    assert!(vl_cid(1, 0, 0, &[0u8; 64]).is_valid());
}

#[test]
fn identifier_order_agrees_with_the_crate() {
    let mut all = Vec::new();
    for version in [0u64, 1] {
        for codec in [0x55u64, 0x70, 0x71] {
            for code in [0x11u64, 0x12, 300] {
                for digest in [vec![], vec![0], vec![0, 0], vec![0, 1], vec![1], vec![255], vec![1, 0, 0], vec![0; 64], vec![9; 32]] {
                    let c = vl_cid(version, codec, code, &digest);
                    if c.is_valid() {
                        all.push(c);
                    }
                }
            }
        }
    }
    assert!(all.len() > 50);
    for a in &all {
        for b in &all {
            let (ra, rb) = (vl_raw(a), vl_raw(b));
            assert_eq!(a.is_less(b), ra < rb, "{:?} < {:?}", a, b);
            assert_eq!(a.same(b), ra == rb, "{:?} == {:?}", a, b);
        }
        assert_eq!(a.duplicate(), *a);
        assert_eq!(a.to_string(), vl_raw(a).to_string());
        if a.version == 1 {
            assert_eq!(Cid::from_str(&a.to_string()), Some(a.duplicate()));
        }
    }
}

#[test]
fn instants_are_compared_and_measured() {
    let a = Timestamp { secs: 10, nanos: 999_999_999 };
    let b = Timestamp { secs: 11, nanos: 0 };
    assert!(a.is_before(&b));
    assert!(!b.is_before(&a));
    assert!(!a.is_before(&a));
    assert!(Timestamp { secs: 10, nanos: 1 }.is_before(&a));
    assert_eq!(a.timestamp_millis(), 10_999);
    assert_eq!(Timestamp { secs: -1, nanos: 500_000_000 }.timestamp_millis(), -500);
    assert_eq!(Timestamp::epoch(), Timestamp { secs: 0, nanos: 0 });
    assert!(!Timestamp { secs: 978_307_199, nanos: 999_999_999 }.is_after_2000());
    assert!(Timestamp { secs: 978_307_200, nanos: 0 }.is_after_2000());
    // more than two seconds have passed only after two seconds
    let start = Timestamp { secs: 100, nanos: 500 };
    assert!(!start.elapsed_more_than(&Timestamp { secs: 102, nanos: 500 }, 2));
    assert!(start.elapsed_more_than(&Timestamp { secs: 102, nanos: 501 }, 2));
    assert!(!start.elapsed_more_than(&Timestamp { secs: 102, nanos: 499 }, 2));
    assert!(!start.elapsed_more_than(&Timestamp { secs: 99, nanos: 0 }, 2));
    assert!(start.elapsed_more_than(&Timestamp { secs: 99, nanos: 0 }, -5));
    assert!(Timestamp { secs: i64::MIN, nanos: 0 }.elapsed_more_than(&Timestamp { secs: i64::MAX, nanos: 0 }, i64::MAX));
}

#[test]
fn texts_are_taken_apart() {
    assert_eq!(to_chars("héllo"), vec!['h', 'é', 'l', 'l', 'o']);
    assert_eq!(from_chars(&vec!['a', 'ß']), "aß");
    assert_eq!(from_chars_range(&to_chars("abcdef"), 2, 4), "cd");
    assert_eq!(from_chars_range(&to_chars("abcdef"), 3, 3), "");
    assert!(str_eq("a", "a"));
    assert!(!str_eq("a", "A"));
    assert_eq!(joined("ab", "cd"), "abcd");
    assert_eq!(find_char(&to_chars("a/b/c"), '/', 0), 1);
    assert_eq!(find_char(&to_chars("a/b/c"), '/', 2), 3);
    assert_eq!(find_char(&to_chars("a/b/c"), '/', 4), 5);
    for text in ["", "/", "a", "/a", "a/", "a/b", "//", "/a//b/", "é/ü"] {
        let ours: Vec<String> = split(&to_chars(text), '/').iter().map(from_chars).collect();
        let theirs: Vec<String> = text.split('/').map(|s| s.to_string()).collect();
        assert_eq!(ours, theirs, "split of {:?}", text);
    }
}

#[test]
fn record_kinds_are_named() {
    assert_eq!(record_kind("app.bsky.feed.post"), RecordKind::FeedPost);
    assert_eq!(record_kind("app.bsky.feed.like"), RecordKind::FeedLike);
    assert_eq!(record_kind("app.bsky.feed.repost"), RecordKind::FeedRepost);
    assert_eq!(record_kind("app.bsky.feed.generator"), RecordKind::FeedGenerator);
    assert_eq!(record_kind("app.bsky.feed.threadgate"), RecordKind::FeedThreadgate);
    assert_eq!(record_kind("app.bsky.actor.profile"), RecordKind::ActorProfile);
    assert_eq!(record_kind("app.bsky.graph.block"), RecordKind::GraphBlock);
    assert_eq!(record_kind("app.bsky.graph.follow"), RecordKind::GraphFollow);
    assert_eq!(record_kind("app.bsky.graph.list"), RecordKind::GraphList);
    assert_eq!(record_kind("app.bsky.graph.listblock"), RecordKind::GraphListblock);
    assert_eq!(record_kind("app.bsky.graph.listitem"), RecordKind::GraphListitem);
    assert_eq!(record_kind("app.bsky.feed.Post"), RecordKind::Other);
    assert_eq!(record_kind(""), RecordKind::Other);
}

#[test]
fn plain_values_have_their_defaults() {
    let blob = Blob::default();
    assert_eq!(blob.blob_type, Some("blob".to_string()));
    assert_eq!(blob.blob_ref.unwrap().link, "");
    assert_eq!(blob.size, Some(0));
    assert_eq!(blob.cid, None);
    let text = CidString("bafyreibjo4xmgaevkgud7mbifn3dzp4v4lyaui4yvqp3f2bqwtxcjrdqg4".to_string());
    assert_eq!(text.to_cid().unwrap().codec, 113);
    assert_eq!(text.to_string(), text.0);
    assert_eq!(CidString("x".to_string()).to_cid(), None);
    assert!(matches!(PlcOp::default(), PlcOp::PlcOperation(o) if o.sig.is_empty() && o.services.is_empty()));
}

#[test]
fn directory_addresses() {
    let plc = Plc::default();
    assert_eq!(plc.host, "plc.directory");
    assert_eq!(plc.url("did:plc:abc", ""), "https://plc.directory/did:plc:abc");
    assert_eq!(plc.url("did:plc:abc", "/log/audit"), "https://plc.directory/did:plc:abc/log/audit");
    assert_eq!(plc.export_url(), "https://plc.directory/export");
    assert_eq!(Plc::export_count(None), 10);
    assert_eq!(Plc::export_count(Some(5)), 5);
    assert_eq!(Plc::export_count(Some(1000)), 1000);
    assert_eq!(Plc::export_count(Some(1001)), 1000);
    assert_eq!(Plc::export_count(Some(-3)), -3);
    assert_eq!(
        Plc::export_query(Some(5000), "2024-01-01"),
        vec![("count".to_string(), "1000".to_string()), ("after".to_string(), "2024-01-01".to_string())]
    );
}

#[test]
fn numbers_are_written_as_the_standard_library_writes_them() {
    for n in [
        0i128,
        1,
        -1,
        9,
        10,
        -10,
        99,
        100,
        1_704_067_200_123,
        i64::MAX as i128,
        i64::MIN as i128,
        i128::MAX,
        i128::MIN,
        i128::MIN + 1,
    ] {
        assert_eq!(int_to_string(n), n.to_string());
    }
}

#[test]
fn numbers_are_read_as_the_standard_library_reads_them() {
    for text in [
        "", "0", "-0", "+0", "7", "+7", "-7", "007", "-007", "+", "-", "+-1", "--1", "++1", "1+", "1-", " 1", "1 ",
        "1_000", "1.0", "1e3", "0x10", "٣", "１", "9223372036854775807", "9223372036854775808",
        "-9223372036854775808", "-9223372036854775809", "18446744073709551615", "18446744073709551616",
        "+18446744073709551615", "000000000000000000000000000000000000000000000000018446744073709551615",
        "99999999999999999999999999999999999999999999999999999999999999999999999999999999999999999",
        "-99999999999999999999999999999999999999999999999999999999999999999999999999999999999999999",
        "12a", "a12", "1\n",
    ] {
        assert_eq!(parse_i64(text), text.parse::<i64>().ok(), "{:?} as i64", text);
        assert_eq!(parse_usize(text), text.parse::<usize>().ok(), "{:?} as usize", text);
    }
    for n in [0i64, 1, -1, 42, i64::MAX, i64::MIN, 1_704_067_200_123] {
        assert_eq!(parse_i64(&int_to_string(n as i128)), Some(n));
    }
}

#[test]
fn parts_of_texts_are_found_as_the_standard_library_finds_them() {
    let texts = ["", "a", "ab", "aab", "abab", "bluesky", "I love bluesky", "I love the sky", "héllo wörld", "aaa"];
    let words = ["", "a", "b", "ab", "ba", "aa", "sky", "bluesky", "love ", "é", "ö", "héllo wörld!", "aaaa"];
    for text in texts {
        for word in words {
            assert_eq!(contains(text, word), text.contains(word), "{:?} in {:?}", word, text);
            assert_eq!(starts_with(text, word), text.starts_with(word), "{:?} before {:?}", word, text);
        }
    }
}
