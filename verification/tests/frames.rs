use aerostream::api::{ComAtprotoSyncSubscribereposMainMessage, RecordKind};
use aerostream::blocks::{get_block, Blocks};
use aerostream::cid::Cid;
use aerostream::event::{Event, FrameError};
use aerostream::ipld::{decode_item, escape, ipld_to_string, scan_item, Datum, MAX_DEPTH};
use aerostream::time::Timestamp;
use libipld::cbor::DagCborCodec;
use libipld::prelude::Codec;
use libipld::Ipld;

fn fr_map(entries: Vec<(&str, Ipld)>) -> Ipld {
    Ipld::StringMap(entries.into_iter().map(|(k, v)| (k.to_string(), v)).collect())
}

fn fr_encode(value: &Ipld) -> Vec<u8> {
    DagCborCodec.encode(value).unwrap()
}

fn fr_cid(seed: u8) -> libipld::Cid {
    let digest = [seed; 32];
    libipld::Cid::new_v1(0x71, libipld::multihash::Multihash::wrap(0x12, &digest).unwrap())
}

fn fr_block(bytes: &[u8]) -> Vec<u8> {
    let mut out = Vec::new();
    leb128::write::unsigned(&mut out, bytes.len() as u64).unwrap();
    out.extend_from_slice(bytes);
    out
}

fn fr_car(records: &[(libipld::Cid, Ipld)]) -> Vec<u8> {
    let header = fr_map(vec![("roots", Ipld::List(vec![])), ("version", Ipld::Integer(1))]);
    let mut out = fr_block(&fr_encode(&header));
    for (cid, value) in records {
        let mut body = cid.to_bytes();
        body.extend_from_slice(&fr_encode(value));
        out.extend_from_slice(&fr_block(&body));
    }
    out
}

fn fr_frame(op: i128, t: &str, payload: &Ipld) -> Vec<u8> {
    let mut out = fr_encode(&fr_map(vec![("op", Ipld::Integer(op)), ("t", Ipld::String(t.to_string()))]));
    out.extend_from_slice(&fr_encode(payload));
    out
}

fn fr_post(text: &str, langs: Option<Vec<&str>>) -> Ipld {
    let mut entries = vec![
        ("$type", Ipld::String("app.bsky.feed.post".to_string())),
        ("text", Ipld::String(text.to_string())),
        ("createdAt", Ipld::String("2024-01-01T00:00:00Z".to_string())),
    ];
    if let Some(l) = langs {
        entries.push(("langs", Ipld::List(l.into_iter().map(|x| Ipld::String(x.to_string())).collect())));
    }
    fr_map(entries)
}

fn fr_commit(seq: i128, repo: &str, ops: Vec<Ipld>, blocks: Vec<u8>) -> Ipld {
    fr_map(vec![
        ("seq", Ipld::Integer(seq)),
        ("repo", Ipld::String(repo.to_string())),
        ("blocks", Ipld::Bytes(blocks)),
        ("ops", Ipld::List(ops)),
        ("blobs", Ipld::List(vec![])),
        ("time", Ipld::String("2024-01-01T00:00:00Z".to_string())),
    ])
}

fn fr_op(action: &str, path: &str, cid: Option<libipld::Cid>) -> Ipld {
    fr_map(vec![
        ("action", Ipld::String(action.to_string())),
        ("path", Ipld::String(path.to_string())),
        (
            "cid",
            match cid {
                Some(c) => Ipld::Link(c),
                None => Ipld::Null,
            },
        ),
    ])
}

#[test]
fn frame_round_trip_gives_the_commit() {
    let payload = fr_commit(42, "did:plc:x", vec![], fr_car(&[]));
    let event = Event::try_from(&fr_frame(1, "#commit", &payload)).unwrap();
    assert_eq!(event.header.op, 1);
    assert_eq!(event.header.t, "#commit");
    let commit = event.as_commit().unwrap();
    assert_eq!(commit.seq, 42);
    assert_eq!(commit.repo, "did:plc:x");
    assert_eq!(commit.ops.len(), 0);
    assert_eq!(commit.blobs.len(), 0);
    assert_eq!(commit.time, Timestamp { secs: 1_704_067_200, nanos: 0 });
    assert_eq!(commit.rebase, false);
    assert_eq!(commit.too_big, false);
    assert_eq!(commit.prev, None);
    assert_eq!(commit.commit, "");
    assert_eq!(event.get_seq(), Some(42));
    assert_eq!(event.get_time(), Some(Timestamp { secs: 1_704_067_200, nanos: 0 }));
}

#[test]
fn frame_with_negative_op_is_an_error_frame() {
    let payload = fr_map(vec![("error", Ipld::String("FutureCursor".to_string()))]);
    assert_eq!(Event::try_from(&fr_frame(-1, "#commit", &payload)), Err(FrameError::ErrorFrame));
}

#[test]
fn frame_with_unknown_name_is_an_unknown_variant() {
    let payload = fr_map(vec![("seq", Ipld::Integer(1))]);
    assert_eq!(Event::try_from(&fr_frame(1, "#account", &payload)), Err(FrameError::UnknownVariant));
    // the name counts even where no payload follows
    let header = fr_encode(&fr_map(vec![("op", Ipld::Integer(1)), ("t", Ipld::String("#x".to_string()))]));
    assert_eq!(Event::try_from(&header), Err(FrameError::UnknownVariant));
}

#[test]
fn frame_without_payload_is_malformed() {
    let header = fr_encode(&fr_map(vec![("op", Ipld::Integer(1)), ("t", Ipld::String("#commit".to_string()))]));
    assert_eq!(Event::try_from(&header), Err(FrameError::MalformedFrame));
    let mut cut = fr_frame(1, "#commit", &fr_commit(1, "did:plc:x", vec![], vec![]));
    cut.truncate(cut.len() - 3);
    assert_eq!(Event::try_from(&cut), Err(FrameError::MalformedFrame));
}

#[test]
fn frame_of_garbage_is_malformed() {
    assert_eq!(Event::try_from(&[]), Err(FrameError::MalformedFrame));
    assert_eq!(Event::try_from(&[0xff, 0x00, 0x01]), Err(FrameError::MalformedFrame));
    // a header that is no map
    let mut bytes = fr_encode(&Ipld::Integer(7));
    bytes.extend_from_slice(&fr_encode(&Ipld::Integer(8)));
    assert_eq!(Event::try_from(&bytes), Err(FrameError::MalformedFrame));
    // a header without `t`
    let mut bytes = fr_encode(&fr_map(vec![("op", Ipld::Integer(1))]));
    bytes.extend_from_slice(&fr_encode(&Ipld::Integer(8)));
    assert_eq!(Event::try_from(&bytes), Err(FrameError::MalformedFrame));
}

#[test]
fn frame_with_commit_lacking_seq_is_malformed() {
    let payload = fr_map(vec![
        ("repo", Ipld::String("did:plc:x".to_string())),
        ("ops", Ipld::List(vec![])),
        ("blobs", Ipld::List(vec![])),
        ("time", Ipld::String("2024-01-01T00:00:00Z".to_string())),
    ]);
    assert_eq!(Event::try_from(&fr_frame(1, "#commit", &payload)), Err(FrameError::MalformedFrame));
}

#[test]
fn frame_with_huge_declared_length_is_refused_without_reading_it() {
    // a list that claims 2^64 - 1 items
    let bytes = [0x9b, 0xff, 0xff, 0xff, 0xff, 0xff, 0xff, 0xff, 0xff];
    assert_eq!(scan_item(&bytes, 0, MAX_DEPTH), None);
    assert_eq!(Event::try_from(&bytes), Err(FrameError::MalformedFrame));
    // a byte string that claims more than there is
    let bytes = [0x5a, 0x7f, 0xff, 0xff, 0xff, 0x00];
    assert_eq!(scan_item(&bytes, 0, MAX_DEPTH), None);
    assert!(decode_item(&bytes, 0).is_none());
}

#[test]
fn frame_nested_too_deep_is_refused() {
    let mut deep = vec![0x81u8; MAX_DEPTH + 1];
    deep.push(0x00);
    assert_eq!(scan_item(&deep, 0, MAX_DEPTH), None);
    assert_eq!(Event::try_from(&deep), Err(FrameError::MalformedFrame));
    let mut fine = vec![0x81u8; MAX_DEPTH];
    fine.push(0x00);
    assert_eq!(scan_item(&fine, 0, MAX_DEPTH), Some(MAX_DEPTH + 1));
    assert!(decode_item(&fine, 0).is_some());
}

#[test]
fn scan_finds_the_end_of_each_item() {
    let first = fr_encode(&fr_map(vec![("a", Ipld::List(vec![Ipld::Integer(1), Ipld::Bool(true)]))]));
    let second = fr_encode(&Ipld::String("hello".to_string()));
    let mut bytes = first.clone();
    bytes.extend_from_slice(&second);
    assert_eq!(scan_item(&bytes, 0, MAX_DEPTH), Some(first.len()));
    assert_eq!(scan_item(&bytes, first.len(), MAX_DEPTH), Some(bytes.len()));
    assert_eq!(scan_item(&bytes, bytes.len(), MAX_DEPTH), None);
    let link = fr_encode(&Ipld::Link(fr_cid(3)));
    assert_eq!(scan_item(&link, 0, MAX_DEPTH), Some(link.len()));
    let (value, end) = decode_item(&bytes, first.len()).unwrap();
    assert_eq!(value, Datum::Text("hello".to_string()));
    assert_eq!(end, bytes.len());
}

#[test]
fn decode_copies_every_kind_of_value() {
    let raw = fr_map(vec![
        ("b", Ipld::Bool(true)),
        ("bytes", Ipld::Bytes(vec![1, 2, 255])),
        ("i", Ipld::Integer(-5)),
        ("l", Ipld::List(vec![Ipld::Null, Ipld::Integer(300)])),
        ("link", Ipld::Link(fr_cid(9))),
        ("s", Ipld::String("x".to_string())),
    ]);
    let bytes = fr_encode(&raw);
    let (value, end) = decode_item(&bytes, 0).unwrap();
    assert_eq!(end, bytes.len());
    assert_eq!(value.get("b"), Some(&Datum::Bool(true)));
    assert_eq!(value.get("bytes"), Some(&Datum::Bytes(vec![1, 2, 255])));
    assert_eq!(value.get("i"), Some(&Datum::Integer(-5)));
    assert_eq!(value.get("l"), Some(&Datum::List(vec![Datum::Null, Datum::Integer(300)])));
    assert_eq!(value.get_text("s"), Some("x".to_string()));
    assert_eq!(value.get_int("i"), Some(-5));
    assert_eq!(value.get_bool("b"), Some(true));
    assert_eq!(value.get("missing"), None);
    match value.get("link") {
        Some(Datum::Link(c)) => {
            assert_eq!(c.version, 1);
            assert_eq!(c.codec, 0x71);
            assert_eq!(c.hash_code, 0x12);
            assert_eq!(c.digest, vec![9u8; 32]);
            assert_eq!(c.to_string(), fr_cid(9).to_string());
        },
        other => panic!("no link: {:?}", other),
    }
}

#[test]
fn json_text_of_a_value() {
    let value = Datum::Object(vec![
        ("a".to_string(), Datum::List(vec![Datum::Integer(1), Datum::Null, Datum::Bool(false)])),
        ("b".to_string(), Datum::Bytes(vec![0, 10, 255])),
        ("c".to_string(), Datum::Text("say \"hi\"\n\\".to_string())),
        ("d".to_string(), Datum::Integer(-170141183460469231731687303715884105728)),
        ("e".to_string(), Datum::Object(vec![])),
        ("f".to_string(), Datum::List(vec![])),
        ("g".to_string(), Datum::Float("1.5".to_string())),
    ]);
    assert_eq!(
        ipld_to_string(&value),
        "{\"a\":[1,null,false],\"b\":[0,10,255],\"c\":\"say \\\"hi\\\"\\n\\\\\",\"d\":-170141183460469231731687303715884105728,\"e\":{},\"f\":[],\"g\":1.5}"
    );
    assert_eq!(ipld_to_string(&Datum::Bool(true)), "true");
    let cid = Cid::from_str(&fr_cid(1).to_string()).unwrap();
    assert_eq!(
        ipld_to_string(&Datum::Link(cid)),
        format!("{{\"$link\": \"{}\"}}", fr_cid(1).to_string())
    );
}

#[test]
fn escape_keeps_other_characters() {
    assert_eq!(escape("plain"), "plain");
    assert_eq!(escape("a\"b"), "a\\\"b");
    assert_eq!(escape("a\\b"), "a\\\\b");
    assert_eq!(escape("a\nb"), "a\\nb");
    assert_eq!(escape("tab\there"), "tab\there");
    assert_eq!(escape(""), "");
}

#[test]
fn handle_event_is_decoded() {
    let payload = fr_map(vec![
        ("seq", Ipld::Integer(7)),
        ("did", Ipld::String("did:plc:a".to_string())),
        ("handle", Ipld::String("alice.test".to_string())),
        ("time", Ipld::String("not a time".to_string())),
    ]);
    let event = Event::try_from(&fr_frame(1, "#handle", &payload)).unwrap();
    let handle = event.as_handle().unwrap();
    assert_eq!(handle.seq, 7);
    assert_eq!(handle.did, "did:plc:a");
    assert_eq!(handle.handle, "alice.test");
    // a time that cannot be read is the epoch
    assert_eq!(handle.time, Timestamp { secs: 0, nanos: 0 });
    assert!(event.as_commit().is_none());
    assert!(event.as_info().is_none());
    assert!(event.as_migrate().is_none());
    assert!(event.as_tombstone().is_none());
}

#[test]
fn info_event_has_no_seq() {
    let payload = fr_map(vec![("name", Ipld::String("OutdatedCursor".to_string()))]);
    let event = Event::try_from(&fr_frame(1, "#info", &payload)).unwrap();
    let info = event.as_info().unwrap();
    assert_eq!(info.name, "OutdatedCursor");
    assert_eq!(info.message, None);
    assert_eq!(event.get_seq(), None);
    assert_eq!(event.get_time(), None);
}

#[test]
fn other_account_events_are_decoded() {
    let account = |extra: Vec<(&str, Ipld)>| {
        let mut entries = vec![
            ("seq", Ipld::Integer(3)),
            ("did", Ipld::String("did:plc:b".to_string())),
            ("time", Ipld::String("2024-01-01T00:00:01.5Z".to_string())),
        ];
        entries.extend(extra);
        fr_map(entries)
    };
    let at = Timestamp { secs: 1_704_067_201, nanos: 500_000_000 };
    let event = Event::try_from(&fr_frame(1, "#identity", &account(vec![]))).unwrap();
    assert!(matches!(
        &event.payload,
        ComAtprotoSyncSubscribereposMainMessage::ComAtprotoSyncSubscribereposIdentity(i) if i.seq == 3 && i.time == at
    ));
    let event = Event::try_from(&fr_frame(1, "#tombstone", &account(vec![]))).unwrap();
    assert_eq!(event.as_tombstone().unwrap().did, "did:plc:b");
    let event = Event::try_from(&fr_frame(
        1,
        "#migrate",
        &account(vec![("migrateTo", Ipld::String("pds.test".to_string()))]),
    ))
    .unwrap();
    assert_eq!(event.as_migrate().unwrap().migrate_to, "pds.test");
    let event = Event::try_from(&fr_frame(1, "#migrate", &account(vec![]))).unwrap();
    assert_eq!(event.as_migrate().unwrap().migrate_to, "");
    assert_eq!(event.get_seq(), Some(3));
}

#[test]
fn commit_fields_are_read() {
    let payload = fr_map(vec![
        ("seq", Ipld::Integer(5)),
        ("rebase", Ipld::Bool(true)),
        ("tooBig", Ipld::Bool(true)),
        ("repo", Ipld::String("did:plc:x".to_string())),
        ("commit", Ipld::Link(fr_cid(1))),
        ("rev", Ipld::String("r1".to_string())),
        ("since", Ipld::String("r0".to_string())),
        ("blocks", Ipld::Bytes(vec![1, 2, 3])),
        ("ops", Ipld::List(vec![fr_op("delete", "app.bsky.feed.post/1", None)])),
        ("blobs", Ipld::List(vec![Ipld::Link(fr_cid(2))])),
        ("time", Ipld::String("2024-01-01T00:00:00Z".to_string())),
        ("prev", Ipld::Link(fr_cid(3))),
    ]);
    let event = Event::try_from(&fr_frame(1, "#commit", &payload)).unwrap();
    let commit = event.as_commit().unwrap();
    assert!(commit.rebase);
    assert!(commit.too_big);
    assert_eq!(commit.commit, fr_cid(1).to_string());
    assert_eq!(commit.rev, "r1");
    assert_eq!(commit.since, "r0");
    assert_eq!(commit.blocks, vec![1, 2, 3]);
    assert_eq!(commit.ops.len(), 1);
    assert_eq!(commit.ops[0].action, "delete");
    assert_eq!(commit.ops[0].path, "app.bsky.feed.post/1");
    assert_eq!(commit.ops[0].cid, "");
    assert_eq!(
        commit.blobs,
        vec![format!(
            "https://bsky.social/xrpc/com.atproto.sync.getBlob?did=did:plc:x&cid={}",
            fr_cid(2)
        )]
    );
    assert_eq!(commit.prev, Some(fr_cid(3).to_string()));
}

#[test]
fn commit_posts_are_projected() {
    let c1 = fr_cid(1);
    let c2 = fr_cid(2);
    let c3 = fr_cid(3);
    let missing = fr_cid(4);
    let like = fr_map(vec![("$type", Ipld::String("app.bsky.feed.like".to_string()))]);
    let car = fr_car(&[
        (c1, fr_post("first post", Some(vec!["en"]))),
        (c2, fr_post("second post", None)),
        (c3, like),
    ]);
    let ops = vec![
        fr_op("create", "app.bsky.feed.post/a", Some(c1)),
        fr_op("create", "app.bsky.feed.like/b", Some(c3)),
        fr_op("update", "app.bsky.feed.post/c", Some(c2)),
        fr_op("create", "app.bsky.feed.post/d", Some(missing)),
        fr_op("delete", "app.bsky.feed.post/e", None),
        fr_op("create", "app.bsky.feed.post/f", Some(c3)),
    ];
    let event = Event::try_from(&fr_frame(1, "#commit", &fr_commit(9, "did:plc:x", ops, car))).unwrap();
    let commit = event.as_commit().unwrap();
    let posts = commit.get_post();
    assert_eq!(posts.len(), 2);
    assert_eq!(posts[0].0.path, "app.bsky.feed.post/a");
    assert_eq!(posts[0].1.text, "first post");
    assert_eq!(posts[0].1.langs, Some(vec!["en".to_string()]));
    assert_eq!(posts[0].1.created_at, Timestamp { secs: 1_704_067_200, nanos: 0 });
    assert_eq!(posts[1].0.path, "app.bsky.feed.post/c");
    assert_eq!(posts[1].0.action, "update");
    assert_eq!(posts[1].1.text, "second post");
    assert_eq!(posts[1].1.langs, None);
    assert!(posts[0].1.json.contains("\"text\":\"first post\""));
    assert_eq!(commit.get_post_text(), vec!["first post".to_string()]);
    assert_eq!(commit.get_post_path(), Some("app.bsky.feed.post/a".to_string()));
    assert_eq!(commit.get_post_records().len(), 2);
    // the operation whose identifier resolves to nothing is reported
    assert_eq!(commit.unresolved_ops(), vec![3]);
}

#[test]
fn commit_without_posts_has_no_path() {
    let event = Event::try_from(&fr_frame(1, "#commit", &fr_commit(1, "did:plc:x", vec![], fr_car(&[])))).unwrap();
    let commit = event.as_commit().unwrap();
    assert_eq!(commit.get_post().len(), 0);
    assert_eq!(commit.get_post_text(), Vec::<String>::new());
    assert_eq!(commit.get_post_path(), None);
    assert_eq!(commit.unresolved_ops(), Vec::<usize>::new());
}

#[test]
fn archive_is_decoded_block_by_block() {
    let c1 = fr_cid(1);
    let c2 = fr_cid(2);
    let car = fr_car(&[(c1, Ipld::Integer(1)), (c2, Ipld::String("two".to_string()))]);
    let store = Blocks::from(&car);
    assert_eq!(store.data.len(), 2);
    assert!(matches!(&store.header, Datum::Object(_)));
    let k1 = Cid::from_str(&c1.to_string()).unwrap();
    let k2 = Cid::from_str(&c2.to_string()).unwrap();
    assert_eq!(store.get(&k1), Some(&Datum::Integer(1)));
    assert_eq!(store.get(&k2), Some(&Datum::Text("two".to_string())));
    assert_eq!(store.get(&Cid::default()), None);
}

#[test]
fn archive_keeps_the_last_value_of_an_identifier() {
    let c1 = fr_cid(1);
    let car = fr_car(&[(c1, Ipld::Integer(1)), (fr_cid(2), Ipld::Integer(2)), (c1, Ipld::Integer(3))]);
    let store = Blocks::from(&car);
    assert_eq!(store.data.len(), 2);
    assert_eq!(store.get(&Cid::from_str(&c1.to_string()).unwrap()), Some(&Datum::Integer(3)));
    assert_eq!(store.data[0].1, Datum::Integer(3));
}

#[test]
fn archive_passes_over_a_bad_block() {
    let c1 = fr_cid(1);
    let c2 = fr_cid(2);
    let header = fr_map(vec![("roots", Ipld::List(vec![]))]);
    let mut car = fr_block(&fr_encode(&header));
    // a block that holds no identifier
    car.extend_from_slice(&fr_block(&[0xff, 0xff, 0xff]));
    // a block whose value cannot be decoded
    let mut bad = c1.to_bytes();
    bad.push(0xff);
    car.extend_from_slice(&fr_block(&bad));
    let mut good = c2.to_bytes();
    good.extend_from_slice(&fr_encode(&Ipld::Integer(2)));
    car.extend_from_slice(&fr_block(&good));
    let store = Blocks::from(&car);
    assert_eq!(store.data.len(), 1);
    assert_eq!(store.get(&Cid::from_str(&c2.to_string()).unwrap()), Some(&Datum::Integer(2)));
}

#[test]
fn archive_without_header_is_empty() {
    assert_eq!(Blocks::from(&[]), Blocks::default());
    assert_eq!(Blocks::from(&[0x80]), Blocks::default());
    // the header block is no DAG-CBOR
    assert_eq!(Blocks::from(&[0x01, 0xff]), Blocks::default());
    // a block that reaches beyond the bytes ends the archive
    let header = fr_map(vec![("roots", Ipld::List(vec![]))]);
    let mut car = fr_block(&fr_encode(&header));
    car.extend_from_slice(&[0x7f, 0x01, 0x02]);
    let store = Blocks::from(&car);
    assert_eq!(store.data.len(), 0);
    assert!(matches!(&store.header, Datum::Object(_)));
}

#[test]
fn blocks_are_told_apart() {
    let root = fr_map(vec![
        ("did", Ipld::String("did:plc:x".to_string())),
        ("version", Ipld::Integer(3)),
        ("prev", Ipld::Null),
        ("data", Ipld::Link(fr_cid(7))),
        ("sig", Ipld::Bytes(vec![1, 2])),
    ]);
    let node = fr_map(vec![
        ("l", Ipld::Link(fr_cid(8))),
        (
            "e",
            Ipld::List(vec![fr_map(vec![
                ("p", Ipld::Integer(0)),
                ("k", Ipld::Bytes(vec![97])),
                ("v", Ipld::Link(fr_cid(9))),
            ])]),
        ),
    ]);
    let car = fr_car(&[
        (fr_cid(1), root),
        (fr_cid(2), node),
        (fr_cid(3), fr_post("hi", None)),
        (fr_cid(4), fr_map(vec![("$type", Ipld::String("app.bsky.future.thing".to_string()))])),
        (fr_cid(5), Ipld::Integer(5)),
    ]);
    let store = Blocks::from(&car);
    let blocks = store.get_blocks();
    assert_eq!(blocks.len(), 4);
    assert_eq!(blocks[0].0, 0);
    let commit = blocks[0].1.as_commit().unwrap();
    assert_eq!(commit.did, "did:plc:x");
    assert_eq!(commit.version, 3);
    assert_eq!(commit.prev, None);
    assert_eq!(commit.data.link, fr_cid(7).to_string());
    assert_eq!(commit.sig, vec![1, 2]);
    let node = blocks[1].1.as_node().unwrap();
    assert_eq!(node.l.as_ref().unwrap().link, fr_cid(8).to_string());
    assert_eq!(node.e.len(), 1);
    assert_eq!(node.e[0].k, vec![97]);
    assert_eq!(blocks[2].1.as_record(), Some(RecordKind::FeedPost));
    // a record of a kind that is not known is kept, not refused
    assert_eq!(blocks[3].1.as_record(), Some(RecordKind::Other));
    assert_eq!(blocks[3].0, 3);
    assert!(blocks[2].1.as_commit().is_none());
    assert!(blocks[2].1.as_node().is_none());
}

#[test]
fn long_list_is_read_item_by_item() {
    let items: Vec<Ipld> = (0..300_000).map(|n| Ipld::Integer(n % 7)).collect();
    let bytes = fr_encode(&Ipld::List(items));
    assert_eq!(scan_item(&bytes, 0, MAX_DEPTH), Some(bytes.len()));
    let (value, end) = decode_item(&bytes, 0).unwrap();
    assert_eq!(end, bytes.len());
    match value {
        Datum::List(l) => {
            assert_eq!(l.len(), 300_000);
            assert_eq!(l[299_999], Datum::Integer(299_999 % 7));
        },
        _ => panic!("no list"),
    }
}

#[test]
fn block_lengths_are_read_as_the_leb128_crate_reads_them() {
    let patterns: Vec<Vec<u8>> = vec![
        vec![],
        vec![0x00],
        vec![0x7f],
        vec![0x80],
        vec![0x80, 0x00],
        vec![0x80, 0x01],
        vec![0xff, 0x7f],
        vec![0xe5, 0x8e, 0x26],
        vec![0x80, 0x80, 0x80],
        vec![0xff, 0xff, 0xff, 0xff, 0xff, 0xff, 0xff, 0xff, 0xff, 0x01],
        vec![0xff, 0xff, 0xff, 0xff, 0xff, 0xff, 0xff, 0xff, 0xff, 0x00],
        vec![0xff, 0xff, 0xff, 0xff, 0xff, 0xff, 0xff, 0xff, 0xff, 0x02],
        vec![0xff, 0xff, 0xff, 0xff, 0xff, 0xff, 0xff, 0xff, 0xff, 0x81, 0x00],
        vec![0xff, 0xff, 0xff, 0xff, 0xff, 0xff, 0xff, 0xff, 0xff, 0x80, 0x00],
        vec![0x80, 0x80, 0x80, 0x80, 0x80, 0x80, 0x80, 0x80, 0x80, 0x7f],
        vec![0x03, 0xaa, 0xbb, 0xcc, 0xdd],
        vec![0x05, 0xaa, 0xbb],
    ];
    for bytes in patterns {
        let mut cursor = std::io::Cursor::new(bytes.as_slice());
        let expected = leb128::read::unsigned(&mut cursor).ok().map(|len| {
            let start = cursor.position() as usize;
            match start.checked_add(len as usize) {
                Some(end) if end <= bytes.len() => (start, end, end),
                _ => (start, start, bytes.len()),
            }
        });
        assert_eq!(get_block(&bytes, 0), expected, "{:x?}", bytes);
    }
    // a length of two bytes in front of a block
    let mut car = vec![0xac, 0x02];
    car.extend_from_slice(&[0u8; 300]);
    assert_eq!(get_block(&car, 0), Some((2, 302, 302)));
    assert_eq!(get_block(&car, 302), None);
}
