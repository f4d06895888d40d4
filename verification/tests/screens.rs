use aerostream::event::{Event, Header};
use aerostream::screen::{Column, Post, Screen, Shown, DEFAULT_MAX_LEN};
use aerostream::time::Timestamp;
use libipld::cbor::DagCborCodec;
use libipld::prelude::Codec;
use libipld::Ipld;

fn sc_post(name: &str, blobs: usize) -> Post {
    Post {
        create_at: Timestamp { secs: 0, nanos: 0 },
        did: format!("did:plc:{}", name),
        handle: None,
        text: vec![name.to_string()],
        blobs: (0..blobs).map(|n| format!("https://blob/{}/{}", name, n)).collect(),
        path: Some(format!("app.bsky.feed.post/{}", name)),
    }
}

fn sc_names(column: &Column) -> Vec<String> {
    column.posts.iter().map(|p| p.text[0].clone()).collect()
}

#[test]
fn header_length_is_that_of_its_encoding() {
    for (op, t) in [
        (1i64, "#commit".to_string()),
        (0, String::new()),
        (-1, "#info".to_string()),
        (23, "a".repeat(23)),
        (24, "a".repeat(24)),
        (255, "é".repeat(200)),
        (256, "x".repeat(70_000)),
        (65_536, "#x".to_string()),
        (-25, "#x".to_string()),
        (-257, "#x".to_string()),
        (i64::MAX, "#x".to_string()),
        (i64::MIN, "#x".to_string()),
        (4_294_967_296, "#x".to_string()),
    ] {
        let encoded = DagCborCodec
            .encode(&Ipld::StringMap(
                [("op".to_string(), Ipld::Integer(op as i128)), ("t".to_string(), Ipld::String(t.clone()))]
                    .into_iter()
                    .collect(),
            ))
            .unwrap();
        assert_eq!(Header { op, t }.len(), Some(encoded.len()), "op {}", op);
    }
}

#[test]
fn post_lists_a_commit() {
    let map = |entries: Vec<(&str, Ipld)>| {
        Ipld::StringMap(entries.into_iter().map(|(k, v)| (k.to_string(), v)).collect())
    };
    let digest = [7u8; 32];
    let blob = libipld::Cid::new_v1(0x55, libipld::multihash::Multihash::wrap(0x12, &digest).unwrap());
    let mut frame = DagCborCodec
        .encode(&map(vec![("op", Ipld::Integer(1)), ("t", Ipld::String("#commit".to_string()))]))
        .unwrap();
    frame.extend_from_slice(
        &DagCborCodec
            .encode(&map(vec![
                ("seq", Ipld::Integer(1)),
                ("repo", Ipld::String("did:plc:a".to_string())),
                ("ops", Ipld::List(vec![])),
                ("blobs", Ipld::List(vec![Ipld::Link(blob)])),
                ("time", Ipld::String("2024-01-01T00:00:00Z".to_string())),
            ]))
            .unwrap(),
    );
    let event = Event::try_from(&frame).unwrap();
    let post = Post::from(event.as_commit().unwrap());
    assert_eq!(post.did, "did:plc:a");
    assert_eq!(post.create_at, Timestamp { secs: 1_704_067_200, nanos: 0 });
    assert_eq!(post.handle, None);
    assert_eq!(post.text, Vec::<String>::new());
    assert_eq!(post.blobs.len(), 1);
    assert_eq!(post.path, None);
    assert!(!post.is_empty());
    assert_eq!(post.get_name(), "did:plc:a");
    assert_eq!(post.url(), None);
}

#[test]
fn post_is_empty_without_text_and_attachment() {
    let mut post = sc_post("a", 0);
    assert!(!post.is_empty());
    post.text = vec![String::new(), String::new()];
    assert!(post.is_empty());
    post.text = vec![];
    assert!(post.is_empty());
    post.blobs = vec!["b".to_string()];
    assert!(!post.is_empty());
}

#[test]
fn post_address_is_made_of_handle_and_key() {
    let mut post = sc_post("3k2a", 0);
    assert_eq!(post.url(), None);
    post.handle = Some("alice.test".to_string());
    assert_eq!(post.get_name(), "alice.test");
    assert_eq!(post.url(), Some("https://bsky.app/profile/alice.test/post/3k2a".to_string()));
    post.path = Some("nokey".to_string());
    assert_eq!(post.url(), None);
    post.path = Some("a/b/c".to_string());
    assert_eq!(post.url(), Some("https://bsky.app/profile/alice.test/post/b".to_string()));
    post.path = None;
    assert_eq!(post.url(), None);
}

#[test]
fn column_keeps_the_newest_posts() {
    let mut column = Column::new("All");
    assert_eq!(DEFAULT_MAX_LEN, 100);
    for name in ["a", "b", "c", "d"] {
        column.push(sc_post(name, 0), 3);
    }
    assert_eq!(sc_names(&column), vec!["d", "c", "b"]);
    assert_eq!(column.selected, None);
    column.selected = Some(1);
    column.push(sc_post("e", 0), 3);
    assert_eq!(sc_names(&column), vec!["e", "d", "c"]);
    // the selection follows the post
    assert_eq!(column.selected, Some(2));
    assert_eq!(column.current().unwrap().text[0], "c");
    column.push(sc_post("f", 0), 3);
    assert_eq!(column.selected, Some(3));
    assert!(column.current().is_none());
    column.push(sc_post("g", 0), 0);
    assert_eq!(column.posts.len(), 0);
}

#[test]
fn selection_moves_up_and_down() {
    let mut column = Column::new("All");
    column.up();
    assert_eq!(column.selected, None);
    column.down();
    assert_eq!(column.selected, None);
    for name in ["a", "b", "c"] {
        column.push(sc_post(name, 0), 10);
    }
    column.down();
    assert_eq!(column.selected, Some(0));
    column.down();
    column.down();
    assert_eq!(column.selected, Some(2));
    column.down();
    assert_eq!(column.selected, None);
    column.up();
    assert_eq!(column.selected, Some(2));
    column.up();
    column.up();
    assert_eq!(column.selected, Some(0));
    column.up();
    assert_eq!(column.selected, None);
    column.selected = Some(50);
    column.down();
    assert_eq!(column.selected, None);
}

#[test]
fn focus_moves_around_the_columns() {
    let names: Vec<String> = ["A", "B", "C"].iter().map(|s| s.to_string()).collect();
    let mut screen = Screen::new(&names, 5);
    assert_eq!(screen.focus, 0);
    assert_eq!(screen.find("B"), Some(1));
    assert_eq!(screen.find("Z"), None);
    screen.columns[0].selected = Some(4);
    screen.columns[1].selected = Some(2);
    screen.right();
    assert_eq!(screen.focus, 1);
    assert_eq!(screen.columns[0].selected, None);
    assert_eq!(screen.columns[1].selected, Some(2));
    screen.right();
    screen.right();
    assert_eq!(screen.focus, 0);
    assert_eq!(screen.columns[1].selected, None);
    screen.left();
    assert_eq!(screen.focus, 2);
    screen.left();
    assert_eq!(screen.focus, 1);
    screen.columns[0].selected = Some(1);
    screen.columns[2].selected = Some(1);
    screen.escape();
    assert!(screen.columns.iter().all(|c| c.selected.is_none()));
    assert_eq!(screen.columns.iter().map(|c| c.name.clone()).collect::<Vec<_>>(), names);
    let mut empty = Screen::new(&vec![], 5);
    empty.right();
    empty.left();
    empty.escape();
    assert_eq!(empty.focus, 0);
}

#[test]
fn attachments_are_stepped_through() {
    let mut column = Column::new("All");
    // top to bottom: post4 (1 attachment), post3 (none), post2 (2), post1 (none)
    column.push(sc_post("post1", 0), 10);
    column.push(sc_post("post2", 2), 10);
    column.push(sc_post("post3", 0), 10);
    column.push(sc_post("post4", 1), 10);
    assert_eq!(column.first_image(), None);
    column.selected = Some(1);
    assert_eq!(column.first_image(), None);
    column.selected = Some(0);
    let first = column.first_image().unwrap();
    assert_eq!(first, Shown { post: 0, blob: 0 });
    assert_eq!(column.image_url(first), Some(&"https://blob/post4/0".to_string()));
    let second = column.image_after(first).unwrap();
    assert_eq!(second, Shown { post: 2, blob: 0 });
    let third = column.image_after(second).unwrap();
    assert_eq!(third, Shown { post: 2, blob: 1 });
    assert_eq!(column.image_url(third), Some(&"https://blob/post2/1".to_string()));
    assert_eq!(column.image_after(third), None);
    assert_eq!(column.image_before(third), Some(second));
    assert_eq!(column.image_before(second), Some(first));
    assert_eq!(column.image_before(first), None);
    assert_eq!(column.image_url(Shown { post: 1, blob: 0 }), None);
    assert_eq!(column.image_url(Shown { post: 9, blob: 0 }), None);
    assert_eq!(column.image_after(Shown { post: 9, blob: 0 }), None);
    assert_eq!(column.image_before(Shown { post: 9, blob: 0 }), None);
    assert_eq!(column.image_before(Shown { post: 4, blob: 0 }), Some(Shown { post: 2, blob: 0 }));
    assert_eq!(column.image_after(Shown { post: 1, blob: 7 }), Some(second));
}
