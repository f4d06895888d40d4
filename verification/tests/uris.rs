use aerostream::aturi::{url_encode, AtUri};
use indexmap::IndexMap;
use regex::Regex;

const URI_PATTERN: &str = r#"^(at://)?((?:did:[a-zA-Z0-9:%-]+)|(?:[a-zA-Z0-9][a-zA-Z0-9.:-]*))(/[^?#\s]*)?(\?[^#\s]+)?(#[^\s]+)?$"#;

fn ur_by_pattern(re: &Regex, text: &str) -> Option<(String, String, String, String)> {
    let caps = re.captures(text)?;
    Some((
        caps.get(5).map(|c| c.as_str()).unwrap_or_default().to_string(),
        caps.get(2).map(|c| c.as_str()).unwrap_or_default().to_string(),
        caps.get(3).map(|c| c.as_str()).unwrap_or_default().to_string(),
        caps.get(4).and_then(|c| c.as_str().get(1..)).unwrap_or_default().to_string(),
    ))
}

fn ur_some(s: &str) -> Option<String> {
    if s.is_empty() {
        None
    } else {
        Some(s.to_string())
    }
}

fn ur_agree(re: &Regex, text: &str) {
    let ours = AtUri::from_uri(text);
    match ur_by_pattern(re, text) {
        Some((hash, host, path, search)) => {
            let ours = ours.unwrap_or_else(|| panic!("{:?} is refused", text));
            assert_eq!(ours.hash, ur_some(&hash), "hash of {:?}", text);
            assert_eq!(ours.host, ur_some(&host), "host of {:?}", text);
            assert_eq!(ours.pathname, ur_some(&path), "path of {:?}", text);
            assert_eq!(ours.search_params.is_some(), !search.is_empty(), "query of {:?}", text);
            assert_eq!(ours, AtUri::new(&hash, &host, &path, &search));
        },
        None => assert!(ours.is_none(), "{:?} is accepted", text),
    }
}

fn ur_walk(re: &Regex, alphabet: &[char], prefix: &mut String, left: usize) {
    ur_agree(re, prefix);
    if left == 0 {
        return;
    }
    for c in alphabet {
        prefix.push(*c);
        ur_walk(re, alphabet, prefix, left - 1);
        prefix.pop();
    }
}

#[test]
fn parse_reads_the_parts() {
    let uri = AtUri::from_uri("at://did:plc:abc/app.bsky.feed.post/3k2a?x=1&y=two#frag").unwrap();
    assert_eq!(uri.host, Some("did:plc:abc".to_string()));
    assert_eq!(uri.pathname, Some("/app.bsky.feed.post/3k2a".to_string()));
    assert_eq!(uri.hash, Some("#frag".to_string()));
    let mut params = IndexMap::new();
    params.insert("x".to_string(), "1".to_string());
    params.insert("y".to_string(), "two".to_string());
    assert_eq!(uri.search_params, Some(params));
    assert_eq!(uri.collection(), Some("app.bsky.feed.post".to_string()));
    assert_eq!(uri.rkey(), Some("3k2a".to_string()));
}

#[test]
fn parse_accepts_a_handle_without_scheme() {
    let uri = AtUri::from_uri("alice.bsky.social").unwrap();
    assert_eq!(uri.host, Some("alice.bsky.social".to_string()));
    assert_eq!(uri.pathname, None);
    assert_eq!(uri.hash, None);
    assert_eq!(uri.search_params, None);
    assert_eq!(uri.collection(), None);
    assert_eq!(uri.rkey(), None);
}

#[test]
fn parse_refuses_what_is_no_reference() {
    assert_eq!(AtUri::from_uri(""), None);
    assert_eq!(AtUri::from_uri("at://"), AtUri::from_uri("at:").map(|mut u| {
        u.pathname = Some("//".to_string());
        u
    }));
    assert_eq!(AtUri::from_uri("at://did:plc:abc/has space"), None);
    assert_eq!(AtUri::from_uri("at://did:plc:abc?"), None);
    assert_eq!(AtUri::from_uri("at://did:plc:abc#"), None);
    assert_eq!(AtUri::from_uri("-bad.host"), None);
    assert_eq!(AtUri::from_uri(".bad.host"), None);
    assert_eq!(AtUri::from_uri("at://did:plc:abc/x#a b"), None);
    assert_eq!(AtUri::from_uri("at://did:"), AtUri::from_uri("did:"));
}

#[test]
fn parse_falls_back_to_a_host_named_at() {
    // after the scheme no host follows, so the whole text is read as a
    // reference to the host `at:`
    let uri = AtUri::from_uri("at:///x").unwrap();
    assert_eq!(uri.host, Some("at:".to_string()));
    assert_eq!(uri.pathname, Some("///x".to_string()));
}

#[test]
fn parse_agrees_with_the_pattern_on_short_texts() {
    let re = Regex::new(URI_PATTERN).unwrap();
    let alphabet = ['a', 'Z', '7', ':', '/', '?', '#', ' ', '.', '%', '-', '_', 'é', '\n'];
    ur_walk(&re, &alphabet, &mut String::new(), 4);
}

#[test]
fn parse_agrees_with_the_pattern_after_a_prefix() {
    let re = Regex::new(URI_PATTERN).unwrap();
    let alphabet = ['a', ':', '/', '?', '#', ' ', '.', '%', '-', 'd'];
    for prefix in ["at://", "did:", "at://did:", "at://a/", "at://a?", "at://a#", "at:/", "at:", "a/b?c"] {
        ur_walk(&re, &alphabet, &mut prefix.to_string(), 4);
    }
}

#[test]
fn parse_agrees_with_the_pattern_on_white_space() {
    let re = Regex::new(URI_PATTERN).unwrap();
    for code in 0u32..0x3100 {
        if let Some(c) = char::from_u32(code) {
            for shape in ["at://a/x{}y", "at://a?x{}y", "at://a#x{}y", "a{}b", "{}"] {
                ur_agree(&re, &shape.replace("{}", &c.to_string()));
            }
        }
    }
}

#[test]
fn render_writes_every_part() {
    let uri = AtUri::new("#frag", "did:plc:abc", "/app.bsky.feed.post/3k2a", "q=a b&r=%26");
    assert_eq!(uri.to_string(), "at://did:plc:abc/app.bsky.feed.post/3k2a?q=a%20b&r=%26#frag");
    // a path and a hash are given their leading characters
    let uri = AtUri::new("frag", "did:plc:abc", "coll/key", "");
    assert_eq!(uri.to_string(), "at://did:plc:abc/coll/key#frag");
    // without a path a lone slash is written
    let uri = AtUri::new("", "alice.test", "", "");
    assert_eq!(uri.to_string(), "at://alice.test/");
    let uri = AtUri::new("", "", "", "");
    assert_eq!(uri.to_string(), "at:///");
}

#[test]
fn render_encodes_query_parameters() {
    let uri = AtUri::new("", "h", "/p", "k%C3%A9y=v%2Fal~ue_-.&second=");
    let mut params = IndexMap::new();
    params.insert("kéy".to_string(), "v/al~ue_-.".to_string());
    params.insert("second".to_string(), "".to_string());
    assert_eq!(uri.search_params, Some(params));
    assert_eq!(uri.to_string(), "at://h/p?k%C3%A9y=v%2Fal~ue_-.&second=");
}

#[test]
fn new_keeps_the_first_place_of_a_repeated_parameter() {
    let uri = AtUri::new("", "h", "", "a=1&b=2&a=3");
    let entries: Vec<(String, String)> =
        uri.search_params.unwrap().into_iter().collect();
    assert_eq!(
        entries,
        vec![("a".to_string(), "3".to_string()), ("b".to_string(), "2".to_string())]
    );
}

#[test]
fn round_trip_of_references_without_query() {
    for text in [
        "at://did:plc:abc/app.bsky.feed.post/3k2a",
        "at://did:web:example.com/app.bsky.feed.generator/taste",
        "at://alice.test/",
        "at://alice.test/a/b/c#h",
        "at://at:/x",
        "at://did:plc:a%3Ab//double#frag#ment?",
    ] {
        let uri = AtUri::from_uri(text).unwrap();
        assert_eq!(uri.to_string(), text);
        assert_eq!(AtUri::from_uri(&uri.to_string()), Some(uri));
    }
}

#[test]
fn round_trip_fails_without_a_path() {
    // a reference without a path is written with a lone slash, which is
    // read back as a path
    let uri = AtUri::from_uri("at://alice.test").unwrap();
    assert_eq!(uri.pathname, None);
    let back = AtUri::from_uri(&uri.to_string()).unwrap();
    assert_eq!(back.pathname, Some("/".to_string()));
}

#[test]
fn collection_and_rkey_are_path_parts() {
    let uri = AtUri::new("", "h", "/coll", "");
    assert_eq!(uri.collection(), Some("coll".to_string()));
    assert_eq!(uri.rkey(), None);
    let uri = AtUri::new("", "h", "/", "");
    assert_eq!(uri.collection(), Some("".to_string()));
    let uri = AtUri::new("", "h", "coll/key/more", "");
    assert_eq!(uri.collection(), Some("key".to_string()));
    assert_eq!(uri.rkey(), Some("more".to_string()));
}

#[test]
fn parse_agrees_with_the_pattern_on_longer_texts() {
    let re = Regex::new(URI_PATTERN).unwrap();
    let alphabet: Vec<char> = "at:/did:plc.abc-XYZ019%?#&= \t\u{3000}é".chars().collect();
    let mut state: u64 = 0x2545_f491_4f6c_dd1d;
    for _ in 0..20_000 {
        let mut text = String::new();
        state = state.wrapping_mul(6364136223846793005).wrapping_add(1442695040888963407);
        let len = (state >> 59) as usize + 1;
        if (state >> 40) & 3 != 0 {
            text.push_str("at://");
        }
        if (state >> 43) & 1 != 0 {
            text.push_str("did:");
        }
        for _ in 0..len {
            state = state.wrapping_mul(6364136223846793005).wrapping_add(1442695040888963407);
            text.push(alphabet[(state >> 33) as usize % alphabet.len()]);
        }
        ur_agree(&re, &text);
    }
}

#[test]
fn percent_encoding_agrees_with_the_urlencoding_crate() {
    for code in 0u32..0x800 {
        if let Some(c) = char::from_u32(code) {
            let text = format!("a{}b", c);
            assert_eq!(url_encode(&text), urlencoding::encode(&text).into_owned(), "{:?}", text);
        }
    }
    for text in ["", "plain-text_1.2~3", "a b&c=d/e?f#g%h", "日本語", "🦋 bluesky", "\u{0}\u{7f}\u{80}\u{ffff}"] {
        assert_eq!(url_encode(text), urlencoding::encode(text).into_owned(), "{:?}", text);
    }
    assert_eq!(url_encode("é~ /"), "%C3%A9~%20%2F");
}
