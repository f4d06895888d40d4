//! `at://` references: `at://<host>/<collection>/<rkey>?<query>#<hash>`,
//! where the host is a DID or a handle.
use crate::text::{from_chars_range, is_prefix, push_char, split, split_nth, starts_with, to_chars};
use vstd::prelude::*;
use vstd::utf8::encode_utf8;

verus! {

/// Declares `indexmap::IndexMap`, which holds the query parameters of a
/// reference in the order in which they were set. What such a map holds is
/// named by `map_entries`.
#[verifier::external_type_specification]
#[verifier::external_body]
#[verifier::reject_recursive_types(K)]
#[verifier::reject_recursive_types(V)]
#[verifier::reject_recursive_types(S)]
pub struct ExIndexMap<K, V, S>(indexmap::IndexMap<K, V, S>);

/// The entries of a map of query parameters, in the order of the map.
pub uninterp spec fn map_entries(m: indexmap::IndexMap<String, String>) -> Seq<
    (Seq<char>, Seq<char>),
>;

/// The name and value pairs that a query text holds, as the `url` crate's
/// `form_urlencoded::parse` yields them.
pub uninterp spec fn form_pairs(query: Seq<char>) -> Seq<(Seq<char>, Seq<char>)>;

/// Position of the entry with key `k` among the first `n`, or -1.
pub open spec fn entry_index(s: Seq<(Seq<char>, Seq<char>)>, k: Seq<char>, n: int) -> int
    decreases n,
{
    if n <= 0 || n > s.len() {
        -1
    } else if entry_index(s, k, n - 1) >= 0 {
        entry_index(s, k, n - 1)
    } else if s[n - 1].0 == k {
        n - 1
    } else {
        -1
    }
}

/// The entries after the first `n` pairs are inserted one after the other: a
/// pair whose key is there already replaces the value and keeps the place, any
/// other pair goes to the end.
pub open spec fn collected(pairs: Seq<(Seq<char>, Seq<char>)>, n: int) -> Seq<(Seq<char>, Seq<char>)>
    decreases n,
{
    if n <= 0 || n > pairs.len() {
        Seq::empty()
    } else {
        let before = collected(pairs, n - 1);
        let i = entry_index(before, pairs[n - 1].0, before.len() as int);
        if 0 <= i < before.len() {
            before.update(i, pairs[n - 1])
        } else {
            before.push(pairs[n - 1])
        }
    }
}

/// Wraps `url::form_urlencoded::parse` on the bytes of `query`, with each
/// pair made owned. The pairs are named by `form_pairs`.
#[verifier::external_body]
fn parse_query(query: &str) -> (r: Vec<(String, String)>)
    ensures
        r.deep_view() == form_pairs(query@),
{
    url::form_urlencoded::parse(query.as_bytes()).into_owned().collect()
}

/// Wraps `IndexMap::from_iter`, which inserts the pairs in order: a key that
/// is there already keeps its place and takes the new value.
#[verifier::external_body]
fn map_from_pairs(pairs: Vec<(String, String)>) -> (r: indexmap::IndexMap<String, String>)
    ensures
        map_entries(r) == collected(pairs.deep_view(), pairs.len() as int),
{
    pairs.into_iter().collect()
}

/// Wraps `IndexMap::iter`: the entries in the order of the map, copied.
#[verifier::external_body]
fn map_to_pairs(m: &indexmap::IndexMap<String, String>) -> (r: Vec<(String, String)>)
    ensures
        r.deep_view() == map_entries(*m),
{
    m.iter().map(|(k, v)| (k.clone(), v.clone())).collect()
}

/// A byte that percent-encoding leaves as it is: a letter, a digit, `-`,
/// `.`, `_` or `~`.
pub open spec fn is_unreserved(b: u8) -> bool {
    (0x30 <= b <= 0x39) || (0x41 <= b <= 0x5a) || (0x61 <= b <= 0x7a) || b == 0x2d || b == 0x2e || b
        == 0x5f || b == 0x7e
}

/// The upper-case hexadecimal digit for a value below 16.
pub open spec fn hex_digit(d: int) -> char {
    if d < 10 {
        ((0x30 + d) as u8) as char
    } else {
        ((0x41 + d - 10) as u8) as char
    }
}

/// The bytes with every byte that is not unreserved written as `%` and two
/// hexadecimal digits.
pub open spec fn percent_encoded(bytes: Seq<u8>) -> Seq<char>
    decreases bytes.len(),
{
    if bytes.len() == 0 {
        Seq::empty()
    } else {
        let b = bytes.last();
        percent_encoded(bytes.drop_last()) + (if is_unreserved(b) {
            seq![b as char]
        } else {
            seq!['%', hex_digit(b as int / 16), hex_digit(b as int % 16)]
        })
    }
}

/// The upper-case hexadecimal digit for a value below 16.
fn hex(d: u8) -> (r: char)
    requires
        d < 16,
    ensures
        r == hex_digit(d as int),
{
    if d < 10 {
        (0x30 + d) as char
    } else {
        (0x41 + d - 10) as char
    }
}

/// Percent-encodes a text: its UTF-8 bytes, each written as it is where it
/// is unreserved, else as `%` and two hexadecimal digits.
pub fn url_encode(s: &str) -> (r: String)
    ensures
        r@ == percent_encoded(encode_utf8(s@)),
{
    let bytes = s.as_bytes();
    let mut out = String::new();
    let mut i: usize = 0;
    assert(bytes@.take(0) =~= Seq::<u8>::empty());
    while i < bytes.len()
        invariant
            i <= bytes.len(),
            bytes@ == encode_utf8(s@),
            out@ == percent_encoded(bytes@.take(i as int)),
        decreases bytes.len() - i,
    {
        let b = bytes[i];
        proof {
            assert(bytes@.take(i + 1).drop_last() =~= bytes@.take(i as int));
            assert(bytes@.take(i + 1).last() == b);
        }
        let ghost before = out@;
        if (0x30 <= b && b <= 0x39) || (0x41 <= b && b <= 0x5a) || (0x61 <= b && b <= 0x7a) || b == 0x2d
            || b == 0x2e || b == 0x5f || b == 0x7e {
            push_char(&mut out, b as char);
            assert(out@ =~= before + seq![b as char]);
        } else {
            push_char(&mut out, '%');
            push_char(&mut out, hex(b / 16));
            push_char(&mut out, hex(b % 16));
            assert(out@ =~= before + seq!['%', hex_digit(b as int / 16), hex_digit(b as int % 16)]);
        }
        i += 1;
    }
    assert(bytes@.take(i as int) =~= bytes@);
    out
}

/// at:// Uri
#[derive(Debug, Clone, PartialEq)]
pub struct AtUri {
    pub hash: Option<String>,
    pub host: Option<String>,
    pub pathname: Option<String>,
    pub search_params: Option<indexmap::IndexMap<String, String>>,
}

/// The mathematical value of an [`AtUri`].
pub struct AtUriView {
    pub hash: Option<Seq<char>>,
    pub host: Option<Seq<char>>,
    pub pathname: Option<Seq<char>>,
    pub search_params: Option<Seq<(Seq<char>, Seq<char>)>>,
}

impl View for AtUri {
    type V = AtUriView;

    open spec fn view(&self) -> AtUriView {
        AtUriView {
            hash: self.hash.deep_view(),
            host: self.host.deep_view(),
            pathname: self.pathname.deep_view(),
            search_params: match self.search_params {
                Some(m) => Some(map_entries(m)),
                None => None,
            },
        }
    }
}

/// The three places where a part of a reference ends.
pub enum Stop {
    Host,
    Path,
    Query,
}

/// A letter or digit of ASCII.
pub open spec fn is_alnum(c: char) -> bool {
    ('a' <= c <= 'z') || ('A' <= c <= 'Z') || ('0' <= c <= '9')
}

/// White space, as Unicode defines it.
pub open spec fn is_space(c: char) -> bool {
    let u = c as u32;
    (9 <= u <= 13) || u == 0x20 || u == 0x85 || u == 0xa0 || u == 0x1680 || (0x2000 <= u <= 0x200a)
        || u == 0x2028 || u == 0x2029 || u == 0x202f || u == 0x205f || u == 0x3000
}

/// A character after the `did:` of a DID.
pub open spec fn is_did_char(c: char) -> bool {
    is_alnum(c) || c == ':' || c == '%' || c == '-'
}

/// A character of a handle after its first.
pub open spec fn is_handle_char(c: char) -> bool {
    is_alnum(c) || c == '.' || c == ':' || c == '-'
}

/// A character that ends the part: the host ends before `/`, `?` and `#`,
/// the path before `?`, `#` and white space, the query before `#` and white
/// space.
pub open spec fn stops(k: Stop, c: char) -> bool {
    match k {
        Stop::Host => c == '/' || c == '?' || c == '#',
        Stop::Path => c == '?' || c == '#' || is_space(c),
        Stop::Query => c == '#' || is_space(c),
    }
}

/// Position of the first character at or after `from` that ends the part, or
/// the length of `s`.
pub open spec fn first_stop(s: Seq<char>, from: int, k: Stop) -> int
    decreases s.len() - from,
{
    if from < 0 || from >= s.len() {
        s.len() as int
    } else if stops(k, s[from]) {
        from
    } else {
        first_stop(s, from + 1, k)
    }
}

/// A host: `did:` and at least one character of a DID, or a letter or digit
/// and then characters of a handle.
pub open spec fn is_host(h: Seq<char>) -> bool {
    is_did(h) || is_handle(h)
}

/// `did:` and at least one character of a DID.
pub open spec fn is_did(h: Seq<char>) -> bool {
    h.len() >= 5 && h.take(4) == "did:"@ && forall|i: int|
        4 <= i < h.len() ==> is_did_char(#[trigger] h[i])
}

/// A letter or digit, then characters of a handle.
pub open spec fn is_handle(h: Seq<char>) -> bool {
    h.len() >= 1 && is_alnum(h[0]) && forall|i: int|
        1 <= i < h.len() ==> is_handle_char(#[trigger] h[i])
}

/// No white space from `from` on.
pub open spec fn no_space(s: Seq<char>, from: int) -> bool {
    forall|i: int| from <= i < s.len() ==> !is_space(#[trigger] s[i])
}

/// The four parts of a reference without its scheme. A part that is not
/// there is empty; the query has its `?` and the hash its `#`.
pub struct Parts {
    pub host: Seq<char>,
    pub path: Seq<char>,
    pub query: Seq<char>,
    pub hash: Seq<char>,
}

/// Where the host ends.
pub open spec fn host_end(s: Seq<char>) -> int {
    first_stop(s, 0, Stop::Host)
}

/// Where the path ends; where the host ends if there is no path.
pub open spec fn path_end(s: Seq<char>) -> int {
    let he = host_end(s);
    if he < s.len() && s[he] == '/' {
        first_stop(s, he + 1, Stop::Path)
    } else {
        he
    }
}

/// Where the query ends; where the path ends if there is no query.
pub open spec fn query_end(s: Seq<char>) -> int {
    let pe = path_end(s);
    if pe < s.len() && s[pe] == '?' {
        first_stop(s, pe + 1, Stop::Query)
    } else {
        pe
    }
}

/// The parts of `s`, if `s` is a host, then optionally a path that starts
/// with `/`, a query of `?` and at least one character, and a hash of `#` and
/// at least one character, with no white space anywhere.
pub open spec fn body_parts(s: Seq<char>) -> Option<Parts> {
    let he = host_end(s);
    let pe = path_end(s);
    let qe = query_end(s);
    if !is_host(s.subrange(0, he)) {
        None
    } else if pe < s.len() && s[pe] == '?' && qe < pe + 2 {
        None
    } else if qe == s.len() {
        Some(
            Parts {
                host: s.subrange(0, he),
                path: s.subrange(he, pe),
                query: s.subrange(pe, qe),
                hash: Seq::empty(),
            },
        )
    } else if s[qe] == '#' && qe + 2 <= s.len() && no_space(s, qe + 1) {
        Some(
            Parts {
                host: s.subrange(0, he),
                path: s.subrange(he, pe),
                query: s.subrange(pe, qe),
                hash: s.subrange(qe, s.len() as int),
            },
        )
    } else {
        None
    }
}

/// The parts of a reference: of what follows `at://` where the text starts so
/// and the rest is a reference, else of the whole text.
pub open spec fn uri_parts(s: Seq<char>) -> Option<Parts> {
    if is_prefix("at://"@, s) && body_parts(s.skip(5)) is Some {
        body_parts(s.skip(5))
    } else {
        body_parts(s)
    }
}

/// A text, absent where it is empty.
pub open spec fn non_empty(s: Seq<char>) -> Option<Seq<char>> {
    if s.len() == 0 {
        None
    } else {
        Some(s)
    }
}

/// The reference that `AtUri::new` makes of four texts: each part absent
/// where its text is empty, the query parameters read from their text.
pub open spec fn new_view(
    hash: Seq<char>,
    host: Seq<char>,
    pathname: Seq<char>,
    search: Seq<char>,
) -> AtUriView {
    AtUriView {
        hash: non_empty(hash),
        host: non_empty(host),
        pathname: non_empty(pathname),
        search_params: if search.len() == 0 {
            None
        } else {
            Some(collected(form_pairs(search), form_pairs(search).len() as int))
        },
    }
}

/// The reference that a text writes, if it writes one.
pub open spec fn uri_of(s: Seq<char>) -> Option<AtUriView> {
    match uri_parts(s) {
        Some(p) => Some(
            new_view(
                p.hash,
                p.host,
                p.path,
                if p.query.len() > 0 {
                    p.query.skip(1)
                } else {
                    p.query
                },
            ),
        ),
        None => None,
    }
}

/// `s`, with `c` in front unless it starts with `c`.
pub open spec fn led_by(c: char, s: Seq<char>) -> Seq<char> {
    if s.len() > 0 && s[0] == c {
        s
    } else {
        seq![c] + s
    }
}

/// The first `n` query parameters as `name=value`, percent-encoded, with `&`
/// between them.
pub open spec fn query_text(pairs: Seq<(Seq<char>, Seq<char>)>, n: int) -> Seq<char>
    decreases n,
{
    if n <= 0 || n > pairs.len() {
        Seq::empty()
    } else {
        let one = percent_encoded(encode_utf8(pairs[n - 1].0)) + seq!['='] + percent_encoded(
            encode_utf8(pairs[n - 1].1),
        );
        if n == 1 {
            one
        } else {
            query_text(pairs, n - 1) + seq!['&'] + one
        }
    }
}

impl AtUriView {
    /// The host as it is written: nothing where there is none.
    pub open spec fn host_text(self) -> Seq<char> {
        match self.host {
            Some(h) => h,
            None => Seq::empty(),
        }
    }

    /// The path as it is written: with a leading `/`, a lone `/` where there
    /// is no path.
    pub open spec fn path_text(self) -> Seq<char> {
        match self.pathname {
            Some(p) => led_by('/', p),
            None => seq!['/'],
        }
    }

    /// The query as it is written: `?` and the parameters, nothing where
    /// there is no map of parameters.
    pub open spec fn search_text(self) -> Seq<char> {
        match self.search_params {
            Some(m) => seq!['?'] + query_text(m, m.len() as int),
            None => Seq::empty(),
        }
    }

    /// The hash as it is written: with a leading `#`, nothing where there is
    /// none.
    pub open spec fn hash_text(self) -> Seq<char> {
        match self.hash {
            Some(h) => led_by('#', h),
            None => Seq::empty(),
        }
    }

    /// The text of the reference: `at://`, the host, the path, the query and
    /// the hash.
    pub open spec fn rendered(self) -> Seq<char> {
        "at://"@ + self.host_text() + self.path_text() + self.search_text() + self.hash_text()
    }

    /// A reference as parsing gives it, without query parameters: a host, a
    /// path that starts with `/` and a hash that starts with `#` and has more,
    /// none of them with a character that would end it.
    pub open spec fn plain(self) -> bool {
        &&& self.host matches Some(h) && is_host(h)
        &&& self.pathname matches Some(p) && p.len() >= 1 && p[0] == '/' && forall|i: int|
            0 <= i < p.len() ==> !stops(Stop::Path, #[trigger] p[i])
        &&& self.search_params is None
        &&& self.hash matches Some(h) ==> h.len() >= 2 && h[0] == '#' && no_space(h, 0)
    }

    /// The first part of the path after the host.
    pub open spec fn collection(self) -> Option<Seq<char>> {
        match self.pathname {
            Some(p) => split_nth(p, '/', 1),
            None => None,
        }
    }

    /// The second part of the path after the host.
    pub open spec fn rkey(self) -> Option<Seq<char>> {
        match self.pathname {
            Some(p) => split_nth(p, '/', 2),
            None => None,
        }
    }
}

/// The first stop is the only position with the properties of one.
pub proof fn lemma_first_stop_is(s: Seq<char>, from: int, k: Stop, r: int)
    requires
        0 <= from <= r <= s.len(),
        r < s.len() ==> stops(k, s[r]),
        forall|i: int| from <= i < r ==> !stops(k, #[trigger] s[i]),
    ensures
        first_stop(s, from, k) == r,
    decreases r - from,
{
    if from < r {
        lemma_first_stop_is(s, from + 1, k, r);
    }
}

/// Whether `c` is a letter or digit of ASCII.
fn alnum(c: char) -> (r: bool)
    ensures
        r == is_alnum(c),
{
    ('a' <= c && c <= 'z') || ('A' <= c && c <= 'Z') || ('0' <= c && c <= '9')
}

/// Whether `c` is white space.
fn space(c: char) -> (r: bool)
    ensures
        r == is_space(c),
{
    let u: u32 = c as u32;
    (9 <= u && u <= 13) || u == 0x20 || u == 0x85 || u == 0xa0 || u == 0x1680 || (0x2000 <= u && u
        <= 0x200a) || u == 0x2028 || u == 0x2029 || u == 0x202f || u == 0x205f || u == 0x3000
}

/// Whether `c` ends the part.
fn is_stop(k: &Stop, c: char) -> (r: bool)
    ensures
        r == stops(*k, c),
{
    match k {
        Stop::Host => c == '/' || c == '?' || c == '#',
        Stop::Path => c == '?' || c == '#' || space(c),
        Stop::Query => c == '#' || space(c),
    }
}

/// Finds the first character at or after `from` that ends the part.
fn scan(s: &Vec<char>, from: usize, k: Stop) -> (r: usize)
    requires
        from <= s.len(),
    ensures
        r == first_stop(s@, from as int, k),
        from <= r <= s.len(),
{
    let mut i: usize = from;
    while i < s.len() && !is_stop(&k, s[i])
        invariant
            from <= i <= s.len(),
            first_stop(s@, from as int, k) == first_stop(s@, i as int, k),
        decreases s.len() - i,
    {
        i += 1;
    }
    i
}

/// Whether `s[0..end]` is a host.
fn check_host(s: &Vec<char>, end: usize) -> (r: bool)
    requires
        end <= s.len(),
    ensures
        r == is_host(s@.subrange(0, end as int)),
{
    let ghost h = s@.subrange(0, end as int);
    proof {
        reveal_strlit("did:");
    }
    if end == 0 {
        return false;
    }
    let did = end >= 5 && s[0] == 'd' && s[1] == 'i' && s[2] == 'd' && s[3] == ':';
    proof {
        if end >= 4 {
            assert(h.take(4) == "did:"@ <==> (s@[0] == 'd' && s@[1] == 'i' && s@[2] == 'd' && s@[3]
                == ':')) by {
                if s@[0] == 'd' && s@[1] == 'i' && s@[2] == 'd' && s@[3] == ':' {
                    assert(h.take(4) =~= "did:"@);
                } else {
                    assert(h.take(4)[0] == s@[0]);
                    assert(h.take(4)[1] == s@[1]);
                    assert(h.take(4)[2] == s@[2]);
                    assert(h.take(4)[3] == s@[3]);
                }
            }
        }
    }
    let mut did_ok = did;
    if did {
        let mut i: usize = 4;
        while i < end
            invariant
                4 <= i <= end <= s.len(),
                h == s@.subrange(0, end as int),
                did_ok <==> forall|j: int| 4 <= j < i ==> is_did_char(#[trigger] h[j]),
            decreases end - i,
        {
            let c = s[i];
            if !(alnum(c) || c == ':' || c == '%' || c == '-') {
                assert(!is_did_char(h[i as int]));
                did_ok = false;
            }
            i += 1;
        }
    }
    if did_ok {
        return true;
    }
    assert(!is_did(h));
    assert(h[0] == s@[0]);
    if !alnum(s[0]) {
        return false;
    }
    let mut i: usize = 1;
    while i < end
        invariant
            1 <= i <= end <= s.len(),
            h == s@.subrange(0, end as int),
            !is_did(h),
            is_alnum(h[0]),
            forall|j: int| 1 <= j < i ==> is_handle_char(#[trigger] h[j]),
        decreases end - i,
    {
        let c = s[i];
        if !(alnum(c) || c == '.' || c == ':' || c == '-') {
            assert(!is_handle_char(h[i as int]));
            return false;
        }
        i += 1;
    }
    true
}

/// Whether no white space stands in `s` from `from` on.
fn check_no_space(s: &Vec<char>, from: usize) -> (r: bool)
    requires
        from <= s.len(),
    ensures
        r == no_space(s@, from as int),
{
    let mut i: usize = from;
    while i < s.len()
        invariant
            from <= i <= s.len(),
            forall|j: int| from <= j < i ==> !is_space(#[trigger] s@[j]),
        decreases s.len() - i,
    {
        if space(s[i]) {
            return false;
        }
        i += 1;
    }
    true
}

/// Where the four parts of a reference without its scheme end: host, path,
/// query, and the end of the text.
fn split_body(s: &Vec<char>) -> (r: Option<(usize, usize, usize)>)
    ensures
        match r {
            Some((he, pe, qe)) => body_parts(s@) is Some && he == host_end(s@) && pe == path_end(
                s@,
            ) && qe == query_end(s@) && he <= pe <= qe <= s.len(),
            None => body_parts(s@) is None,
        },
{
    let he = scan(s, 0, Stop::Host);
    let pe = if he < s.len() && s[he] == '/' {
        scan(s, he + 1, Stop::Path)
    } else {
        he
    };
    let qe = if pe < s.len() && s[pe] == '?' {
        scan(s, pe + 1, Stop::Query)
    } else {
        pe
    };
    if !check_host(s, he) {
        return None;
    }
    if pe < s.len() && s[pe] == '?' && qe - pe < 2 {
        return None;
    }
    if qe == s.len() {
        return Some((he, pe, qe));
    }
    if s[qe] == '#' && s.len() - qe >= 2 && check_no_space(s, qe + 1) {
        Some((he, pe, qe))
    } else {
        None
    }
}

impl AtUri {
    /// Create new at:// Uri
    pub fn new(hash: &str, host: &str, pathname: &str, search_params: &str) -> (r: AtUri)
        ensures
            r@ == new_view(hash@, host@, pathname@, search_params@),
    {
        AtUri {
            hash: if hash.is_empty() {
                None
            } else {
                Some(hash.to_string())
            },
            host: if host.is_empty() {
                None
            } else {
                Some(host.to_string())
            },
            pathname: if pathname.is_empty() {
                None
            } else {
                Some(pathname.to_string())
            },
            search_params: if search_params.is_empty() {
                None
            } else {
                Some(map_from_pairs(parse_query(search_params)))
            },
        }
    }

    /// Parse at:// Uri
    pub fn from_uri(uri: &str) -> (r: Option<AtUri>)
        ensures
            match r {
                Some(u) => uri_of(uri@) == Some(u@),
                None => uri_of(uri@) is None,
            },
    {
        let all = to_chars(uri);
        proof {
            reveal_strlit("at://");
        }
        if starts_with(uri, "at://") {
            let body = {
                let mut b: Vec<char> = Vec::new();
                let mut i: usize = 5;
                while i < all.len()
                    invariant
                        5 <= i <= all.len(),
                        b@ == all@.subrange(5, i as int),
                    decreases all.len() - i,
                {
                    b.push(all[i]);
                    i += 1;
                }
                b
            };
            assert(body@ =~= uri@.skip(5));
            match split_body(&body) {
                Some((he, pe, qe)) => {
                    return Some(AtUri::from_parts(&body, he, pe, qe));
                },
                None => {},
            }
        }
        match split_body(&all) {
            Some((he, pe, qe)) => Some(AtUri::from_parts(&all, he, pe, qe)),
            None => None,
        }
    }

    /// Makes the reference out of the parts of `s` that end at `he`, `pe`,
    /// `qe` and the end of `s`.
    fn from_parts(s: &Vec<char>, he: usize, pe: usize, qe: usize) -> (r: AtUri)
        requires
            he <= pe <= qe <= s.len(),
        ensures
            r@ == new_view(
                s@.subrange(qe as int, s.len() as int),
                s@.subrange(0, he as int),
                s@.subrange(he as int, pe as int),
                if qe > pe {
                    s@.subrange(pe as int, qe as int).skip(1)
                } else {
                    s@.subrange(pe as int, qe as int)
                },
            ),
    {
        let hash = from_chars_range(s, qe, s.len());
        let host = from_chars_range(s, 0, he);
        let path = from_chars_range(s, he, pe);
        let query = if qe > pe {
            from_chars_range(s, pe + 1, qe)
        } else {
            String::new()
        };
        proof {
            if qe > pe {
                assert(s@.subrange(pe as int, qe as int).skip(1) =~= s@.subrange(pe + 1, qe as int));
            } else {
                assert(s@.subrange(pe as int, qe as int) =~= Seq::<char>::empty());
            }
        }
        AtUri::new(hash.as_str(), host.as_str(), path.as_str(), query.as_str())
    }

    /// `s`, with `c` in front unless it starts with `c`.
    fn lead(c: char, s: &str) -> (r: String)
        ensures
            r@ == led_by(c, s@),
    {
        let chars = to_chars(s);
        let mut out = String::new();
        if !(chars.len() > 0 && chars[0] == c) {
            push_char(&mut out, c);
        }
        out.append(s);
        assert(out@ =~= led_by(c, s@));
        out
    }

    /// The path as it is written.
    fn render_path(&self) -> (r: String)
        ensures
            r@ == self@.path_text(),
    {
        match &self.pathname {
            Some(p) => AtUri::lead('/', p.as_str()),
            None => {
                let mut out = String::new();
                push_char(&mut out, '/');
                assert(out@ =~= seq!['/']);
                out
            },
        }
    }

    /// The query as it is written.
    fn render_search(&self) -> (r: String)
        ensures
            r@ == self@.search_text(),
    {
        match &self.search_params {
            Some(m) => {
                let pairs = map_to_pairs(m);
                let mut out = String::new();
                push_char(&mut out, '?');
                let ghost start = out@;
                let mut i: usize = 0;
                assert(start + query_text(pairs.deep_view(), 0) =~= start);
                while i < pairs.len()
                    invariant
                        i <= pairs.len(),
                        out@ == start + query_text(pairs.deep_view(), i as int),
                    decreases pairs.len() - i,
                {
                    if i > 0 {
                        push_char(&mut out, '&');
                    }
                    out.append(url_encode(pairs[i].0.as_str()).as_str());
                    push_char(&mut out, '=');
                    out.append(url_encode(pairs[i].1.as_str()).as_str());
                    proof {
                        assert(pairs.deep_view()[i as int] == (pairs[i as int].0@, pairs[i as int].1@));
                        assert(out@ =~= start + query_text(pairs.deep_view(), i + 1));
                    }
                    i += 1;
                }
                assert(start =~= seq!['?']);
                out
            },
            None => String::new(),
        }
    }

    /// The text of the reference.
    pub fn to_string(&self) -> (r: String)
        ensures
            r@ == self@.rendered(),
    {
        let mut out = "at://".to_string();
        match &self.host {
            Some(h) => out.append(h.as_str()),
            None => {
                assert(out@ + Seq::<char>::empty() =~= out@);
            },
        }
        out.append(self.render_path().as_str());
        out.append(self.render_search().as_str());
        match &self.hash {
            Some(h) => out.append(AtUri::lead('#', h.as_str()).as_str()),
            None => {
                assert(out@ + Seq::<char>::empty() =~= out@);
            },
        }
        out
    }

    /// The `n`-th part of the path, counted from the empty part before the
    /// leading `/`.
    fn path_part(&self, n: usize) -> (r: Option<String>)
        ensures
            r.deep_view() == match self@.pathname {
                Some(p) => split_nth(p, '/', n as nat),
                None => None,
            },
    {
        match &self.pathname {
            Some(p) => {
                let chars = to_chars(p.as_str());
                let parts = split(&chars, '/');
                if n < parts.len() {
                    let piece = crate::text::from_chars(&parts[n]);
                    assert(parts.deep_view()[n as int] =~= parts[n as int]@);
                    Some(piece)
                } else {
                    None
                }
            },
            None => None,
        }
    }

    /// Returns at:// Uri first path
    pub fn collection(&self) -> (r: Option<String>)
        ensures
            r.deep_view() == self@.collection(),
    {
        self.path_part(1)
    }

    /// Returns at:// Uri second path
    pub fn rkey(&self) -> (r: Option<String>)
        ensures
            r.deep_view() == self@.rkey(),
    {
        self.path_part(2)
    }
}

/// No character of a host ends a host.
proof fn lemma_host_has_no_stop(h: Seq<char>)
    requires
        is_host(h),
    ensures
        forall|i: int| 0 <= i < h.len() ==> !stops(Stop::Host, #[trigger] h[i]),
{
    reveal_strlit("did:");
    assert forall|i: int| 0 <= i < h.len() implies !stops(Stop::Host, #[trigger] h[i]) by {
        if is_did(h) {
            if i < 4 {
                assert(h.take(4)[i] == h[i]);
            } else {
                assert(is_did_char(h[i]));
            }
        } else {
            if i >= 1 {
                assert(is_handle_char(h[i]));
            }
        }
    }
}

/// A host, a path and a hash in a row are read as just these parts.
proof fn lemma_body_parts(h: Seq<char>, p: Seq<char>, hash: Seq<char>)
    requires
        is_host(h),
        p.len() >= 1,
        p[0] == '/',
        forall|i: int| 0 <= i < p.len() ==> !stops(Stop::Path, #[trigger] p[i]),
        hash.len() == 0 || (hash.len() >= 2 && hash[0] == '#' && no_space(hash, 0)),
    ensures
        body_parts(h + p + hash) == Some(Parts { host: h, path: p, query: Seq::empty(), hash }),
{
    let s = h + p + hash;
    let he = h.len() as int;
    let pe = he + p.len();
    lemma_host_has_no_stop(h);
    assert(s[he] == p[0]);
    assert forall|i: int| 0 <= i < he implies !stops(Stop::Host, #[trigger] s[i]) by {
        assert(s[i] == h[i]);
    }
    lemma_first_stop_is(s, 0, Stop::Host, he);
    assert forall|i: int| he + 1 <= i < pe implies !stops(Stop::Path, #[trigger] s[i]) by {
        assert(s[i] == p[i - he]);
    }
    if hash.len() > 0 {
        assert(s[pe] == hash[0]);
    }
    lemma_first_stop_is(s, he + 1, Stop::Path, pe);
    assert(path_end(s) == pe);
    assert(query_end(s) == pe);
    assert(s.subrange(0, he) =~= h);
    assert(s.subrange(he, pe) =~= p);
    assert(s.subrange(pe, pe) =~= Seq::<char>::empty());
    if hash.len() > 0 {
        assert(s.subrange(pe, s.len() as int) =~= hash);
        assert forall|i: int| pe + 1 <= i < s.len() implies !is_space(#[trigger] s[i]) by {
            assert(s[i] == hash[i - pe]);
        }
    } else {
        assert(hash =~= Seq::<char>::empty());
    }
}

/// Round trip: a reference with a host, a path that starts with `/` and no
/// query parameters, made of characters that parsing accepts, is what parsing
/// reads back from its text.
pub proof fn lemma_parse_render_round_trip(u: AtUriView)
    requires
        u.plain(),
    ensures
        uri_of(u.rendered()) == Some(u),
{
    reveal_strlit("at://");
    let h = u.host.unwrap();
    let p = u.pathname.unwrap();
    let hash = match u.hash {
        Some(x) => x,
        None => Seq::<char>::empty(),
    };
    let s = u.rendered();
    assert(led_by('/', p) == p);
    if u.hash is Some {
        assert(led_by('#', hash) == hash);
    }
    assert(s =~= "at://"@ + (h + p + hash));
    assert(s.take(5) =~= "at://"@);
    assert(s.skip(5) =~= h + p + hash);
    lemma_body_parts(h, p, hash);
    assert(Seq::<char>::empty().len() == 0);
    assert(hash.len() == 0 ==> u.hash is None);
}

} // verus!
