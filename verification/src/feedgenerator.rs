//! The feed generator: the algorithms it offers, and what it answers to a
//! request.
use crate::api::{
    AppBskyFeedDescribefeedgenerator, AppBskyFeedDescribefeedgeneratorFeed, AppBskyFeedGetfeedskeleton,
    ComAtprotoSyncSubscribereposCommit,
};
use crate::address::{url_join, url_joined, url_parse, url_parsed, url_path, url_path_of, url_query, url_query_of};
use crate::aturi::{new_view, uri_of, AtUri};
use crate::api::ComAtprotoSyncSubscribereposMainMessage;
use crate::event::Event;
use crate::text::{joined, from_chars, parse_usize, parse_usize_spec, split, split_nth, str_eq, to_chars};
use vstd::prelude::*;

verus! {

/// The address of the feed that the algorithm `name` of `publisher` makes.
pub open spec fn feed_uri(publisher: Seq<char>, name: Seq<char>) -> Seq<char> {
    new_view(
        Seq::empty(),
        publisher,
        "/app.bsky.feed.generator/"@ + name,
        Seq::empty(),
    ).rendered()
}

/// Makes the address of the feed that the algorithm `name` of `publisher`
/// makes.
pub fn make_feed_uri(publisher: &str, name: &str) -> (r: String)
    ensures
        r@ == feed_uri(publisher@, name@),
{
    let path = joined("/app.bsky.feed.generator/", name);
    let uri = AtUri::new("", publisher, path.as_str(), "");
    proof {
        reveal_strlit("");
        assert(""@ =~= Seq::<char>::empty());
    }
    uri.to_string()
}

/// Whether `uri` is the address of a feed generator record, of some publisher
/// and under some name.
pub open spec fn is_feed_uri(uri: Seq<char>) -> bool {
    exists|publisher: Seq<char>, name: Seq<char>| uri == #[trigger] feed_uri(publisher, name)
}

/// Custom Feed
pub trait Algorithm: Sync + Send {
    /// The name of the feed.
    fn get_name(&self) -> String;

    /// The DID of the account that publishes the feed.
    fn get_publisher(&self) -> String;

    /// Makes a page of the feed.
    fn handler(
        &self,
        limit: Option<usize>,
        cursor: Option<String>,
        access_did: Option<String>,
        jwt: Option<String>,
    ) -> AppBskyFeedGetfeedskeleton;

    /// The feed as the generator describes it: by the address of a feed
    /// generator record, made of the publisher and the name that the algorithm
    /// gives.
    fn to_feed(&self) -> (r: AppBskyFeedDescribefeedgeneratorFeed)
        ensures
            is_feed_uri(r.uri@),
    {
        let publisher = self.get_publisher();
        let name = self.get_name();
        let uri = make_feed_uri(publisher.as_str(), name.as_str());
        assert(uri@ == feed_uri(publisher@, name@));
        AppBskyFeedDescribefeedgeneratorFeed { uri }
    }
}

/// Collect PDS commits
pub trait Subscription: Sync + Send {
    fn handler(&mut self, records: Vec<ComAtprotoSyncSubscribereposCommit>);
}

/// The service entry of a DID document.
#[derive(Debug, Clone, PartialEq, Eq)]
pub struct Service {
    pub id: String,
    pub service_type: String,
    pub service_endpoint: String,
}

impl Service {
    /// The feed generator service at `hostname`.
    pub fn new(hostname: &str) -> (r: Service)
        ensures
            r.id@ == "#bsky_fg"@,
            r.service_type@ == "BskyFeedGenerator"@,
            r.service_endpoint@ == "https://"@ + hostname@,
    {
        Service {
            id: "#bsky_fg".to_string(),
            service_type: "BskyFeedGenerator".to_string(),
            service_endpoint: joined("https://", hostname),
        }
    }
}

/// The DID document of the generator.
#[derive(Debug, Clone, PartialEq, Eq)]
pub struct DidDocument {
    pub context: Vec<String>,
    pub id: String,
    pub service: Vec<Service>,
}

impl DidDocument {
    /// `d` is the document of the generator at `hostname`: the DID
    /// `did:web:<hostname>` and one service, the feed generator at
    /// `https://<hostname>`.
    pub open spec fn is_for(d: DidDocument, hostname: Seq<char>) -> bool {
        &&& d.context.len() == 1
        &&& d.context[0]@ == "https://www.w3.org/ns/did/v1"@
        &&& d.id@ == "did:web:"@ + hostname
        &&& d.service.len() == 1
        &&& d.service[0].id@ == "#bsky_fg"@
        &&& d.service[0].service_type@ == "BskyFeedGenerator"@
        &&& d.service[0].service_endpoint@ == "https://"@ + hostname
    }

    /// The DID document of the generator at `hostname`.
    pub fn new(hostname: &str) -> (r: DidDocument)
        ensures
            DidDocument::is_for(r, hostname@),
    {
        let mut context: Vec<String> = Vec::new();
        context.push("https://www.w3.org/ns/did/v1".to_string());
        let mut service: Vec<Service> = Vec::new();
        service.push(Service::new(hostname));
        DidDocument { context, id: joined("did:web:", hostname), service }
    }
}

/// What a request asks for.
#[derive(Debug, Clone, Copy, PartialEq, Eq, Structural)]
pub enum Route {
    /// `/.well-known/did.json`
    DidJson,
    /// `/xrpc/app.bsky.feed.describeFeedGenerator`
    Describe,
    /// `/xrpc/app.bsky.feed.getFeedSkeleton`
    Skeleton,
    /// Anything else.
    Unknown,
}

/// What the path of a request asks for, by its first two parts.
pub open spec fn route_of(path: Seq<char>) -> Route {
    let first = split_nth(path, '/', 1);
    let second = split_nth(path, '/', 2);
    if first == Some(".well-known"@) && second == Some("did.json"@) {
        Route::DidJson
    } else if first == Some("xrpc"@) && second == Some("app.bsky.feed.describeFeedGenerator"@) {
        Route::Describe
    } else if first == Some("xrpc"@) && second == Some("app.bsky.feed.getFeedSkeleton"@) {
        Route::Skeleton
    } else {
        Route::Unknown
    }
}

/// Tells what the path of a request asks for.
pub fn route(path: &str) -> (r: Route)
    ensures
        r == route_of(path@),
{
    let parts = split(&to_chars(path), '/');
    if parts.len() < 3 {
        return Route::Unknown;
    }
    let first = from_chars(&parts[1]);
    let second = from_chars(&parts[2]);
    proof {
        assert(parts.deep_view()[1] =~= parts[1]@);
        assert(parts.deep_view()[2] =~= parts[2]@);
    }
    if str_eq(first.as_str(), ".well-known") && str_eq(second.as_str(), "did.json") {
        Route::DidJson
    } else if str_eq(first.as_str(), "xrpc") && str_eq(
        second.as_str(),
        "app.bsky.feed.describeFeedGenerator",
    ) {
        Route::Describe
    } else if str_eq(first.as_str(), "xrpc") && str_eq(
        second.as_str(),
        "app.bsky.feed.getFeedSkeleton",
    ) {
        Route::Skeleton
    } else {
        Route::Unknown
    }
}

/// The value of the last of the first `n` pairs whose name is `key`.
pub open spec fn query_value(pairs: Seq<(Seq<char>, Seq<char>)>, key: Seq<char>, n: int) -> Option<
    Seq<char>,
>
    decreases n,
{
    if n <= 0 || n > pairs.len() {
        None
    } else if pairs[n - 1].0 == key {
        Some(pairs[n - 1].1)
    } else {
        query_value(pairs, key, n - 1)
    }
}

/// Looks up a query parameter; of several with one name the last counts.
pub fn query_get(pairs: &Vec<(String, String)>, key: &str) -> (r: Option<String>)
    ensures
        r.deep_view() == query_value(pairs.deep_view(), key@, pairs.len() as int),
{
    let mut i: usize = pairs.len();
    while i > 0
        invariant
            i <= pairs.len(),
            query_value(pairs.deep_view(), key@, pairs.len() as int) == query_value(
                pairs.deep_view(),
                key@,
                i as int,
            ),
        decreases i,
    {
        proof {
            assert(pairs.deep_view()[i - 1] == (pairs[i - 1].0@, pairs[i - 1].1@));
        }
        if str_eq(pairs[i - 1].0.as_str(), key) {
            return Some(pairs[i - 1].1.clone());
        }
        i -= 1;
    }
    None
}

/// The account that a feed address names and the name of the feed, if the
/// address is that of a feed generator record.
pub open spec fn feed_key(feed: Seq<char>) -> Option<(Seq<char>, Seq<char>)> {
    match uri_of(feed) {
        Some(u) => if u.host is Some && u.collection() == Some("app.bsky.feed.generator"@)
            && u.rkey() is Some {
            Some((u.host.unwrap(), u.rkey().unwrap()))
        } else {
            None
        },
        None => None,
    }
}

/// Reads the account and the name of the feed out of a feed address.
pub fn parse_feed(feed: &str) -> (r: Option<(String, String)>)
    ensures
        r.deep_view() == feed_key(feed@),
{
    let uri = match AtUri::from_uri(feed) {
        Some(u) => u,
        None => return None,
    };
    let publisher = match &uri.host {
        Some(h) => h.clone(),
        None => return None,
    };
    let collection = match uri.collection() {
        Some(c) => c,
        None => return None,
    };
    if !str_eq(collection.as_str(), "app.bsky.feed.generator") {
        return None;
    }
    match uri.rkey() {
        Some(rkey) => Some((publisher, rkey)),
        None => None,
    }
}

/// The decoded bytes of a text in base64 with the URL alphabet and no
/// padding, as the `multibase` crate reads it.
pub uninterp spec fn base64url_value(s: Seq<char>) -> Option<Seq<u8>>;

/// Declares `serde_json::Value`, a JSON value as `serde_json` holds it.
#[verifier::external_type_specification]
#[verifier::external_body]
pub struct ExJsonValue(serde_json::Value);

/// The members of a JSON value: for an object, each of its keys with the
/// JSON text of the member under it, as `serde_json` writes it; no member for
/// a value that is no object.
pub uninterp spec fn json_members(value: serde_json::Value) -> Map<Seq<char>, Seq<char>>;

/// The members of the JSON value that `serde_json` reads from `bytes`;
/// nothing where it reads none.
pub uninterp spec fn json_parsed(bytes: Seq<u8>) -> Option<Map<Seq<char>, Seq<char>>>;

/// Wraps `Base::Base64Url.decode` of the `multibase` crate. The bytes are
/// named by `base64url_value`.
#[verifier::external_body]
fn base64url_decode(s: &str) -> (r: Option<Vec<u8>>)
    ensures
        r.deep_view() == base64url_value(s@),
{
    libipld::multibase::Base::Base64Url.decode(s).ok()
}

/// Wraps `serde_json::from_slice` for a `Value`. What the value holds is
/// named by `json_parsed`.
#[verifier::external_body]
fn json_parse(bytes: &[u8]) -> (r: Option<serde_json::Value>)
    ensures
        match r {
            Some(v) => json_parsed(bytes@) == Some(json_members(v)),
            None => json_parsed(bytes@) is None,
        },
{
    serde_json::from_slice::<serde_json::Value>(bytes).ok()
}

/// Wraps `Value::get` of `serde_json` for a text key: the member of an
/// object under `key`, handed out as its JSON text; nothing where the value
/// has no such member.
#[verifier::external_body]
fn json_get(value: &serde_json::Value, key: &str) -> (r: Option<String>)
    ensures
        r.deep_view() == if json_members(*value).contains_key(key@) {
            Some(json_members(*value)[key@])
        } else {
            None
        },
{
    value.get(key).map(|m| m.to_string())
}

/// `s` without the characters equal to `c`.
pub open spec fn without_char(s: Seq<char>, c: char) -> Seq<char>
    decreases s.len(),
{
    if s.len() == 0 {
        Seq::empty()
    } else if s.last() == c {
        without_char(s.drop_last(), c)
    } else {
        without_char(s.drop_last(), c).push(s.last())
    }
}

/// Removes every `c` from `s`.
pub fn remove_char(s: &str, c: char) -> (r: String)
    ensures
        r@ == without_char(s@, c),
{
    let chars = to_chars(s);
    let mut out: Vec<char> = Vec::new();
    let mut i: usize = 0;
    assert(chars@.take(0) =~= Seq::<char>::empty());
    while i < chars.len()
        invariant
            i <= chars.len(),
            out@ == without_char(chars@.take(i as int), c),
        decreases chars.len() - i,
    {
        proof {
            assert(chars@.take(i + 1).drop_last() =~= chars@.take(i as int));
        }
        if chars[i] != c {
            out.push(chars[i]);
        }
        i += 1;
    }
    assert(chars@.take(i as int) =~= chars@);
    from_chars(&out)
}

/// The DID of the caller as a bearer token claims it: the `iss` member of
/// the JSON object in the second of the token's parts between dots, without
/// its quotes. The token's signature is not checked.
pub open spec fn caller_did(token: Seq<char>) -> Option<Seq<char>> {
    match split_nth(token, '.', 1) {
        Some(m) => match base64url_value(m) {
            Some(bytes) => match json_parsed(bytes) {
                Some(members) => if members.contains_key("iss"@) {
                    Some(without_char(members["iss"@], '"'))
                } else {
                    None
                },
                None => None,
            },
            None => None,
        },
        None => None,
    }
}

/// Reads the DID of the caller out of a bearer token.
pub fn get_caller_did(token: &str) -> (r: Option<String>)
    ensures
        r.deep_view() == caller_did(token@),
{
    let parts = split(&to_chars(token), '.');
    if parts.len() < 2 {
        return None;
    }
    let message = from_chars(&parts[1]);
    proof {
        assert(parts.deep_view()[1] =~= parts[1]@);
    }
    let body = match base64url_decode(message.as_str()) {
        Some(b) => b,
        None => return None,
    };
    proof {
        assert(body.deep_view() =~= body@);
    }
    let value = match json_parse(body.as_slice()) {
        Some(v) => v,
        None => return None,
    };
    match json_get(&value, "iss") {
        Some(t) => Some(remove_char(t.as_str(), '"')),
        None => None,
    }
}

/// What a request for a page of a feed hands to the algorithm.
#[derive(Debug, Clone, PartialEq, Eq)]
pub struct PageRequest {
    pub limit: Option<usize>,
    pub cursor: Option<String>,
    pub access_did: Option<String>,
    pub jwt: Option<String>,
}

impl PageRequest {
    /// `self` is what the query parameters and the authorization header of a
    /// request give: the `limit` where it is a number, the `cursor`, the DID
    /// that the token claims, and the header itself.
    pub open spec fn is_for(
        self,
        pairs: Seq<(Seq<char>, Seq<char>)>,
        authorization: Option<Seq<char>>,
    ) -> bool {
        &&& self.limit == match query_value(pairs, "limit"@, pairs.len() as int) {
            Some(l) => parse_usize_spec(l),
            None => None,
        }
        &&& self.cursor.deep_view() == query_value(pairs, "cursor"@, pairs.len() as int)
        &&& self.access_did.deep_view() == match authorization {
            Some(t) => caller_did(t),
            None => None,
        }
        &&& self.jwt.deep_view() == authorization
    }

    /// Reads what to hand to the algorithm out of a request.
    pub fn new(pairs: &Vec<(String, String)>, authorization: Option<&str>) -> (r: PageRequest)
        ensures
            r.is_for(
                pairs.deep_view(),
                match authorization {
                    Some(t) => Some(t@),
                    None => None,
                },
            ),
    {
        let limit = match query_get(pairs, "limit") {
            Some(l) => parse_usize(l.as_str()),
            None => None,
        };
        let (access_did, jwt) = match authorization {
            Some(t) => (get_caller_did(t), Some(t.to_string())),
            None => (None, None),
        };
        PageRequest { limit, cursor: query_get(pairs, "cursor"), access_did, jwt }
    }
}

/// What the target of a request reads as.
pub enum Target {
    /// The path and the decoded query parameters of the request.
    Parts { path: String, pairs: Vec<(String, String)> },
    /// The target is no address, with the reason.
    Refused(String),
    /// The address that targets are read against could not be had, or the
    /// address of the request could not be taken apart; with the reason.
    Failed(String),
}

/// What a target reads as, in texts.
pub enum TargetView {
    Parts { path: Seq<char>, pairs: Seq<(Seq<char>, Seq<char>)> },
    Refused(Seq<char>),
    Failed(Seq<char>),
}

impl View for Target {
    type V = TargetView;

    open spec fn view(&self) -> TargetView {
        match *self {
            Target::Parts { path, pairs } => TargetView::Parts { path: path@, pairs: pairs.deep_view() },
            Target::Refused(e) => TargetView::Refused(e@),
            Target::Failed(e) => TargetView::Failed(e@),
        }
    }
}

/// What the target of a request reads as: the target is taken against the
/// address `http://localhost`, and the path and the query parameters of the
/// address that comes of it are the parts of the request.
pub open spec fn target_view(target: Seq<char>) -> TargetView {
    match url_parsed("http://localhost"@) {
        Err(e) => TargetView::Failed(e),
        Ok(base) => match url_joined(base, target) {
            Err(e) => TargetView::Refused(e),
            Ok(address) => match url_path_of(address) {
                Err(e) => TargetView::Failed(e),
                Ok(path) => match url_query_of(address) {
                    Err(e) => TargetView::Failed(e),
                    Ok(pairs) => TargetView::Parts { path, pairs },
                },
            },
        },
    }
}

/// Reads the target of a request.
pub fn read_target(target: &str) -> (r: Target)
    ensures
        r@ == target_view(target@),
{
    let base = match url_parse("http://localhost") {
        Ok(b) => b,
        Err(e) => return Target::Failed(e),
    };
    let address = match url_join(base.as_str(), target) {
        Ok(a) => a,
        Err(e) => return Target::Refused(e),
    };
    let path = match url_path(address.as_str()) {
        Ok(p) => p,
        Err(e) => return Target::Failed(e),
    };
    match url_query(address.as_str()) {
        Ok(pairs) => Target::Parts { path, pairs },
        Err(e) => Target::Failed(e),
    }
}

/// What the generator answers to a request.
pub enum Reply {
    /// Nothing is there: status 404.
    NotFound,
    /// The target of the request cannot be read: status 400, with the reason.
    BadRequest(String),
    /// The generator could not take the request apart: status 500, with the
    /// reason.
    Failed(String),
    /// The DID document of the generator.
    DidDocument(DidDocument),
    /// The description of the generator and its feeds.
    Describe(AppBskyFeedDescribefeedgenerator),
    /// A page of a feed, as the algorithm made it.
    Skeleton(AppBskyFeedGetfeedskeleton),
}

/// What a request asks the generator to do, before any algorithm is asked.
pub enum Plan {
    /// Nothing is there.
    NotFound,
    /// The target of the request cannot be read, with the reason.
    BadRequest(String),
    /// The generator could not take the request apart, with the reason.
    Failed(String),
    /// Answer with the DID document of the generator.
    DidDocument(DidDocument),
    /// Answer with the description of the generator and its feeds.
    Describe,
    /// Ask the algorithm at `index` for a page, handing it `request`.
    Page { index: usize, request: PageRequest },
}

/// Feed generator
pub struct FeedGenerator {
    pub threads: usize,
    pub hostname: String,
    pub subscription: Option<Box<dyn Subscription>>,
    /// The algorithms that the generator offers.
    pub algorithms: Vec<Box<dyn Algorithm>>,
    /// For each algorithm, the publisher and the name that it gave when it
    /// was added.
    pub keys: Vec<(String, String)>,
}

/// The keys of `s` other than `(publisher, name)`.
pub open spec fn other_keys(
    s: Seq<(Seq<char>, Seq<char>)>,
    publisher: Seq<char>,
    name: Seq<char>,
) -> Seq<(Seq<char>, Seq<char>)>
    decreases s.len(),
{
    if s.len() == 0 {
        Seq::empty()
    } else if s.last() == (publisher, name) {
        other_keys(s.drop_last(), publisher, name)
    } else {
        other_keys(s.drop_last(), publisher, name).push(s.last())
    }
}

/// The algorithms of `s` whose keys, given by `keys` at the same positions,
/// are not `(publisher, name)`.
pub open spec fn others(
    s: Seq<Box<dyn Algorithm>>,
    keys: Seq<(Seq<char>, Seq<char>)>,
    publisher: Seq<char>,
    name: Seq<char>,
) -> Seq<Box<dyn Algorithm>>
    decreases s.len(),
{
    if s.len() == 0 {
        Seq::empty()
    } else if keys[s.len() - 1] == (publisher, name) {
        others(s.drop_last(), keys, publisher, name)
    } else {
        others(s.drop_last(), keys, publisher, name).push(s.last())
    }
}

/// Position of the first key `(publisher, name)` among the first `n`, or -1.
pub open spec fn algorithm_index(
    s: Seq<(Seq<char>, Seq<char>)>,
    publisher: Seq<char>,
    name: Seq<char>,
    n: int,
) -> int
    decreases n,
{
    if n <= 0 || n > s.len() {
        -1
    } else if algorithm_index(s, publisher, name, n - 1) >= 0 {
        algorithm_index(s, publisher, name, n - 1)
    } else if s[n - 1] == (publisher, name) {
        n - 1
    } else {
        -1
    }
}

proof fn lemma_algorithm_index_stable(
    s: Seq<(Seq<char>, Seq<char>)>,
    publisher: Seq<char>,
    name: Seq<char>,
    i: int,
    n: int,
)
    requires
        0 <= i <= n <= s.len(),
        algorithm_index(s, publisher, name, i) >= 0,
    ensures
        algorithm_index(s, publisher, name, n) == algorithm_index(s, publisher, name, i),
    decreases n - i,
{
    if i < n {
        lemma_algorithm_index_stable(s, publisher, name, i, n - 1);
    }
}

/// The commits among the first `n` events, in order.
pub open spec fn commits_of(events: Seq<Event>, n: int) -> Seq<ComAtprotoSyncSubscribereposCommit>
    decreases n,
{
    if n <= 0 || n > events.len() {
        Seq::empty()
    } else {
        match events[n - 1].payload {
            ComAtprotoSyncSubscribereposMainMessage::ComAtprotoSyncSubscribereposCommit(c) => commits_of(
                events,
                n - 1,
            ).push(c),
            _ => commits_of(events, n - 1),
        }
    }
}

/// Picks the commits out of a batch of events.
pub fn collect_commits(events: Vec<Event>) -> (r: Vec<ComAtprotoSyncSubscribereposCommit>)
    ensures
        r@ == commits_of(events@, events@.len() as int),
{
    let mut out: Vec<ComAtprotoSyncSubscribereposCommit> = Vec::new();
    let ghost all = events@;
    let mut rest = events;
    let ghost mut taken: int = 0;
    while rest.len() > 0
        invariant
            0 <= taken,
            taken + rest.len() == all.len(),
            rest@ == all.skip(taken),
            out@ == commits_of(all, taken),
        decreases rest.len(),
    {
        let e = rest.remove(0);
        assert(e == all[taken]);
        assert(rest@ =~= all.skip(taken + 1));
        match e.payload {
            ComAtprotoSyncSubscribereposMainMessage::ComAtprotoSyncSubscribereposCommit(c) => {
                out.push(c);
            },
            _ => {},
        }
        proof {
            taken = taken + 1;
        }
    }
    out
}

impl FeedGenerator {
    /// Every algorithm has its key: the two lists are of one length.
    pub open spec fn wf(&self) -> bool {
        self.keys.len() == self.algorithms.len()
    }

    /// The algorithms that the generator offers, in the order in which they
    /// were added.
    pub open spec fn offered(&self) -> Seq<Box<dyn Algorithm>> {
        self.algorithms@
    }

    /// For each algorithm offered, the publisher and the name under which it
    /// was added.
    pub open spec fn offered_keys(&self) -> Seq<(Seq<char>, Seq<char>)> {
        self.keys.deep_view()
    }

    /// Create new feed generator
    pub fn new(hostname: &str, threads: usize) -> (r: FeedGenerator)
        ensures
            r.wf(),
            r.threads == threads,
            r.hostname@ == hostname@,
            r.offered().len() == 0,
            r.offered_keys().len() == 0,
            r.subscription is None,
    {
        FeedGenerator {
            threads,
            hostname: hostname.to_string(),
            subscription: None,
            algorithms: Vec::new(),
            keys: Vec::new(),
        }
    }

    /// The number of algorithms that the generator offers.
    pub fn len(&self) -> (r: usize)
        ensures
            r == self.offered().len(),
    {
        self.algorithms.len()
    }

    /// Whether every algorithm has its key.
    pub fn is_wf(&self) -> (r: bool)
        ensures
            r == self.wf(),
    {
        self.keys.len() == self.algorithms.len()
    }

    /// The DID of the service.
    pub fn get_service_did(&self) -> (r: String)
        ensures
            r@ == "did:web:"@ + self.hostname@,
    {
        joined("did:web:", self.hostname.as_str())
    }

    /// Removes every algorithm that was added under `publisher` and `name`,
    /// and its key.
    pub fn remove_named(&mut self, publisher: &str, name: &str)
        requires
            old(self).wf(),
        ensures
            final(self).wf(),
            final(self).threads == old(self).threads,
            final(self).hostname == old(self).hostname,
            final(self).subscription == old(self).subscription,
            final(self).offered_keys() == other_keys(old(self).offered_keys(), publisher@, name@),
            final(self).offered() == others(
                old(self).offered(),
                old(self).offered_keys(),
                publisher@,
                name@,
            ),
    {
        let ghost all = self.algorithms@;
        let ghost all_keys = self.keys.deep_view();
        let mut kept: Vec<Box<dyn Algorithm>> = Vec::new();
        let mut kept_keys: Vec<(String, String)> = Vec::new();
        let ghost mut taken: int = 0;
        assert(all.take(0) =~= Seq::empty());
        assert(all_keys.take(0) =~= Seq::empty());
        assert(kept_keys.deep_view() =~= Seq::empty());
        assert(self.algorithms@ =~= all.skip(0));
        assert(self.keys.deep_view() =~= all_keys.skip(0));
        while self.keys.len() > 0
            invariant
                0 <= taken,
                all.len() == all_keys.len(),
                self.keys.len() == self.algorithms.len(),
                taken + self.keys.len() == all_keys.len(),
                self.keys.deep_view() == all_keys.skip(taken),
                self.algorithms@ == all.skip(taken),
                kept.len() == kept_keys.len(),
                kept_keys.deep_view() == other_keys(all_keys.take(taken), publisher@, name@),
                kept@ == others(all.take(taken), all_keys, publisher@, name@),
                self.threads == old(self).threads,
                self.hostname == old(self).hostname,
                self.subscription == old(self).subscription,
            decreases self.keys.len(),
        {
            let ghost rest_keys = self.keys.deep_view();
            let ghost rest_raw = self.keys@;
            let k = self.keys.remove(0);
            let a = self.algorithms.remove(0);
            proof {
                assert forall|j: int| 0 <= j < self.keys.len() implies self.keys.deep_view()[j]
                    == rest_keys[j + 1] by {
                    assert(self.keys@[j] == rest_raw[j + 1]);
                }
                assert(rest_keys[0] == (k.0@, k.1@));
                assert((k.0@, k.1@) == all_keys[taken]);
                assert(self.keys.deep_view() =~= all_keys.skip(taken + 1));
                assert(all_keys.take(taken + 1).drop_last() =~= all_keys.take(taken));
                assert(all_keys.take(taken + 1).last() == all_keys[taken]);
                assert(a == all[taken]);
                assert(self.algorithms@ =~= all.skip(taken + 1));
                assert(all.take(taken + 1).drop_last() =~= all.take(taken));
                assert(all.take(taken + 1).last() == a);
            }
            let same = str_eq(k.0.as_str(), publisher) && str_eq(k.1.as_str(), name);
            if !same {
                let ghost before = kept_keys.deep_view();
                let ghost before_kept = kept@;
                kept.push(a);
                kept_keys.push(k);
                proof {
                    vstd::seq::axiom_seq_push_len(before_kept, a);
                    assert(kept_keys.deep_view() =~= before.push((k.0@, k.1@)));
                }
            }
            proof {
                taken = taken + 1;
            }
        }
        assert(all_keys.take(taken) =~= all_keys);
        assert(all.take(taken) =~= all);
        self.algorithms = kept;
        self.keys = kept_keys;
    }

    /// Remove custom feed from feed generator: every algorithm goes that was
    /// added under the publisher and the name that `algorithm` gives, with its
    /// key.
    pub fn remove_algorithm(&mut self, algorithm: &dyn Algorithm)
        requires
            old(self).wf(),
        ensures
            final(self).wf(),
            final(self).threads == old(self).threads,
            final(self).hostname == old(self).hostname,
            final(self).subscription == old(self).subscription,
            exists|publisher: Seq<char>, name: Seq<char>|
                final(self).offered_keys() == #[trigger] other_keys(
                    old(self).offered_keys(),
                    publisher,
                    name,
                ) && final(self).offered() == others(
                    old(self).offered(),
                    old(self).offered_keys(),
                    publisher,
                    name,
                ),
    {
        let publisher = algorithm.get_publisher();
        let name = algorithm.get_name();
        self.remove_named(publisher.as_str(), name.as_str());
        assert(self.offered_keys() == other_keys(old(self).offered_keys(), publisher@, name@));
    }

    /// Add custom feed from feed generator, under the publisher and the name
    /// that it gives, in place of any algorithm added under the same: the new
    /// algorithm and its key come last.
    pub fn add_algorithm(&mut self, algorithm: Box<dyn Algorithm>)
        requires
            old(self).wf(),
        ensures
            final(self).wf(),
            final(self).threads == old(self).threads,
            final(self).hostname == old(self).hostname,
            final(self).subscription == old(self).subscription,
            exists|publisher: Seq<char>, name: Seq<char>|
                final(self).offered_keys() == (#[trigger] other_keys(
                    old(self).offered_keys(),
                    publisher,
                    name,
                )).push((publisher, name)) && final(self).offered() == others(
                    old(self).offered(),
                    old(self).offered_keys(),
                    publisher,
                    name,
                ).push(algorithm),
    {
        let publisher = algorithm.get_publisher();
        let name = algorithm.get_name();
        self.remove_named(publisher.as_str(), name.as_str());
        let ghost before = self.keys.deep_view();
        let ghost before_offered = self.algorithms@;
        self.algorithms.push(algorithm);
        self.keys.push((publisher, name));
        proof {
            vstd::seq::axiom_seq_push_len(before_offered, algorithm);
            assert(self.keys.deep_view() =~= before.push((publisher@, name@)));
            assert(self.offered_keys() == other_keys(old(self).offered_keys(), publisher@, name@).push(
                (publisher@, name@),
            ));
        }
    }

    /// Add collector for PDS commits
    pub fn set_subscription(&mut self, subscription: Box<dyn Subscription>)
        ensures
            final(self).wf() == old(self).wf(),
            final(self).threads == old(self).threads,
            final(self).hostname == old(self).hostname,
            final(self).offered() == old(self).offered(),
            final(self).offered_keys() == old(self).offered_keys(),
            final(self).subscription is Some,
    {
        self.subscription = Some(subscription);
    }

    /// Finds the algorithm that was added under `publisher` and `name`.
    pub fn find_algorithm(&self, publisher: &str, name: &str) -> (r: Option<usize>)
        ensures
            match r {
                Some(i) => i < self.offered_keys().len() && algorithm_index(
                    self.offered_keys(),
                    publisher@,
                    name@,
                    self.offered_keys().len() as int,
                ) == i,
                None => algorithm_index(
                    self.offered_keys(),
                    publisher@,
                    name@,
                    self.offered_keys().len() as int,
                ) < 0,
            },
    {
        let ghost all = self.keys.deep_view();
        let mut i: usize = 0;
        while i < self.keys.len()
            invariant
                i <= self.keys.len(),
                all == self.keys.deep_view(),
                algorithm_index(all, publisher@, name@, i as int) < 0,
            decreases self.keys.len() - i,
        {
            proof {
                assert(all[i as int] == (self.keys[i as int].0@, self.keys[i as int].1@));
            }
            if str_eq(self.keys[i].0.as_str(), publisher) && str_eq(self.keys[i].1.as_str(), name) {
                proof {
                    assert(algorithm_index(all, publisher@, name@, i + 1) == i);
                    lemma_algorithm_index_stable(all, publisher@, name@, i + 1, all.len() as int);
                }
                return Some(i);
            }
            i += 1;
        }
        None
    }

    /// What the generator says of itself: its DID and, for every algorithm
    /// it offers, the feed as the algorithm describes it, which is the address
    /// of a feed generator record.
    pub fn describe(&self) -> (r: AppBskyFeedDescribefeedgenerator)
        ensures
            r.did@ == "did:web:"@ + self.hostname@,
            r.links is None,
            r.feeds.len() == self.offered().len(),
            forall|i: int| 0 <= i < r.feeds.len() ==> is_feed_uri((#[trigger] r.feeds[i]).uri@),
    {
        let mut feeds: Vec<AppBskyFeedDescribefeedgeneratorFeed> = Vec::new();
        let mut i: usize = 0;
        while i < self.algorithms.len()
            invariant
                i <= self.algorithms.len(),
                feeds.len() == i,
                forall|k: int| 0 <= k < feeds.len() ==> is_feed_uri((#[trigger] feeds[k]).uri@),
            decreases self.algorithms.len() - i,
        {
            let feed = self.algorithms[i].to_feed();
            let ghost before = feeds@;
            feeds.push(feed);
            assert forall|k: int| 0 <= k < feeds.len() implies is_feed_uri(
                (#[trigger] feeds[k]).uri@,
            ) by {
                if k < before.len() {
                    assert(feeds[k] == before[k]);
                } else {
                    assert(feeds[k] == feed);
                }
            }
            i += 1;
        }
        AppBskyFeedDescribefeedgenerator { did: self.get_service_did(), feeds, links: None }
    }

    /// The algorithm that a request for a page asks for, by the `feed`
    /// parameter of the request: its position, or -1 where the generator
    /// offers no such feed.
    pub open spec fn asked(&self, pairs: Seq<(Seq<char>, Seq<char>)>) -> int {
        let feed = match query_value(pairs, "feed"@, pairs.len() as int) {
            Some(f) => f,
            None => Seq::empty(),
        };
        match feed_key(feed) {
            Some((publisher, name)) => algorithm_index(
                self.offered_keys(),
                publisher,
                name,
                self.offered_keys().len() as int,
            ),
            None => -1,
        }
    }

    /// Tells what a request asks for, from its target and its authorization
    /// header: which fixed answer to give, or which algorithm to ask for a page
    /// and what to hand to it.
    pub fn plan(&self, target: &str, authorization: Option<&str>) -> (r: Plan)
        ensures
            match target_view(target@) {
                TargetView::Refused(e) => r matches Plan::BadRequest(m) && m@ == e,
                TargetView::Failed(e) => r matches Plan::Failed(m) && m@ == e,
                TargetView::Parts { path, pairs } => match route_of(path) {
                    Route::DidJson => r matches Plan::DidDocument(d) && DidDocument::is_for(
                        d,
                        self.hostname@,
                    ),
                    Route::Describe => r is Describe,
                    Route::Skeleton => if self.asked(pairs) >= 0 {
                        r matches Plan::Page { index, request } && index == self.asked(pairs) && index
                            < self.offered_keys().len() && request.is_for(
                            pairs,
                            match authorization {
                                Some(t) => Some(t@),
                                None => None,
                            },
                        )
                    } else {
                        r is NotFound
                    },
                    Route::Unknown => r is NotFound,
                },
            },
    {
        let (path, pairs) = match read_target(target) {
            Target::Parts { path, pairs } => (path, pairs),
            Target::Refused(e) => return Plan::BadRequest(e),
            Target::Failed(e) => return Plan::Failed(e),
        };
        match route(path.as_str()) {
            Route::DidJson => Plan::DidDocument(DidDocument::new(self.hostname.as_str())),
            Route::Describe => Plan::Describe,
            Route::Skeleton => {
                let feed = match query_get(&pairs, "feed") {
                    Some(f) => f,
                    None => String::new(),
                };
                let (publisher, name) = match parse_feed(feed.as_str()) {
                    Some(k) => k,
                    None => return Plan::NotFound,
                };
                match self.find_algorithm(publisher.as_str(), name.as_str()) {
                    Some(index) => Plan::Page { index, request: PageRequest::new(&pairs, authorization) },
                    None => Plan::NotFound,
                }
            },
            Route::Unknown => Plan::NotFound,
        }
    }

    /// Answers a request with the given target and authorization header, as
    /// `plan` tells: the page of a feed is what the planned algorithm makes of
    /// the planned request, and the feeds of a description are what the
    /// algorithms say; everything else is fixed by the request and the
    /// generator.
    pub fn handle(&self, target: &str, authorization: Option<&str>) -> (r: Reply)
        requires
            self.wf(),
        ensures
            match target_view(target@) {
                TargetView::Refused(e) => r matches Reply::BadRequest(m) && m@ == e,
                TargetView::Failed(e) => r matches Reply::Failed(m) && m@ == e,
                TargetView::Parts { path, pairs } => match route_of(path) {
                    Route::DidJson => r matches Reply::DidDocument(d) && DidDocument::is_for(
                        d,
                        self.hostname@,
                    ),
                    Route::Describe => r matches Reply::Describe(d) && d.did@ == "did:web:"@
                        + self.hostname@ && d.links is None && d.feeds.len() == self.offered().len()
                        && forall|i: int|
                        0 <= i < d.feeds.len() ==> is_feed_uri((#[trigger] d.feeds[i]).uri@),
                    Route::Skeleton => if self.asked(pairs) >= 0 {
                        r is Skeleton
                    } else {
                        r is NotFound
                    },
                    Route::Unknown => r is NotFound,
                },
            },
    {
        match self.plan(target, authorization) {
            Plan::NotFound => Reply::NotFound,
            Plan::BadRequest(reason) => Reply::BadRequest(reason),
            Plan::Failed(reason) => Reply::Failed(reason),
            Plan::DidDocument(d) => Reply::DidDocument(d),
            Plan::Describe => Reply::Describe(self.describe()),
            Plan::Page { index, request } => Reply::Skeleton(
                self.algorithms[index].handler(
                    request.limit,
                    request.cursor,
                    request.access_did,
                    request.jwt,
                ),
            ),
        }
    }

    /// Hands the commits of a batch of events to the collector, if there is
    /// one.
    pub fn ingest(&mut self, events: Vec<Event>)
        ensures
            final(self).wf() == old(self).wf(),
            final(self).threads == old(self).threads,
            final(self).hostname == old(self).hostname,
            final(self).offered() == old(self).offered(),
            final(self).offered_keys() == old(self).offered_keys(),
            final(self).subscription is Some == old(self).subscription is Some,
    {
        let commits = collect_commits(events);
        match &mut self.subscription {
            Some(s) => {
                s.handler(commits);
            },
            None => {},
        }
    }
}

} // verus!
