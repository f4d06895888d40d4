//! Records and messages of the protocol, as plain data.
use crate::blocks::Blocks;
use crate::cid::{cid_text_value, Cid};
use crate::ipld::{link_text, Datum};
use crate::text::str_eq;
use crate::time::Timestamp;
use std::collections::HashMap;
use vstd::prelude::*;

verus! {

/// One operation of a commit on a record of the repository.
#[derive(Debug, Clone, PartialEq, Eq)]
pub struct ComAtprotoSyncSubscribereposRepoop {
    /// `create`, `update` or `delete`.
    pub action: String,
    /// Collection and record key, joined by a slash.
    pub path: String,
    /// Text of the record's identifier; empty where the operation has none.
    pub cid: String,
}

/// A commit to a repository.
#[derive(Debug, Clone, PartialEq, Eq)]
pub struct ComAtprotoSyncSubscribereposCommit {
    pub seq: i64,
    pub rebase: bool,
    pub too_big: bool,
    pub repo: String,
    pub commit: String,
    pub rev: String,
    pub since: String,
    /// The archive of blocks that the commit carries.
    pub blocks: Vec<u8>,
    pub ops: Vec<ComAtprotoSyncSubscribereposRepoop>,
    /// One download address for each binary attachment.
    pub blobs: Vec<String>,
    pub time: Timestamp,
    pub prev: Option<String>,
}

/// A change of an account's identity.
#[derive(Debug, Clone, PartialEq, Eq)]
pub struct ComAtprotoSyncSubscribereposIdentity {
    pub seq: i64,
    pub did: String,
    pub time: Timestamp,
}

/// A change of an account's handle.
#[derive(Debug, Clone, PartialEq, Eq)]
pub struct ComAtprotoSyncSubscribereposHandle {
    pub seq: i64,
    pub did: String,
    pub handle: String,
    pub time: Timestamp,
}

/// A move of a repository to another server.
#[derive(Debug, Clone, PartialEq, Eq)]
pub struct ComAtprotoSyncSubscribereposMigrate {
    pub seq: i64,
    pub did: String,
    pub migrate_to: String,
    pub time: Timestamp,
}

/// The removal of a repository.
#[derive(Debug, Clone, PartialEq, Eq)]
pub struct ComAtprotoSyncSubscribereposTombstone {
    pub seq: i64,
    pub did: String,
    pub time: Timestamp,
}

/// A notice from the relay about the stream itself.
#[derive(Debug, Clone, PartialEq, Eq)]
pub struct ComAtprotoSyncSubscribereposInfo {
    pub name: String,
    pub message: Option<String>,
}

/// The payload of one message of the stream.
#[derive(Debug, Clone, PartialEq, Eq)]
pub enum ComAtprotoSyncSubscribereposMainMessage {
    ComAtprotoSyncSubscribereposCommit(ComAtprotoSyncSubscribereposCommit),
    ComAtprotoSyncSubscribereposIdentity(ComAtprotoSyncSubscribereposIdentity),
    ComAtprotoSyncSubscribereposHandle(ComAtprotoSyncSubscribereposHandle),
    ComAtprotoSyncSubscribereposMigrate(ComAtprotoSyncSubscribereposMigrate),
    ComAtprotoSyncSubscribereposTombstone(ComAtprotoSyncSubscribereposTombstone),
    ComAtprotoSyncSubscribereposInfo(ComAtprotoSyncSubscribereposInfo),
    Other,
}

/// A post: what the filters and the feed store read of it, and the JSON text
/// of the whole record for whoever needs the rest.
#[derive(Debug, Clone, PartialEq, Eq)]
pub struct AppBskyFeedPost {
    pub text: String,
    pub created_at: Timestamp,
    pub langs: Option<Vec<String>>,
    pub tags: Option<Vec<String>>,
    pub json: String,
}

/// The mathematical value of an [`AppBskyFeedPost`].
pub struct PostView {
    pub text: Seq<char>,
    pub created_at: Timestamp,
    pub langs: Option<Seq<Seq<char>>>,
    pub tags: Option<Seq<Seq<char>>>,
    pub json: Seq<char>,
}

impl DeepView for AppBskyFeedPost {
    type V = PostView;

    open spec fn deep_view(&self) -> PostView {
        PostView {
            text: self.text@,
            created_at: self.created_at,
            langs: self.langs.deep_view(),
            tags: self.tags.deep_view(),
            json: self.json@,
        }
    }
}

impl DeepView for AppBskyFeedDefsSkeletonfeedpost {
    type V = Seq<char>;

    open spec fn deep_view(&self) -> Seq<char> {
        self.post@
    }
}

/// One entry of a feed skeleton: the address of a post.
#[derive(Debug, Clone, PartialEq, Eq)]
pub struct AppBskyFeedDefsSkeletonfeedpost {
    pub post: String,
}

/// A page of a feed: addresses of posts, and where the next page starts if
/// there is one.
#[derive(Debug, Clone, PartialEq, Eq)]
pub struct AppBskyFeedGetfeedskeleton {
    pub feed: Vec<AppBskyFeedDefsSkeletonfeedpost>,
    pub cursor: Option<String>,
}

/// One feed that a generator offers.
#[derive(Debug, Clone, PartialEq, Eq)]
pub struct AppBskyFeedDescribefeedgeneratorFeed {
    pub uri: String,
}

/// Links to a generator's policies.
#[derive(Debug, Clone, PartialEq, Eq)]
pub struct AppBskyFeedDescribefeedgeneratorLinks {
    pub privacy_policy: Option<String>,
    pub terms_of_service: Option<String>,
}

/// What a generator says of itself.
#[derive(Debug, Clone, PartialEq, Eq)]
pub struct AppBskyFeedDescribefeedgenerator {
    pub did: String,
    pub feeds: Vec<AppBskyFeedDescribefeedgeneratorFeed>,
    pub links: Option<AppBskyFeedDescribefeedgeneratorLinks>,
}

/// The purpose of a list, by its name.
#[derive(Debug, Clone, PartialEq, Eq)]
pub struct AppBskyGraphDefsListpurpose(pub String);

/// The state of the review of a subject, by its name.
#[derive(Debug, Clone, PartialEq, Eq)]
pub struct ComAtprotoAdminDefsSubjectreviewstate(pub String);

/// The reason of a report, by its name.
#[derive(Debug, Clone, PartialEq, Eq)]
pub struct ComAtprotoModerationDefsReasontype(pub String);

/// A link to a block, by the text of its identifier.
#[derive(Debug, Clone, PartialEq, Eq)]
pub struct Link {
    pub link: String,
}

/// One entry of a node of a repository's tree.
#[derive(Debug, Clone, PartialEq, Eq)]
pub struct NodeEntry {
    pub p: i64,
    pub k: Vec<u8>,
    pub v: Link,
}

/// A node of a repository's tree.
#[derive(Debug, Clone, PartialEq, Eq)]
pub struct Node {
    pub l: Option<Link>,
    pub e: Vec<NodeEntry>,
}

/// The root of a repository at one revision.
#[derive(Debug, Clone, PartialEq, Eq)]
pub struct Commit {
    pub did: String,
    pub version: i64,
    pub prev: Option<Link>,
    pub data: Link,
    pub sig: Vec<u8>,
}

/// The text of an identifier.
#[derive(Debug, Clone, PartialEq, Eq)]
pub struct CidString(pub String);

/// A personal data server, as a DID document names it.
#[derive(Debug, Clone, PartialEq, Eq)]
pub struct AtProtoPds {
    pub pds_type: String,
    pub service_endpoint: String,
}

/// A service of a DID document.
#[derive(Debug, Clone, PartialEq, Eq)]
pub enum AtprotoService {
    AtprotoPds(AtProtoPds),
    Other,
}

/// A DID document.
#[derive(Debug, Clone, PartialEq, Eq)]
pub struct DidDoc {
    pub context: Vec<String>,
    pub id: String,
    pub also_known_as: Vec<String>,
    pub verification_method: Vec<HashMap<String, String>>,
    pub service: Vec<AtprotoService>,
}

/// A binary attachment.
#[derive(Debug, Clone, PartialEq, Eq)]
pub struct Blob {
    pub blob_type: Option<String>,
    pub blob_ref: Option<Link>,
    pub mime_type: String,
    pub size: Option<i64>,
    pub cid: Option<String>,
}

/// What `app.bsky.notification.getUnreadCount` answers.
#[derive(Debug, Clone, PartialEq, Eq)]
pub struct AppBskyNotificationGetunreadcount {
    pub count: i64,
}

/// What `com.atproto.identity.resolveHandle` answers.
#[derive(Debug, Clone, PartialEq, Eq)]
pub struct ComAtprotoIdentityResolvehandle {
    pub did: String,
}

/// What `com.atproto.repo.describeRepo` answers.
#[derive(Debug, Clone, PartialEq, Eq)]
pub struct ComAtprotoRepoDescriberepo {
    pub handle: String,
    pub did: String,
    pub did_doc: DidDoc,
    pub collections: Vec<String>,
    pub handle_is_correct: bool,
}

/// What `com.atproto.server.checkAccountStatus` answers.
#[derive(Debug, Clone, PartialEq, Eq)]
pub struct ComAtprotoServerCheckaccountstatus {
    pub activated: bool,
    pub valid_did: bool,
    pub repo_commit: CidString,
    pub repo_rev: String,
    pub repo_blocks: i64,
    pub indexed_records: i64,
    pub private_state_values: i64,
    pub expected_blobs: i64,
    pub imported_blobs: i64,
}

/// What `com.atproto.server.getServiceAuth` answers.
#[derive(Debug, Clone, PartialEq, Eq)]
pub struct ComAtprotoServerGetserviceauth {
    pub token: String,
}

/// What `com.atproto.server.getSession` answers.
#[derive(Debug, Clone, PartialEq, Eq)]
pub struct ComAtprotoServerGetsession {
    pub handle: String,
    pub did: String,
    pub email: Option<String>,
    pub email_confirmed: Option<bool>,
    pub did_doc: Option<DidDoc>,
}

/// What `com.atproto.sync.getHead` answers.
#[derive(Debug, Clone, PartialEq, Eq)]
pub struct ComAtprotoSyncGethead {
    pub root: CidString,
}

/// What `com.atproto.sync.getLatestCommit` answers.
#[derive(Debug, Clone, PartialEq, Eq)]
pub struct ComAtprotoSyncGetlatestcommit {
    pub cid: CidString,
    pub rev: String,
}

/// What `com.atproto.sync.listBlobs` answers.
#[derive(Debug, Clone, PartialEq, Eq)]
pub struct ComAtprotoSyncListblobs {
    pub cids: Vec<CidString>,
    pub cursor: Option<String>,
}

/// What `com.atproto.temp.checkSignupQueue` answers.
#[derive(Debug, Clone, PartialEq, Eq)]
pub struct ComAtprotoTempChecksignupqueue {
    pub activated: bool,
    pub place_in_queue: Option<i64>,
    pub estimated_time_ms: Option<i64>,
}

/// What `com.atproto.admin.sendEmail` answers.
#[derive(Debug, Clone, PartialEq, Eq)]
pub struct ComAtprotoAdminSendemail {
    pub sent: bool,
}

/// What `com.atproto.repo.createRecord` answers.
#[derive(Debug, Clone, PartialEq, Eq)]
pub struct ComAtprotoRepoCreaterecord {
    pub uri: String,
    pub cid: CidString,
}

/// What `com.atproto.repo.putRecord` answers.
#[derive(Debug, Clone, PartialEq, Eq)]
pub struct ComAtprotoRepoPutrecord {
    pub uri: String,
    pub cid: CidString,
}

/// What `com.atproto.repo.uploadBlob` answers.
#[derive(Debug, Clone, PartialEq, Eq)]
pub struct ComAtprotoRepoUploadblob {
    pub blob: Blob,
}

/// What `com.atproto.server.createAccount` answers.
#[derive(Debug, Clone, PartialEq, Eq)]
pub struct ComAtprotoServerCreateaccount {
    pub access_jwt: String,
    pub refresh_jwt: String,
    pub handle: String,
    pub did: String,
    pub did_doc: Option<DidDoc>,
}

/// What `com.atproto.server.createInviteCode` answers.
#[derive(Debug, Clone, PartialEq, Eq)]
pub struct ComAtprotoServerCreateinvitecode {
    pub code: String,
}

/// What `com.atproto.server.createSession` answers.
#[derive(Debug, Clone, PartialEq, Eq)]
pub struct ComAtprotoServerCreatesession {
    pub access_jwt: String,
    pub refresh_jwt: String,
    pub handle: String,
    pub did: String,
    pub did_doc: Option<DidDoc>,
    pub email: Option<String>,
    pub email_confirmed: Option<bool>,
}

/// What `com.atproto.server.refreshSession` answers.
#[derive(Debug, Clone, PartialEq, Eq)]
pub struct ComAtprotoServerRefreshsession {
    pub access_jwt: String,
    pub refresh_jwt: String,
    pub handle: String,
    pub did: String,
    pub did_doc: Option<DidDoc>,
}

/// What `com.atproto.server.requestEmailUpdate` answers.
#[derive(Debug, Clone, PartialEq, Eq)]
pub struct ComAtprotoServerRequestemailupdate {
    pub token_required: bool,
}

/// What `com.atproto.server.reserveSigningKey` answers.
#[derive(Debug, Clone, PartialEq, Eq)]
pub struct ComAtprotoServerReservesigningkey {
    pub signing_key: String,
}

impl Blob {
    /// A blob of no type yet: `blob`, an empty link, size 0.
    pub fn default() -> (r: Blob)
        ensures
            r.blob_type.deep_view() == Some("blob"@),
            r.blob_ref matches Some(l) && l.link@.len() == 0,
            r.mime_type@.len() == 0,
            r.size == Some(0i64),
            r.cid is None,
    {
        Blob {
            blob_type: Some("blob".to_string()),
            blob_ref: Some(Link { link: String::new() }),
            mime_type: String::new(),
            size: Some(0),
            cid: None,
        }
    }
}

impl CidString {
    /// The identifier that the text writes.
    pub fn to_cid(&self) -> (r: Option<Cid>)
        ensures
            match r {
                Some(c) => cid_text_value(self.0@) == Some(c@) && c@.wf(),
                None => cid_text_value(self.0@) is None,
            },
    {
        Cid::from_str(self.0.as_str())
    }

    /// The text itself.
    pub fn to_string(&self) -> (r: String)
        ensures
            r@ == self.0@,
    {
        self.0.clone()
    }
}

/// The link that `v` holds under `key`: absent where the key is missing or
/// null, invalid where anything else than a link stands there.
pub open spec fn optional_link(v: Datum, key: Seq<char>) -> Option<Option<Seq<char>>> {
    match v.field(key) {
        None => Some(None),
        Some(Datum::Null) => Some(None),
        Some(Datum::Link(c)) => Some(Some(link_text(c))),
        _ => None,
    }
}

/// The bytes that `v` holds under `key`.
pub open spec fn bytes_field(v: Datum, key: Seq<char>) -> Option<Seq<u8>> {
    match v.field(key) {
        Some(Datum::Bytes(b)) => Some(b@),
        _ => None,
    }
}

/// `v` has what the root of a repository needs: a text `did`, an integer
/// `version`, a link `data`, bytes `sig`, and nothing but a link under `prev`.
pub open spec fn root_ok(v: Datum) -> bool {
    &&& v.text_field("did"@) is Some
    &&& v.int_field("version"@) is Some
    &&& optional_link(v, "prev"@) is Some
    &&& optional_link(v, "data"@) matches Some(Some(_))
    &&& bytes_field(v, "sig"@) is Some
}

/// `c` is the root that `v` holds.
pub open spec fn root_is(v: Datum, c: Commit) -> bool {
    &&& v.text_field("did"@) == Some(c.did@)
    &&& v.int_field("version"@) == Some(c.version)
    &&& optional_link(v, "prev"@) == Some(link_view(c.prev))
    &&& optional_link(v, "data"@) == Some(Some(c.data.link@))
    &&& bytes_field(v, "sig"@) == Some(c.sig@)
}

/// The text of an optional link.
pub open spec fn link_view(l: Option<Link>) -> Option<Seq<char>> {
    match l {
        Some(x) => Some(x.link@),
        None => None,
    }
}

/// `v` has what an entry of a node needs: an integer `p`, bytes `k` and a
/// link `v`.
pub open spec fn entry_ok(v: Datum) -> bool {
    &&& v.int_field("p"@) is Some
    &&& bytes_field(v, "k"@) is Some
    &&& optional_link(v, "v"@) matches Some(Some(_))
}

/// `e` is the entry that `v` holds.
pub open spec fn entry_is(v: Datum, e: NodeEntry) -> bool {
    &&& v.int_field("p"@) == Some(e.p)
    &&& bytes_field(v, "k"@) == Some(e.k@)
    &&& optional_link(v, "v"@) == Some(Some(e.v.link@))
}

/// The list that `v` holds under `key`.
pub open spec fn items_field(v: Datum, key: Seq<char>) -> Option<Seq<Datum>> {
    match v.field(key) {
        Some(Datum::List(l)) => Some(l@),
        _ => None,
    }
}

/// `v` has what a node needs: a list `e` of entries, and nothing but a link
/// under `l`.
pub open spec fn node_ok(v: Datum) -> bool {
    &&& optional_link(v, "l"@) is Some
    &&& items_field(v, "e"@) matches Some(es) && forall|i: int|
        0 <= i < es.len() ==> entry_ok(#[trigger] es[i])
}

/// `n` is the node that `v` holds.
pub open spec fn node_is(v: Datum, n: Node) -> bool {
    &&& optional_link(v, "l"@) == Some(link_view(n.l))
    &&& items_field(v, "e"@) matches Some(es) && n.e.len() == es.len() && forall|i: int|
        0 <= i < es.len() ==> entry_is(es[i], #[trigger] n.e[i])
}

/// Reads the link under `key`.
fn get_optional_link(v: &Datum, key: &str) -> (r: Option<Option<Link>>)
    ensures
        match r {
            Some(l) => optional_link(*v, key@) == Some(link_view(l)),
            None => optional_link(*v, key@) is None,
        },
{
    match v.get(key) {
        None => Some(None),
        Some(Datum::Null) => Some(None),
        Some(Datum::Link(c)) => Some(Some(Link { link: c.to_string() })),
        _ => None,
    }
}

/// Reads the bytes under `key`.
fn get_bytes(v: &Datum, key: &str) -> (r: Option<Vec<u8>>)
    ensures
        match r {
            Some(b) => bytes_field(*v, key@) == Some(b@),
            None => bytes_field(*v, key@) is None,
        },
{
    match v.get(key) {
        Some(Datum::Bytes(b)) => {
            let mut out: Vec<u8> = Vec::new();
            let mut i: usize = 0;
            while i < b.len()
                invariant
                    i <= b.len(),
                    out@ == b@.take(i as int),
                decreases b.len() - i,
            {
                out.push(b[i]);
                assert(b@.take(i + 1) =~= b@.take(i as int).push(b@[i as int]));
                i += 1;
            }
            assert(b@.take(i as int) =~= b@);
            Some(out)
        },
        _ => None,
    }
}

impl Commit {
    /// Reads the root of a repository out of a decoded block.
    pub fn from_value(v: &Datum) -> (r: Option<Commit>)
        ensures
            match r {
                Some(c) => root_ok(*v) && root_is(*v, c),
                None => !root_ok(*v),
            },
    {
        let did = match v.get_text("did") {
            Some(x) => x,
            None => return None,
        };
        let version = match v.get_int("version") {
            Some(x) => x,
            None => return None,
        };
        let prev = match get_optional_link(v, "prev") {
            Some(x) => x,
            None => return None,
        };
        let data = match get_optional_link(v, "data") {
            Some(Some(x)) => x,
            _ => return None,
        };
        let sig = match get_bytes(v, "sig") {
            Some(x) => x,
            None => return None,
        };
        Some(Commit { did, version, prev, data, sig })
    }
}

impl NodeEntry {
    /// Reads an entry of a node out of a decoded value.
    pub fn from_value(v: &Datum) -> (r: Option<NodeEntry>)
        ensures
            match r {
                Some(e) => entry_ok(*v) && entry_is(*v, e),
                None => !entry_ok(*v),
            },
    {
        let p = match v.get_int("p") {
            Some(x) => x,
            None => return None,
        };
        let k = match get_bytes(v, "k") {
            Some(x) => x,
            None => return None,
        };
        let link = match get_optional_link(v, "v") {
            Some(Some(x)) => x,
            _ => return None,
        };
        Some(NodeEntry { p, k, v: link })
    }
}

impl Node {
    /// Reads a node of a repository's tree out of a decoded block.
    pub fn from_value(v: &Datum) -> (r: Option<Node>)
        ensures
            match r {
                Some(n) => node_ok(*v) && node_is(*v, n),
                None => !node_ok(*v),
            },
    {
        let l = match get_optional_link(v, "l") {
            Some(x) => x,
            None => return None,
        };
        let items = match v.get("e") {
            Some(Datum::List(items)) => items,
            _ => return None,
        };
        let mut e: Vec<NodeEntry> = Vec::new();
        let mut i: usize = 0;
        while i < items.len()
            invariant
                i <= items.len(),
                e.len() == i,
                items_field(*v, "e"@) == Some(items@),
                forall|k: int| 0 <= k < i ==> entry_ok(#[trigger] items@[k]),
                forall|k: int| 0 <= k < i ==> entry_is(items@[k], #[trigger] e@[k]),
            decreases items.len() - i,
        {
            match NodeEntry::from_value(&items[i]) {
                Some(x) => e.push(x),
                None => {
                    proof {
                        let all = items_field(*v, "e"@).unwrap();
                        assert(!entry_ok(all[i as int]));
                        assert(!(forall|k: int| 0 <= k < all.len() ==> entry_ok(#[trigger] all[k])));
                    }
                    return None;
                },
            }
            i += 1;
        }
        Some(Node { l, e })
    }
}

/// The kinds of record that the library tells apart by their `$type`.
#[derive(Debug, Clone, Copy, PartialEq, Eq, Structural)]
pub enum RecordKind {
    ActorProfile,
    FeedGenerator,
    FeedLike,
    FeedPost,
    FeedRepost,
    FeedThreadgate,
    GraphBlock,
    GraphFollow,
    GraphList,
    GraphListblock,
    GraphListitem,
    /// A `$type` that the library does not know.
    Other,
}

/// The kind of record that a `$type` names; any name that is not known is
/// `Other`.
pub open spec fn record_kind_of(t: Seq<char>) -> RecordKind {
    if t == "app.bsky.actor.profile"@ {
        RecordKind::ActorProfile
    } else if t == "app.bsky.feed.generator"@ {
        RecordKind::FeedGenerator
    } else if t == "app.bsky.feed.like"@ {
        RecordKind::FeedLike
    } else if t == "app.bsky.feed.post"@ {
        RecordKind::FeedPost
    } else if t == "app.bsky.feed.repost"@ {
        RecordKind::FeedRepost
    } else if t == "app.bsky.feed.threadgate"@ {
        RecordKind::FeedThreadgate
    } else if t == "app.bsky.graph.block"@ {
        RecordKind::GraphBlock
    } else if t == "app.bsky.graph.follow"@ {
        RecordKind::GraphFollow
    } else if t == "app.bsky.graph.list"@ {
        RecordKind::GraphList
    } else if t == "app.bsky.graph.listblock"@ {
        RecordKind::GraphListblock
    } else if t == "app.bsky.graph.listitem"@ {
        RecordKind::GraphListitem
    } else {
        RecordKind::Other
    }
}

/// Tells the kinds of record apart by their `$type`.
pub fn record_kind(t: &str) -> (r: RecordKind)
    ensures
        r == record_kind_of(t@),
{
    if str_eq(t, "app.bsky.actor.profile") {
        RecordKind::ActorProfile
    } else if str_eq(t, "app.bsky.feed.generator") {
        RecordKind::FeedGenerator
    } else if str_eq(t, "app.bsky.feed.like") {
        RecordKind::FeedLike
    } else if str_eq(t, "app.bsky.feed.post") {
        RecordKind::FeedPost
    } else if str_eq(t, "app.bsky.feed.repost") {
        RecordKind::FeedRepost
    } else if str_eq(t, "app.bsky.feed.threadgate") {
        RecordKind::FeedThreadgate
    } else if str_eq(t, "app.bsky.graph.block") {
        RecordKind::GraphBlock
    } else if str_eq(t, "app.bsky.graph.follow") {
        RecordKind::GraphFollow
    } else if str_eq(t, "app.bsky.graph.list") {
        RecordKind::GraphList
    } else if str_eq(t, "app.bsky.graph.listblock") {
        RecordKind::GraphListblock
    } else if str_eq(t, "app.bsky.graph.listitem") {
        RecordKind::GraphListitem
    } else {
        RecordKind::Other
    }
}

/// What a block of a repository holds.
#[derive(Debug, Clone, PartialEq, Eq)]
pub enum Block {
    Commit(Commit),
    Node(Node),
    /// A record, by its kind and the JSON text of the record.
    Record(RecordKind, String),
}

/// `b` is what the block `v` holds: the root of a repository where `v` has
/// what one needs, else a node where it has what a node needs, else a record
/// where it has a `$type`.
pub open spec fn block_is(v: Datum, b: Block) -> bool {
    if root_ok(v) {
        b matches Block::Commit(c) && root_is(v, c)
    } else if node_ok(v) {
        b matches Block::Node(n) && node_is(v, n)
    } else {
        b matches Block::Record(k, j) && v.text_field("$type"@) matches Some(t) && k
            == record_kind_of(t) && j@ == crate::ipld::json_text(v)
    }
}

/// `v` is one of the three: a root, a node, or a record.
pub open spec fn block_ok(v: Datum) -> bool {
    root_ok(v) || node_ok(v) || v.text_field("$type"@) is Some
}

impl Block {
    /// Returns the root if the block is one.
    pub fn as_commit(&self) -> (r: Option<&Commit>)
        ensures
            match r {
                Some(c) => *self == Block::Commit(*c),
                None => !(self is Commit),
            },
    {
        match self {
            Block::Commit(c) => Some(c),
            _ => None,
        }
    }

    /// Returns the node if the block is one.
    pub fn as_node(&self) -> (r: Option<&Node>)
        ensures
            match r {
                Some(n) => *self == Block::Node(*n),
                None => !(self is Node),
            },
    {
        match self {
            Block::Node(n) => Some(n),
            _ => None,
        }
    }

    /// Returns the kind of record if the block is a record.
    pub fn as_record(&self) -> (r: Option<RecordKind>)
        ensures
            match r {
                Some(k) => self matches Block::Record(x, _) && x == k,
                None => !(self is Record),
            },
    {
        match self {
            Block::Record(k, _) => Some(*k),
            _ => None,
        }
    }

    /// Tells what a decoded block holds.
    pub fn from_value(v: &Datum) -> (r: Option<Block>)
        ensures
            match r {
                Some(b) => block_ok(*v) && block_is(*v, b),
                None => !block_ok(*v),
            },
    {
        match Commit::from_value(v) {
            Some(c) => return Some(Block::Commit(c)),
            None => {},
        }
        match Node::from_value(v) {
            Some(n) => return Some(Block::Node(n)),
            None => {},
        }
        match v.get_text("$type") {
            Some(t) => Some(Block::Record(record_kind(t.as_str()), crate::ipld::ipld_to_string(v))),
            None => None,
        }
    }
}

impl Blocks {
    /// What each block of the store holds: for every entry that is a root, a
    /// node or a record, its position in the store and what it holds, in the
    /// order of the store. An entry that is none of the three is passed over.
    pub fn get_blocks(&self) -> (r: Vec<(usize, Block)>)
        ensures
            forall|k: int|
                0 <= k < r.len() ==> (#[trigger] r[k]).0 < self.data.len() && block_is(
                    self.data[r[k].0 as int].1,
                    r[k].1,
                ),
            forall|a: int, b: int| 0 <= a < b < r.len() ==> (#[trigger] r[a]).0 < (#[trigger] r[b]).0,
            forall|i: int|
                0 <= i < self.data.len() && block_ok((#[trigger] self.data[i]).1) ==> exists|k: int|
                    0 <= k < r.len() && (#[trigger] r[k]).0 == i,
    {
        let mut out: Vec<(usize, Block)> = Vec::new();
        let mut i: usize = 0;
        while i < self.data.len()
            invariant
                i <= self.data.len(),
                forall|k: int|
                    0 <= k < out.len() ==> (#[trigger] out[k]).0 < i && block_is(
                        self.data[out[k].0 as int].1,
                        out[k].1,
                    ),
                forall|a: int, b: int|
                    0 <= a < b < out.len() ==> (#[trigger] out[a]).0 < (#[trigger] out[b]).0,
                forall|j: int|
                    0 <= j < i && block_ok((#[trigger] self.data[j]).1) ==> exists|k: int|
                        0 <= k < out.len() && (#[trigger] out[k]).0 == j,
            decreases self.data.len() - i,
        {
            match Block::from_value(&self.data[i].1) {
                Some(b) => {
                    let ghost before = out@;
                    out.push((i, b));
                    assert forall|j: int|
                        0 <= j < i + 1 && block_ok((#[trigger] self.data[j]).1) implies exists|k: int|
                        0 <= k < out.len() && (#[trigger] out[k]).0 == j by {
                        if j < i {
                            let k = choose|k: int| 0 <= k < before.len() && (#[trigger] before[k]).0 == j;
                            assert(out[k].0 == j);
                        } else {
                            assert(out[out.len() - 1].0 == j);
                        }
                    }
                },
                None => {},
            }
            i += 1;
        }
        out
    }
}

} // verus!
