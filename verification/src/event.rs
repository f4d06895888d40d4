//! Messages of the stream: the two DAG-CBOR values of a frame, read into a
//! header and a payload.
use crate::api::{
    AppBskyFeedPost, ComAtprotoSyncSubscribereposCommit, ComAtprotoSyncSubscribereposHandle,
    ComAtprotoSyncSubscribereposIdentity, ComAtprotoSyncSubscribereposInfo,
    ComAtprotoSyncSubscribereposMainMessage, ComAtprotoSyncSubscribereposMigrate,
    ComAtprotoSyncSubscribereposRepoop, ComAtprotoSyncSubscribereposTombstone,
};
use crate::blocks::{archive_value, Blocks};
use crate::cid::{cid_text_value, Cid};
use crate::ipld::{decode_item, decoded_item, ipld_to_string, json_text, link_text, Datum};
use crate::text::{joined, is_prefix, starts_with, str_eq};
use crate::time::{datetime_text_value, parse_datetime, Timestamp};
use vstd::prelude::*;

verus! {

/// The header of a frame: the kind of operation and the name of the payload.
#[derive(Debug, Clone, PartialEq, Eq)]
pub struct Header {
    pub op: i64,
    pub t: String,
}

/// One message of the stream.
#[derive(Debug, Clone, PartialEq, Eq)]
pub struct Event {
    pub header: Header,
    pub payload: ComAtprotoSyncSubscribereposMainMessage,
}

/// Why a frame gave no event.
#[derive(Debug, Clone, Copy, PartialEq, Eq, Structural)]
pub enum FrameError {
    /// The header or the payload could not be read.
    MalformedFrame,
    /// The header's `op` is negative: the relay reports an error.
    ErrorFrame,
    /// The header names a payload that this library does not know.
    UnknownVariant,
}

/// The list under `key`, if `v` is a map with a list there.
pub open spec fn list_field(v: Datum, key: Seq<char>) -> Option<Seq<Datum>> {
    match v.field(key) {
        Some(Datum::List(l)) => Some(l@),
        _ => None,
    }
}

/// The text under `key`, or the empty text.
pub open spec fn text_or_empty(v: Datum, key: Seq<char>) -> Seq<char> {
    match v.text_field(key) {
        Some(s) => s,
        None => Seq::<char>::empty(),
    }
}

/// The text of the link under `key`, if there is a link.
pub open spec fn link_field(v: Datum, key: Seq<char>) -> Option<Seq<char>> {
    match v.field(key) {
        Some(Datum::Link(c)) => Some(link_text(c)),
        _ => None,
    }
}

/// The instant that a text writes, the epoch where it writes none.
pub open spec fn time_of(s: Seq<char>) -> Timestamp {
    match datetime_text_value(s) {
        Some(t) => t,
        None => Timestamp { secs: 0, nanos: 0 },
    }
}

/// The download address of a binary attachment of a repository.
pub open spec fn blob_url(repo: Seq<char>, cid: Seq<char>) -> Seq<char> {
    "https://bsky.social/xrpc/com.atproto.sync.getBlob?did="@ + repo + "&cid="@ + cid
}

/// `v` has what a header needs: an integer `op` and a text `t`.
pub open spec fn header_ok(v: Datum) -> bool {
    v.int_field("op"@) is Some && v.text_field("t"@) is Some
}

/// `h` is the header that `v` holds.
pub open spec fn header_is(v: Datum, h: Header) -> bool {
    v.int_field("op"@) == Some(h.op) && v.text_field("t"@) == Some(h.t@)
}

/// `v` has what an operation needs: texts `action` and `path`.
pub open spec fn op_ok(v: Datum) -> bool {
    v.text_field("action"@) is Some && v.text_field("path"@) is Some
}

/// `op` is the operation that `v` holds.
pub open spec fn op_is(v: Datum, op: ComAtprotoSyncSubscribereposRepoop) -> bool {
    &&& v.text_field("action"@) == Some(op.action@)
    &&& v.text_field("path"@) == Some(op.path@)
    &&& op.cid@ == match link_field(v, "cid"@) {
        Some(t) => t,
        None => Seq::<char>::empty(),
    }
}

/// `v` has what a commit needs: an integer `seq`, texts `repo` and `time`, a
/// list `ops` of operations and a list `blobs` of links.
pub open spec fn commit_ok(v: Datum) -> bool {
    &&& v.int_field("seq"@) is Some
    &&& v.text_field("repo"@) is Some
    &&& v.text_field("time"@) is Some
    &&& list_field(v, "ops"@) matches Some(ops) && forall|i: int|
        0 <= i < ops.len() ==> op_ok(#[trigger] ops[i])
    &&& list_field(v, "blobs"@) matches Some(blobs) && forall|i: int|
        0 <= i < blobs.len() ==> (#[trigger] blobs[i]) is Link
}

/// `c` is the commit that `v` holds. Flags that are missing are false, texts
/// that are missing are empty, a `time` that cannot be read is the epoch.
pub open spec fn commit_is(v: Datum, c: ComAtprotoSyncSubscribereposCommit) -> bool {
    &&& v.int_field("seq"@) == Some(c.seq)
    &&& c.rebase == (v.bool_field("rebase"@) == Some(true))
    &&& c.too_big == (v.bool_field("tooBig"@) == Some(true))
    &&& v.text_field("repo"@) == Some(c.repo@)
    &&& c.commit@ == match link_field(v, "commit"@) {
        Some(t) => t,
        None => Seq::<char>::empty(),
    }
    &&& c.rev@ == text_or_empty(v, "rev"@)
    &&& c.since@ == text_or_empty(v, "since"@)
    &&& c.blocks@ == match v.field("blocks"@) {
        Some(Datum::Bytes(b)) => b@,
        _ => Seq::<u8>::empty(),
    }
    &&& list_field(v, "ops"@) matches Some(ops) && c.ops.len() == ops.len() && forall|i: int|
        0 <= i < ops.len() ==> op_is(ops[i], #[trigger] c.ops[i])
    &&& list_field(v, "blobs"@) matches Some(blobs) && c.blobs.len() == blobs.len() && forall|
        i: int,
    |
        0 <= i < blobs.len() ==> (blobs[i] matches Datum::Link(l) && (#[trigger] c.blobs[i])@
            == blob_url(c.repo@, link_text(l)))
    &&& c.time == time_of(v.text_field("time"@).unwrap())
    &&& c.prev.deep_view() == link_field(v, "prev"@)
}

/// `v` has an integer `seq` and texts `did` and `time`.
pub open spec fn account_ok(v: Datum) -> bool {
    v.int_field("seq"@) is Some && v.text_field("did"@) is Some && v.text_field("time"@) is Some
}

/// The kinds of payload that a header can name.
pub enum Variant {
    Commit,
    Identity,
    Handle,
    Migrate,
    Tombstone,
    Info,
    Unknown,
}

/// The kind of payload that the name `t` stands for.
pub open spec fn variant_of(t: Seq<char>) -> Variant {
    if t == "#commit"@ {
        Variant::Commit
    } else if t == "#identity"@ {
        Variant::Identity
    } else if t == "#handle"@ {
        Variant::Handle
    } else if t == "#migrate"@ {
        Variant::Migrate
    } else if t == "#tombstone"@ {
        Variant::Tombstone
    } else if t == "#info"@ {
        Variant::Info
    } else {
        Variant::Unknown
    }
}

/// `v` has what the payload of kind `k` needs.
pub open spec fn payload_ok(k: Variant, v: Datum) -> bool {
    match k {
        Variant::Commit => commit_ok(v),
        Variant::Handle => account_ok(v) && v.text_field("handle"@) is Some,
        Variant::Identity | Variant::Migrate | Variant::Tombstone => account_ok(v),
        Variant::Info => v.text_field("name"@) is Some,
        Variant::Unknown => false,
    }
}

/// `p` is the payload of kind `k` that `v` holds.
pub open spec fn payload_is(
    k: Variant,
    v: Datum,
    p: ComAtprotoSyncSubscribereposMainMessage,
) -> bool {
    match k {
        Variant::Commit => p matches ComAtprotoSyncSubscribereposMainMessage::ComAtprotoSyncSubscribereposCommit(
            c,
        ) && commit_is(v, c),
        Variant::Identity => p matches ComAtprotoSyncSubscribereposMainMessage::ComAtprotoSyncSubscribereposIdentity(
            x,
        ) && v.int_field("seq"@) == Some(x.seq) && v.text_field("did"@) == Some(x.did@) && x.time
            == time_of(v.text_field("time"@).unwrap()),
        Variant::Handle => p matches ComAtprotoSyncSubscribereposMainMessage::ComAtprotoSyncSubscribereposHandle(
            x,
        ) && v.int_field("seq"@) == Some(x.seq) && v.text_field("did"@) == Some(x.did@)
            && v.text_field("handle"@) == Some(x.handle@) && x.time == time_of(
            v.text_field("time"@).unwrap(),
        ),
        Variant::Migrate => p matches ComAtprotoSyncSubscribereposMainMessage::ComAtprotoSyncSubscribereposMigrate(
            x,
        ) && v.int_field("seq"@) == Some(x.seq) && v.text_field("did"@) == Some(x.did@)
            && x.migrate_to@ == text_or_empty(v, "migrateTo"@) && x.time == time_of(
            v.text_field("time"@).unwrap(),
        ),
        Variant::Tombstone => p matches ComAtprotoSyncSubscribereposMainMessage::ComAtprotoSyncSubscribereposTombstone(
            x,
        ) && v.int_field("seq"@) == Some(x.seq) && v.text_field("did"@) == Some(x.did@) && x.time
            == time_of(v.text_field("time"@).unwrap()),
        Variant::Info => p matches ComAtprotoSyncSubscribereposMainMessage::ComAtprotoSyncSubscribereposInfo(
            x,
        ) && v.text_field("name"@) == Some(x.name@) && x.message.deep_view() == v.text_field(
            "message"@,
        ),
        Variant::Unknown => false,
    }
}

/// What a frame with header value `h` and payload value `p` gives: the error,
/// or nothing where it gives an event.
pub open spec fn frame_error(h: Datum, p: Option<Datum>) -> Option<FrameError> {
    if !header_ok(h) {
        Some(FrameError::MalformedFrame)
    } else if h.int_field("op"@).unwrap() < 0 {
        Some(FrameError::ErrorFrame)
    } else if variant_of(h.text_field("t"@).unwrap()) is Unknown {
        Some(FrameError::UnknownVariant)
    } else if p is None || !payload_ok(variant_of(h.text_field("t"@).unwrap()), p.unwrap()) {
        Some(FrameError::MalformedFrame)
    } else {
        None
    }
}

/// The value behind an optional reference.
pub open spec fn deref_option(p: Option<&Datum>) -> Option<Datum> {
    match p {
        Some(v) => Some(*v),
        None => None,
    }
}

/// `e` is the event that a frame with header value `h` and payload value `p`
/// gives.
pub open spec fn event_is(h: Datum, p: Datum, e: Event) -> bool {
    header_is(h, e.header) && payload_is(variant_of(e.header.t@), p, e.payload)
}

/// The text of the link under `key`.
fn get_link(v: &Datum, key: &str) -> (r: Option<String>)
    ensures
        r.deep_view() == link_field(*v, key@),
{
    match v.get(key) {
        Some(Datum::Link(c)) => Some(c.to_string()),
        _ => None,
    }
}

/// The text under `key`, or the empty text.
fn get_text_or_empty(v: &Datum, key: &str) -> (r: String)
    ensures
        r@ == text_or_empty(*v, key@),
{
    match v.get_text(key) {
        Some(s) => s,
        None => String::new(),
    }
}

/// The instant that `s` writes, or the epoch.
fn read_time(s: &str) -> (r: Timestamp)
    ensures
        r == time_of(s@),
{
    match parse_datetime(s) {
        Some(t) => t,
        None => Timestamp { secs: 0, nanos: 0 },
    }
}

/// Bytes that the head of a DAG-CBOR item takes whose argument is `n`.
pub open spec fn head_len(n: int) -> int {
    if n < 24 {
        1
    } else if n < 0x100 {
        2
    } else if n < 0x1_0000 {
        3
    } else if n < 0x1_0000_0000 {
        5
    } else {
        9
    }
}

/// Bytes that the DAG-CBOR encoding of a header takes: a map of two entries,
/// the integer `op` and the text `t` of `t_bytes` bytes.
pub open spec fn header_len(op: i64, t_bytes: int) -> int {
    1 + 3 + head_len(
        if op >= 0 {
            op as int
        } else {
            -1 - op
        },
    ) + 2 + head_len(t_bytes) + t_bytes
}

/// Bytes that the head of a DAG-CBOR item takes whose argument is `n`.
fn head_size(n: u64) -> (r: usize)
    ensures
        r == head_len(n as int),
{
    if n < 24 {
        1
    } else if n < 0x100 {
        2
    } else if n < 0x1_0000 {
        3
    } else if n < 0x1_0000_0000 {
        5
    } else {
        9
    }
}

impl Header {
    /// Returns the length in encoded format; nothing where the length does
    /// not fit the machine's word.
    pub fn len(&self) -> (r: Option<usize>)
        ensures
            match r {
                Some(n) => n == header_len(self.op, vstd::utf8::encode_utf8(self.t@).len() as int),
                None => header_len(self.op, vstd::utf8::encode_utf8(self.t@).len() as int) > usize::MAX,
            },
    {
        let arg: u64 = if self.op >= 0 {
            self.op as u64
        } else {
            (-1 - self.op) as u64
        };
        let bytes = self.t.as_str().as_bytes().len();
        let fixed: usize = 6 + head_size(arg) + head_size(bytes as u64);
        if bytes <= usize::MAX - fixed {
            Some(fixed + bytes)
        } else {
            None
        }
    }

    /// Reads a header out of a decoded value.
    pub fn from_value(v: &Datum) -> (r: Option<Header>)
        ensures
            match r {
                Some(h) => header_ok(*v) && header_is(*v, h),
                None => !header_ok(*v),
            },
    {
        let op = match v.get_int("op") {
            Some(op) => op,
            None => return None,
        };
        let t = match v.get_text("t") {
            Some(t) => t,
            None => return None,
        };
        Some(Header { op, t })
    }
}

impl ComAtprotoSyncSubscribereposRepoop {
    /// Reads an operation out of a decoded value.
    pub fn from_value(v: &Datum) -> (r: Option<ComAtprotoSyncSubscribereposRepoop>)
        ensures
            match r {
                Some(op) => op_ok(*v) && op_is(*v, op),
                None => !op_ok(*v),
            },
    {
        let action = match v.get_text("action") {
            Some(s) => s,
            None => return None,
        };
        let path = match v.get_text("path") {
            Some(s) => s,
            None => return None,
        };
        let cid = match get_link(v, "cid") {
            Some(s) => s,
            None => String::new(),
        };
        Some(ComAtprotoSyncSubscribereposRepoop { action, path, cid })
    }
}

impl ComAtprotoSyncSubscribereposCommit {
    /// Reads a commit out of a decoded value.
    pub fn from_value(v: &Datum) -> (r: Option<ComAtprotoSyncSubscribereposCommit>)
        ensures
            match r {
                Some(c) => commit_ok(*v) && commit_is(*v, c),
                None => !commit_ok(*v),
            },
    {
        let seq = match v.get_int("seq") {
            Some(x) => x,
            None => return None,
        };
        let repo = match v.get_text("repo") {
            Some(x) => x,
            None => return None,
        };
        let time_text = match v.get_text("time") {
            Some(x) => x,
            None => return None,
        };
        let op_values = match v.get("ops") {
            Some(Datum::List(l)) => l,
            _ => return None,
        };
        let blob_values = match v.get("blobs") {
            Some(Datum::List(l)) => l,
            _ => return None,
        };
        let mut ops: Vec<ComAtprotoSyncSubscribereposRepoop> = Vec::new();
        let mut i: usize = 0;
        while i < op_values.len()
            invariant
                i <= op_values.len(),
                ops.len() == i,
                list_field(*v, "ops"@) == Some(op_values@),
                forall|k: int| 0 <= k < i ==> op_ok(#[trigger] op_values@[k]),
                forall|k: int| 0 <= k < i ==> op_is(op_values@[k], #[trigger] ops@[k]),
            decreases op_values.len() - i,
        {
            match ComAtprotoSyncSubscribereposRepoop::from_value(&op_values[i]) {
                Some(op) => ops.push(op),
                None => {
                    proof {
                        let all = list_field(*v, "ops"@).unwrap();
                        assert(all == op_values@);
                        assert(!op_ok(all[i as int]));
                        assert(!(forall|k: int| 0 <= k < all.len() ==> op_ok(#[trigger] all[k])));
                        assert(!commit_ok(*v));
                    }
                    return None;
                },
            }
            i += 1;
        }
        let prefix = joined("https://bsky.social/xrpc/com.atproto.sync.getBlob?did=", repo.as_str());
        let mut blobs: Vec<String> = Vec::new();
        let mut j: usize = 0;
        while j < blob_values.len()
            invariant
                j <= blob_values.len(),
                blobs.len() == j,
                list_field(*v, "blobs"@) == Some(blob_values@),
                prefix@ == "https://bsky.social/xrpc/com.atproto.sync.getBlob?did="@ + repo@,
                forall|k: int| 0 <= k < j ==> (#[trigger] blob_values@[k]) is Link,
                forall|k: int|
                    0 <= k < j ==> (blob_values@[k] matches Datum::Link(l) && (#[trigger] blobs@[k])@
                        == blob_url(repo@, link_text(l))),
            decreases blob_values.len() - j,
        {
            match &blob_values[j] {
                Datum::Link(c) => {
                    let mut url = joined(prefix.as_str(), "&cid=");
                    url.append(c.to_string().as_str());
                    blobs.push(url);
                },
                _ => return None,
            }
            j += 1;
        }
        let rebase = match v.get_bool("rebase") {
            Some(b) => b,
            None => false,
        };
        let too_big = match v.get_bool("tooBig") {
            Some(b) => b,
            None => false,
        };
        let commit = match get_link(v, "commit") {
            Some(s) => s,
            None => String::new(),
        };
        let blocks = match v.get("blocks") {
            Some(Datum::Bytes(b)) => b.clone(),
            _ => Vec::new(),
        };
        Some(
            ComAtprotoSyncSubscribereposCommit {
                seq,
                rebase,
                too_big,
                repo,
                commit,
                rev: get_text_or_empty(v, "rev"),
                since: get_text_or_empty(v, "since"),
                blocks,
                ops,
                blobs,
                time: read_time(time_text.as_str()),
                prev: get_link(v, "prev"),
            },
        )
    }
}

/// Reads `seq`, `did` and `time` out of a decoded value.
fn account_from_value(v: &Datum) -> (r: Option<(i64, String, Timestamp)>)
    ensures
        match r {
            Some((seq, did, time)) => account_ok(*v) && v.int_field("seq"@) == Some(seq)
                && v.text_field("did"@) == Some(did@) && time == time_of(
                v.text_field("time"@).unwrap(),
            ),
            None => !account_ok(*v),
        },
{
    let seq = match v.get_int("seq") {
        Some(x) => x,
        None => return None,
    };
    let did = match v.get_text("did") {
        Some(x) => x,
        None => return None,
    };
    let time_text = match v.get_text("time") {
        Some(x) => x,
        None => return None,
    };
    Some((seq, did, read_time(time_text.as_str())))
}

/// Tells the kinds of payload apart by the name in the header.
pub fn variant(t: &str) -> (r: Variant)
    ensures
        r == variant_of(t@),
{
    if str_eq(t, "#commit") {
        Variant::Commit
    } else if str_eq(t, "#identity") {
        Variant::Identity
    } else if str_eq(t, "#handle") {
        Variant::Handle
    } else if str_eq(t, "#migrate") {
        Variant::Migrate
    } else if str_eq(t, "#tombstone") {
        Variant::Tombstone
    } else if str_eq(t, "#info") {
        Variant::Info
    } else {
        Variant::Unknown
    }
}

/// Reads the payload of kind `k` out of a decoded value.
pub fn payload_from_value(k: Variant, v: &Datum) -> (r: Option<
    ComAtprotoSyncSubscribereposMainMessage,
>)
    ensures
        match r {
            Some(p) => payload_ok(k, *v) && payload_is(k, *v, p),
            None => !payload_ok(k, *v),
        },
{
    match k {
        Variant::Commit => match ComAtprotoSyncSubscribereposCommit::from_value(v) {
            Some(c) => Some(
                ComAtprotoSyncSubscribereposMainMessage::ComAtprotoSyncSubscribereposCommit(c),
            ),
            None => None,
        },
        Variant::Identity => match account_from_value(v) {
            Some((seq, did, time)) => Some(
                ComAtprotoSyncSubscribereposMainMessage::ComAtprotoSyncSubscribereposIdentity(
                    ComAtprotoSyncSubscribereposIdentity { seq, did, time },
                ),
            ),
            None => None,
        },
        Variant::Handle => match account_from_value(v) {
            Some((seq, did, time)) => match v.get_text("handle") {
                Some(handle) => Some(
                    ComAtprotoSyncSubscribereposMainMessage::ComAtprotoSyncSubscribereposHandle(
                        ComAtprotoSyncSubscribereposHandle { seq, did, handle, time },
                    ),
                ),
                None => None,
            },
            None => None,
        },
        Variant::Migrate => match account_from_value(v) {
            Some((seq, did, time)) => Some(
                ComAtprotoSyncSubscribereposMainMessage::ComAtprotoSyncSubscribereposMigrate(
                    ComAtprotoSyncSubscribereposMigrate {
                        seq,
                        did,
                        migrate_to: get_text_or_empty(v, "migrateTo"),
                        time,
                    },
                ),
            ),
            None => None,
        },
        Variant::Tombstone => match account_from_value(v) {
            Some((seq, did, time)) => Some(
                ComAtprotoSyncSubscribereposMainMessage::ComAtprotoSyncSubscribereposTombstone(
                    ComAtprotoSyncSubscribereposTombstone { seq, did, time },
                ),
            ),
            None => None,
        },
        Variant::Info => match v.get_text("name") {
            Some(name) => Some(
                ComAtprotoSyncSubscribereposMainMessage::ComAtprotoSyncSubscribereposInfo(
                    ComAtprotoSyncSubscribereposInfo { name, message: v.get_text("message") },
                ),
            ),
            None => None,
        },
        Variant::Unknown => None,
    }
}

impl Event {
    /// Makes the event of a frame whose two values are already decoded;
    /// `payload` is absent where no second value could be decoded.
    pub fn from_values(header: &Datum, payload: Option<&Datum>) -> (r: Result<Event, FrameError>)
        ensures
            match r {
                Ok(e) => frame_error(*header, deref_option(payload)) is None && event_is(
                    *header,
                    *payload.unwrap(),
                    e,
                ),
                Err(err) => frame_error(*header, deref_option(payload)) == Some(err),
            },
    {
        let h = match Header::from_value(header) {
            Some(h) => h,
            None => return Err(FrameError::MalformedFrame),
        };
        if h.op < 0 {
            return Err(FrameError::ErrorFrame);
        }
        let k = variant(h.t.as_str());
        if let Variant::Unknown = k {
            return Err(FrameError::UnknownVariant);
        }
        let p = match payload {
            Some(p) => p,
            None => return Err(FrameError::MalformedFrame),
        };
        match payload_from_value(k, p) {
            Some(payload) => Ok(Event { header: h, payload }),
            None => Err(FrameError::MalformedFrame),
        }
    }
}

/// The payload that the second value of a frame holds, if one can be decoded
/// from `q` on.
pub open spec fn payload_value(b: Seq<u8>, q: int) -> Option<Datum> {
    match decoded_item(b, q) {
        Some((p, _)) => Some(p),
        None => None,
    }
}

impl Event {
    /// Decodes one frame: a header and a payload, two DAG-CBOR values in a
    /// row. What follows the second value is not read.
    pub fn try_from(value: &[u8]) -> (r: Result<Event, FrameError>)
        ensures
            match decoded_item(value@, 0) {
                None => r == Err::<Event, FrameError>(FrameError::MalformedFrame),
                Some((h, q)) => match r {
                    Ok(e) => frame_error(h, payload_value(value@, q)) is None && event_is(
                        h,
                        payload_value(value@, q).unwrap(),
                        e,
                    ),
                    Err(err) => frame_error(h, payload_value(value@, q)) == Some(err),
                },
            },
    {
        let (header, q) = match decode_item(value, 0) {
            Some(x) => x,
            None => return Err(FrameError::MalformedFrame),
        };
        match decode_item(value, q) {
            Some((payload, _)) => Event::from_values(&header, Some(&payload)),
            None => Event::from_values(&header, None),
        }
    }

    /// Returns the payload if the event is a commit.
    pub fn as_commit(&self) -> (r: Option<&ComAtprotoSyncSubscribereposCommit>)
        ensures
            match r {
                Some(c) => self.payload
                    == ComAtprotoSyncSubscribereposMainMessage::ComAtprotoSyncSubscribereposCommit(
                    *c,
                ),
                None => !(self.payload is ComAtprotoSyncSubscribereposCommit),
            },
    {
        match &self.payload {
            ComAtprotoSyncSubscribereposMainMessage::ComAtprotoSyncSubscribereposCommit(c) => Some(
                c,
            ),
            _ => None,
        }
    }

    /// Returns the payload if the event is a change of handle.
    pub fn as_handle(&self) -> (r: Option<&ComAtprotoSyncSubscribereposHandle>)
        ensures
            match r {
                Some(c) => self.payload
                    == ComAtprotoSyncSubscribereposMainMessage::ComAtprotoSyncSubscribereposHandle(
                    *c,
                ),
                None => !(self.payload is ComAtprotoSyncSubscribereposHandle),
            },
    {
        match &self.payload {
            ComAtprotoSyncSubscribereposMainMessage::ComAtprotoSyncSubscribereposHandle(c) => Some(
                c,
            ),
            _ => None,
        }
    }

    /// Returns the payload if the event is a migration.
    pub fn as_migrate(&self) -> (r: Option<&ComAtprotoSyncSubscribereposMigrate>)
        ensures
            match r {
                Some(c) => self.payload
                    == ComAtprotoSyncSubscribereposMainMessage::ComAtprotoSyncSubscribereposMigrate(
                    *c,
                ),
                None => !(self.payload is ComAtprotoSyncSubscribereposMigrate),
            },
    {
        match &self.payload {
            ComAtprotoSyncSubscribereposMainMessage::ComAtprotoSyncSubscribereposMigrate(c) => Some(
                c,
            ),
            _ => None,
        }
    }

    /// Returns the payload if the event is a tombstone.
    pub fn as_tombstone(&self) -> (r: Option<&ComAtprotoSyncSubscribereposTombstone>)
        ensures
            match r {
                Some(c) => self.payload
                    == ComAtprotoSyncSubscribereposMainMessage::ComAtprotoSyncSubscribereposTombstone(
                    *c,
                ),
                None => !(self.payload is ComAtprotoSyncSubscribereposTombstone),
            },
    {
        match &self.payload {
            ComAtprotoSyncSubscribereposMainMessage::ComAtprotoSyncSubscribereposTombstone(
                c,
            ) => Some(c),
            _ => None,
        }
    }

    /// Returns the payload if the event is a notice.
    pub fn as_info(&self) -> (r: Option<&ComAtprotoSyncSubscribereposInfo>)
        ensures
            match r {
                Some(c) => self.payload
                    == ComAtprotoSyncSubscribereposMainMessage::ComAtprotoSyncSubscribereposInfo(*c),
                None => !(self.payload is ComAtprotoSyncSubscribereposInfo),
            },
    {
        match &self.payload {
            ComAtprotoSyncSubscribereposMainMessage::ComAtprotoSyncSubscribereposInfo(c) => Some(c),
            _ => None,
        }
    }

    /// The sequence number of the event; a notice has none.
    pub open spec fn seq(&self) -> Option<i64> {
        match self.payload {
            ComAtprotoSyncSubscribereposMainMessage::ComAtprotoSyncSubscribereposCommit(c) => Some(
                c.seq,
            ),
            ComAtprotoSyncSubscribereposMainMessage::ComAtprotoSyncSubscribereposIdentity(
                x,
            ) => Some(x.seq),
            ComAtprotoSyncSubscribereposMainMessage::ComAtprotoSyncSubscribereposHandle(x) => Some(
                x.seq,
            ),
            ComAtprotoSyncSubscribereposMainMessage::ComAtprotoSyncSubscribereposMigrate(x) => Some(
                x.seq,
            ),
            ComAtprotoSyncSubscribereposMainMessage::ComAtprotoSyncSubscribereposTombstone(
                x,
            ) => Some(x.seq),
            ComAtprotoSyncSubscribereposMainMessage::ComAtprotoSyncSubscribereposInfo(_) => None,
            ComAtprotoSyncSubscribereposMainMessage::Other => None,
        }
    }

    /// The time of the event; a notice has none.
    pub open spec fn time(&self) -> Option<Timestamp> {
        match self.payload {
            ComAtprotoSyncSubscribereposMainMessage::ComAtprotoSyncSubscribereposCommit(c) => Some(
                c.time,
            ),
            ComAtprotoSyncSubscribereposMainMessage::ComAtprotoSyncSubscribereposIdentity(
                x,
            ) => Some(x.time),
            ComAtprotoSyncSubscribereposMainMessage::ComAtprotoSyncSubscribereposHandle(x) => Some(
                x.time,
            ),
            ComAtprotoSyncSubscribereposMainMessage::ComAtprotoSyncSubscribereposMigrate(x) => Some(
                x.time,
            ),
            ComAtprotoSyncSubscribereposMainMessage::ComAtprotoSyncSubscribereposTombstone(
                x,
            ) => Some(x.time),
            ComAtprotoSyncSubscribereposMainMessage::ComAtprotoSyncSubscribereposInfo(_) => None,
            ComAtprotoSyncSubscribereposMainMessage::Other => None,
        }
    }

    /// Get sequence number
    pub fn get_seq(&self) -> (r: Option<i64>)
        ensures
            r == self.seq(),
    {
        match &self.payload {
            ComAtprotoSyncSubscribereposMainMessage::ComAtprotoSyncSubscribereposCommit(c) => Some(
                c.seq,
            ),
            ComAtprotoSyncSubscribereposMainMessage::ComAtprotoSyncSubscribereposIdentity(
                x,
            ) => Some(x.seq),
            ComAtprotoSyncSubscribereposMainMessage::ComAtprotoSyncSubscribereposHandle(x) => Some(
                x.seq,
            ),
            ComAtprotoSyncSubscribereposMainMessage::ComAtprotoSyncSubscribereposMigrate(x) => Some(
                x.seq,
            ),
            ComAtprotoSyncSubscribereposMainMessage::ComAtprotoSyncSubscribereposTombstone(
                x,
            ) => Some(x.seq),
            ComAtprotoSyncSubscribereposMainMessage::ComAtprotoSyncSubscribereposInfo(_) => None,
            ComAtprotoSyncSubscribereposMainMessage::Other => None,
        }
    }

    /// Get event time
    pub fn get_time(&self) -> (r: Option<Timestamp>)
        ensures
            r == self.time(),
    {
        match &self.payload {
            ComAtprotoSyncSubscribereposMainMessage::ComAtprotoSyncSubscribereposCommit(c) => Some(
                c.time,
            ),
            ComAtprotoSyncSubscribereposMainMessage::ComAtprotoSyncSubscribereposIdentity(
                x,
            ) => Some(x.time),
            ComAtprotoSyncSubscribereposMainMessage::ComAtprotoSyncSubscribereposHandle(x) => Some(
                x.time,
            ),
            ComAtprotoSyncSubscribereposMainMessage::ComAtprotoSyncSubscribereposMigrate(x) => Some(
                x.time,
            ),
            ComAtprotoSyncSubscribereposMainMessage::ComAtprotoSyncSubscribereposTombstone(
                x,
            ) => Some(x.time),
            ComAtprotoSyncSubscribereposMainMessage::ComAtprotoSyncSubscribereposInfo(_) => None,
            ComAtprotoSyncSubscribereposMainMessage::Other => None,
        }
    }
}

/// The text that a value holds, empty where it holds none.
pub open spec fn text_of(v: Datum) -> Seq<char> {
    match v {
        Datum::Text(s) => s@,
        _ => Seq::<char>::empty(),
    }
}

/// The list of texts under `key`: absent where the key is missing or null,
/// invalid where anything else than a list of texts stands there.
pub open spec fn text_list(v: Datum, key: Seq<char>) -> Option<Option<Seq<Seq<char>>>> {
    match v.field(key) {
        None => Some(None),
        Some(Datum::Null) => Some(None),
        Some(Datum::List(l)) => if forall|i: int| 0 <= i < l@.len() ==> (#[trigger] l@[i]) is Text {
            Some(Some(Seq::new(l@.len(), |i: int| text_of(l@[i]))))
        } else {
            None
        },
        _ => None,
    }
}

/// `v` has what a post needs: a text `text`, a `createdAt` that writes an
/// instant, and nothing but lists of texts under `langs` and `tags`.
pub open spec fn post_ok(v: Datum) -> bool {
    &&& v.text_field("text"@) is Some
    &&& v.text_field("createdAt"@) matches Some(t) && datetime_text_value(t) is Some
    &&& text_list(v, "langs"@) is Some
    &&& text_list(v, "tags"@) is Some
}

/// `p` is the post that `v` holds.
pub open spec fn post_is(v: Datum, p: AppBskyFeedPost) -> bool {
    &&& v.text_field("text"@) == Some(p.text@)
    &&& datetime_text_value(v.text_field("createdAt"@).unwrap()) == Some(p.created_at)
    &&& text_list(v, "langs"@) == Some(p.langs.deep_view())
    &&& text_list(v, "tags"@) == Some(p.tags.deep_view())
    &&& p.json@ == json_text(v)
}

/// Reads the list of texts under `key`.
fn get_text_list(v: &Datum, key: &str) -> (r: Option<Option<Vec<String>>>)
    ensures
        r.deep_view() == text_list(*v, key@),
{
    match v.get(key) {
        None => Some(None),
        Some(Datum::Null) => Some(None),
        Some(Datum::List(l)) => {
            let mut out: Vec<String> = Vec::new();
            let mut i: usize = 0;
            while i < l.len()
                invariant
                    i <= l.len(),
                    out.len() == i,
                    v.field(key@) == Some(Datum::List(*l)),
                    forall|k: int| 0 <= k < i ==> (#[trigger] l@[k]) is Text,
                    forall|k: int| 0 <= k < i ==> (#[trigger] out@[k])@ == text_of(l@[k]),
                decreases l.len() - i,
            {
                match &l[i] {
                    Datum::Text(s) => out.push(s.clone()),
                    _ => {
                        assert(!(l@[i as int] is Text));
                        return None;
                    },
                }
                i += 1;
            }
            proof {
                assert(out.deep_view() =~= Seq::new(l@.len(), |i: int| text_of(l@[i])));
            }
            Some(Some(out))
        },
        _ => None,
    }
}

impl AppBskyFeedPost {
    /// Reads a post out of a decoded record.
    pub fn from_value(v: &Datum) -> (r: Option<AppBskyFeedPost>)
        ensures
            match r {
                Some(p) => post_ok(*v) && post_is(*v, p),
                None => !post_ok(*v),
            },
    {
        let text = match v.get_text("text") {
            Some(x) => x,
            None => return None,
        };
        let created = match v.get_text("createdAt") {
            Some(x) => x,
            None => return None,
        };
        let created_at = match parse_datetime(created.as_str()) {
            Some(t) => t,
            None => return None,
        };
        let langs = match get_text_list(v, "langs") {
            Some(x) => x,
            None => return None,
        };
        let tags = match get_text_list(v, "tags") {
            Some(x) => x,
            None => return None,
        };
        Some(AppBskyFeedPost { text, created_at, langs, tags, json: ipld_to_string(v) })
    }
}

/// The operation is on a post: its path starts with the collection of posts.
pub open spec fn is_post_op(op: ComAtprotoSyncSubscribereposRepoop) -> bool {
    is_prefix("app.bsky.feed.post"@, op.path@)
}

/// The value that the operation's identifier resolves to in the archive.
pub open spec fn resolved(op: ComAtprotoSyncSubscribereposRepoop, blocks: Seq<u8>) -> Option<Datum> {
    match cid_text_value(op.cid@) {
        Some(c) => archive_value(blocks, c),
        None => None,
    }
}

/// The operation is on a post and resolves to one in the archive.
pub open spec fn yields_post(op: ComAtprotoSyncSubscribereposRepoop, blocks: Seq<u8>) -> bool {
    &&& is_post_op(op)
    &&& resolved(op, blocks) matches Some(v) && post_ok(v)
}

/// The operation creates or updates a record, so its identifier should
/// resolve.
pub open spec fn needs_record(op: ComAtprotoSyncSubscribereposRepoop) -> bool {
    op.action@ == "create"@ || op.action@ == "update"@
}

/// The positions, among the first `n` operations, of those that satisfy `f`.
pub open spec fn positions(
    ops: Seq<ComAtprotoSyncSubscribereposRepoop>,
    f: spec_fn(ComAtprotoSyncSubscribereposRepoop) -> bool,
    n: int,
) -> Seq<int>
    decreases n,
{
    if n <= 0 || n > ops.len() {
        Seq::empty()
    } else if f(ops[n - 1]) {
        positions(ops, f, n - 1).push(n - 1)
    } else {
        positions(ops, f, n - 1)
    }
}

/// A position is listed exactly when it is in range and satisfies `f`.
pub proof fn lemma_positions(
    ops: Seq<ComAtprotoSyncSubscribereposRepoop>,
    f: spec_fn(ComAtprotoSyncSubscribereposRepoop) -> bool,
    n: int,
)
    requires
        0 <= n <= ops.len(),
    ensures
        forall|i: int| 0 <= i < n && f(ops[i]) ==> positions(ops, f, n).contains(i),
        forall|k: int|
            0 <= k < positions(ops, f, n).len() ==> 0 <= (#[trigger] positions(ops, f, n)[k]) < n
                && f(ops[positions(ops, f, n)[k]]),
    decreases n,
{
    if n > 0 {
        lemma_positions(ops, f, n - 1);
        let prev = positions(ops, f, n - 1);
        let cur = positions(ops, f, n);
        if f(ops[n - 1]) {
            assert(cur[cur.len() - 1] == n - 1);
            assert forall|i: int| 0 <= i < n && f(ops[i]) implies cur.contains(i) by {
                if i < n - 1 {
                    assert(prev.contains(i));
                    let k = choose|k: int| 0 <= k < prev.len() && prev[k] == i;
                    assert(cur[k] == i);
                } else {
                    assert(cur[cur.len() - 1] == i);
                }
            }
        }
    }
}

/// More operations do not change the first listed position.
pub proof fn lemma_positions_first(
    ops: Seq<ComAtprotoSyncSubscribereposRepoop>,
    f: spec_fn(ComAtprotoSyncSubscribereposRepoop) -> bool,
    i: int,
    n: int,
)
    requires
        0 <= i <= n <= ops.len(),
        positions(ops, f, i).len() > 0,
    ensures
        positions(ops, f, n).len() > 0,
        positions(ops, f, n)[0] == positions(ops, f, i)[0],
    decreases n - i,
{
    if i < n {
        lemma_positions_first(ops, f, i, n - 1);
    }
}

impl ComAtprotoSyncSubscribereposRepoop {
    /// A copy of the operation.
    pub fn duplicate(&self) -> (r: ComAtprotoSyncSubscribereposRepoop)
        ensures
            r == *self,
    {
        ComAtprotoSyncSubscribereposRepoop {
            action: self.action.clone(),
            path: self.path.clone(),
            cid: self.cid.clone(),
        }
    }
}

impl ComAtprotoSyncSubscribereposCommit {
    /// The post of the operation at `i`, looked up in `store`.
    fn post_at(&self, store: &Blocks, i: usize) -> (r: Option<AppBskyFeedPost>)
        requires
            i < self.ops.len(),
            forall|c: crate::cid::CidView| store.value_of(c) == archive_value(self.blocks@, c),
        ensures
            r is Some <==> yields_post(self.ops[i as int], self.blocks@),
            r matches Some(p) ==> post_is(resolved(self.ops[i as int], self.blocks@).unwrap(), p),
    {
        let op = &self.ops[i];
        if starts_with(op.path.as_str(), "app.bsky.feed.post") {
            match Cid::from_str(op.cid.as_str()) {
                Some(cid) => match store.get(&cid) {
                    Some(v) => AppBskyFeedPost::from_value(v),
                    None => None,
                },
                None => None,
            }
        } else {
            None
        }
    }

    /// The posts of the commit: for every operation on a post whose
    /// identifier resolves to a post in the commit's archive, the operation and
    /// the post, in the order of the operations.
    pub fn get_post(&self) -> (r: Vec<(ComAtprotoSyncSubscribereposRepoop, AppBskyFeedPost)>)
        ensures
            r.len() == self.post_positions().len(),
            forall|k: int|
                0 <= k < r.len() ==> (#[trigger] r[k]).0 == self.ops[self.post_positions()[k]]
                    && post_is(resolved(r[k].0, self.blocks@).unwrap(), r[k].1),
    {
        let store = Blocks::from(self.blocks.as_slice());
        let mut out: Vec<(ComAtprotoSyncSubscribereposRepoop, AppBskyFeedPost)> = Vec::new();
        let ghost f = |op: ComAtprotoSyncSubscribereposRepoop| yields_post(op, self.blocks@);
        let mut i: usize = 0;
        while i < self.ops.len()
            invariant
                i <= self.ops.len(),
                f == |op: ComAtprotoSyncSubscribereposRepoop| yields_post(op, self.blocks@),
                forall|c: crate::cid::CidView| store.value_of(c) == archive_value(self.blocks@, c),
                out.len() == positions(self.ops@, f, i as int).len(),
                forall|k: int|
                    0 <= k < out.len() ==> (#[trigger] out[k]).0 == self.ops[positions(
                        self.ops@,
                        f,
                        i as int,
                    )[k]] && post_is(resolved(out[k].0, self.blocks@).unwrap(), out[k].1),
            decreases self.ops.len() - i,
        {
            match self.post_at(&store, i) {
                Some(post) => {
                    out.push((self.ops[i].duplicate(), post));
                },
                None => {},
            }
            i += 1;
        }
        out
    }

    /// The posts of the commit without their operations, in the order of
    /// `get_post`.
    pub fn get_post_records(&self) -> (r: Vec<AppBskyFeedPost>)
        ensures
            r.len() == self.post_positions().len(),
            forall|k: int|
                0 <= k < r.len() ==> post_is(
                    resolved(self.ops[self.post_positions()[k]], self.blocks@).unwrap(),
                    #[trigger] r[k],
                ),
    {
        let store = Blocks::from(self.blocks.as_slice());
        let mut out: Vec<AppBskyFeedPost> = Vec::new();
        let ghost f = |op: ComAtprotoSyncSubscribereposRepoop| yields_post(op, self.blocks@);
        let mut i: usize = 0;
        while i < self.ops.len()
            invariant
                i <= self.ops.len(),
                f == |op: ComAtprotoSyncSubscribereposRepoop| yields_post(op, self.blocks@),
                forall|c: crate::cid::CidView| store.value_of(c) == archive_value(self.blocks@, c),
                out.len() == positions(self.ops@, f, i as int).len(),
                forall|k: int|
                    0 <= k < out.len() ==> post_is(
                        resolved(self.ops[positions(self.ops@, f, i as int)[k]], self.blocks@).unwrap(),
                        #[trigger] out[k],
                    ),
            decreases self.ops.len() - i,
        {
            match self.post_at(&store, i) {
                Some(post) => {
                    out.push(post);
                },
                None => {},
            }
            i += 1;
        }
        out
    }

    /// The texts of the posts of the commit.
    pub open spec fn post_texts(&self) -> Seq<Seq<char>> {
        Seq::new(
            self.post_positions().len(),
            |k: int|
                resolved(self.ops[self.post_positions()[k]], self.blocks@).unwrap().text_field(
                    "text"@,
                ).unwrap(),
        )
    }

    /// The languages of the posts of the commit.
    pub open spec fn post_langs(&self) -> Seq<Option<Seq<Seq<char>>>> {
        Seq::new(
            self.post_positions().len(),
            |k: int|
                text_list(
                    resolved(self.ops[self.post_positions()[k]], self.blocks@).unwrap(),
                    "langs"@,
                ).unwrap(),
        )
    }

    /// The positions of the operations that create a post which `get_post`
    /// returns.
    pub open spec fn created_positions(&self) -> Seq<int> {
        positions(
            self.ops@,
            |op: ComAtprotoSyncSubscribereposRepoop|
                yields_post(op, self.blocks@) && op.action@ == "create"@,
            self.ops@.len() as int,
        )
    }

    /// Returns the text of all posts that the commit creates, in the order of
    /// the operations.
    pub fn get_post_text(&self) -> (r: Vec<String>)
        ensures
            r.len() == self.created_positions().len(),
            forall|k: int|
                0 <= k < r.len() ==> resolved(
                    self.ops[self.created_positions()[k]],
                    self.blocks@,
                ).unwrap().text_field("text"@) == Some((#[trigger] r[k])@),
    {
        let store = Blocks::from(self.blocks.as_slice());
        let mut out: Vec<String> = Vec::new();
        let ghost f = |op: ComAtprotoSyncSubscribereposRepoop|
            yields_post(op, self.blocks@) && op.action@ == "create"@;
        let mut i: usize = 0;
        while i < self.ops.len()
            invariant
                i <= self.ops.len(),
                f == |op: ComAtprotoSyncSubscribereposRepoop|
                    yields_post(op, self.blocks@) && op.action@ == "create"@,
                forall|c: crate::cid::CidView| store.value_of(c) == archive_value(self.blocks@, c),
                out.len() == positions(self.ops@, f, i as int).len(),
                forall|k: int|
                    0 <= k < out.len() ==> resolved(
                        self.ops[positions(self.ops@, f, i as int)[k]],
                        self.blocks@,
                    ).unwrap().text_field("text"@) == Some((#[trigger] out[k])@),
            decreases self.ops.len() - i,
        {
            if str_eq(self.ops[i].action.as_str(), "create") {
                match self.post_at(&store, i) {
                    Some(post) => {
                        out.push(post.text);
                    },
                    None => {},
                }
            }
            i += 1;
        }
        out
    }

    /// Returns the path of the first operation that `get_post` returns a post
    /// for.
    pub fn get_post_path(&self) -> (r: Option<String>)
        ensures
            match r {
                Some(p) => self.post_positions().len() > 0 && p@
                    == self.ops[self.post_positions()[0]].path@,
                None => self.post_positions().len() == 0,
            },
    {
        let store = Blocks::from(self.blocks.as_slice());
        let ghost f = |op: ComAtprotoSyncSubscribereposRepoop| yields_post(op, self.blocks@);
        let mut i: usize = 0;
        while i < self.ops.len()
            invariant
                i <= self.ops.len(),
                f == |op: ComAtprotoSyncSubscribereposRepoop| yields_post(op, self.blocks@),
                forall|c: crate::cid::CidView| store.value_of(c) == archive_value(self.blocks@, c),
                positions(self.ops@, f, i as int).len() == 0,
            decreases self.ops.len() - i,
        {
            match self.post_at(&store, i) {
                Some(_) => {
                    proof {
                        assert(positions(self.ops@, f, i + 1) =~= seq![i as int]);
                        lemma_positions_first(self.ops@, f, i + 1, self.ops@.len() as int);
                    }
                    return Some(self.ops[i].path.clone());
                },
                None => {},
            }
            i += 1;
        }
        None
    }

    /// The positions of the operations that `get_post` returns a post for.
    pub open spec fn post_positions(&self) -> Seq<int> {
        positions(
            self.ops@,
            |op: ComAtprotoSyncSubscribereposRepoop| yields_post(op, self.blocks@),
            self.ops@.len() as int,
        )
    }

    /// The positions of the operations that create or update a record whose
    /// identifier does not resolve in the commit's archive.
    pub open spec fn unresolved_positions(&self) -> Seq<int> {
        positions(
            self.ops@,
            |op: ComAtprotoSyncSubscribereposRepoop|
                needs_record(op) && resolved(op, self.blocks@) is None,
            self.ops@.len() as int,
        )
    }

    /// The operations that create or update a record but whose identifier
    /// resolves to nothing in the commit's archive, by position: what a caller
    /// has to warn about.
    pub fn unresolved_ops(&self) -> (r: Vec<usize>)
        ensures
            r@.map_values(|i: usize| i as int) == self.unresolved_positions(),
            forall|i: int|
                0 <= i < self.ops.len() && needs_record(self.ops[i]) ==> resolved(
                    #[trigger] self.ops[i],
                    self.blocks@,
                ) is Some || r@.contains(i as usize),
    {
        let store = Blocks::from(self.blocks.as_slice());
        let mut out: Vec<usize> = Vec::new();
        let ghost f = |op: ComAtprotoSyncSubscribereposRepoop|
            needs_record(op) && resolved(op, self.blocks@) is None;
        let mut i: usize = 0;
        while i < self.ops.len()
            invariant
                i <= self.ops.len(),
                f == |op: ComAtprotoSyncSubscribereposRepoop|
                    needs_record(op) && resolved(op, self.blocks@) is None,
                forall|c: crate::cid::CidView| store.value_of(c) == archive_value(self.blocks@, c),
                out@.map_values(|i: usize| i as int) == positions(self.ops@, f, i as int),
            decreases self.ops.len() - i,
        {
            let op = &self.ops[i];
            if str_eq(op.action.as_str(), "create") || str_eq(op.action.as_str(), "update") {
                let hit = match Cid::from_str(op.cid.as_str()) {
                    Some(cid) => store.get(&cid).is_some(),
                    None => false,
                };
                if !hit {
                    let ghost before = out@.map_values(|i: usize| i as int);
                    out.push(i);
                    assert(out@.map_values(|i: usize| i as int) =~= before.push(i as int));
                }
            }
            i += 1;
        }
        proof {
            lemma_positions(self.ops@, f, self.ops@.len() as int);
            assert forall|i: int|
                0 <= i < self.ops.len() && needs_record(self.ops[i]) && !(resolved(
                    self.ops[i],
                    self.blocks@,
                ) is Some) implies out@.contains(i as usize) by {
                let p = positions(self.ops@, f, self.ops@.len() as int);
                assert(f(self.ops@[i]));
                assert(p.contains(i));
                let k = choose|k: int| 0 <= k < p.len() && p[k] == i;
                assert(out@.map_values(|i: usize| i as int)[k] == i);
                assert(out@[k] == i as usize);
            }
        }
        out
    }
}

} // verus!
