//! The posts that a feed is made of: a store that lists them newest first and
//! hands them out page by page.
use crate::api::{AppBskyFeedDefsSkeletonfeedpost, AppBskyFeedGetfeedskeleton, AppBskyFeedPost, PostView};
use crate::cid::{lemma_cid_order_total, lemma_cid_order_transitive, Cid, CidView};
use crate::filter::{clone_opt_strings, has_string};
use crate::text::{
    digit_value, int_text, int_to_string, lemma_int_text_reads_back, parse_i64, parse_i64_spec, str_eq, to_chars,
};
use crate::time::{from_timestamp, now, timestamp_representable, Timestamp};
use vstd::prelude::*;

verus! {

/// What posts are ordered by: the instant of indexing, then the identifier.
pub struct Key {
    pub time: Timestamp,
    pub cid: CidView,
}

impl Key {
    /// `self` is older than `other`: indexed earlier, or at the same instant
    /// with a smaller identifier.
    pub open spec fn lt(self, other: Key) -> bool {
        self.time.before(&other.time) || (self.time == other.time && self.cid.lt(other.cid))
    }
}

/// Of two keys exactly one holds: the first is older, they are equal, or the
/// second is older.
pub proof fn lemma_key_order_total(a: Key, b: Key)
    ensures
        a.lt(b) || b.lt(a) || a == b,
        !(a.lt(b) && b.lt(a)),
        !a.lt(a),
{
    lemma_cid_order_total(a.cid, b.cid);
    lemma_cid_order_total(a.cid, a.cid);
}

/// "Older than" is transitive.
pub proof fn lemma_key_order_transitive(a: Key, b: Key, c: Key)
    requires
        a.lt(b),
        b.lt(c),
    ensures
        a.lt(c),
{
    if a.time == b.time && b.time == c.time {
        lemma_cid_order_transitive(a.cid, b.cid, c.cid);
    }
}

/// Structure of PDS posts
#[derive(Debug, Clone, PartialEq, Eq)]
pub struct FeedPost {
    pub uri: String,
    pub cid: Cid,
    pub repo: String,
    pub indexed_at: Timestamp,
    pub post: AppBskyFeedPost,
}

/// The mathematical value of a [`FeedPost`].
pub struct FeedPostView {
    pub uri: Seq<char>,
    pub cid: CidView,
    pub repo: Seq<char>,
    pub indexed_at: Timestamp,
    pub post: PostView,
}

impl FeedPostView {
    /// The key that the post is ordered by.
    pub open spec fn key(self) -> Key {
        Key { time: self.indexed_at, cid: self.cid }
    }
}

impl DeepView for FeedPost {
    type V = FeedPostView;

    open spec fn deep_view(&self) -> FeedPostView {
        FeedPostView {
            uri: self.uri@,
            cid: self.cid@,
            repo: self.repo@,
            indexed_at: self.indexed_at,
            post: self.post.deep_view(),
        }
    }
}

/// Cursor
#[derive(Debug, Clone, PartialEq, Eq)]
pub struct Cursor {
    pub indexed_at: Timestamp,
    pub cid: Cid,
}

impl Cursor {
    /// The key that the cursor stands at.
    pub open spec fn key(&self) -> Key {
        Key { time: self.indexed_at, cid: self.cid@ }
    }
}

/// `s` with `x` put in behind every post that is not older than `x`: where
/// `s` lists newest first, so does the result, and `x` comes after the posts
/// of its own key.
pub open spec fn insert_sorted(s: Seq<FeedPostView>, x: FeedPostView) -> Seq<FeedPostView>
    decreases s.len(),
{
    if s.len() > 0 && s.last().key().lt(x.key()) {
        insert_sorted(s.drop_last(), x).push(s.last())
    } else {
        s.push(x)
    }
}

/// The first `n` posts of `s`, newest first; posts of one key in the order
/// in which `s` has them.
pub open spec fn sorted_posts(s: Seq<FeedPostView>, n: int) -> Seq<FeedPostView>
    decreases n,
{
    if n <= 0 || n > s.len() {
        Seq::empty()
    } else {
        insert_sorted(sorted_posts(s, n - 1), s[n - 1])
    }
}

/// All posts of `s`, newest first.
pub open spec fn newest_first(s: Seq<FeedPostView>) -> Seq<FeedPostView> {
    sorted_posts(s, s.len() as int)
}

/// The posts of `s` that are older than the key `c`, in order.
pub open spec fn older_than(s: Seq<FeedPostView>, c: Key) -> Seq<FeedPostView>
    decreases s.len(),
{
    if s.len() == 0 {
        Seq::empty()
    } else if s.last().key().lt(c) {
        older_than(s.drop_last(), c).push(s.last())
    } else {
        older_than(s.drop_last(), c)
    }
}

/// The posts of `s` whose address is not among `uris`, in order.
pub open spec fn without_uris(s: Seq<FeedPostView>, uris: Seq<Seq<char>>) -> Seq<FeedPostView>
    decreases s.len(),
{
    if s.len() == 0 {
        Seq::empty()
    } else if uris.contains(s.last().uri) {
        without_uris(s.drop_last(), uris)
    } else {
        without_uris(s.drop_last(), uris).push(s.last())
    }
}

/// The posts that a page starts from: all of them, or those older than the
/// cursor.
pub open spec fn candidates(sorted: Seq<FeedPostView>, cursor: Option<Key>) -> Seq<FeedPostView> {
    match cursor {
        Some(c) => older_than(sorted, c),
        None => sorted,
    }
}

/// The posts of a page: the first `limit` of the candidates.
pub open spec fn page_feed(sorted: Seq<FeedPostView>, limit: nat, cursor: Option<Key>) -> Seq<
    FeedPostView,
> {
    let c = candidates(sorted, cursor);
    if limit < c.len() {
        c.take(limit as int)
    } else {
        c
    }
}

/// The key to go on from after a page: that of the last post of the page,
/// where the page has a post and the candidates end with a post of another
/// address; nothing where the page reaches the end.
pub open spec fn page_next(sorted: Seq<FeedPostView>, limit: nat, cursor: Option<Key>) -> Option<Key> {
    let c = candidates(sorted, cursor);
    let f = page_feed(sorted, limit, cursor);
    if f.len() > 0 && c.last().uri != f.last().uri {
        Some(f.last().key())
    } else {
        None
    }
}

/// The text of a cursor: the milliseconds of the instant, `::`, the text of
/// the identifier.
pub open spec fn cursor_text(k: Key) -> Seq<char> {
    int_text(k.time.millis()) + "::"@ + k.cid.text()
}

/// `s` lists no post before a newer one.
pub open spec fn is_newest_first(s: Seq<FeedPostView>) -> bool {
    forall|i: int, j: int| 0 <= i < j < s.len() ==> !(#[trigger] s[i]).key().lt((#[trigger] s[j]).key())
}

/// `s` lists every post before all older ones, and no two posts of one key.
pub open spec fn is_strictly_newest_first(s: Seq<FeedPostView>) -> bool {
    forall|i: int, j: int| 0 <= i < j < s.len() ==> (#[trigger] s[j]).key().lt((#[trigger] s[i]).key())
}

/// No two posts of `s` have the same key.
pub open spec fn has_distinct_keys(s: Seq<FeedPostView>) -> bool {
    forall|i: int, j: int| 0 <= i < j < s.len() ==> (#[trigger] s[i]).key() != (#[trigger] s[j]).key()
}

/// No two posts of `s` have the same address.
pub open spec fn has_distinct_uris(s: Seq<FeedPostView>) -> bool {
    forall|i: int, j: int| 0 <= i < j < s.len() ==> (#[trigger] s[i]).uri != (#[trigger] s[j]).uri
}

/// Where `insert_sorted` puts a post: behind the posts that are not older,
/// before the older ones.
pub proof fn lemma_insert_sorted(s: Seq<FeedPostView>, x: FeedPostView) -> (pos: int)
    requires
        is_newest_first(s),
    ensures
        0 <= pos <= s.len(),
        insert_sorted(s, x) == s.insert(pos, x),
        forall|k: int| 0 <= k < pos ==> !(#[trigger] s[k]).key().lt(x.key()),
        forall|k: int| pos <= k < s.len() ==> (#[trigger] s[k]).key().lt(x.key()),
        is_newest_first(insert_sorted(s, x)),
    decreases s.len(),
{
    let r = insert_sorted(s, x);
    if s.len() > 0 && s.last().key().lt(x.key()) {
        let t = s.drop_last();
        assert forall|i: int, j: int| 0 <= i < j < t.len() implies !(#[trigger] t[i]).key().lt(
            (#[trigger] t[j]).key(),
        ) by {
            assert(t[i] == s[i] && t[j] == s[j]);
        }
        let pos = lemma_insert_sorted(t, x);
        assert(r =~= s.insert(pos, x));
        assert forall|k: int| 0 <= k < pos implies !(#[trigger] s[k]).key().lt(x.key()) by {
            assert(s[k] == t[k]);
        }
        assert forall|k: int| pos <= k < s.len() implies (#[trigger] s[k]).key().lt(x.key()) by {
            if k < t.len() {
                assert(s[k] == t[k]);
            }
        }
        lemma_insert_keeps_order(s, x, pos);
        pos
    } else {
        let pos = s.len() as int;
        assert(r =~= s.insert(pos, x));
        assert forall|k: int| 0 <= k < pos implies !(#[trigger] s[k]).key().lt(x.key()) by {
            if s[k].key().lt(x.key()) {
                // s[k] is not older than the last post, which is not older than x
                lemma_key_order_total(s.last().key(), x.key());
                if k < s.len() - 1 {
                    assert(!s[k].key().lt(s[s.len() - 1].key()));
                    lemma_key_order_total(s[k].key(), s.last().key());
                    if x.key().lt(s.last().key()) {
                        lemma_key_order_transitive(s[k].key(), x.key(), s.last().key());
                    }
                }
            }
        }
        lemma_insert_keeps_order(s, x, pos);
        pos
    }
}

/// Putting a post between the posts that are not older and the older ones
/// keeps the list newest first.
proof fn lemma_insert_keeps_order(s: Seq<FeedPostView>, x: FeedPostView, pos: int)
    requires
        is_newest_first(s),
        0 <= pos <= s.len(),
        forall|k: int| 0 <= k < pos ==> !(#[trigger] s[k]).key().lt(x.key()),
        forall|k: int| pos <= k < s.len() ==> (#[trigger] s[k]).key().lt(x.key()),
    ensures
        is_newest_first(s.insert(pos, x)),
{
    let r = s.insert(pos, x);
    assert forall|i: int, j: int| 0 <= i < j < r.len() implies !(#[trigger] r[i]).key().lt(
        (#[trigger] r[j]).key(),
    ) by {
        if i == pos {
            assert(r[j] == s[j - 1]);
            lemma_key_order_total(x.key(), s[j - 1].key());
        } else if j == pos {
            assert(r[i] == s[i]);
        } else {
            let a = if i < pos {
                i
            } else {
                i - 1
            };
            let b = if j < pos {
                j
            } else {
                j - 1
            };
            assert(r[i] == s[a] && r[j] == s[b]);
        }
    }
}

/// The sorted list is newest first.
pub proof fn lemma_sorted_is_newest_first(s: Seq<FeedPostView>, n: int)
    requires
        0 <= n <= s.len(),
    ensures
        is_newest_first(sorted_posts(s, n)),
        sorted_posts(s, n).len() == n,
    decreases n,
{
    if n > 0 {
        lemma_sorted_is_newest_first(s, n - 1);
        let pos = lemma_insert_sorted(sorted_posts(s, n - 1), s[n - 1]);
    }
}

/// Sorting loses no post and adds none: the sorted list holds each post as
/// often as the list it was made of.
pub proof fn lemma_sorted_same_posts(s: Seq<FeedPostView>, n: int)
    requires
        0 <= n <= s.len(),
    ensures
        sorted_posts(s, n).to_multiset() == s.take(n).to_multiset(),
    decreases n,
{
    if n > 0 {
        lemma_sorted_is_newest_first(s, n - 1);
        lemma_sorted_same_posts(s, n - 1);
        let prev = sorted_posts(s, n - 1);
        let pos = lemma_insert_sorted(prev, s[n - 1]);
        assert(s.take(n) =~= s.take(n - 1).push(s[n - 1]));
        vstd::seq_lib::to_multiset_insert(prev, pos, s[n - 1]);
        vstd::seq_lib::to_multiset_build(s.take(n - 1), s[n - 1]);
    } else {
        assert(s.take(0) =~= Seq::<FeedPostView>::empty());
        assert(sorted_posts(s, 0) =~= Seq::<FeedPostView>::empty());
    }
}

/// Every post of the sorted list is one of the posts it was made of, and of
/// posts with distinct keys the sorted list has distinct keys.
pub proof fn lemma_sorted_members(s: Seq<FeedPostView>, n: int)
    requires
        0 <= n <= s.len(),
    ensures
        forall|k: int|
            0 <= k < sorted_posts(s, n).len() ==> exists|i: int|
                0 <= i < n && s[i] == #[trigger] sorted_posts(s, n)[k],
        has_distinct_keys(s) ==> has_distinct_keys(sorted_posts(s, n)),
    decreases n,
{
    if n > 0 {
        lemma_sorted_is_newest_first(s, n - 1);
        lemma_sorted_members(s, n - 1);
        let prev = sorted_posts(s, n - 1);
        let x = s[n - 1];
        let pos = lemma_insert_sorted(prev, x);
        let r = sorted_posts(s, n);
        assert forall|k: int| 0 <= k < r.len() implies exists|i: int|
            0 <= i < n && s[i] == #[trigger] r[k] by {
            if k < pos {
                assert(r[k] == prev[k]);
                let i = choose|i: int| 0 <= i < n - 1 && s[i] == prev[k];
                assert(s[i] == r[k]);
            } else if k == pos {
                assert(s[n - 1] == r[k]);
            } else {
                assert(r[k] == prev[k - 1]);
                let i = choose|i: int| 0 <= i < n - 1 && s[i] == prev[k - 1];
                assert(s[i] == r[k]);
            }
        }
        if has_distinct_keys(s) {
            assert forall|a: int, b: int| 0 <= a < b < r.len() implies (#[trigger] r[a]).key() != (
            #[trigger] r[b]).key() by {
                let pa = if a < pos {
                    a
                } else {
                    a - 1
                };
                let pb = if b < pos {
                    b
                } else {
                    b - 1
                };
                if a == pos {
                    assert(r[b] == prev[pb]);
                    let i = choose|i: int| 0 <= i < n - 1 && s[i] == prev[pb];
                    assert(s[i].key() != s[n - 1].key());
                } else if b == pos {
                    assert(r[a] == prev[pa]);
                    let i = choose|i: int| 0 <= i < n - 1 && s[i] == prev[pa];
                    assert(s[i].key() != s[n - 1].key());
                } else {
                    assert(r[a] == prev[pa] && r[b] == prev[pb]);
                }
            }
        }
    }
}

/// Of posts with distinct keys the sorted list has every post before all
/// older ones.
pub proof fn lemma_sorted_is_strict(s: Seq<FeedPostView>)
    requires
        has_distinct_keys(s),
    ensures
        is_strictly_newest_first(newest_first(s)),
{
    let r = newest_first(s);
    lemma_sorted_is_newest_first(s, s.len() as int);
    lemma_sorted_members(s, s.len() as int);
    assert forall|i: int, j: int| 0 <= i < j < r.len() implies (#[trigger] r[j]).key().lt(
        (#[trigger] r[i]).key(),
    ) by {
        lemma_key_order_total(r[i].key(), r[j].key());
    }
}

/// In a list that has every post before all older ones, the posts older than
/// the post at `k - 1` are exactly those from `k` on.
pub proof fn lemma_older_than_is_rest(s: Seq<FeedPostView>, k: int)
    requires
        is_strictly_newest_first(s),
        1 <= k <= s.len(),
    ensures
        older_than(s, s[k - 1].key()) == s.skip(k),
    decreases s.len() - k,
{
    let c = s[k - 1].key();
    assert forall|i: int| 0 <= i < k implies !(#[trigger] s[i]).key().lt(c) by {
        lemma_key_order_total(s[i].key(), c);
        if i < k - 1 {
            assert(s[k - 1].key().lt(s[i].key()));
        }
    }
    lemma_older_than_split(s, c, k, s.len() as int);
    assert(s.take(s.len() as int) =~= s);
    assert(s.subrange(k, s.len() as int) =~= s.skip(k));
}

/// Where the first `k` posts are not older than `c` and the posts from `k`
/// to `n` are, the posts older than `c` among the first `n` are those from `k`
/// to `n`.
proof fn lemma_older_than_split(s: Seq<FeedPostView>, c: Key, k: int, n: int)
    requires
        0 <= k <= n <= s.len(),
        forall|i: int| 0 <= i < k ==> !(#[trigger] s[i]).key().lt(c),
        forall|i: int| k <= i < n ==> (#[trigger] s[i]).key().lt(c),
    ensures
        older_than(s.take(n), c) == s.subrange(k, n),
    decreases n,
{
    let t = s.take(n);
    if n == 0 {
        assert(s.subrange(k, n) =~= Seq::empty());
    } else {
        assert(t.drop_last() =~= s.take(n - 1));
        assert(t.last() == s[n - 1]);
        if n > k {
            lemma_older_than_split(s, c, k, n - 1);
            assert(s.subrange(k, n - 1).push(s[n - 1]) =~= s.subrange(k, n));
        } else {
            lemma_older_than_split(s, c, n - 1, n - 1);
            assert(s.subrange(n - 1, n - 1) =~= Seq::empty());
            assert(s.subrange(k, n) =~= Seq::empty());
        }
    }
}

/// The posts handed out when paging through `sorted` from `cursor` on, page
/// after page, each page going on from the key that the page before gave, for
/// at most `fuel` pages.
pub open spec fn paged(sorted: Seq<FeedPostView>, limit: nat, cursor: Option<Key>, fuel: nat) -> Seq<
    FeedPostView,
>
    decreases fuel,
{
    let feed = page_feed(sorted, limit, cursor);
    match page_next(sorted, limit, cursor) {
        Some(next) => if fuel == 0 {
            feed
        } else {
            feed + paged(sorted, limit, Some(next), (fuel - 1) as nat)
        },
        None => feed,
    }
}

/// Paging from the post at `start` on hands out the rest of the list.
proof fn lemma_paged_rest(sorted: Seq<FeedPostView>, limit: nat, start: int, fuel: nat)
    requires
        is_strictly_newest_first(sorted),
        has_distinct_uris(sorted),
        limit >= 1,
        0 <= start <= sorted.len(),
        fuel >= sorted.len() - start,
    ensures
        paged(
            sorted,
            limit,
            if start == 0 {
                None
            } else {
                Some(sorted[start - 1].key())
            },
            fuel,
        ) == sorted.skip(start),
    decreases sorted.len() - start,
{
    let cursor = if start == 0 {
        None
    } else {
        Some(sorted[start - 1].key())
    };
    if start > 0 {
        lemma_older_than_is_rest(sorted, start);
    } else {
        assert(sorted.skip(0) =~= sorted);
    }
    let c = candidates(sorted, cursor);
    assert(c == sorted.skip(start));
    let feed = page_feed(sorted, limit, cursor);
    if limit < c.len() {
        assert(feed.last() == sorted[start + limit - 1]);
        assert(c.last() == sorted[sorted.len() - 1]);
        assert(page_next(sorted, limit, cursor) == Some(sorted[start + limit - 1].key()));
        lemma_paged_rest(sorted, limit, start + limit, (fuel - 1) as nat);
        assert(feed + sorted.skip(start + limit) =~= sorted.skip(start));
    } else {
        assert(page_next(sorted, limit, cursor) is None);
    }
}

/// Paging is stable: of posts with distinct keys and addresses, the pages
/// handed out one after the other, each from the key that the page before
/// gave, make up the whole list, newest first, with no post twice. (The keys
/// are those of the posts; the text of a cursor keeps the instant to the
/// millisecond.)
pub proof fn lemma_paging_is_stable(posts: Seq<FeedPostView>, limit: nat)
    requires
        has_distinct_keys(posts),
        has_distinct_uris(posts),
        limit >= 1,
    ensures
        paged(newest_first(posts), limit, None, posts.len()) == newest_first(posts),
        is_strictly_newest_first(newest_first(posts)),
        newest_first(posts).no_duplicates(),
{
    let sorted = newest_first(posts);
    lemma_sorted_is_newest_first(posts, posts.len() as int);
    lemma_sorted_is_strict(posts);
    lemma_sorted_members(posts, posts.len() as int);
    assert forall|i: int, j: int| 0 <= i < j < sorted.len() implies (#[trigger] sorted[i]).uri != (
    #[trigger] sorted[j]).uri by {
        let a = choose|a: int| 0 <= a < posts.len() && posts[a] == sorted[i];
        let b = choose|b: int| 0 <= b < posts.len() && posts[b] == sorted[j];
        lemma_key_order_total(sorted[i].key(), sorted[j].key());
        assert(a != b);
        if a < b {
            assert(posts[a].uri != posts[b].uri);
        } else {
            assert(posts[b].uri != posts[a].uri);
        }
    }
    lemma_paged_rest(sorted, limit, 0, posts.len());
    assert(sorted.skip(0) =~= sorted);
    assert forall|i: int, j: int| 0 <= i < sorted.len() && 0 <= j < sorted.len() && i != j implies sorted[i]
        != sorted[j] by {
        if i < j {
            assert(sorted[i].uri != sorted[j].uri);
        } else {
            assert(sorted[j].uri != sorted[i].uri);
        }
    }
}

/// A page has at most `limit` posts, and they are the first of the
/// candidates, newest first.
pub proof fn lemma_page_is_bounded_and_ordered(posts: Seq<FeedPostView>, limit: nat)
    ensures
        page_feed(newest_first(posts), limit, None).len() <= limit,
        is_newest_first(page_feed(newest_first(posts), limit, None)),
{
    let sorted = newest_first(posts);
    lemma_sorted_is_newest_first(posts, posts.len() as int);
    let f = page_feed(sorted, limit, None);
    assert forall|i: int, j: int| 0 <= i < j < f.len() implies !(#[trigger] f[i]).key().lt(
        (#[trigger] f[j]).key(),
    ) by {
        assert(f[i] == sorted[i] && f[j] == sorted[j]);
    }
}

/// Position of the first `::` at or after `from`, or the length of `s`.
pub open spec fn colons_at(s: Seq<char>, from: int) -> int
    decreases s.len() - from,
{
    if from < 0 || from + 1 >= s.len() {
        s.len() as int
    } else if s[from] == ':' && s[from + 1] == ':' {
        from
    } else {
        colons_at(s, from + 1)
    }
}

/// The first two pieces of `s` split at `::`, if there are two.
pub open spec fn cursor_pieces(s: Seq<char>) -> Option<(Seq<char>, Seq<char>)> {
    let i = colons_at(s, 0);
    if i >= s.len() {
        None
    } else {
        Some((s.subrange(0, i), s.subrange(i + 2, colons_at(s, i + 2))))
    }
}

/// The seconds and nanoseconds of the instant that lies `ts` milliseconds
/// after the epoch, or before it where `ts` is negative: the whole seconds
/// below it, and the milliseconds into that second as nanoseconds.
pub open spec fn split_millis(ts: i64) -> (i64, u32) {
    ((ts / 1000) as i64, ((ts % 1000) * 1_000_000) as u32)
}

/// The key that a cursor text stands for, if it is one.
pub open spec fn cursor_text_value(s: Seq<char>) -> Option<Key> {
    match cursor_pieces(s) {
        Some((t, c)) => match parse_i64_spec(t) {
            Some(ts) => if timestamp_representable(split_millis(ts).0, split_millis(ts).1) {
                match crate::cid::cid_text_value(c) {
                    Some(cid) => Some(
                        Key {
                            time: Timestamp { secs: split_millis(ts).0, nanos: split_millis(ts).1 },
                            cid,
                        },
                    ),
                    None => None,
                }
            } else {
                None
            },
            None => None,
        },
        None => None,
    }
}

proof fn lemma_colons_at(s: Seq<char>, from: int)
    requires
        0 <= from <= s.len(),
    ensures
        from <= colons_at(s, from) <= s.len(),
        colons_at(s, from) < s.len() ==> colons_at(s, from) + 2 <= s.len(),
    decreases s.len() - from,
{
    if from + 1 < s.len() && !(s[from] == ':' && s[from + 1] == ':') {
        lemma_colons_at(s, from + 1);
    }
}

/// Where `head` holds no colon and `tail` no two colons in a row, the first
/// `::` of `head + "::" + tail` is the one between them, and there is none
/// after it.
proof fn lemma_colons_between(head: Seq<char>, tail: Seq<char>, from: int)
    requires
        forall|i: int| 0 <= i < head.len() ==> #[trigger] head[i] != ':',
        colons_at(tail, 0) >= tail.len(),
        0 <= from <= head.len(),
    ensures
        colons_at(head + seq![':', ':'] + tail, from) == head.len(),
    decreases head.len() - from,
{
    let s = head + seq![':', ':'] + tail;
    assert(s[from] == if from < head.len() as int {
        head[from]
    } else {
        ':'
    });
    if from < head.len() {
        lemma_colons_between(head, tail, from + 1);
    } else {
        assert(s[from + 1] == ':');
    }
}

/// Where `tail` holds no two colons in a row from `from` on, neither does
/// `lead + tail` from there on.
proof fn lemma_no_colons_after(lead: Seq<char>, tail: Seq<char>, from: int)
    requires
        0 <= from <= tail.len(),
        colons_at(tail, from) >= tail.len(),
    ensures
        colons_at(lead + tail, lead.len() + from) == (lead + tail).len(),
    decreases tail.len() - from,
{
    let s = lead + tail;
    if from + 1 < tail.len() {
        assert(s[lead.len() + from] == tail[from]);
        assert(s[lead.len() + from + 1] == tail[from + 1]);
        lemma_no_colons_after(lead, tail, from + 1);
    }
}

/// The text of a cursor reads back as a cursor of the same millisecond and
/// with the same identifier, and that cursor has the same text. This holds of
/// every instant that `chrono` can hold, but for a leap second within the last
/// second that it can hold, and of every identifier whose text holds no `::`
/// and reads back as the identifier.
pub proof fn lemma_cursor_text_reads_back(k: Key)
    requires
        timestamp_representable(k.time.secs, k.time.nanos),
        k.time.nanos < 1_000_000_000 || k.time.secs < crate::time::MAX_SECS,
        colons_at(k.cid.text(), 0) >= k.cid.text().len(),
        crate::cid::cid_text_value(k.cid.text()) == Some(k.cid),
    ensures
        cursor_text_value(cursor_text(k)) matches Some(r) && r.cid == k.cid && r.time.millis()
            == k.time.millis() && cursor_text(r) == cursor_text(k),
{
    let m = k.time.millis();
    let head = int_text(m);
    let tail = k.cid.text();
    let s = cursor_text(k);
    reveal_strlit("::");
    assert("::"@ =~= seq![':', ':']);
    assert(s =~= head + seq![':', ':'] + tail);
    lemma_int_text_reads_back(m);
    assert forall|i: int| 0 <= i < head.len() implies #[trigger] head[i] != ':' by {
        assert(head[i] == '-' || digit_value(head[i]) is Some);
    }
    lemma_colons_between(head, tail, 0);
    lemma_no_colons_after(head + seq![':', ':'], tail, 0);
    let n = head.len() as int;
    assert(colons_at(s, 0) == n);
    assert(colons_at(s, n + 2) == s.len());
    assert(s.subrange(0, n) =~= head);
    assert(s.subrange(n + 2, s.len() as int) =~= tail);
    assert(cursor_pieces(s) == Some((head, tail)));
    assert(parse_i64_spec(head) == Some(m as i64));
}

/// Finds the first `::` at or after `from`.
fn find_colons(s: &Vec<char>, from: usize) -> (r: usize)
    requires
        from <= s.len(),
    ensures
        r == colons_at(s@, from as int),
        from <= r <= s.len(),
        r < s.len() ==> r + 2 <= s.len(),
{
    proof {
        lemma_colons_at(s@, from as int);
    }
    let mut i: usize = from;
    while i < s.len() && s.len() - i >= 2 && !(s[i] == ':' && s[i + 1] == ':')
        invariant
            from <= i <= s.len(),
            colons_at(s@, from as int) == colons_at(s@, i as int),
        decreases s.len() - i,
    {
        i += 1;
    }
    if i < s.len() && s.len() - i >= 2 {
        i
    } else {
        s.len()
    }
}

impl AppBskyFeedPost {
    /// A copy of the post.
    pub fn duplicate(&self) -> (r: AppBskyFeedPost)
        ensures
            r.deep_view() == self.deep_view(),
    {
        AppBskyFeedPost {
            text: self.text.clone(),
            created_at: self.created_at,
            langs: clone_opt_strings(&self.langs),
            tags: clone_opt_strings(&self.tags),
            json: self.json.clone(),
        }
    }
}

impl FeedPost {
    /// Create a record of PDS post, indexed now. An identifier that cannot
    /// be read is replaced by the default one.
    pub fn new(uri: &str, cid: &str, repo: &str, post: &AppBskyFeedPost) -> (r: FeedPost)
        ensures
            r.deep_view() == FeedPost::made(uri@, cid@, repo@, post.deep_view(), r.indexed_at),
            r.indexed_at.wf(),
    {
        FeedPost::new_at(uri, cid, repo, post, now())
    }

    /// What `new_at` makes.
    pub open spec fn made(
        uri: Seq<char>,
        cid: Seq<char>,
        repo: Seq<char>,
        post: PostView,
        indexed_at: Timestamp,
    ) -> FeedPostView {
        FeedPostView {
            uri,
            cid: match crate::cid::cid_text_value(cid) {
                Some(c) => c,
                None => CidView { version: 1, codec: 0, hash_code: 0, digest: Seq::<u8>::empty() },
            },
            repo,
            indexed_at,
            post,
        }
    }

    /// Create a record of PDS post, indexed at the given instant.
    pub fn new_at(
        uri: &str,
        cid: &str,
        repo: &str,
        post: &AppBskyFeedPost,
        indexed_at: Timestamp,
    ) -> (r: FeedPost)
        ensures
            r.deep_view() == FeedPost::made(uri@, cid@, repo@, post.deep_view(), indexed_at),
    {
        FeedPost {
            uri: uri.to_string(),
            cid: match Cid::from_str(cid) {
                Some(c) => c,
                None => Cid::default(),
            },
            repo: repo.to_string(),
            indexed_at,
            post: post.duplicate(),
        }
    }

    /// A copy of the post.
    pub fn duplicate(&self) -> (r: FeedPost)
        ensures
            r.deep_view() == self.deep_view(),
    {
        FeedPost {
            uri: self.uri.clone(),
            cid: self.cid.duplicate(),
            repo: self.repo.clone(),
            indexed_at: self.indexed_at,
            post: self.post.duplicate(),
        }
    }

    /// Whether the key of `self` is older than `key`.
    fn is_older(&self, time: &Timestamp, cid: &Cid) -> (r: bool)
        ensures
            r == self.deep_view().key().lt(Key { time: *time, cid: cid@ }),
    {
        if self.indexed_at.is_before(time) {
            true
        } else if self.indexed_at.secs == time.secs && self.indexed_at.nanos == time.nanos {
            self.cid.is_less(cid)
        } else {
            false
        }
    }

    /// Compare if the post is older than the cursor
    pub fn is_old(&self, cursor: &Cursor) -> (r: bool)
        ensures
            r == self.deep_view().key().lt(cursor.key()),
    {
        self.is_older(&cursor.indexed_at, &cursor.cid)
    }

    /// Convert to cursor
    pub fn to_cursor(&self) -> (r: Cursor)
        ensures
            r.key() == self.deep_view().key(),
    {
        Cursor { indexed_at: self.indexed_at, cid: self.cid.duplicate() }
    }

    /// The entry of a feed skeleton for the post.
    pub fn to_response(&self) -> (r: AppBskyFeedDefsSkeletonfeedpost)
        ensures
            r.post@ == self.uri@,
    {
        AppBskyFeedDefsSkeletonfeedpost { post: self.uri.clone() }
    }
}

impl Cursor {
    /// The text of the cursor.
    pub fn to_string(&self) -> (r: String)
        ensures
            r@ == cursor_text(self.key()),
    {
        let millis: i128 = self.indexed_at.secs as i128 * 1000 + (self.indexed_at.nanos / 1_000_000) as i128;
        let mut out = int_to_string(millis);
        out.append("::");
        out.append(self.cid.to_string().as_str());
        out
    }

    /// Parse http request parameter as a cursor
    pub fn parse(cursor: &str) -> (r: Option<Cursor>)
        ensures
            match r {
                Some(c) => cursor_text_value(cursor@) == Some(c.key()),
                None => cursor_text_value(cursor@) is None,
            },
    {
        let chars = to_chars(cursor);
        let i = find_colons(&chars, 0);
        if i >= chars.len() {
            return None;
        }
        let j = find_colons(&chars, i + 2);
        let ts_text = crate::text::from_chars_range(&chars, 0, i);
        let cid_text = crate::text::from_chars_range(&chars, i + 2, j);
        let ts = match parse_i64(ts_text.as_str()) {
            Some(ts) => ts,
            None => return None,
        };
        let (secs, nanos): (i64, u32) = if ts >= 0 {
            (ts / 1000, (ts % 1000) as u32 * 1_000_000)
        } else {
            // the whole seconds below a negative number of milliseconds
            let below: i64 = -(ts + 1);
            (-(below / 1000) - 1, (999 - below % 1000) as u32 * 1_000_000)
        };
        let indexed_at = match from_timestamp(secs, nanos) {
            Some(t) => t,
            None => return None,
        };
        match Cid::from_str(cid_text.as_str()) {
            Some(cid) => Some(Cursor { indexed_at, cid }),
            None => None,
        }
    }

    /// Convert PDS post to cursor
    pub fn from_feedpost(post: &FeedPost) -> (r: Option<Cursor>)
        ensures
            r matches Some(c) && c.key() == post.deep_view().key(),
    {
        Some(post.to_cursor())
    }
}

/// List of PDS posts
#[derive(Debug, Clone, PartialEq, Eq)]
pub struct FeedPosts {
    pub posts: Vec<FeedPost>,
}

impl FeedPosts {
    /// The empty list.
    pub fn default() -> (r: FeedPosts)
        ensures
            r.posts@.len() == 0,
    {
        FeedPosts { posts: Vec::new() }
    }

    /// The list of the given posts.
    pub fn from(value: Vec<FeedPost>) -> (r: FeedPosts)
        ensures
            r.posts == value,
    {
        FeedPosts { posts: value }
    }

    /// Append PDS posts to this list
    pub fn append_posts(&mut self, new_posts: &[FeedPost])
        ensures
            final(self).posts.deep_view() == old(self).posts.deep_view() + new_posts.deep_view(),
    {
        let ghost start = self.posts.deep_view();
        let mut i: usize = 0;
        assert(new_posts.deep_view().take(0) =~= Seq::empty());
        assert(start + Seq::empty() =~= start);
        while i < new_posts.len()
            invariant
                i <= new_posts.len(),
                self.posts.deep_view() == start + new_posts.deep_view().take(i as int),
            decreases new_posts.len() - i,
        {
            let ghost before = self.posts.deep_view();
            self.posts.push(new_posts[i].duplicate());
            proof {
                assert(self.posts.deep_view() =~= before.push(new_posts[i as int].deep_view()));
                assert(new_posts.deep_view().take(i + 1) =~= new_posts.deep_view().take(i as int).push(
                    new_posts[i as int].deep_view(),
                ));
            }
            i += 1;
        }
        assert(new_posts.deep_view().take(i as int) =~= new_posts.deep_view());
    }

    /// Delete PDS posts from this list
    pub fn delete_posts(&mut self, uris: &Vec<String>)
        ensures
            final(self).posts.deep_view() == without_uris(old(self).posts.deep_view(), uris.deep_view()),
    {
        let ghost all = self.posts.deep_view();
        let mut kept: Vec<FeedPost> = Vec::new();
        let mut i: usize = 0;
        assert(all.take(0) =~= Seq::empty());
        assert(kept.deep_view() =~= Seq::empty());
        while i < self.posts.len()
            invariant
                i <= self.posts.len(),
                all == self.posts.deep_view(),
                kept.deep_view() == without_uris(all.take(i as int), uris.deep_view()),
            decreases self.posts.len() - i,
        {
            proof {
                assert(all.take(i + 1).drop_last() =~= all.take(i as int));
                assert(all.take(i + 1).last() == self.posts[i as int].deep_view());
            }
            if !has_string(uris, self.posts[i].uri.as_str()) {
                let ghost before = kept.deep_view();
                kept.push(self.posts[i].duplicate());
                assert(kept.deep_view() =~= before.push(self.posts[i as int].deep_view()));
            }
            i += 1;
        }
        assert(all.take(i as int) =~= all);
        self.posts = kept;
    }

    /// Get all PDS posts of this list, newest first
    pub fn get_all_posts(&self) -> (r: Vec<FeedPost>)
        ensures
            r.deep_view() == newest_first(self.posts.deep_view()),
    {
        // The posts are put in order oldest first, so that a post newer than
        // all before it goes to the end, and are turned around at the end.
        let ghost all = self.posts.deep_view();
        let mut rising: Vec<FeedPost> = Vec::new();
        let mut i: usize = 0;
        while i < self.posts.len()
            invariant
                i <= self.posts.len(),
                all == self.posts.deep_view(),
                rising.len() == i,
                forall|k: int|
                    0 <= k < i ==> (#[trigger] rising.deep_view()[k]) == sorted_posts(all, i as int)[i
                        - 1 - k],
            decreases self.posts.len() - i,
        {
            let x = self.posts[i].duplicate();
            let ghost prev = sorted_posts(all, i as int);
            let ghost up = rising.deep_view();
            proof {
                lemma_sorted_is_newest_first(all, i as int);
            }
            let mut j: usize = rising.len();
            while j > 0 && !rising[j - 1].is_older(&x.indexed_at, &x.cid)
                invariant
                    j <= rising.len(),
                    up == rising.deep_view(),
                    forall|k: int| j <= k < rising.len() ==> !(#[trigger] up[k]).key().lt(x.deep_view().key()),
                decreases j,
            {
                j -= 1;
            }
            proof {
                let pos = lemma_insert_sorted(prev, x.deep_view());
                // the place found is the place that the definition gives,
                // counted from the other end
                if j < i - pos {
                    assert(!up[j as int].key().lt(x.deep_view().key()));
                    assert(up[j as int] == prev[i - 1 - j]);
                    assert(prev[i - 1 - j].key().lt(x.deep_view().key()));
                }
                if j > i - pos {
                    assert(up[j - 1].key().lt(x.deep_view().key()));
                    assert(up[j - 1] == prev[i - j]);
                    assert(!prev[i - j].key().lt(x.deep_view().key()));
                }
                assert(j == i - pos);
                assert(all[i as int] == x.deep_view());
                assert(sorted_posts(all, i + 1) == prev.insert(pos, x.deep_view()));
            }
            rising.insert(j, x);
            proof {
                let next = sorted_posts(all, i + 1);
                assert(rising.deep_view() =~= up.insert(j as int, x.deep_view()));
                assert forall|k: int| 0 <= k < i + 1 implies (#[trigger] rising.deep_view()[k]) == next[i
                    - k] by {
                    if k < j {
                        assert(rising.deep_view()[k] == up[k]);
                        assert(up[k] == prev[i - 1 - k]);
                    } else if k > j {
                        assert(rising.deep_view()[k] == up[k - 1]);
                        assert(up[k - 1] == prev[i - k]);
                    }
                }
            }
            i += 1;
        }
        let ghost sorted = newest_first(all);
        let ghost up = rising.deep_view();
        proof {
            lemma_sorted_is_newest_first(all, all.len() as int);
        }
        let mut out: Vec<FeedPost> = Vec::new();
        while rising.len() > 0
            invariant
                out.len() + rising.len() == up.len(),
                up.len() == sorted.len(),
                forall|k: int| 0 <= k < up.len() ==> (#[trigger] up[k]) == sorted[up.len() - 1 - k],
                forall|k: int| 0 <= k < rising.len() ==> (#[trigger] rising.deep_view()[k]) == up[k],
                forall|k: int| 0 <= k < out.len() ==> (#[trigger] out.deep_view()[k]) == sorted[k],
            decreases rising.len(),
        {
            let ghost before = rising.deep_view();
            let ghost done = out.deep_view();
            match rising.pop() {
                Some(x) => {
                    assert(x.deep_view() == before[before.len() - 1]);
                    out.push(x);
                    assert(out.deep_view() =~= done.push(x.deep_view()));
                    assert forall|k: int| 0 <= k < rising.len() implies (
                    #[trigger] rising.deep_view()[k]) == up[k] by {
                        assert(rising.deep_view()[k] == before[k]);
                    }
                },
                None => {},
            }
        }
        assert(out.deep_view() =~= sorted);
        out
    }

    /// The candidates of a page: all posts newest first, or those of them
    /// that are older than the cursor.
    fn get_candidates(&self, cursor: &Option<Cursor>) -> (r: Vec<FeedPost>)
        ensures
            r.deep_view() == candidates(
                newest_first(self.posts.deep_view()),
                match cursor {
                    Some(c) => Some(c.key()),
                    None => None,
                },
            ),
    {
        let sorted = self.get_all_posts();
        match cursor {
            Some(c) => {
                let ghost all = sorted.deep_view();
                let mut out: Vec<FeedPost> = Vec::new();
                let mut i: usize = 0;
                assert(all.take(0) =~= Seq::empty());
                assert(out.deep_view() =~= Seq::empty());
                while i < sorted.len()
                    invariant
                        i <= sorted.len(),
                        all == sorted.deep_view(),
                        out.deep_view() == older_than(all.take(i as int), c.key()),
                    decreases sorted.len() - i,
                {
                    proof {
                        assert(all.take(i + 1).drop_last() =~= all.take(i as int));
                        assert(all.take(i + 1).last() == sorted[i as int].deep_view());
                    }
                    if sorted[i].is_old(c) {
                        let ghost before = out.deep_view();
                        out.push(sorted[i].duplicate());
                        assert(out.deep_view() =~= before.push(sorted[i as int].deep_view()));
                    }
                    i += 1;
                }
                assert(all.take(i as int) =~= all);
                out
            },
            None => sorted,
        }
    }

    /// Get a fixed number of PDS posts: the first `limit` of the posts older
    /// than the cursor, newest first, and the cursor to go on from if more are
    /// left.
    pub fn get_old_posts(&self, limit: usize, cursor: Option<Cursor>) -> (r:
        AppBskyFeedGetfeedskeleton)
        ensures
            ({
                let sorted = newest_first(self.posts.deep_view());
                let at = match cursor {
                    Some(c) => Some(c.key()),
                    None => None,
                };
                let feed = page_feed(sorted, limit as nat, at);
                &&& r.feed.len() <= limit
                &&& r.feed.len() == feed.len()
                &&& forall|k: int| 0 <= k < feed.len() ==> (#[trigger] r.feed[k]).post@ == feed[k].uri
                &&& r.cursor.deep_view() == match page_next(sorted, limit as nat, at) {
                    Some(k) => Some(cursor_text(k)),
                    None => None,
                }
            }),
    {
        let posts = self.get_candidates(&cursor);
        let ghost c = posts.deep_view();
        let n: usize = if limit < posts.len() {
            limit
        } else {
            posts.len()
        };
        let mut feed: Vec<AppBskyFeedDefsSkeletonfeedpost> = Vec::new();
        let mut i: usize = 0;
        while i < n
            invariant
                i <= n <= posts.len(),
                c == posts.deep_view(),
                feed.len() == i,
                forall|k: int| 0 <= k < i ==> (#[trigger] feed[k]).post@ == c[k].uri,
            decreases n - i,
        {
            feed.push(posts[i].to_response());
            i += 1;
        }
        let next = if n > 0 && !str_eq(posts[posts.len() - 1].uri.as_str(), posts[n - 1].uri.as_str()) {
            Some(posts[n - 1].to_cursor().to_string())
        } else {
            None
        };
        proof {
            let sorted = newest_first(self.posts.deep_view());
            let at = match cursor {
                Some(c) => Some(c.key()),
                None => None,
            };
            let f = page_feed(sorted, limit as nat, at);
            assert(f.len() == n);
            if n > 0 {
                assert(f.last() == c[n - 1]);
                assert(c.last() == posts[posts.len() - 1].deep_view());
            }
        }
        AppBskyFeedGetfeedskeleton { feed, cursor: next }
    }
}

} // verus!
