//! The subscription to the stream of events: which address to open, what to
//! do with each frame, when to open the stream anew, and which readers an
//! event goes to.
use crate::address::{url_extend, url_extended, url_parse, url_parsed};
use crate::event::{frame_error, payload_value, Event, FrameError};
use crate::filter::{has_string, FilterView, Filters};
use crate::ipld::decoded_item;
use crate::text::{joined, int_text, int_to_string, str_eq};
use crate::time::Timestamp;
use vstd::prelude::*;

verus! {

/// Repository Information
#[derive(Debug, Clone, PartialEq, Eq)]
pub struct Repo {
    pub handle: String,
    pub did: String,
    pub collections: Vec<String>,
    pub handle_is_correct: bool,
}

/// Seconds without an event after which the stream is opened anew, unless
/// set otherwise.
pub const DEFAULT_TIMEOUT: i64 = 60;

/// The address that the `url` crate reads from `base`, with `pairs` added to
/// its query; nothing where the crate refuses `base`.
pub open spec fn url_text(base: Seq<char>, pairs: Seq<(Seq<char>, Seq<char>)>) -> Option<Seq<char>> {
    match url_parsed(base) {
        Ok(address) => match url_extended(address, pairs) {
            Ok(text) => Some(text),
            Err(_) => None,
        },
        Err(_) => None,
    }
}

/// Makes the address `base` with `pairs` as its query.
pub fn make_url(base: &str, pairs: &Vec<(String, String)>) -> (r: Option<String>)
    ensures
        r.deep_view() == url_text(base@, pairs.deep_view()),
{
    match url_parse(base) {
        Ok(address) => match url_extend(address.as_str(), pairs) {
            Ok(text) => Some(text),
            Err(_) => None,
        },
        Err(_) => None,
    }
}

/// The address of the stream on `host`, to go on from `cursor` where there is
/// one.
pub open spec fn stream_url(host: Seq<char>, cursor: Option<i64>) -> Option<Seq<char>> {
    url_text(
        "wss://"@ + host + "/xrpc/com.atproto.sync.subscribeRepos"@,
        match cursor {
            Some(c) => seq![("cursor"@, int_text(c as int))],
            None => Seq::empty(),
        },
    )
}

/// Makes the address of the stream on `host`.
pub fn subscribe_url(host: &str, cursor: Option<i64>) -> (r: Option<String>)
    ensures
        r.deep_view() == stream_url(host@, cursor),
{
    let mut base = joined("wss://", host);
    base.append("/xrpc/com.atproto.sync.subscribeRepos");
    let mut pairs: Vec<(String, String)> = Vec::new();
    match cursor {
        Some(c) => {
            pairs.push(("cursor".to_string(), int_to_string(c as i128)));
            assert(pairs.deep_view() =~= seq![("cursor"@, int_text(c as int))]);
        },
        None => {
            assert(pairs.deep_view() =~= Seq::empty());
        },
    }
    make_url(base.as_str(), &pairs)
}

/// Seconds to wait, at the least, before the stream is opened again after an
/// attempt to open it has failed.
pub const RETRY_DELAY: u64 = 1;

/// Where the subscription stands.
#[derive(Debug, Clone, Copy, PartialEq, Eq, Structural)]
pub enum Phase {
    /// Not started.
    Idle,
    /// The stream is open.
    Connected,
    /// Stopped for good.
    Stopped,
}

/// The state of a subscription.
#[derive(Debug, Clone, PartialEq, Eq)]
pub struct Subscriber {
    pub host: String,
    pub phase: Phase,
    /// The sequence number of the last event that had one.
    pub last_seq: Option<i64>,
    /// When the last event came in; nothing before the first event of a
    /// connection.
    pub last_received: Option<Timestamp>,
    /// Seconds without an event after which the stream is opened anew.
    pub timeout: i64,
}

/// What to do after a frame.
#[derive(Debug, Clone, PartialEq, Eq)]
pub enum Step {
    /// Hand the event on to the readers.
    Deliver(Event),
    /// The frame gave no event: pass over it, and say why.
    Skip(FrameError),
}

/// The notice says that the cursor is too old for the relay.
pub open spec fn is_outdated_cursor(e: Event) -> bool {
    e.payload matches crate::api::ComAtprotoSyncSubscribereposMainMessage::ComAtprotoSyncSubscribereposInfo(
        i,
    ) && i.name@ == "OutdatedCursor"@
}

/// The sequence number to go on from after an event: none after a notice of
/// an outdated cursor, that of the event if it has one, else what it was.
pub open spec fn seq_after(last: Option<i64>, e: Event) -> Option<i64> {
    if is_outdated_cursor(e) {
        None
    } else {
        match e.seq() {
            Some(s) => Some(s),
            None => last,
        }
    }
}

impl Subscriber {
    /// A subscription to `host` that has not started.
    pub fn new(host: &str) -> (r: Subscriber)
        ensures
            r.host@ == host@,
            r.phase == Phase::Idle,
            r.last_seq is None,
            r.last_received is None,
            r.timeout == DEFAULT_TIMEOUT,
    {
        Subscriber {
            host: host.to_string(),
            phase: Phase::Idle,
            last_seq: None,
            last_received: None,
            timeout: DEFAULT_TIMEOUT,
        }
    }

    /// Set timeout for waiting to receive events
    pub fn set_timeout(&mut self, seconds: i64)
        ensures
            *final(self) == (Subscriber { timeout: seconds, ..*old(self) }),
    {
        self.timeout = seconds;
    }

    /// Starts the subscription, or starts it anew: the address to open, which
    /// goes on from the last sequence number where one is known. Until the
    /// first event comes in, the watchdog stays quiet. A stopped subscription
    /// stays stopped.
    pub fn start(&mut self) -> (r: Option<String>)
        ensures
            final(self).host == old(self).host,
            final(self).last_seq == old(self).last_seq,
            final(self).timeout == old(self).timeout,
            old(self).phase == Phase::Stopped ==> r is None && *final(self) == *old(self),
            old(self).phase != Phase::Stopped ==> {
                &&& final(self).phase == Phase::Connected
                &&& final(self).last_received is None
                &&& r.deep_view() == stream_url(old(self).host@, old(self).last_seq)
            },
    {
        if self.phase == Phase::Stopped {
            return None;
        }
        self.phase = Phase::Connected;
        self.last_received = None;
        subscribe_url(self.host.as_str(), self.last_seq)
    }

    /// The stream failed or was closed: the address to open at once, which
    /// goes on after the last sequence number where one is known.
    pub fn reconnect(&mut self) -> (r: Option<String>)
        ensures
            final(self).host == old(self).host,
            final(self).last_seq == old(self).last_seq,
            final(self).timeout == old(self).timeout,
            old(self).phase == Phase::Stopped ==> r is None && *final(self) == *old(self),
            old(self).phase != Phase::Stopped ==> {
                &&& final(self).phase == Phase::Connected
                &&& final(self).last_received is None
                &&& r.deep_view() == stream_url(
                    old(self).host@,
                    match old(self).last_seq {
                        Some(s) => Some(
                            if s < i64::MAX {
                                (s + 1) as i64
                            } else {
                                s
                            },
                        ),
                        None => None,
                    },
                )
            },
    {
        if self.phase == Phase::Stopped {
            return None;
        }
        self.phase = Phase::Connected;
        self.last_received = None;
        let cursor = match self.last_seq {
            Some(s) => Some(
                if s < i64::MAX {
                    s + 1
                } else {
                    s
                },
            ),
            None => None,
        };
        subscribe_url(self.host.as_str(), cursor)
    }

    /// The stream could not be opened: the seconds to wait before the same
    /// address is tried again. The state stays as it is, so that the answer is
    /// the same after any number of failures: the attempts end only when the
    /// subscription is stopped.
    pub fn connect_failed(&self) -> (r: Option<u64>)
        ensures
            r == if self.phase == Phase::Stopped {
                None
            } else {
                Some(RETRY_DELAY)
            },
    {
        if self.phase == Phase::Stopped {
            None
        } else {
            Some(RETRY_DELAY)
        }
    }

    /// Stops the subscription for good.
    pub fn stop(&mut self)
        ensures
            *final(self) == (Subscriber { phase: Phase::Stopped, ..*old(self) }),
    {
        self.phase = Phase::Stopped;
    }

    /// Takes in an event that came at `now`: the sequence number moves on, the
    /// watchdog is fed.
    pub fn record(&mut self, event: &Event, now: Timestamp)
        ensures
            *final(self) == (Subscriber {
                last_seq: seq_after(old(self).last_seq, *event),
                last_received: Some(now),
                ..*old(self)
            }),
    {
        let outdated = match event.as_info() {
            Some(i) => str_eq(i.name.as_str(), "OutdatedCursor"),
            None => false,
        };
        if outdated {
            self.last_seq = None;
        } else {
            match event.get_seq() {
                Some(s) => {
                    self.last_seq = Some(s);
                },
                None => {},
            }
        }
        self.last_received = Some(now);
    }

    /// Takes in a frame that came at `now`. A frame that decodes is taken in
    /// as an event and handed on. An error frame of the relay resets the
    /// sequence number; any other frame that gives no event changes nothing.
    pub fn on_frame(&mut self, frame: &[u8], now: Timestamp) -> (r: Step)
        ensures
            match r {
                Step::Deliver(e) => *final(self) == (Subscriber {
                    last_seq: seq_after(old(self).last_seq, e),
                    last_received: Some(now),
                    ..*old(self)
                }),
                Step::Skip(FrameError::ErrorFrame) => *final(self) == (Subscriber {
                    last_seq: None,
                    ..*old(self)
                }),
                Step::Skip(_) => *final(self) == *old(self),
            },
            match decoded_item(frame@, 0) {
                None => r == Step::Skip(FrameError::MalformedFrame),
                Some((h, q)) => match r {
                    Step::Deliver(e) => frame_error(h, payload_value(frame@, q)) is None
                        && crate::event::event_is(h, payload_value(frame@, q).unwrap(), e),
                    Step::Skip(err) => frame_error(h, payload_value(frame@, q)) == Some(err),
                },
            },
    {
        match Event::try_from(frame) {
            Ok(event) => {
                self.record(&event, now);
                Step::Deliver(event)
            },
            Err(FrameError::ErrorFrame) => {
                self.last_seq = None;
                Step::Skip(FrameError::ErrorFrame)
            },
            Err(e) => Step::Skip(e),
        }
    }

    /// Whether the watchdog fires at `now`: an event has come in on this
    /// connection, and more than the timeout has passed since the last one.
    pub open spec fn is_stale(&self, now: Timestamp) -> bool {
        &&& self.phase == Phase::Connected
        &&& self.last_received matches Some(t) && now.nanos_since_epoch() - t.nanos_since_epoch()
            > self.timeout * 1_000_000_000
    }

    /// The watchdog: where the stream has been silent for longer than the
    /// timeout, the address to open the stream anew, from the last sequence
    /// number; else nothing, and nothing changes.
    pub fn check_and_restart(&mut self, now: Timestamp) -> (r: Option<String>)
        ensures
            old(self).is_stale(now) ==> {
                &&& r.deep_view() == stream_url(old(self).host@, old(self).last_seq)
                &&& *final(self) == (Subscriber { last_received: None, ..*old(self) })
            },
            !old(self).is_stale(now) ==> r is None && *final(self) == *old(self),
    {
        let stale = match self.phase {
            Phase::Connected => match &self.last_received {
                Some(t) => t.elapsed_more_than(&now, self.timeout),
                None => false,
            },
            _ => false,
        };
        if stale {
            self.start()
        } else {
            None
        }
    }
}

/// The names of the channels that readers get: one for each name of a
/// filter, or the one channel without a name where there is no filter.
pub open spec fn channel_names(filters: Seq<FilterView>) -> Seq<Seq<char>> {
    if filters.len() == 0 {
        seq![Seq::<char>::empty()]
    } else {
        names_upto(filters, filters.len() as int)
    }
}

/// The names of the first `n` filters, each once, in order.
pub open spec fn names_upto(filters: Seq<FilterView>, n: int) -> Seq<Seq<char>>
    decreases n,
{
    if n <= 0 || n > filters.len() {
        Seq::empty()
    } else {
        crate::filter::with_once(names_upto(filters, n - 1), filters[n - 1].name)
    }
}

/// The channels that an event goes to, among the first `n` filters: for
/// every filter that the event matches and whose name has a channel, the name,
/// in the order of the filters.
pub open spec fn targets_upto(
    filters: Seq<FilterView>,
    channels: Seq<Seq<char>>,
    event: Event,
    n: int,
) -> Seq<Seq<char>>
    decreases n,
{
    if n <= 0 || n > filters.len() {
        Seq::empty()
    } else if filters[n - 1].matches(event) && channels.contains(filters[n - 1].name) {
        targets_upto(filters, channels, event, n - 1).push(filters[n - 1].name)
    } else {
        targets_upto(filters, channels, event, n - 1)
    }
}

/// The channels that an event goes to: the channel without a name alone,
/// where there is one; else the channels of the filters that the event
/// matches.
pub open spec fn targets(filters: Seq<FilterView>, channels: Seq<Seq<char>>, event: Event) -> Seq<
    Seq<char>,
> {
    if channels.contains(Seq::<char>::empty()) {
        seq![Seq::<char>::empty()]
    } else {
        targets_upto(filters, channels, event, filters.len() as int)
    }
}

/// Makes the names of the channels for a set of filters.
pub fn make_channel_names(filters: &Filters) -> (r: Vec<String>)
    ensures
        r.deep_view() == channel_names(filters.filters.deep_view()),
{
    let mut out: Vec<String> = Vec::new();
    if filters.filters.len() == 0 {
        out.push(String::new());
        assert(out.deep_view() =~= seq![Seq::<char>::empty()]);
        return out;
    }
    let ghost all = filters.filters.deep_view();
    let mut i: usize = 0;
    assert(out.deep_view() =~= Seq::empty());
    while i < filters.filters.len()
        invariant
            i <= filters.filters.len(),
            all == filters.filters.deep_view(),
            out.deep_view() == names_upto(all, i as int),
        decreases filters.filters.len() - i,
    {
        if !has_string(&out, filters.filters[i].name.as_str()) {
            let ghost before = out.deep_view();
            out.push(filters.filters[i].name.clone());
            assert(out.deep_view() =~= before.push(filters.filters[i as int].name@));
        }
        i += 1;
    }
    out
}

/// Tells which channels an event goes to.
pub fn dispatch(filters: &Filters, channels: &Vec<String>, event: &Event) -> (r: Vec<String>)
    ensures
        r.deep_view() == targets(filters.filters.deep_view(), channels.deep_view(), *event),
{
    let mut out: Vec<String> = Vec::new();
    if has_string(channels, "") {
        proof {
            reveal_strlit("");
            assert(""@ =~= Seq::<char>::empty());
        }
        out.push(String::new());
        assert(out.deep_view() =~= seq![Seq::<char>::empty()]);
        return out;
    }
    proof {
        reveal_strlit("");
        assert(""@ =~= Seq::<char>::empty());
    }
    let ghost all = filters.filters.deep_view();
    let mut i: usize = 0;
    assert(out.deep_view() =~= Seq::empty());
    while i < filters.filters.len()
        invariant
            i <= filters.filters.len(),
            all == filters.filters.deep_view(),
            out.deep_view() == targets_upto(all, channels.deep_view(), *event, i as int),
        decreases filters.filters.len() - i,
    {
        let f = &filters.filters[i];
        if f.is_match(event) && has_string(channels, f.name.as_str()) {
            let ghost before = out.deep_view();
            out.push(f.name.clone());
            assert(out.deep_view() =~= before.push(f.name@));
        }
        i += 1;
    }
    out
}

/// Every channel with a name that an event goes to belongs to a filter that
/// the event matches.
pub proof fn lemma_targets_match(
    filters: Seq<FilterView>,
    channels: Seq<Seq<char>>,
    event: Event,
    n: int,
)
    requires
        0 <= n <= filters.len(),
    ensures
        forall|k: int|
            0 <= k < targets_upto(filters, channels, event, n).len() ==> exists|i: int|
                0 <= i < n && filters[i].name == #[trigger] targets_upto(filters, channels, event, n)[k]
                    && filters[i].matches(event),
    decreases n,
{
    if n > 0 {
        lemma_targets_match(filters, channels, event, n - 1);
        let prev = targets_upto(filters, channels, event, n - 1);
        let cur = targets_upto(filters, channels, event, n);
        assert forall|k: int| 0 <= k < cur.len() implies exists|i: int|
            0 <= i < n && filters[i].name == #[trigger] cur[k] && filters[i].matches(event) by {
            if k < prev.len() {
                let i = choose|i: int|
                    0 <= i < n - 1 && filters[i].name == prev[k] && filters[i].matches(event);
                assert(filters[i].name == cur[k]);
            } else {
                assert(filters[n - 1].name == cur[k]);
            }
        }
    }
}

/// Whatever is delivered to the channel of a filter matches a filter of that
/// name: an event goes to a channel with a name only where a filter of the
/// name matches it.
pub proof fn lemma_delivery_matches(
    filters: Seq<FilterView>,
    channels: Seq<Seq<char>>,
    event: Event,
    name: Seq<char>,
)
    requires
        name.len() > 0,
        targets(filters, channels, event).contains(name),
    ensures
        exists|i: int| 0 <= i < filters.len() && filters[i].name == name && filters[i].matches(event),
{
    let t = targets(filters, channels, event);
    let k = choose|k: int| 0 <= k < t.len() && t[k] == name;
    if channels.contains(Seq::<char>::empty()) {
        assert(t[k] =~= Seq::<char>::empty());
    } else {
        lemma_targets_match(filters, channels, event, filters.len() as int);
    }
}

/// The events, among the first `n` that came in, that went to the channel
/// `name`, in the order in which they came.
pub open spec fn delivered(
    filters: Seq<FilterView>,
    channels: Seq<Seq<char>>,
    events: Seq<Event>,
    name: Seq<char>,
    n: int,
) -> Seq<Event>
    decreases n,
{
    if n <= 0 || n > events.len() {
        Seq::empty()
    } else if targets(filters, channels, events[n - 1]).contains(name) {
        delivered(filters, channels, events, name, n - 1).push(events[n - 1])
    } else {
        delivered(filters, channels, events, name, n - 1)
    }
}

/// The sequence numbers of the events grow: every event that has one has a
/// greater one than every event before it that has one.
pub open spec fn seqs_grow(events: Seq<Event>) -> bool {
    forall|i: int, j: int|
        0 <= i < j < events.len() && (#[trigger] events[i]).seq() is Some && (
        #[trigger] events[j]).seq() is Some ==> events[i].seq().unwrap() < events[j].seq().unwrap()
}

/// What goes to a channel is taken from what came in, in order.
proof fn lemma_delivered_from(
    filters: Seq<FilterView>,
    channels: Seq<Seq<char>>,
    events: Seq<Event>,
    name: Seq<char>,
    n: int,
) -> (idx: Seq<int>)
    requires
        0 <= n <= events.len(),
    ensures
        idx.len() == delivered(filters, channels, events, name, n).len(),
        forall|k: int| 0 <= k < idx.len() ==> 0 <= #[trigger] idx[k] < n,
        forall|k: int|
            0 <= k < idx.len() ==> events[idx[k]] == #[trigger] delivered(
                filters,
                channels,
                events,
                name,
                n,
            )[k],
        forall|a: int, b: int| 0 <= a < b < idx.len() ==> #[trigger] idx[a] < #[trigger] idx[b],
    decreases n,
{
    if n == 0 {
        Seq::empty()
    } else {
        let prev = lemma_delivered_from(filters, channels, events, name, n - 1);
        if targets(filters, channels, events[n - 1]).contains(name) {
            prev.push(n - 1)
        } else {
            prev
        }
    }
}

/// Within one connection a channel sees sequence numbers grow: where the
/// relay sends events with growing sequence numbers, of two events delivered to
/// the same channel the later has the greater number.
pub proof fn lemma_channel_seqs_grow(
    filters: Seq<FilterView>,
    channels: Seq<Seq<char>>,
    events: Seq<Event>,
    name: Seq<char>,
)
    requires
        seqs_grow(events),
    ensures
        seqs_grow(delivered(filters, channels, events, name, events.len() as int)),
{
    let d = delivered(filters, channels, events, name, events.len() as int);
    let idx = lemma_delivered_from(filters, channels, events, name, events.len() as int);
    assert forall|i: int, j: int|
        0 <= i < j < d.len() && (#[trigger] d[i]).seq() is Some && (#[trigger] d[j]).seq() is Some implies d[i].seq().unwrap()
        < d[j].seq().unwrap() by {
        assert(events[idx[i]] == d[i]);
        assert(events[idx[j]] == d[j]);
        assert(idx[i] < idx[j]);
    }
}

/// A queue of bounded length between the subscription and one reader. What
/// comes in while the queue is full is dropped and counted.
pub struct BoundedQueue<T> {
    pub items: Vec<T>,
    pub capacity: usize,
    pub dropped: u64,
}

impl<T> BoundedQueue<T> {
    /// The queue holds no more than its capacity.
    pub open spec fn wf(&self) -> bool {
        self.items.len() <= self.capacity
    }

    /// An empty queue for at most `capacity` items.
    pub fn new(capacity: usize) -> (r: BoundedQueue<T>)
        ensures
            r.wf(),
            r.items@.len() == 0,
            r.capacity == capacity,
            r.dropped == 0,
    {
        BoundedQueue { items: Vec::new(), capacity, dropped: 0 }
    }

    /// Puts an item at the end of the queue, or drops it where the queue is
    /// full. Tells whether the item was taken.
    pub fn offer(&mut self, item: T) -> (r: bool)
        requires
            old(self).wf(),
        ensures
            final(self).wf(),
            final(self).capacity == old(self).capacity,
            r == (old(self).items.len() < old(self).capacity),
            r ==> final(self).items@ == old(self).items@.push(item) && final(self).dropped == old(self).dropped,
            !r ==> final(self).items@ == old(self).items@ && final(self).dropped == if old(self).dropped < u64::MAX {
                (old(self).dropped + 1) as u64
            } else {
                old(self).dropped
            },
    {
        if self.items.len() < self.capacity {
            self.items.push(item);
            true
        } else {
            if self.dropped < u64::MAX {
                self.dropped = self.dropped + 1;
            }
            false
        }
    }

    /// Takes the item at the front of the queue.
    pub fn take(&mut self) -> (r: Option<T>)
        requires
            old(self).wf(),
        ensures
            final(self).wf(),
            final(self).capacity == old(self).capacity,
            final(self).dropped == old(self).dropped,
            match r {
                Some(x) => old(self).items@.len() > 0 && x == old(self).items@[0] && final(self).items@ == old(self).items@.skip(1),
                None => old(self).items@.len() == 0 && final(self).items@ == old(self).items@,
            },
    {
        if self.items.len() > 0 {
            let x = self.items.remove(0);
            assert(self.items@ =~= old(self).items@.skip(1));
            Some(x)
        } else {
            None
        }
    }
}

} // verus!
