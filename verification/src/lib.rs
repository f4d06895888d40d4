//! Verified core of a Bluesky firehose client and feed generator.
//!
//! The crate holds the data model and the decision logic: frame and block
//! decoding, record projection, `at://` references, event filters, the
//! subscription state machine, the feed store and the feed generator's request
//! dispatch. Sockets, files and threads are left to the caller.

pub mod address;
pub mod api;
pub mod aturi;
pub mod blocks;
pub mod cid;
pub mod client;
pub mod event;
pub mod feedgenerator;
pub mod feedpost;
pub mod filter;
pub mod ipld;
pub mod plc;
pub mod screen;
pub mod text;
pub mod time;

pub use aturi::AtUri;
pub use blocks::Blocks;
pub use client::{Repo, Subscriber};
pub use event::{Event, Header};
pub use feedgenerator::{Algorithm, FeedGenerator, Subscription};
pub use feedpost::{Cursor, FeedPost, FeedPosts};
pub use filter::{Filter, Filters, Keywords, Langs, Subscribes};
