//! The messages exchanged over the daemon's socket and the records it keeps.

use vstd::prelude::*;

use std::collections::HashMap;

use crate::ident::EntryIdent;
use crate::systime::SysTime;

verus! {

/// The identifier of a followed feed: the 128 bits of a UUID.
pub type FollowId = u128;

/// What went wrong with a request.
#[derive(Debug, Clone)]
pub enum SyndError {
    /// A UUID could not be read; holds the reason.
    Uuid(String),
    /// Any other failure; holds the reason.
    Generic(String),
    /// A parameter of the request names nothing the daemon knows.
    InvalidParameter,
    /// The identifier in the request names no followed feed.
    InvalidId,
}

/// A feed that the daemon follows.
#[derive(Debug, Clone)]
pub struct FollowedEntry {
    /// A name chosen by the user.
    pub name: Option<String>,
    /// Where the feed is fetched from.
    pub url: String,
    /// Entries published before this time are not announced.
    pub read_from: SysTime,
}

/// A feed entry that the user has read.
#[derive(Debug, Clone, Copy)]
pub struct ReadEntry {
    /// The feed the entry belongs to.
    pub followed_id: FollowId,
    /// When it was marked as read.
    pub added_at: SysTime,
}

/// The daemon's answer to a query.
#[derive(Debug)]
pub enum Response {
    /// The request was carried out.
    Ack,
    /// A new identifier.
    NewId(FollowId),
    /// The request was refused.
    Bad(SyndError),
    /// One followed feed.
    FollowDbEntry(FollowedEntry),
    /// All followed feeds, by identifier.
    FollowDbList(HashMap<FollowId, FollowedEntry>),
    /// Read entries, each identifier once with its record.
    ReadDbList(Vec<(EntryIdent, ReadEntry)>),
    /// Seconds until the feeds are fetched again.
    TimeUntilFetch(u64),
}

/// A query sent to the daemon over its socket.
#[derive(Debug)]
pub enum SocketQuery {
    Feeds(FeedsCommand),
    Reads(ReadsCommand),
    MainLoop(MainLoopCommand),
}

/// Queries on the followed feeds.
#[derive(Debug, Clone)]
pub enum FeedsCommand {
    /// Follow a new feed.
    Follow { name: Option<String>, url: String },
    /// Stop following a feed.
    Unfollow { id: FollowId },
    /// Change a followed feed; an empty name removes the name.
    Update {
        id_to_update: FollowId,
        name: Option<String>,
        url: Option<String>,
        read_from: Option<SysTime>,
    },
    /// List the followed feeds.
    List,
}

/// Queries on the read entries.
#[derive(Debug, Clone)]
pub enum ReadsCommand {
    MarkRead { id: EntryIdent },
    MarkUnread { id: EntryIdent },
    ListAll,
    ListFromFeed { followed_id: FollowId },
}

/// Queries on the daemon's fetch loop.
#[derive(Debug, Clone, Copy, PartialEq, Eq, Structural)]
pub enum MainLoopCommand {
    /// Ask how long until the feeds are fetched again.
    GetTimeUntilNextFetch,
    /// Fetch the feeds at the next turn of the loop.
    ForceFetch,
}

} // verus!
