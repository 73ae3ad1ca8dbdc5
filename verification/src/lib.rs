//! Verified core of `synd`, a daemon that follows Atom and RSS feeds, and
//! of `synctl`, its controller.
//!
//! - [`config`]: the settings and the parser of the configuration file.
//! - [`daemon`]: the daemon's state, how it answers queries, and when it fetches.
//! - [`feed`]: reading the entries of a fetched feed.
//! - [`ident`]: entry identifiers and their text form.
//! - [`identmap`]: maps keyed by entry identifiers, such as the read entries.
//! - [`protocol`]: the messages exchanged over the daemon's socket.
//! - [`store`]: how a database file is loaded.
//! - [`systime`]: points in time and their stored form.
//! - [`number`], [`text`], [`utf8len`]: text handling shared by the parsers.

pub mod config;
pub mod daemon;
pub mod feed;
pub mod ident;
pub mod identmap;
pub mod number;
pub mod protocol;
pub mod store;
pub mod systime;
pub mod text;
pub mod utf8len;

pub use config::{Config, ConfigIssue, parse_config_text};
pub use daemon::{Reply, SyndState};
pub use feed::{FeedReport, FeedWarning, SendEntry, feed_report};
pub use ident::{EntryIdent, IdentParseError};
pub use number::IntParseError;
pub use protocol::{
    FeedsCommand, FollowId, FollowedEntry, MainLoopCommand, ReadEntry, ReadsCommand, Response,
    SocketQuery, SyndError,
};
pub use store::{DbLoad, db_load_plan};
pub use systime::SysTime;
