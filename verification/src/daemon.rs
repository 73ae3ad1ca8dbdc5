//! The daemon's state and the decisions it takes: how a query is answered
//! and when the followed feeds are due to be fetched.

use vstd::prelude::*;

use std::collections::HashMap;

use crate::config::Config;
use crate::feed::SendEntry;
use crate::ident::{EntryIdent, EntryIdentView};
use crate::identmap::{
    IdentMap, keys_unique, lemma_pairs_map_dom, lemma_same_pairs, pairs_map, same_pairs,
};
use crate::protocol::{
    FeedsCommand, FollowId, FollowedEntry, MainLoopCommand, ReadEntry, ReadsCommand, Response,
    SocketQuery, SyndError,
};
use crate::systime::{SysTime, system_time_offset, time_of_offset};

verus! {

broadcast use vstd::std_specs::hash::group_hash_axioms;

#[verifier::external_type_specification]
#[verifier::external_body]
pub struct ExInstant(std::time::Instant);

/// Nanoseconds in a second.
pub const NANOS_PER_SEC: u128 = 1_000_000_000;

/// What the daemon keeps between turns of its loop.
pub struct SyndState {
    /// The settings read at start.
    pub config: Config,
    /// When the feeds were last fetched; `None` before the first fetch or after a forced one was asked for.
    pub last_fetch: Option<std::time::Instant>,
    /// The followed feeds, by identifier.
    pub followed: HashMap<FollowId, FollowedEntry>,
    /// The entries marked as read.
    pub read: IdentMap<ReadEntry>,
    /// The feed in which each entry was last seen by a fetch.
    pub seen: IdentMap<FollowId>,
}

/// The answer to a query, and which records must be written to disk.
#[derive(Debug)]
pub struct Reply {
    pub response: Response,
    /// The followed feeds changed.
    pub save_followed: bool,
    /// The read entries changed.
    pub save_read: bool,
}

/// The feed that `Follow` adds.
pub open spec fn followed_entry(name: Option<String>, url: String, now: SysTime) -> FollowedEntry {
    FollowedEntry { name, url, read_from: now }
}

/// A followed feed after `Update`: each field given replaces the old one,
/// and an empty name removes the name.
pub open spec fn updated_entry(
    e: FollowedEntry,
    name: Option<String>,
    url: Option<String>,
    read_from: Option<SysTime>,
) -> FollowedEntry {
    FollowedEntry {
        name: match name {
            Some(n) => if n@.len() == 0 {
                None
            } else {
                Some(n)
            },
            None => e.name,
        },
        url: match url {
            Some(u) => u,
            None => e.url,
        },
        read_from: match read_from {
            Some(t) => t,
            None => e.read_from,
        },
    }
}

/// Whole seconds left until the next fetch, given the fetch interval in
/// seconds and the nanoseconds since the last fetch; `None` when there was
/// no fetch yet or the interval is already over (where the daemon stops).
pub open spec fn time_until_fetch(interval: u64, since: Option<u128>) -> Option<u64> {
    match since {
        Some(e) => if e <= interval * 1_000_000_000 {
            Some(((interval * 1_000_000_000 - e) / 1_000_000_000) as u64)
        } else {
            None
        },
        None => None,
    }
}

/// The feeds are due to be fetched: never fetched, or the interval is over.
pub open spec fn fetch_due(interval: u64, since: Option<u128>) -> bool {
    match since {
        Some(e) => e >= interval * 1_000_000_000,
        None => true,
    }
}

/// The feed in which the entry `k` was seen, by the map `seen`; the nil
/// identifier 0 for an entry that no fetch has shown.
pub open spec fn feed_of(seen: Map<EntryIdentView, FollowId>, k: EntryIdentView) -> FollowId {
    if seen.contains_key(k) {
        seen[k]
    } else {
        0
    }
}

/// The record that `MarkRead` keeps for the entry `k` at time `now`.
pub open spec fn read_entry(seen: Map<EntryIdentView, FollowId>, k: EntryIdentView, now: SysTime) -> ReadEntry {
    ReadEntry { followed_id: feed_of(seen, k), added_at: now }
}

/// The read entries of `m` that belong to the feed `f`.
pub open spec fn reads_of_feed(m: Map<EntryIdentView, ReadEntry>, f: FollowId) -> Map<EntryIdentView, ReadEntry> {
    Map::new(|k: EntryIdentView| m.contains_key(k) && m[k].followed_id == f, |k: EntryIdentView| m[k])
}

/// The pairs of `s` whose record belongs to the feed `f`, in their order.
pub open spec fn feed_pairs(s: Seq<(EntryIdent, ReadEntry)>, f: FollowId) -> Seq<(EntryIdent, ReadEntry)>
    decreases s.len(),
{
    if s.len() == 0 {
        Seq::empty()
    } else if s.last().1.followed_id == f {
        feed_pairs(s.drop_last(), f).push(s.last())
    } else {
        feed_pairs(s.drop_last(), f)
    }
}

/// The map `m` after noting that the entries `es` were seen in the feed `f`.
pub open spec fn noted(m: Map<EntryIdentView, FollowId>, f: FollowId, es: Seq<SendEntry>) -> Map<EntryIdentView, FollowId>
    decreases es.len(),
{
    if es.len() == 0 {
        m
    } else {
        noted(m, f, es.drop_last()).insert(es.last().ident@, f)
    }
}

/// `post` differs from `pre` in its followed feeds at most.
pub open spec fn same_but_followed(pre: SyndState, post: SyndState) -> bool {
    &&& post.config == pre.config
    &&& post.last_fetch == pre.last_fetch
    &&& post.read@ == pre.read@
    &&& post.seen@ == pre.seen@
}

/// `post` differs from `pre` in its read entries at most.
pub open spec fn same_but_read(pre: SyndState, post: SyndState) -> bool {
    &&& post.config == pre.config
    &&& post.last_fetch == pre.last_fetch
    &&& post.followed@ == pre.followed@
    &&& post.seen@ == pre.seen@
}

/// `post` is `pre` unchanged.
pub open spec fn unchanged(pre: SyndState, post: SyndState) -> bool {
    &&& same_but_followed(pre, post)
    &&& post.followed@ == pre.followed@
}

/// How the query `q` is answered in state `pre`, giving `post` and `r`, when
/// a new feed gets the identifier `id`, the time is `now`, and `since`
/// nanoseconds have passed since the last fetch. `r` is `None` where the
/// daemon stops: the time until the next fetch is asked for while there is
/// none to report.
pub open spec fn answered(
    pre: SyndState,
    post: SyndState,
    q: SocketQuery,
    id: FollowId,
    now: SysTime,
    since: Option<u128>,
    r: Option<Reply>,
) -> bool {
    match q {
        SocketQuery::Feeds(FeedsCommand::Follow { name, url }) => {
            &&& same_but_followed(pre, post)
            &&& post.followed@ == pre.followed@.insert(id, followed_entry(name, url, now))
            &&& r == Some(Reply { response: Response::Ack, save_followed: true, save_read: false })
        },
        SocketQuery::Feeds(FeedsCommand::Unfollow { id: gone }) => {
            &&& same_but_followed(pre, post)
            &&& if pre.followed@.contains_key(gone) {
                &&& post.followed@ == pre.followed@.remove(gone)
                &&& r == Some(Reply { response: Response::Ack, save_followed: true, save_read: false })
            } else {
                &&& post.followed@ == pre.followed@
                &&& r == Some(
                    Reply {
                        response: Response::Bad(SyndError::InvalidParameter),
                        save_followed: false,
                        save_read: false,
                    },
                )
            }
        },
        SocketQuery::Feeds(FeedsCommand::Update { id_to_update, name, url, read_from }) => {
            &&& same_but_followed(pre, post)
            &&& if pre.followed@.contains_key(id_to_update) {
                &&& post.followed@ == pre.followed@.insert(
                    id_to_update,
                    updated_entry(pre.followed@[id_to_update], name, url, read_from),
                )
                &&& r == Some(Reply { response: Response::Ack, save_followed: false, save_read: false })
            } else {
                &&& post.followed@ == pre.followed@
                &&& r == Some(
                    Reply { response: Response::Bad(SyndError::InvalidId), save_followed: false, save_read: false },
                )
            }
        },
        SocketQuery::Feeds(FeedsCommand::List) => {
            &&& unchanged(pre, post)
            &&& r matches Some(Reply { response: Response::FollowDbList(m), save_followed: false, save_read: false })
            &&& m@ == pre.followed@
        },
        SocketQuery::Reads(ReadsCommand::MarkRead { id: e }) => {
            &&& same_but_read(pre, post)
            &&& post.read@ == pre.read@.insert(e@, read_entry(pre.seen@, e@, now))
            &&& r == Some(Reply { response: Response::Ack, save_followed: false, save_read: true })
        },
        SocketQuery::Reads(ReadsCommand::MarkUnread { id: e }) => {
            &&& same_but_read(pre, post)
            &&& post.read@ == pre.read@.remove(e@)
            &&& r == Some(
                Reply {
                    response: Response::Ack,
                    save_followed: false,
                    save_read: pre.read@.contains_key(e@),
                },
            )
        },
        SocketQuery::Reads(ReadsCommand::ListAll) => {
            &&& unchanged(pre, post)
            &&& r matches Some(
                Reply { response: Response::ReadDbList(l), save_followed: false, save_read: false },
            )
            &&& pairs_map(l@) == pre.read@
            &&& keys_unique(l@)
        },
        SocketQuery::Reads(ReadsCommand::ListFromFeed { followed_id: f }) => {
            &&& unchanged(pre, post)
            &&& r matches Some(
                Reply { response: Response::ReadDbList(l), save_followed: false, save_read: false },
            )
            &&& pairs_map(l@) == reads_of_feed(pre.read@, f)
            &&& keys_unique(l@)
        },
        SocketQuery::MainLoop(MainLoopCommand::GetTimeUntilNextFetch) => {
            &&& unchanged(pre, post)
            &&& match time_until_fetch(pre.config.fetch_interval, since) {
                Some(t) => r == Some(
                    Reply { response: Response::TimeUntilFetch(t), save_followed: false, save_read: false },
                ),
                None => r is None,
            }
        },
        SocketQuery::MainLoop(MainLoopCommand::ForceFetch) => {
            &&& post.config == pre.config
            &&& post.followed@ == pre.followed@
            &&& post.read@ == pre.read@
            &&& post.seen@ == pre.seen@
            &&& post.last_fetch is None
            &&& r == Some(Reply { response: Response::Ack, save_followed: false, save_read: false })
        },
    }
}

/// A feed that `Follow` adds is listed by a following `List`, under its
/// identifier, with the name and URL given and the time of following.
pub proof fn lemma_follow_then_list(
    pre: SyndState,
    mid: SyndState,
    post: SyndState,
    name: Option<String>,
    url: String,
    id: FollowId,
    now: SysTime,
    since1: Option<u128>,
    since2: Option<u128>,
    id2: FollowId,
    now2: SysTime,
    r1: Option<Reply>,
    r2: Option<Reply>,
)
    requires
        answered(pre, mid, SocketQuery::Feeds(FeedsCommand::Follow { name, url }), id, now, since1, r1),
        answered(mid, post, SocketQuery::Feeds(FeedsCommand::List), id2, now2, since2, r2),
    ensures
        r1 == Some(Reply { response: Response::Ack, save_followed: true, save_read: false }),
        r2 matches Some(Reply { response: Response::FollowDbList(m), save_followed: false, save_read: false })
            && m@.contains_key(id) && m@[id] == followed_entry(name, url, now),
{
}

/// `Follow` under an identifier that no followed feed has adds exactly one
/// feed and leaves every other followed feed as it was.
pub proof fn lemma_follow_keeps_others(
    pre: SyndState,
    post: SyndState,
    name: Option<String>,
    url: String,
    id: FollowId,
    now: SysTime,
    since: Option<u128>,
    r: Option<Reply>,
    k: FollowId,
)
    requires
        !pre.followed@.contains_key(id),
        answered(pre, post, SocketQuery::Feeds(FeedsCommand::Follow { name, url }), id, now, since, r),
    ensures
        pre.followed@.contains_key(k) ==> post.followed@.contains_key(k) && post.followed@[k]
            == pre.followed@[k],
        post.followed@.contains_key(k) ==> pre.followed@.contains_key(k) || k == id,
        post.followed@.len() == pre.followed@.len() + 1,
{
}

/// `Follow` records the feed under the identifier given, with the name and
/// URL of the query and the time given as the point from which entries count.
pub proof fn lemma_follow_records_feed(
    pre: SyndState,
    post: SyndState,
    name: Option<String>,
    url: String,
    id: FollowId,
    now: SysTime,
    since: Option<u128>,
    r: Option<Reply>,
)
    requires
        answered(pre, post, SocketQuery::Feeds(FeedsCommand::Follow { name, url }), id, now, since, r),
    ensures
        post.followed@.contains_key(id),
        post.followed@[id].name == name,
        post.followed@[id].url == url,
        post.followed@[id].read_from == now,
        r matches Some(reply) && reply.response is Ack && reply.save_followed,
{
}

/// `Update` of a followed feed changes exactly the fields given: a
/// non-empty name replaces the name, an empty one removes it, a URL or a
/// time given replaces the old one, and a field not given keeps its value.
/// No other feed changes.
pub proof fn lemma_update_fields(
    pre: SyndState,
    post: SyndState,
    id_to_update: FollowId,
    name: Option<String>,
    url: Option<String>,
    read_from: Option<SysTime>,
    id: FollowId,
    now: SysTime,
    since: Option<u128>,
    r: Option<Reply>,
    k: FollowId,
)
    requires
        pre.followed@.contains_key(id_to_update),
        answered(
            pre,
            post,
            SocketQuery::Feeds(FeedsCommand::Update { id_to_update, name, url, read_from }),
            id,
            now,
            since,
            r,
        ),
    ensures
        post.followed@.contains_key(id_to_update),
        name matches Some(n) ==> (n@.len() > 0 ==> post.followed@[id_to_update].name == Some(n)),
        name matches Some(n) ==> (n@.len() == 0 ==> post.followed@[id_to_update].name is None),
        name is None ==> post.followed@[id_to_update].name == pre.followed@[id_to_update].name,
        url matches Some(u) ==> post.followed@[id_to_update].url == u,
        url is None ==> post.followed@[id_to_update].url == pre.followed@[id_to_update].url,
        read_from matches Some(t) ==> post.followed@[id_to_update].read_from == t,
        read_from is None ==> post.followed@[id_to_update].read_from
            == pre.followed@[id_to_update].read_from,
        k != id_to_update ==> (post.followed@.contains_key(k) == pre.followed@.contains_key(k)),
        k != id_to_update && pre.followed@.contains_key(k) ==> post.followed@[k] == pre.followed@[k],
        r matches Some(reply) && reply.response is Ack,
{
}

/// `Update` or `Unfollow` of an identifier that no feed has changes no feed.
pub proof fn lemma_change_of_unknown_feed(
    pre: SyndState,
    post: SyndState,
    q: SocketQuery,
    gone: FollowId,
    id: FollowId,
    now: SysTime,
    since: Option<u128>,
    r: Option<Reply>,
)
    requires
        !pre.followed@.contains_key(gone),
        (q matches SocketQuery::Feeds(FeedsCommand::Unfollow { id: g }) && g == gone) || (
        q matches SocketQuery::Feeds(FeedsCommand::Update { id_to_update: g, .. }) && g == gone),
        answered(pre, post, q, id, now, since, r),
    ensures
        post.followed@ == pre.followed@,
        r matches Some(reply) && reply.response is Bad && !reply.save_followed,
{
}

/// `Unfollow` of a followed feed removes exactly that feed.
pub proof fn lemma_unfollow_removes(
    pre: SyndState,
    post: SyndState,
    gone: FollowId,
    id: FollowId,
    now: SysTime,
    since: Option<u128>,
    r: Option<Reply>,
    k: FollowId,
)
    requires
        pre.followed@.contains_key(gone),
        answered(pre, post, SocketQuery::Feeds(FeedsCommand::Unfollow { id: gone }), id, now, since, r),
    ensures
        !post.followed@.contains_key(gone),
        k != gone ==> post.followed@.contains_key(k) == pre.followed@.contains_key(k),
        k != gone && pre.followed@.contains_key(k) ==> post.followed@[k] == pre.followed@[k],
        r matches Some(reply) && reply.response is Ack && reply.save_followed,
{
}

/// When no fetch is due, the time reported until the next one is the whole
/// seconds left of the interval: `t` seconds with `t * 10^9` nanoseconds at
/// most what is left, and less than a second short of it. When the
/// interval is over, a fetch is due.
pub proof fn lemma_time_until_fetch_is_what_is_left(interval: u64, e: u128)
    ensures
        !fetch_due(interval, Some(e)) ==> (time_until_fetch(interval, Some(e)) matches Some(t) && t
            * 1_000_000_000 <= interval * 1_000_000_000 - e < t * 1_000_000_000 + 1_000_000_000),
        e > interval * 1_000_000_000 ==> fetch_due(interval, Some(e)) && time_until_fetch(interval, Some(e)) is None,
        fetch_due(interval, None) && time_until_fetch(interval, None) is None,
        fetch_due(interval, Some(e)) <==> e >= interval * 1_000_000_000,
{
    if e <= interval * 1_000_000_000 {
        let left = interval * 1_000_000_000 - e;
        let t = left / 1_000_000_000;
        assert(t * 1_000_000_000 <= left < t * 1_000_000_000 + 1_000_000_000) by (nonlinear_arith)
            requires
                left >= 0,
                t == left / 1_000_000_000,
        ;
    }
}

/// Unfollowing a feed just followed, under an identifier that was free,
/// leaves the followed feeds as they were.
pub proof fn lemma_follow_then_unfollow(
    pre: SyndState,
    mid: SyndState,
    post: SyndState,
    name: Option<String>,
    url: String,
    id: FollowId,
    now: SysTime,
    since1: Option<u128>,
    since2: Option<u128>,
    id2: FollowId,
    now2: SysTime,
    r1: Option<Reply>,
    r2: Option<Reply>,
)
    requires
        !pre.followed@.contains_key(id),
        answered(pre, mid, SocketQuery::Feeds(FeedsCommand::Follow { name, url }), id, now, since1, r1),
        answered(mid, post, SocketQuery::Feeds(FeedsCommand::Unfollow { id }), id2, now2, since2, r2),
    ensures
        post.followed@ == pre.followed@,
        r2 == Some(Reply { response: Response::Ack, save_followed: true, save_read: false }),
{
    assert(mid.followed@.remove(id) =~= pre.followed@);
}

/// A feed can be unfollowed once: unfollowing it again is refused with
/// `InvalidParameter` and changes nothing.
pub proof fn lemma_unfollow_twice(
    pre: SyndState,
    mid: SyndState,
    post: SyndState,
    gone: FollowId,
    id1: FollowId,
    id2: FollowId,
    now1: SysTime,
    now2: SysTime,
    since1: Option<u128>,
    since2: Option<u128>,
    r1: Option<Reply>,
    r2: Option<Reply>,
)
    requires
        answered(pre, mid, SocketQuery::Feeds(FeedsCommand::Unfollow { id: gone }), id1, now1, since1, r1),
        answered(mid, post, SocketQuery::Feeds(FeedsCommand::Unfollow { id: gone }), id2, now2, since2, r2),
    ensures
        !mid.followed@.contains_key(gone),
        post.followed@ == mid.followed@,
        r2 == Some(
            Reply { response: Response::Bad(SyndError::InvalidParameter), save_followed: false, save_read: false },
        ),
{
}

/// After `ForceFetch` a fetch is due at once, whatever the interval.
pub proof fn lemma_force_fetch_makes_due(
    pre: SyndState,
    post: SyndState,
    id: FollowId,
    now: SysTime,
    since: Option<u128>,
    r: Option<Reply>,
    later: Option<u128>,
)
    requires
        answered(pre, post, SocketQuery::MainLoop(MainLoopCommand::ForceFetch), id, now, since, r),
        later is Some <==> post.last_fetch is Some,
    ensures
        fetch_due(post.config.fetch_interval, later),
        post.followed@ == pre.followed@,
{
}

/// An entry marked as read is listed by a following `ListAll`, with the feed
/// it was seen in and the time of marking.
pub proof fn lemma_mark_read_then_list(
    pre: SyndState,
    mid: SyndState,
    post: SyndState,
    e: EntryIdent,
    id1: FollowId,
    id2: FollowId,
    now: SysTime,
    now2: SysTime,
    since1: Option<u128>,
    since2: Option<u128>,
    r1: Option<Reply>,
    r2: Option<Reply>,
)
    requires
        answered(pre, mid, SocketQuery::Reads(ReadsCommand::MarkRead { id: e }), id1, now, since1, r1),
        answered(mid, post, SocketQuery::Reads(ReadsCommand::ListAll), id2, now2, since2, r2),
    ensures
        r1 == Some(Reply { response: Response::Ack, save_followed: false, save_read: true }),
        r2 matches Some(Reply { response: Response::ReadDbList(l), .. }) && pairs_map(l@).contains_key(e@)
            && pairs_map(l@)[e@] == read_entry(pre.seen@, e@, now),
{
}

/// An entry marked as unread is not listed by a following `ListAll`.
pub proof fn lemma_mark_unread_then_list(
    pre: SyndState,
    mid: SyndState,
    post: SyndState,
    e: EntryIdent,
    id1: FollowId,
    id2: FollowId,
    now1: SysTime,
    now2: SysTime,
    since1: Option<u128>,
    since2: Option<u128>,
    r1: Option<Reply>,
    r2: Option<Reply>,
)
    requires
        answered(pre, mid, SocketQuery::Reads(ReadsCommand::MarkUnread { id: e }), id1, now1, since1, r1),
        answered(mid, post, SocketQuery::Reads(ReadsCommand::ListAll), id2, now2, since2, r2),
    ensures
        r1 matches Some(Reply { response: Response::Ack, .. }),
        r2 matches Some(Reply { response: Response::ReadDbList(l), .. }) && !pairs_map(l@).contains_key(e@),
{
}

/// Marking as unread an entry just marked as read, that was not read
/// before, leaves the read entries as they were.
pub proof fn lemma_mark_read_then_unread(
    pre: SyndState,
    mid: SyndState,
    post: SyndState,
    e: EntryIdent,
    id1: FollowId,
    id2: FollowId,
    now1: SysTime,
    now2: SysTime,
    since1: Option<u128>,
    since2: Option<u128>,
    r1: Option<Reply>,
    r2: Option<Reply>,
)
    requires
        !pre.read@.contains_key(e@),
        answered(pre, mid, SocketQuery::Reads(ReadsCommand::MarkRead { id: e }), id1, now1, since1, r1),
        answered(mid, post, SocketQuery::Reads(ReadsCommand::MarkUnread { id: e }), id2, now2, since2, r2),
    ensures
        post.read@ == pre.read@,
        post.followed@ == pre.followed@,
        r2 == Some(Reply { response: Response::Ack, save_followed: false, save_read: true }),
{
    assert(mid.read@.remove(e@) =~= pre.read@);
}

/// The entries listed for a feed are read entries of that feed, and every
/// read entry of that feed is listed.
pub proof fn lemma_list_from_feed(
    pre: SyndState,
    post: SyndState,
    f: FollowId,
    id: FollowId,
    now: SysTime,
    since: Option<u128>,
    r: Option<Reply>,
    k: EntryIdentView,
)
    requires
        answered(pre, post, SocketQuery::Reads(ReadsCommand::ListFromFeed { followed_id: f }), id, now, since, r),
    ensures
        r matches Some(Reply { response: Response::ReadDbList(l), .. }) && (pairs_map(l@).contains_key(k) <==> (
        pre.read@.contains_key(k) && pre.read@[k].followed_id == f)) && (pairs_map(l@).contains_key(k)
            ==> pairs_map(l@)[k] == pre.read@[k]),
{
}

/// Reading the followed feeds, the read entries or the time until the next
/// fetch changes nothing and saves nothing.
pub proof fn lemma_queries_that_read(
    pre: SyndState,
    post: SyndState,
    q: SocketQuery,
    id: FollowId,
    now: SysTime,
    since: Option<u128>,
    r: Option<Reply>,
)
    requires
        q == SocketQuery::Feeds(FeedsCommand::List) || q == SocketQuery::MainLoop(
            MainLoopCommand::GetTimeUntilNextFetch,
        ) || q == SocketQuery::Reads(ReadsCommand::ListAll) || q matches SocketQuery::Reads(
            ReadsCommand::ListFromFeed { .. },
        ),
        answered(pre, post, q, id, now, since, r),
    ensures
        unchanged(pre, post),
        r matches Some(reply) ==> !reply.save_followed && !reply.save_read,
{
}

/// The time until the next fetch never exceeds the interval.
pub proof fn lemma_time_until_fetch_bounded(interval: u64, since: Option<u128>)
    ensures
        time_until_fetch(interval, since) matches Some(t) ==> t <= interval,
{
    if let Some(e) = since {
        if e <= interval * 1_000_000_000 {
            assert((interval * 1_000_000_000 - e) / 1_000_000_000 <= interval) by (nonlinear_arith)
                requires
                    0 <= e <= interval * 1_000_000_000,
            ;
        }
    }
}

/// Keeping the pairs of one feed and reading them as a map gives the read
/// entries of that feed.
pub proof fn lemma_feed_pairs(s: Seq<(EntryIdent, ReadEntry)>, f: FollowId)
    requires
        keys_unique(s),
    ensures
        pairs_map(feed_pairs(s, f)) == reads_of_feed(pairs_map(s), f),
    decreases s.len(),
{
    if s.len() == 0 {
        assert(reads_of_feed(pairs_map(s), f) =~= Map::empty());
    } else {
        let d = s.drop_last();
        assert(keys_unique(d)) by {
            assert forall|a: int, b: int| 0 <= a < b < d.len() implies #[trigger] d[a].0@ != #[trigger] d[b].0@ by {
                assert(d[a] == s[a] && d[b] == s[b]);
            }
        }
        lemma_feed_pairs(d, f);
        lemma_pairs_map_dom(d, s.last().0@);
        if pairs_map(d).contains_key(s.last().0@) {
            let i = choose|i: int| 0 <= i < d.len() && #[trigger] d[i].0@ == s.last().0@;
            assert(s[i] == d[i]);
            assert(s[i].0@ != s[s.len() - 1].0@);
        }
        let l = s.last();
        let dm = pairs_map(d);
        assert(pairs_map(s) == dm.insert(l.0@, l.1));
        let lhs = pairs_map(feed_pairs(s, f));
        let rhs = reads_of_feed(dm.insert(l.0@, l.1), f);
        if l.1.followed_id == f {
            assert(feed_pairs(s, f) == feed_pairs(d, f).push(l));
            assert(feed_pairs(d, f).push(l).drop_last() =~= feed_pairs(d, f));
            assert(lhs == reads_of_feed(dm, f).insert(l.0@, l.1));
        } else {
            assert(feed_pairs(s, f) == feed_pairs(d, f));
            assert(lhs == reads_of_feed(dm, f));
        }
        assert forall|k: EntryIdentView| #[trigger] lhs.contains_key(k) <==> rhs.contains_key(k) by {
            if k == l.0@ {
                assert(!dm.contains_key(k));
            }
        }
        assert forall|k: EntryIdentView| #[trigger] lhs.contains_key(k) implies lhs[k] == rhs[k] by {
            if k == l.0@ {
                assert(!dm.contains_key(k));
            }
        }
        assert(lhs =~= rhs);
    }
}

/// The read entries of `m`, each identifier once.
fn read_list(m: &IdentMap<ReadEntry>) -> (r: Vec<(EntryIdent, ReadEntry)>)
    ensures
        pairs_map(r@) == m@,
        keys_unique(r@),
{
    m.pairs()
}

/// The read entries of `m` that belong to the feed `f`, each identifier once.
fn read_list_of_feed(m: &IdentMap<ReadEntry>, f: FollowId) -> (r: Vec<(EntryIdent, ReadEntry)>)
    ensures
        pairs_map(r@) == reads_of_feed(m@, f),
        keys_unique(r@),
{
    let es = m.pairs();
    let mut out: Vec<(EntryIdent, ReadEntry)> = Vec::new();
    let mut i: usize = 0;
    while i < es.len()
        invariant
            i <= es@.len(),
            same_pairs(feed_pairs(es@.take(i as int), f), out@),
        decreases es@.len() - i,
    {
        proof {
            assert(es@.take(i + 1).drop_last() =~= es@.take(i as int));
            assert(es@.take(i + 1).last() == es@[i as int]);
        }
        if es[i].1.followed_id == f {
            let k = es[i].0.duplicate();
            let v = es[i].1;
            out.push((k, v));
            proof {
                let t = feed_pairs(es@.take(i + 1), f);
                let p = feed_pairs(es@.take(i as int), f);
                assert(t == p.push(es@[i as int]));
                assert forall|j: int| 0 <= j < t.len() implies #[trigger] t[j].0@ == out@[j].0@
                    && t[j].1 == out@[j].1 by {
                    if j < p.len() {
                        assert(t[j] == p[j]);
                    }
                }
            }
        }
        i = i + 1;
    }
    proof {
        assert(es@.take(es@.len() as int) =~= es@);
        lemma_feed_pairs(es@, f);
        lemma_same_pairs(feed_pairs(es@, f), out@);
        lemma_feed_pairs_unique(es@, f);
    }
    out
}

/// Keeping some of the pairs keeps the keys distinct.
proof fn lemma_feed_pairs_unique(s: Seq<(EntryIdent, ReadEntry)>, f: FollowId)
    requires
        keys_unique(s),
    ensures
        keys_unique(feed_pairs(s, f)),
        forall|j: int| 0 <= j < feed_pairs(s, f).len() ==> exists|i: int| 0 <= i < s.len() && #[trigger] feed_pairs(s, f)[j] == s[i],
    decreases s.len(),
{
    if s.len() > 0 {
        let d = s.drop_last();
        assert(keys_unique(d)) by {
            assert forall|a: int, b: int| 0 <= a < b < d.len() implies #[trigger] d[a].0@ != #[trigger] d[b].0@ by {
                assert(d[a] == s[a] && d[b] == s[b]);
            }
        }
        lemma_feed_pairs_unique(d, f);
        let p = feed_pairs(d, f);
        let t = feed_pairs(s, f);
        assert forall|j: int| 0 <= j < p.len() implies exists|i: int| 0 <= i < s.len() && #[trigger] p[j] == s[i] by {
            let i = choose|i: int| 0 <= i < d.len() && #[trigger] p[j] == d[i];
            assert(s[i] == d[i]);
        }
        if s.last().1.followed_id == f {
            assert forall|a: int, b: int| 0 <= a < b < t.len() implies #[trigger] t[a].0@ != #[trigger] t[b].0@ by {
                if b == p.len() {
                    let i = choose|i: int| 0 <= i < d.len() && #[trigger] p[a] == d[i];
                    assert(s[i] == d[i]);
                    assert(t[a] == p[a]);
                    assert(s[i].0@ != s[s.len() - 1].0@);
                } else {
                    assert(t[a] == p[a] && t[b] == p[b]);
                }
            }
            assert forall|j: int| 0 <= j < t.len() implies exists|i: int| 0 <= i < s.len() && #[trigger] t[j] == s[i] by {
                if j == p.len() {
                    assert(t[j] == s[s.len() - 1]);
                } else {
                    assert(t[j] == p[j]);
                }
            }
        }
    }
}

impl SyndState {
    /// A state with the given settings, followed feeds and read entries,
    /// before the first fetch, with no entry seen yet.
    pub fn new(
        config: Config,
        followed: HashMap<FollowId, FollowedEntry>,
        read: Vec<(EntryIdent, ReadEntry)>,
    ) -> (s: SyndState)
        ensures
            s.config == config,
            s.followed@ == followed@,
            s.read@ == pairs_map(read@),
            s.seen@ == Map::<EntryIdentView, FollowId>::empty(),
            s.last_fetch is None,
    {
        let mut m: IdentMap<ReadEntry> = IdentMap::new();
        let mut i: usize = 0;
        while i < read.len()
            invariant
                i <= read@.len(),
                m@ == pairs_map(read@.take(i as int)),
            decreases read@.len() - i,
        {
            let k = read[i].0.duplicate();
            let v = read[i].1;
            m.insert(k, v);
            proof {
                assert(read@.take(i + 1).drop_last() =~= read@.take(i as int));
            }
            i = i + 1;
        }
        proof {
            assert(read@.take(read@.len() as int) =~= read@);
        }
        SyndState { config, last_fetch: None, followed, read: m, seen: IdentMap::new() }
    }

    /// For each fetched entry of `es`, whether it is new: not among the read
    /// entries. New entries are the ones announced to the user.
    pub fn new_entry_flags(&self, es: &Vec<SendEntry>) -> (r: Vec<bool>)
        ensures
            r@.len() == es@.len(),
            forall|i: int| 0 <= i < es@.len() ==> #[trigger] r@[i] == !self.read@.contains_key(es@[i].ident@),
    {
        let mut r: Vec<bool> = Vec::new();
        let mut i: usize = 0;
        while i < es.len()
            invariant
                i <= es@.len(),
                r@.len() == i,
                forall|j: int| 0 <= j < i ==> #[trigger] r@[j] == !self.read@.contains_key(es@[j].ident@),
            decreases es@.len() - i,
        {
            let seen_before = match self.read.get(&es[i].ident) {
                Some(_) => true,
                None => false,
            };
            r.push(!seen_before);
            i = i + 1;
        }
        r
    }

    /// Notes that a fetch of the feed `f` showed the entries `es`, so that
    /// marking one of them as read records that feed.
    pub fn note_entries(&mut self, f: FollowId, es: &Vec<SendEntry>)
        ensures
            final(self).seen@ == noted(old(self).seen@, f, es@),
            final(self).config == old(self).config,
            final(self).last_fetch == old(self).last_fetch,
            final(self).followed@ == old(self).followed@,
            final(self).read@ == old(self).read@,
    {
        let mut i: usize = 0;
        while i < es.len()
            invariant
                i <= es@.len(),
                self.seen@ == noted(old(self).seen@, f, es@.take(i as int)),
                self.config == old(self).config,
                self.last_fetch == old(self).last_fetch,
                self.followed@ == old(self).followed@,
                self.read@ == old(self).read@,
            decreases es@.len() - i,
        {
            let k = es[i].ident.duplicate();
            self.seen.insert(k, f);
            proof {
                assert(es@.take(i + 1).drop_last() =~= es@.take(i as int));
            }
            i = i + 1;
        }
        proof {
            assert(es@.take(es@.len() as int) =~= es@);
        }
    }

    /// Answers the query `q` when a new feed gets the identifier `id`, the
    /// time is `now`, and `since` nanoseconds have passed since the last fetch.
    pub fn answer(
        &mut self,
        q: SocketQuery,
        id: FollowId,
        now: SysTime,
        since: Option<u128>,
    ) -> (r: Option<Reply>)
        ensures
            answered(*old(self), *final(self), q, id, now, since, r),
    {
        match q {
            SocketQuery::Feeds(cmd) => match cmd {
                FeedsCommand::Follow { name, url } => {
                    self.followed.insert(id, FollowedEntry { name, url, read_from: now });
                    Some(Reply { response: Response::Ack, save_followed: true, save_read: false })
                },
                FeedsCommand::Unfollow { id: gone } => {
                    match self.followed.remove(&gone) {
                        Some(_) => Some(Reply { response: Response::Ack, save_followed: true, save_read: false }),
                        None => {
                            assert(self.followed@ =~= old(self).followed@);
                            Some(
                                Reply {
                                    response: Response::Bad(SyndError::InvalidParameter),
                                    save_followed: false,
                                    save_read: false,
                                },
                            )
                        },
                    }
                },
                FeedsCommand::Update { id_to_update, name, url, read_from } => {
                    match self.followed.remove(&id_to_update) {
                        Some(e) => {
                            let new_name = match name {
                                Some(n) => if n.as_str().is_empty() {
                                    None
                                } else {
                                    Some(n)
                                },
                                None => e.name,
                            };
                            let new_url = match url {
                                Some(u) => u,
                                None => e.url,
                            };
                            let new_read_from = match read_from {
                                Some(t) => t,
                                None => e.read_from,
                            };
                            self.followed.insert(
                                id_to_update,
                                FollowedEntry { name: new_name, url: new_url, read_from: new_read_from },
                            );
                            assert(self.followed@ =~= old(self).followed@.insert(
                                id_to_update,
                                updated_entry(old(self).followed@[id_to_update], name, url, read_from),
                            ));
                            Some(Reply { response: Response::Ack, save_followed: false, save_read: false })
                        },
                        None => {
                            assert(self.followed@ =~= old(self).followed@);
                            Some(
                                Reply { response: Response::Bad(SyndError::InvalidId), save_followed: false, save_read: false },
                            )
                        },
                    }
                },
                FeedsCommand::List => Some(
                    Reply { response: Response::FollowDbList(self.followed.clone()), save_followed: false, save_read: false },
                ),
            },
            SocketQuery::Reads(cmd) => match cmd {
                ReadsCommand::MarkRead { id: e } => {
                    let followed_id = match self.seen.get(&e) {
                        Some(f) => *f,
                        None => 0,
                    };
                    self.read.insert(e, ReadEntry { followed_id, added_at: now });
                    Some(Reply { response: Response::Ack, save_followed: false, save_read: true })
                },
                ReadsCommand::MarkUnread { id: e } => {
                    let was = self.read.remove(&e);
                    Some(Reply { response: Response::Ack, save_followed: false, save_read: was })
                },
                ReadsCommand::ListAll => Some(
                    Reply {
                        response: Response::ReadDbList(read_list(&self.read)),
                        save_followed: false,
                        save_read: false,
                    },
                ),
                ReadsCommand::ListFromFeed { followed_id: f } => Some(
                    Reply {
                        response: Response::ReadDbList(read_list_of_feed(&self.read, f)),
                        save_followed: false,
                        save_read: false,
                    },
                ),
            },
            SocketQuery::MainLoop(cmd) => match cmd {
                MainLoopCommand::GetTimeUntilNextFetch => {
                    match time_until_fetch_exec(self.config.fetch_interval, since) {
                        Some(t) => Some(
                            Reply { response: Response::TimeUntilFetch(t), save_followed: false, save_read: false },
                        ),
                        None => None,
                    }
                },
                MainLoopCommand::ForceFetch => {
                    self.last_fetch = None;
                    Some(Reply { response: Response::Ack, save_followed: false, save_read: false })
                },
            },
        }
    }
}

impl SyndState {
    /// Answers the query `q`. A feed that `Follow` adds gets a fresh random
    /// identifier that no followed feed has (see [`fresh_id`]) and the
    /// current time; an entry that `MarkRead` marks gets
    /// the current time; the time until the next fetch is measured on the
    /// monotonic clock. `None` where the daemon stops.
    pub fn handle_query(&mut self, q: SocketQuery) -> (r: Option<Reply>)
        ensures
            exists|id: FollowId, now: SysTime, since: Option<u128>|
                {
                    &&& now.wf()
                    &&& old(self).last_fetch is None ==> since is None
                    &&& (old(self).last_fetch is Some && q == SocketQuery::MainLoop(
                        MainLoopCommand::GetTimeUntilNextFetch,
                    )) ==> since is Some
                    &&& (q matches SocketQuery::Feeds(FeedsCommand::Follow { .. })) ==> {
                        &&& (id >> 76u128) & 0xFu128 == 4
                        &&& (id >> 62u128) & 0x3u128 == 2
                        &&& !old(self).followed@.contains_key(id)
                    }
                    &&& (q matches SocketQuery::Feeds(FeedsCommand::Follow { .. }) || q matches SocketQuery::Reads(
                        ReadsCommand::MarkRead { .. },
                    )) ==> exists|c: std::time::SystemTime| now == #[trigger] time_of_offset(
                        system_time_offset(c),
                    )
                    &&& #[trigger] answered(*old(self), *final(self), q, id, now, since, r)
                },
    {
        let (id, now) = match &q {
            SocketQuery::Feeds(FeedsCommand::Follow { .. }) => (
                fresh_id(&self.followed, new_follow_id()),
                SysTime::now(),
            ),
            SocketQuery::Reads(ReadsCommand::MarkRead { .. }) => (0, SysTime::now()),
            _ => (0, SysTime { after_epoch: true, secs: 0, nanos: 0 }),
        };
        let since = match (&q, &self.last_fetch) {
            (SocketQuery::MainLoop(MainLoopCommand::GetTimeUntilNextFetch), Some(t)) => Some(
                nanos_since(t),
            ),
            _ => None,
        };
        let ghost pre = *self;
        let ghost q0 = q;
        let r = self.answer(q, id, now, since);
        assert(answered(pre, *self, q0, id, now, since, r));
        r
    }

    /// Starts a fetch of the followed feeds if one is due: records the
    /// current instant as the time of the last fetch and returns `true`.
    pub fn start_fetch_if_due(&mut self) -> (due: bool)
        ensures
            exists|since: Option<u128>|
                {
                    &&& (since is Some <==> old(self).last_fetch is Some)
                    &&& due == #[trigger] fetch_due(old(self).config.fetch_interval, since)
                },
            due ==> final(self).last_fetch is Some && final(self).config == old(self).config
                && final(self).followed@ == old(self).followed@ && final(self).read@ == old(self).read@
                && final(self).seen@ == old(self).seen@,
            !due ==> unchanged(*old(self), *final(self)),
    {
        let since = match &self.last_fetch {
            Some(t) => Some(nanos_since(t)),
            None => None,
        };
        let due = fetch_due_exec(self.config.fetch_interval, since);
        assert(due == fetch_due(self.config.fetch_interval, since));
        if due {
            self.last_fetch = Some(instant_now());
        }
        due
    }
}

/// The bits that `fresh_id` flips in a drawn identifier to try the `k`-th
/// alternative: bits 0 to 61 and 64 to 65, never the version or variant bits.
pub open spec fn spread(k: u64) -> u128 {
    ((k as u128) & 0x3FFF_FFFF_FFFF_FFFFu128) | (((k as u128) >> 62u128) << 64u128)
}

/// Flipping the bits of an alternative keeps the version and variant fields,
/// and the zeroth alternative is the identifier itself.
proof fn lemma_spread_keeps_fields(id: u128, k: u64)
    ensures
        ((id ^ spread(k)) >> 76u128) & 0xFu128 == (id >> 76u128) & 0xFu128,
        ((id ^ spread(k)) >> 62u128) & 0x3u128 == (id >> 62u128) & 0x3u128,
        id ^ spread(0) == id,
{
    assert(((id ^ spread(k)) >> 76u128) & 0xFu128 == (id >> 76u128) & 0xFu128) by (bit_vector);
    assert(((id ^ spread(k)) >> 62u128) & 0x3u128 == (id >> 62u128) & 0x3u128) by (bit_vector);
    assert(id ^ spread(0) == id) by (bit_vector);
}

/// Different alternatives give different identifiers.
proof fn lemma_spread_injective(id: u128, a: u64, b: u64)
    requires
        id ^ spread(a) == id ^ spread(b),
    ensures
        a == b,
{
    assert(id ^ spread(a) == id ^ spread(b) ==> a == b) by (bit_vector);
}

/// An identifier for a new feed, from the drawn identifier `id`: `id`
/// itself if no followed feed has it, else the first of its alternatives
/// (`id` with the bits of [`spread`] flipped) that none has. Each
/// alternative keeps the version and variant fields of `id`.
pub fn fresh_id(followed: &HashMap<FollowId, FollowedEntry>, id: FollowId) -> (r: FollowId)
    ensures
        !followed@.contains_key(r),
        (r >> 76u128) & 0xFu128 == (id >> 76u128) & 0xFu128,
        (r >> 62u128) & 0x3u128 == (id >> 62u128) & 0x3u128,
        !followed@.contains_key(id) ==> r == id,
        exists|k: u64| r == id ^ spread(k),
{
    let n = followed.len();
    let mut k: usize = 0;
    let ghost mut taken: Set<u128> = Set::empty();
    proof {
        lemma_spread_keeps_fields(id, 0);
    }
    while followed.contains_key(&(id ^ spread_exec(k as u64)))
        invariant
            k <= n,
            n == followed@.len(),
            followed@.dom().finite(),
            taken.finite(),
            taken.len() == k,
            taken.subset_of(followed@.dom()),
            forall|x: u128| #[trigger] taken.contains(x) ==> exists|j: u64| j < k && x == id ^ spread(j),
            id ^ spread(0) == id,
            k > 0 ==> followed@.contains_key(id),
        decreases n - k,
    {
        let ghost c = id ^ spread(k as u64);
        proof {
            if taken.contains(c) {
                let j = choose|j: u64| j < k && c == id ^ spread(j);
                lemma_spread_injective(id, j, k as u64);
            }
            vstd::set_lib::lemma_len_subset(taken.insert(c), followed@.dom());
            taken = taken.insert(c);
            assert forall|x: u128| #[trigger] taken.contains(x) implies exists|j: u64| j < k + 1 && x == id ^ spread(j) by {
                if x == c {
                    assert(x == id ^ spread(k as u64));
                }
            }
        }
        k = k + 1;
    }
    let r = id ^ spread_exec(k as u64);
    proof {
        lemma_spread_keeps_fields(id, k as u64);
    }
    r
}

/// The bits of the `k`-th alternative; see [`spread`].
fn spread_exec(k: u64) -> (r: u128)
    ensures
        r == spread(k),
{
    ((k as u128) & 0x3FFF_FFFF_FFFF_FFFFu128) | (((k as u128) >> 62u128) << 64u128)
}

/// A fresh identifier for a followed feed: the 128 bits of a random UUID.
///
/// Trusted: calls `uuid::Uuid::new_v4` and reads the result with
/// `Uuid::as_u128`. The bits are random; what is stated is what `new_v4`
/// fixes in them: the version field (bits 76 to 79) is 4 and the variant
/// field (bits 62 and 63) is binary 10.
#[verifier::external_body]
fn new_follow_id() -> (id: FollowId)
    ensures
        (id >> 76u128) & 0xFu128 == 4,
        (id >> 62u128) & 0x3u128 == 2,
{
    uuid::Uuid::new_v4().as_u128()
}

/// The current instant of the monotonic clock.
///
/// Trusted: calls `std::time::Instant::now`; nothing is stated of the value.
#[verifier::external_body]
fn instant_now() -> std::time::Instant {
    std::time::Instant::now()
}

/// Nanoseconds passed since the instant `t`.
///
/// Trusted: calls `Instant::elapsed` and reads the `Duration` with
/// `as_nanos`. The value depends on the clock; nothing is stated of it.
#[verifier::external_body]
fn nanos_since(t: &std::time::Instant) -> u128 {
    t.elapsed().as_nanos()
}

/// Whole seconds left until the next fetch; see [`time_until_fetch`].
pub fn time_until_fetch_exec(interval: u64, since: Option<u128>) -> (r: Option<u64>)
    ensures
        r == time_until_fetch(interval, since),
{
    match since {
        Some(e) => {
            let total = (interval as u128) * NANOS_PER_SEC;
            if e <= total {
                let left = (total - e) / NANOS_PER_SEC;
                assert(left <= interval) by (nonlinear_arith)
                    requires
                        left == (interval * 1_000_000_000 - e) / 1_000_000_000,
                        e >= 0,
                ;
                Some(left as u64)
            } else {
                None
            }
        },
        None => None,
    }
}

/// Whether the feeds are due to be fetched; see [`fetch_due`].
pub fn fetch_due_exec(interval: u64, since: Option<u128>) -> (r: bool)
    ensures
        r == fetch_due(interval, since),
{
    match since {
        Some(e) => e >= (interval as u128) * NANOS_PER_SEC,
        None => true,
    }
}

} // verus!
