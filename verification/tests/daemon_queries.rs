use std::collections::HashMap;

use synd::config::Config;
use synd::daemon::{fetch_due_exec, fresh_id, time_until_fetch_exec};
use synd::{
    EntryIdent, FeedsCommand, FollowedEntry, MainLoopCommand, ReadEntry, ReadsCommand, Response,
    SendEntry, SocketQuery, SyndError, SyndState, SysTime,
};

fn t(secs: u64) -> SysTime {
    SysTime { after_epoch: true, secs, nanos: 0 }
}

fn state() -> SyndState {
    SyndState::new(Config::default(), HashMap::new(), Vec::new())
}

fn follow(s: &mut SyndState, id: u128, name: Option<&str>, url: &str) {
    let q = SocketQuery::Feeds(FeedsCommand::Follow {
        name: name.map(|n| n.to_string()),
        url: url.to_string(),
    });
    let r = s.answer(q, id, t(100), None).unwrap();
    assert!(matches!(r.response, Response::Ack));
    assert!(r.save_followed);
}

#[test]
fn follow_then_list() {
    let mut s = state();
    follow(&mut s, 7, Some("news"), "http://a");
    let r = s.answer(SocketQuery::Feeds(FeedsCommand::List), 0, t(0), None).unwrap();
    assert!(!r.save_followed);
    match r.response {
        Response::FollowDbList(m) => {
            assert_eq!(m.len(), 1);
            let e = &m[&7];
            assert_eq!(e.name.as_deref(), Some("news"));
            assert_eq!(e.url, "http://a");
            assert_eq!(e.read_from, t(100));
        }
        _ => panic!("expected a list"),
    }
}

#[test]
fn follow_then_unfollow_restores() {
    let mut s = state();
    follow(&mut s, 1, None, "http://a");
    follow(&mut s, 2, None, "http://b");
    let r = s.answer(SocketQuery::Feeds(FeedsCommand::Unfollow { id: 2 }), 0, t(0), None).unwrap();
    assert!(matches!(r.response, Response::Ack));
    assert!(r.save_followed);
    assert_eq!(s.followed.len(), 1);
    assert!(s.followed.contains_key(&1));
}

#[test]
fn unfollow_unknown_is_refused() {
    let mut s = state();
    follow(&mut s, 1, None, "http://a");
    let r = s.answer(SocketQuery::Feeds(FeedsCommand::Unfollow { id: 9 }), 0, t(0), None).unwrap();
    assert!(matches!(r.response, Response::Bad(SyndError::InvalidParameter)));
    assert!(!r.save_followed);
    assert_eq!(s.followed.len(), 1);
    let r = s.answer(SocketQuery::Feeds(FeedsCommand::Unfollow { id: 1 }), 0, t(0), None).unwrap();
    assert!(matches!(r.response, Response::Ack));
    let r = s.answer(SocketQuery::Feeds(FeedsCommand::Unfollow { id: 1 }), 0, t(0), None).unwrap();
    assert!(matches!(r.response, Response::Bad(SyndError::InvalidParameter)));
}

#[test]
fn update_changes_given_fields() {
    let mut s = state();
    follow(&mut s, 3, Some("old"), "http://a");
    let q = SocketQuery::Feeds(FeedsCommand::Update {
        id_to_update: 3,
        name: None,
        url: Some("http://b".to_string()),
        read_from: Some(t(5)),
    });
    let r = s.answer(q, 0, t(0), None).unwrap();
    assert!(matches!(r.response, Response::Ack));
    assert!(!r.save_followed);
    let e: &FollowedEntry = &s.followed[&3];
    assert_eq!(e.name.as_deref(), Some("old"));
    assert_eq!(e.url, "http://b");
    assert_eq!(e.read_from, t(5));
    let q = SocketQuery::Feeds(FeedsCommand::Update {
        id_to_update: 3,
        name: Some(String::new()),
        url: None,
        read_from: None,
    });
    s.answer(q, 0, t(0), None).unwrap();
    assert!(s.followed[&3].name.is_none());
    assert_eq!(s.followed[&3].url, "http://b");
}

#[test]
fn update_unknown_is_refused() {
    let mut s = state();
    let q = SocketQuery::Feeds(FeedsCommand::Update {
        id_to_update: 3,
        name: Some("x".to_string()),
        url: None,
        read_from: None,
    });
    let r = s.answer(q, 0, t(0), None).unwrap();
    assert!(matches!(r.response, Response::Bad(SyndError::InvalidId)));
    assert!(s.followed.is_empty());
}

fn guid(g: &str) -> EntryIdent {
    EntryIdent::RssGuid(g.to_string())
}

fn listed(s: &mut SyndState, q: ReadsCommand) -> Vec<(EntryIdent, ReadEntry)> {
    let r = s.answer(SocketQuery::Reads(q), 0, t(0), None).unwrap();
    assert!(!r.save_followed && !r.save_read);
    match r.response {
        Response::ReadDbList(l) => l,
        other => panic!("expected a list, got {other:?}"),
    }
}

#[test]
fn mark_read_then_list() {
    let mut s = state();
    let seen = vec![SendEntry {
        ident: guid("g"),
        title: "A".to_string(),
        url: "http://x/a".to_string(),
        summary: String::new(),
    }];
    s.note_entries(42, &seen);
    let q = SocketQuery::Reads(ReadsCommand::MarkRead { id: guid("g") });
    let r = s.answer(q, 0, t(7), None).unwrap();
    assert!(matches!(r.response, Response::Ack));
    assert!(r.save_read && !r.save_followed);
    let q = SocketQuery::Reads(ReadsCommand::MarkRead { id: EntryIdent::AtomId("a".to_string()) });
    s.answer(q, 0, t(8), None).unwrap();
    let l = listed(&mut s, ReadsCommand::ListAll);
    assert_eq!(l.len(), 2);
    let g = l.iter().find(|(k, _)| *k == guid("g")).unwrap();
    assert_eq!(g.1.followed_id, 42);
    assert_eq!(g.1.added_at, t(7));
    let a = l.iter().find(|(k, _)| *k == EntryIdent::AtomId("a".to_string())).unwrap();
    assert_eq!(a.1.followed_id, 0);
    assert_eq!(a.1.added_at, t(8));
}

#[test]
fn mark_read_twice_keeps_one_record() {
    let mut s = state();
    for now in [3, 4] {
        let q = SocketQuery::Reads(ReadsCommand::MarkRead { id: guid("g") });
        s.answer(q, 0, t(now), None).unwrap();
    }
    let l = listed(&mut s, ReadsCommand::ListAll);
    assert_eq!(l.len(), 1);
    assert_eq!(l[0].1.added_at, t(4));
}

#[test]
fn mark_unread_removes() {
    let mut s = state();
    s.answer(SocketQuery::Reads(ReadsCommand::MarkRead { id: guid("g") }), 0, t(1), None).unwrap();
    let r = s.answer(SocketQuery::Reads(ReadsCommand::MarkUnread { id: guid("g") }), 0, t(0), None).unwrap();
    assert!(matches!(r.response, Response::Ack));
    assert!(r.save_read);
    assert!(listed(&mut s, ReadsCommand::ListAll).is_empty());
    let r = s.answer(SocketQuery::Reads(ReadsCommand::MarkUnread { id: guid("g") }), 0, t(0), None).unwrap();
    assert!(matches!(r.response, Response::Ack));
    assert!(!r.save_read);
}

#[test]
fn list_from_feed_keeps_that_feed() {
    let read = vec![
        (guid("a"), ReadEntry { followed_id: 1, added_at: t(1) }),
        (guid("b"), ReadEntry { followed_id: 2, added_at: t(2) }),
        (guid("c"), ReadEntry { followed_id: 1, added_at: t(3) }),
    ];
    let mut s = SyndState::new(Config::default(), HashMap::new(), read);
    let l = listed(&mut s, ReadsCommand::ListFromFeed { followed_id: 1 });
    let keys: Vec<EntryIdent> = l.iter().map(|(k, _)| k.clone()).collect();
    assert_eq!(keys, vec![guid("a"), guid("c")]);
    assert!(listed(&mut s, ReadsCommand::ListFromFeed { followed_id: 3 }).is_empty());
    assert_eq!(listed(&mut s, ReadsCommand::ListAll).len(), 3);
}

#[test]
fn loaded_read_entries_keep_the_last_of_a_key() {
    let read = vec![
        (guid("a"), ReadEntry { followed_id: 1, added_at: t(1) }),
        (guid("a"), ReadEntry { followed_id: 2, added_at: t(2) }),
    ];
    let mut s = SyndState::new(Config::default(), HashMap::new(), read);
    let l = listed(&mut s, ReadsCommand::ListAll);
    assert_eq!(l.len(), 1);
    assert_eq!(l[0].1.followed_id, 2);
}

#[test]
fn time_until_fetch() {
    let mut s = state();
    let q = || SocketQuery::MainLoop(MainLoopCommand::GetTimeUntilNextFetch);
    let r = s.answer(q(), 0, t(0), Some(1_500_000_000)).unwrap();
    assert!(matches!(r.response, Response::TimeUntilFetch(598)));
    let r = s.answer(q(), 0, t(0), Some(0)).unwrap();
    assert!(matches!(r.response, Response::TimeUntilFetch(600)));
    let r = s.answer(q(), 0, t(0), Some(600_000_000_000)).unwrap();
    assert!(matches!(r.response, Response::TimeUntilFetch(0)));
    assert!(s.answer(q(), 0, t(0), Some(600_000_000_001)).is_none());
    assert!(s.answer(q(), 0, t(0), None).is_none());
    assert_eq!(time_until_fetch_exec(10, Some(9_999_999_999)), Some(0));
}

#[test]
fn fetch_is_due() {
    assert!(fetch_due_exec(600, None));
    assert!(!fetch_due_exec(600, Some(599_999_999_999)));
    assert!(fetch_due_exec(600, Some(600_000_000_000)));
}

#[test]
fn force_fetch_makes_a_fetch_due() {
    let mut s = state();
    assert!(s.start_fetch_if_due());
    assert!(s.last_fetch.is_some());
    assert!(!s.start_fetch_if_due());
    let r = s.answer(SocketQuery::MainLoop(MainLoopCommand::ForceFetch), 0, t(0), None).unwrap();
    assert!(matches!(r.response, Response::Ack));
    assert!(s.last_fetch.is_none());
    assert!(s.start_fetch_if_due());
}

#[test]
fn handle_query_gives_fresh_ids() {
    let mut s = state();
    let q = || SocketQuery::Feeds(FeedsCommand::Follow { name: None, url: "http://a".to_string() });
    s.handle_query(q()).unwrap();
    s.handle_query(q()).unwrap();
    assert_eq!(s.followed.len(), 2);
    for (id, e) in &s.followed {
        assert_eq!((id >> 76) & 0xF, 4);
        assert_eq!((id >> 62) & 0x3, 2);
        assert!(e.read_from.after_epoch);
    }
    assert!(s.handle_query(SocketQuery::MainLoop(MainLoopCommand::GetTimeUntilNextFetch)).is_none());
    s.start_fetch_if_due();
    match s.handle_query(SocketQuery::MainLoop(MainLoopCommand::GetTimeUntilNextFetch)).unwrap().response {
        Response::TimeUntilFetch(n) => assert!(n <= 600 && n >= 598),
        _ => panic!("expected a time"),
    }
}

#[test]
fn fresh_id_avoids_taken_ids() {
    let id: u128 = 0x1234_5678_9abc_4def_8123_4567_89ab_cdef;
    let mut m = HashMap::new();
    assert_eq!(fresh_id(&m, id), id);
    let e = FollowedEntry { name: None, url: "u".to_string(), read_from: t(0) };
    m.insert(id, e.clone());
    let r = fresh_id(&m, id);
    assert_eq!(r, id ^ 1);
    m.insert(id ^ 1, e.clone());
    m.insert(id ^ 2, e);
    let r = fresh_id(&m, id);
    assert_eq!(r, id ^ 3);
    assert_eq!((r >> 76) & 0xF, 4);
    assert_eq!((r >> 62) & 0x3, 2);
}

#[test]
fn new_entries_are_those_not_read() {
    let mut s = state();
    s.answer(SocketQuery::Reads(ReadsCommand::MarkRead { id: guid("a") }), 0, t(1), None).unwrap();
    let entry = |g: &str| SendEntry {
        ident: guid(g),
        title: String::new(),
        url: String::new(),
        summary: String::new(),
    };
    let es = vec![entry("a"), entry("b"), entry("a"), entry("c")];
    assert_eq!(s.new_entry_flags(&es), vec![false, true, false, true]);
}
