use synd::feed::{AtomEntry, RssItem, atom_report, rss_item_ok_exec, rss_report};
use synd::utf8len::{byte_len_exec, cut_at_bytes_exec, floor_cut_exec};
use synd::{EntryIdent, FeedReport, FeedWarning, feed_report};

const ATOM: &str = r#"<?xml version="1.0" encoding="utf-8"?>
<feed xmlns="http://www.w3.org/2005/Atom">
  <title>Example</title>
  <id>urn:uuid:feed</id>
  <updated>2003-12-13T18:30:02Z</updated>
  <entry>
    <title>First</title>
    <link href="http://example.org/1"/>
    <link href="http://example.org/alt"/>
    <id>urn:uuid:1</id>
    <updated>2003-12-13T18:30:02Z</updated>
    <summary>Some text.</summary>
  </entry>
  <entry>
    <title>No link</title>
    <id>urn:uuid:2</id>
    <updated>2003-12-13T18:30:02Z</updated>
  </entry>
  <entry>
    <title>Third</title>
    <link href="http://example.org/3"/>
    <id>urn:uuid:3</id>
    <updated>2003-12-13T18:30:02Z</updated>
  </entry>
</feed>"#;

const RSS: &str = r#"<?xml version="1.0"?>
<rss version="2.0" xmlns:content="http://purl.org/rss/1.0/modules/content/">
<channel><title>T</title><link>http://x</link><description>d</description>
<item><title>A</title><link>http://x/a</link><guid>g1</guid><description>0123456789abc</description></item>
<item><link>http://x/b</link><description>short</description></item>
<item><title>C</title><description>no link no guid</description></item>
<item><guid>g4</guid><description>guid without link</description></item>
<item><title>E</title><link>http://x/e</link><content:encoded>a long piece of content</content:encoded></item>
<item><title>F</title><link>http://x/f</link></item>
</channel></rss>"#;

#[test]
fn atom_feed_is_read() {
    match feed_report(ATOM, 240, 240).unwrap() {
        FeedReport::Atom { entries, warnings } => {
            assert_eq!(entries.len(), 2);
            assert_eq!(entries[0].ident, EntryIdent::AtomId("urn:uuid:1".to_string()));
            assert_eq!(entries[0].title, "First");
            assert_eq!(entries[0].url, "http://example.org/1");
            assert_eq!(entries[0].summary, "Some text.");
            assert_eq!(entries[1].url, "http://example.org/3");
            assert_eq!(entries[1].summary, "");
            assert_eq!(warnings.len(), 1);
            match &warnings[0] {
                FeedWarning::LinkMissing { title } => assert_eq!(title, "No link"),
                _ => panic!("wrong warning"),
            }
        }
        other => panic!("expected an Atom feed, got {other:?}"),
    }
}

#[test]
fn rss_channel_is_read() {
    match feed_report(RSS, 10, 6).unwrap() {
        FeedReport::Rss { entries, warnings } => {
            assert_eq!(entries.len(), 4);
            assert_eq!(entries[0].ident, EntryIdent::RssGuid("g1".to_string()));
            assert_eq!(entries[0].summary, "0123456789");
            assert_eq!(entries[1].ident, EntryIdent::RssLink("http://x/b".to_string()));
            assert_eq!(entries[1].title, "[no title]");
            assert_eq!(entries[1].summary, "short");
            assert_eq!(entries[2].summary, "a long...");
            assert_eq!(entries[3].summary, "[no description]");
            assert_eq!(warnings.len(), 1);
            assert!(matches!(warnings[0], FeedWarning::Unidentifiable));
        }
        other => panic!("expected an RSS channel, got {other:?}"),
    }
}

#[test]
fn other_text_is_invalid() {
    assert!(matches!(feed_report("not a feed", 10, 10), Some(FeedReport::Invalid)));
    assert!(matches!(feed_report("<html></html>", 10, 10), Some(FeedReport::Invalid)));
}

#[test]
fn cut_inside_a_character_stops() {
    let rss = r#"<rss version="2.0"><channel><title>T</title><link>l</link><description>d</description>
<item><link>http://x/a</link><description>aé</description></item></channel></rss>"#;
    assert!(feed_report(rss, 2, 240).is_none());
    assert!(matches!(feed_report(rss, 3, 240), Some(FeedReport::Rss { .. })));
    assert!(matches!(feed_report(rss, 1, 240), Some(FeedReport::Rss { .. })));
}

#[test]
fn reports_from_plain_values() {
    let es = vec![AtomEntry {
        id: "i".to_string(),
        title: "t".to_string(),
        links: vec![],
        summary: None,
    }];
    let (entries, warnings) = atom_report(&es, 240);
    assert!(entries.is_empty());
    assert_eq!(warnings.len(), 1);
    let items = vec![RssItem {
        guid: None,
        link: Some("u".to_string()),
        title: None,
        description: Some("éé".to_string()),
        content: None,
    }];
    assert!(!rss_item_ok_exec(&items[0], 3, 0));
    assert!(rss_item_ok_exec(&items[0], 2, 0));
    let (entries, _) = rss_report(&items, 2, 0);
    assert_eq!(entries[0].summary, "é");
}

#[test]
fn utf8_lengths() {
    let cs: Vec<char> = "aé€😀".chars().collect();
    assert_eq!(byte_len_exec(&cs), 10);
    assert_eq!(cut_at_bytes_exec(&cs, 3), Some(vec!['a', 'é']));
    assert_eq!(cut_at_bytes_exec(&cs, 2), None);
    assert_eq!(cut_at_bytes_exec(&cs, 0), Some(vec![]));
    assert_eq!(cut_at_bytes_exec(&cs, 11), None);
}

#[test]
fn atom_summaries_are_cut() {
    let atom = r#"<?xml version="1.0" encoding="utf-8"?>
<feed xmlns="http://www.w3.org/2005/Atom">
  <title>Example</title>
  <id>urn:uuid:feed</id>
  <updated>2003-12-13T18:30:02Z</updated>
  <entry>
    <title>Long</title>
    <link href="http://example.org/1"/>
    <id>urn:uuid:1</id>
    <updated>2003-12-13T18:30:02Z</updated>
    <summary>0123456789abc</summary>
  </entry>
</feed>"#;
    match feed_report(atom, 10, 240).unwrap() {
        FeedReport::Atom { entries, .. } => assert_eq!(entries[0].summary, "0123456789"),
        other => panic!("expected an Atom feed, got {other:?}"),
    }
    match feed_report(atom, 13, 240).unwrap() {
        FeedReport::Atom { entries, .. } => assert_eq!(entries[0].summary, "0123456789abc"),
        other => panic!("expected an Atom feed, got {other:?}"),
    }
}

#[test]
fn atom_summary_cut_falls_back_to_a_boundary() {
    let es = vec![AtomEntry {
        id: "i".to_string(),
        title: "t".to_string(),
        links: vec!["http://x".to_string()],
        summary: Some("aé".to_string()),
    }];
    let (entries, warnings) = atom_report(&es, 3);
    assert_eq!(entries[0].summary, "aé");
    assert!(warnings.is_empty());
    let (entries, _) = atom_report(&es, 2);
    assert_eq!(entries[0].summary, "a");
    let (entries, _) = atom_report(&es, 0);
    assert_eq!(entries[0].summary, "");
    let atom = r#"<feed xmlns="http://www.w3.org/2005/Atom"><title>T</title><id>f</id><updated>2003-12-13T18:30:02Z</updated>
<entry><title>x</title><link href="http://x"/><id>i</id><updated>2003-12-13T18:30:02Z</updated><summary>aé</summary></entry></feed>"#;
    match feed_report(atom, 2, 240).unwrap() {
        FeedReport::Atom { entries, .. } => assert_eq!(entries[0].summary, "a"),
        other => panic!("expected an Atom feed, got {other:?}"),
    }
}

#[test]
fn floor_cuts() {
    let cs: Vec<char> = "aé€😀".chars().collect();
    assert_eq!(floor_cut_exec(&cs, 0), vec![]);
    assert_eq!(floor_cut_exec(&cs, 2), vec!['a']);
    assert_eq!(floor_cut_exec(&cs, 3), vec!['a', 'é']);
    assert_eq!(floor_cut_exec(&cs, 9), vec!['a', 'é', '€']);
    assert_eq!(floor_cut_exec(&cs, 100), cs);
}
