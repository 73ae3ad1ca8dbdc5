//! Reading the entries of a fetched feed: Atom first, RSS otherwise, and
//! the summaries of RSS items cut to the configured lengths.

use vstd::prelude::*;

use crate::ident::{EntryIdent, EntryIdentView};
use crate::text::{chars_of, string_from_chars};
use crate::utf8len::{
    byte_len, byte_len_exec, cut_at_bytes, cut_at_bytes_exec, floor_cut, floor_cut_exec, lemma_floor_cut,
};

verus! {

broadcast use vstd::string::group_string_axioms;

/// The view of an optional text.
pub open spec fn opt_view(o: Option<String>) -> Option<Seq<char>> {
    match o {
        Some(s) => Some(s@),
        None => None,
    }
}

/// What the daemon reads of an Atom entry.
pub struct AtomEntry {
    /// The entry's `id`.
    pub id: String,
    /// The text of the entry's `title`.
    pub title: String,
    /// The `href` of each of the entry's links, in order.
    pub links: Vec<String>,
    /// The text of the entry's `summary`.
    pub summary: Option<String>,
}

/// The mathematical value of an [`AtomEntry`].
pub struct AtomEntryView {
    pub id: Seq<char>,
    pub title: Seq<char>,
    pub links: Seq<Seq<char>>,
    pub summary: Option<Seq<char>>,
}

impl View for AtomEntry {
    type V = AtomEntryView;

    open spec fn view(&self) -> AtomEntryView {
        AtomEntryView {
            id: self.id@,
            title: self.title@,
            links: self.links@.map_values(|l: String| l@),
            summary: opt_view(self.summary),
        }
    }
}

/// What the daemon reads of an RSS item.
pub struct RssItem {
    /// The value of the item's `guid`.
    pub guid: Option<String>,
    pub link: Option<String>,
    pub title: Option<String>,
    pub description: Option<String>,
    pub content: Option<String>,
}

/// The mathematical value of an [`RssItem`].
pub struct RssItemView {
    pub guid: Option<Seq<char>>,
    pub link: Option<Seq<char>>,
    pub title: Option<Seq<char>>,
    pub description: Option<Seq<char>>,
    pub content: Option<Seq<char>>,
}

impl View for RssItem {
    type V = RssItemView;

    open spec fn view(&self) -> RssItemView {
        RssItemView {
            guid: opt_view(self.guid),
            link: opt_view(self.link),
            title: opt_view(self.title),
            description: opt_view(self.description),
            content: opt_view(self.content),
        }
    }
}

/// An entry of a feed as it would be announced.
#[derive(Debug)]
pub struct SendEntry {
    pub ident: EntryIdent,
    pub title: String,
    pub url: String,
    pub summary: String,
}

/// The mathematical value of a [`SendEntry`].
pub struct SendEntryView {
    pub ident: EntryIdentView,
    pub title: Seq<char>,
    pub url: Seq<char>,
    pub summary: Seq<char>,
}

impl View for SendEntry {
    type V = SendEntryView;

    open spec fn view(&self) -> SendEntryView {
        SendEntryView {
            ident: self.ident@,
            title: self.title@,
            url: self.url@,
            summary: self.summary@,
        }
    }
}

/// An entry of a feed that was skipped.
#[derive(Debug)]
pub enum FeedWarning {
    /// An Atom entry without links; holds its title.
    LinkMissing { title: String },
    /// An RSS item with neither `guid` nor `link`.
    Unidentifiable,
}

/// The mathematical value of a [`FeedWarning`].
pub enum FeedWarningView {
    LinkMissing { title: Seq<char> },
    Unidentifiable,
}

impl View for FeedWarning {
    type V = FeedWarningView;

    open spec fn view(&self) -> FeedWarningView {
        match self {
            FeedWarning::LinkMissing { title } => FeedWarningView::LinkMissing { title: title@ },
            FeedWarning::Unidentifiable => FeedWarningView::Unidentifiable,
        }
    }
}

/// What a fetched feed holds.
#[derive(Debug)]
pub enum FeedReport {
    /// An Atom feed: its announceable entries and the skipped ones.
    Atom { entries: Vec<SendEntry>, warnings: Vec<FeedWarning> },
    /// An RSS channel: its announceable items and the skipped ones.
    Rss { entries: Vec<SendEntry>, warnings: Vec<FeedWarning> },
    /// Neither an Atom feed nor an RSS channel.
    Invalid,
}

/// The views of a sequence of entries.
pub open spec fn send_views(v: Seq<SendEntry>) -> Seq<SendEntryView> {
    v.map_values(|e: SendEntry| e@)
}

/// The views of a sequence of warnings.
pub open spec fn warning_views(v: Seq<FeedWarning>) -> Seq<FeedWarningView> {
    v.map_values(|w: FeedWarning| w@)
}

/// The entries of an Atom feed, read from the text `text`; `None` when
/// `text` is not an Atom feed. Named result of `atom_syndication::Feed::read_from`.
pub uninterp spec fn atom_entries_of(text: Seq<char>) -> Option<Seq<AtomEntryView>>;

/// The items of an RSS channel, read from the text `text`; `None` when
/// `text` is not an RSS channel. Named result of `rss::Channel::read_from`.
pub uninterp spec fn rss_items_of(text: Seq<char>) -> Option<Seq<RssItemView>>;

// ---------------------------------------------------------------------------
// Atom
// ---------------------------------------------------------------------------

/// The summary of an Atom entry: its `summary`, cut at the last character
/// boundary at or below `max` bytes; empty when it has none.
pub open spec fn atom_summary(e: AtomEntryView, max: usize) -> Seq<char> {
    match e.summary {
        Some(s) => floor_cut(s, max as int),
        None => Seq::empty(),
    }
}

/// An Atom entry is announced with its first link as URL and its summary
/// cut to `max` bytes; an entry without links is skipped.
pub open spec fn atom_send(e: AtomEntryView, max: usize) -> Option<SendEntryView> {
    if e.links.len() > 0 {
        Some(
            SendEntryView {
                ident: EntryIdentView::AtomId(e.id),
                title: e.title,
                url: e.links[0],
                summary: atom_summary(e, max),
            },
        )
    } else {
        None
    }
}

/// The announced entries of the Atom entries `es`, in order.
pub open spec fn atom_sends(es: Seq<AtomEntryView>, max: usize) -> Seq<SendEntryView>
    decreases es.len(),
{
    if es.len() == 0 {
        Seq::empty()
    } else {
        let r = atom_sends(es.drop_last(), max);
        match atom_send(es.last(), max) {
            Some(x) => r.push(x),
            None => r,
        }
    }
}

/// The warnings for the skipped entries among `es`, in order.
pub open spec fn atom_warnings(es: Seq<AtomEntryView>) -> Seq<FeedWarningView>
    decreases es.len(),
{
    if es.len() == 0 {
        Seq::empty()
    } else {
        let r = atom_warnings(es.drop_last());
        if es.last().links.len() > 0 {
            r
        } else {
            r.push(FeedWarningView::LinkMissing { title: es.last().title })
        }
    }
}

// ---------------------------------------------------------------------------
// RSS
// ---------------------------------------------------------------------------

/// An RSS item is identified by its `guid`, or else by its `link`.
pub open spec fn rss_ident(i: RssItemView) -> Option<EntryIdentView> {
    match i.guid {
        Some(g) => Some(EntryIdentView::RssGuid(g)),
        None => match i.link {
            Some(l) => Some(EntryIdentView::RssLink(l)),
            None => None,
        },
    }
}

/// The summary of an RSS item: its description, cut to `max` bytes; else
/// its content, cut to `max_inferred` bytes and marked with `...` where
/// cut; else a placeholder.
pub open spec fn rss_summary(i: RssItemView, max: usize, max_inferred: usize) -> Seq<char> {
    match i.description {
        Some(d) => if byte_len(d) > max {
            match cut_at_bytes(d, max as int) {
                Some(p) => p,
                None => Seq::empty(),
            }
        } else {
            d
        },
        None => match i.content {
            Some(c) => if byte_len(c) > max_inferred {
                match cut_at_bytes(c, max_inferred as int) {
                    Some(p) => p + "..."@,
                    None => Seq::empty(),
                }
            } else {
                c
            },
            None => "[no description]"@,
        },
    }
}

/// An RSS item is announced when it is identified and has a link; a
/// missing title is replaced by a placeholder.
pub open spec fn rss_send(i: RssItemView, max: usize, max_inferred: usize) -> Option<SendEntryView> {
    match rss_ident(i) {
        None => None,
        Some(id) => match i.link {
            None => None,
            Some(url) => Some(
                SendEntryView {
                    ident: id,
                    title: match i.title {
                        Some(t) => t,
                        None => "[no title]"@,
                    },
                    url,
                    summary: rss_summary(i, max, max_inferred),
                },
            ),
        },
    }
}

/// Cutting the summary of an announced item does not fall inside a character.
pub open spec fn rss_item_ok(i: RssItemView, max: usize, max_inferred: usize) -> bool {
    (rss_ident(i) is Some && i.link is Some) ==> match i.description {
        Some(d) => byte_len(d) > max ==> cut_at_bytes(d, max as int) is Some,
        None => match i.content {
            Some(c) => byte_len(c) > max_inferred ==> cut_at_bytes(c, max_inferred as int) is Some,
            None => true,
        },
    }
}

/// Every item of `is` can be read without cutting inside a character.
pub open spec fn rss_items_ok(is: Seq<RssItemView>, max: usize, max_inferred: usize) -> bool {
    forall|k: int| 0 <= k < is.len() ==> rss_item_ok(#[trigger] is[k], max, max_inferred)
}

/// The announced entries of the RSS items `is`, in order.
pub open spec fn rss_sends(is: Seq<RssItemView>, max: usize, max_inferred: usize) -> Seq<SendEntryView>
    decreases is.len(),
{
    if is.len() == 0 {
        Seq::empty()
    } else {
        let r = rss_sends(is.drop_last(), max, max_inferred);
        match rss_send(is.last(), max, max_inferred) {
            Some(x) => r.push(x),
            None => r,
        }
    }
}

/// The warnings for the unidentifiable items among `is`, in order.
pub open spec fn rss_warnings(is: Seq<RssItemView>) -> Seq<FeedWarningView>
    decreases is.len(),
{
    if is.len() == 0 {
        Seq::empty()
    } else {
        let r = rss_warnings(is.drop_last());
        match rss_ident(is.last()) {
            Some(_) => r,
            None => r.push(FeedWarningView::Unidentifiable),
        }
    }
}

/// Every Atom entry is either announced or reported as skipped.
pub proof fn lemma_atom_entries_accounted(es: Seq<AtomEntryView>, max: usize)
    ensures
        atom_sends(es, max).len() + atom_warnings(es).len() == es.len(),
    decreases es.len(),
{
    if es.len() > 0 {
        lemma_atom_entries_accounted(es.drop_last(), max);
    }
}

/// An RSS item is announced exactly when it has a link. Its URL is that
/// link; it is identified by its `guid` where it has one, else by its link;
/// its title is its own where it has one; and a description that fits in
/// `max` bytes is its summary unchanged.
pub proof fn lemma_rss_send_fields(i: RssItemView, max: usize, max_inferred: usize)
    ensures
        rss_send(i, max, max_inferred) is Some <==> i.link is Some,
        rss_send(i, max, max_inferred) matches Some(x) ==> i.link == Some(x.url),
        rss_send(i, max, max_inferred) matches Some(x) ==> (i.guid matches Some(g) ==> x.ident
            == EntryIdentView::RssGuid(g)),
        rss_send(i, max, max_inferred) matches Some(x) ==> (i.guid is None ==> x.ident
            == EntryIdentView::RssLink(x.url)),
        rss_send(i, max, max_inferred) matches Some(x) ==> (i.title matches Some(t) ==> x.title == t),
        rss_send(i, max, max_inferred) matches Some(x) ==> (i.description matches Some(d) ==> (byte_len(d)
            <= max ==> x.summary == d)),
{
}

/// Every announced RSS entry comes from an item of the channel and has that
/// item's link as URL; no URL is made up.
pub proof fn lemma_rss_sends_from_items(is: Seq<RssItemView>, max: usize, max_inferred: usize)
    ensures
        forall|j: int|
            #![trigger rss_sends(is, max, max_inferred)[j]]
            0 <= j < rss_sends(is, max, max_inferred).len() ==> exists|k: int|
                0 <= k < is.len() && #[trigger] is[k].link == Some(
                    rss_sends(is, max, max_inferred)[j].url,
                ) && rss_send(is[k], max, max_inferred) == Some(rss_sends(is, max, max_inferred)[j]),
    decreases is.len(),
{
    if is.len() > 0 {
        let d = is.drop_last();
        lemma_rss_sends_from_items(d, max, max_inferred);
        let r = rss_sends(d, max, max_inferred);
        let all = rss_sends(is, max, max_inferred);
        assert forall|j: int| #![trigger all[j]] 0 <= j < all.len() implies exists|k: int|
            0 <= k < is.len() && #[trigger] is[k].link == Some(all[j].url) && rss_send(is[k], max, max_inferred)
                == Some(all[j]) by {
            if j < r.len() {
                assert(all[j] == r[j]);
                let k = choose|k: int|
                    0 <= k < d.len() && #[trigger] d[k].link == Some(r[j].url) && rss_send(d[k], max, max_inferred)
                        == Some(r[j]);
                assert(is[k] == d[k]);
            } else {
                let k = is.len() - 1;
                assert(is[k] == is.last());
                lemma_rss_send_fields(is[k], max, max_inferred);
            }
        }
    }
}

/// Every announced Atom entry has the first link of its entry as URL; in
/// particular no announced URL is made up.
pub proof fn lemma_atom_send_url(e: AtomEntryView, max: usize)
    ensures
        atom_send(e, max) matches Some(x) ==> e.links.len() > 0 && x.url == e.links[0],
{
}

/// The summary of an Atom entry has at most `max` bytes, is a prefix of
/// the entry's summary, and is the whole summary when that fits.
pub proof fn lemma_atom_summary_bounded(e: AtomEntryView, max: usize)
    ensures
        byte_len(atom_summary(e, max)) <= max,
        e.summary matches Some(s) ==> s.take(atom_summary(e, max).len() as int) == atom_summary(e, max),
        e.summary matches Some(s) ==> (byte_len(s) <= max ==> atom_summary(e, max) == s),
{
    if let Some(s) = e.summary {
        lemma_floor_cut(s, max as int);
    } else {
        assert(byte_len(Seq::<char>::empty()) == 0);
    }
}

/// No more RSS entries are announced or reported than the channel has items.
pub proof fn lemma_rss_items_accounted(is: Seq<RssItemView>, max: usize, max_inferred: usize)
    ensures
        rss_sends(is, max, max_inferred).len() + rss_warnings(is).len() <= is.len(),
    decreases is.len(),
{
    if is.len() > 0 {
        lemma_rss_items_accounted(is.drop_last(), max, max_inferred);
    }
}

/// A summary taken from a description has at most `max` bytes; one taken
/// from content has at most `max_inferred` bytes and the three dots.
pub proof fn lemma_summary_bounded(i: RssItemView, max: usize, max_inferred: usize)
    requires
        rss_item_ok(i, max, max_inferred),
        rss_ident(i) is Some,
        i.link is Some,
    ensures
        i.description is Some ==> byte_len(rss_summary(i, max, max_inferred)) <= max,
        (i.description is None && i.content is Some) ==> byte_len(
            rss_summary(i, max, max_inferred),
        ) <= max_inferred + 3,
{
    match i.description {
        Some(d) => {
            if byte_len(d) > max {
                lemma_cut_len(d, max as int);
            }
        },
        None => match i.content {
            Some(c) => {
                if byte_len(c) > max_inferred {
                    lemma_cut_len(c, max_inferred as int);
                    let p = cut_at_bytes(c, max_inferred as int).unwrap();
                    crate::utf8len::lemma_byte_len_add(p, "..."@);
                    assert(byte_len("..."@) == 3) by {
                        reveal_strlit("...");
                        reveal_with_fuel(byte_len, 4);
                        assert("..."@.drop_first().drop_first().drop_first() =~= Seq::<char>::empty());
                    }
                }
            },
            None => {},
        },
    }
}

proof fn lemma_cut_len(s: Seq<char>, n: int)
    requires
        cut_at_bytes(s, n) is Some,
    ensures
        byte_len(cut_at_bytes(s, n).unwrap()) == n,
{
}

// ---------------------------------------------------------------------------
// Reading feeds
// ---------------------------------------------------------------------------

/// The entries of the Atom feed in `text`, or `None` when `text` is not one.
///
/// Trusted: calls `atom_syndication::Feed::read_from` on the bytes of `text`
/// and copies out, for each entry in order, its `id`, the text of its
/// `title`, the `href` of each link and the text of its `summary`. The
/// contract says only that the result is the named result
/// [`atom_entries_of`] of the text: parsing depends on nothing else.
#[verifier::external_body]
fn parse_atom(text: &str) -> (r: Option<Vec<AtomEntry>>)
    ensures
        match (r, atom_entries_of(text@)) {
            (Some(v), Some(es)) => v@.map_values(|e: AtomEntry| e@) == es,
            (None, None) => true,
            _ => false,
        },
{
    let feed = atom_syndication::Feed::read_from(std::io::BufReader::new(std::io::Cursor::new(text)));
    let feed = feed.ok()?;
    Some(feed.entries().iter().map(|e| AtomEntry {
        id: e.id().to_owned(),
        title: e.title.value.clone(),
        links: e.links().iter().map(|l| l.href().to_owned()).collect(),
        summary: e.summary().map(|s| s.value.clone()),
    }).collect())
}

/// The items of the RSS channel in `text`, or `None` when `text` is not one.
///
/// Trusted: calls `rss::Channel::read_from` on the bytes of `text` and
/// copies out, for each item in order, the value of its `guid`, its `link`,
/// `title`, `description` and `content`. The contract says only that the
/// result is the named result [`rss_items_of`] of the text.
#[verifier::external_body]
fn parse_rss(text: &str) -> (r: Option<Vec<RssItem>>)
    ensures
        match (r, rss_items_of(text@)) {
            (Some(v), Some(is)) => v@.map_values(|i: RssItem| i@) == is,
            (None, None) => true,
            _ => false,
        },
{
    let channel = rss::Channel::read_from(std::io::BufReader::new(std::io::Cursor::new(text)));
    let channel = channel.ok()?;
    Some(channel.items().iter().map(|i| RssItem {
        guid: i.guid().map(|g| g.value().to_owned()),
        link: i.link().map(|l| l.to_owned()),
        title: i.title().map(|t| t.to_owned()),
        description: i.description().map(|d| d.to_owned()),
        content: i.content().map(|c| c.to_owned()),
    }).collect())
}

/// The summary of an Atom entry; see [`atom_summary`].
fn atom_summary_exec(e: &AtomEntry, max: usize) -> (r: String)
    ensures
        r@ == atom_summary(e@, max),
{
    match &e.summary {
        Some(s) => {
            let cs = chars_of(s.as_str());
            let p = floor_cut_exec(cs.as_slice(), max);
            string_from_chars(p.as_slice())
        },
        None => String::new(),
    }
}

/// The announced entries and the warnings of the Atom entries `es`, with
/// summaries cut to at most `max` bytes.
pub fn atom_report(es: &Vec<AtomEntry>, max: usize) -> (r: (Vec<SendEntry>, Vec<FeedWarning>))
    ensures
        send_views(r.0@) == atom_sends(es@.map_values(|e: AtomEntry| e@), max),
        warning_views(r.1@) == atom_warnings(es@.map_values(|e: AtomEntry| e@)),
{
    let ghost vs = es@.map_values(|e: AtomEntry| e@);
    let mut entries: Vec<SendEntry> = Vec::new();
    let mut warnings: Vec<FeedWarning> = Vec::new();
    let mut i: usize = 0;
    proof {
        assert(vs.take(0) =~= Seq::<AtomEntryView>::empty());
        assert(send_views(entries@) =~= Seq::<SendEntryView>::empty());
        assert(warning_views(warnings@) =~= Seq::<FeedWarningView>::empty());
    }
    while i < es.len()
        invariant
            i <= es@.len(),
            vs == es@.map_values(|e: AtomEntry| e@),
            send_views(entries@) == atom_sends(vs.take(i as int), max),
            warning_views(warnings@) == atom_warnings(vs.take(i as int)),
        decreases es@.len() - i,
    {
        let e = &es[i];
        proof {
            assert(vs.take(i + 1).drop_last() =~= vs.take(i as int));
            assert(vs.take(i + 1).last() == e@);
        }
        if e.links.len() > 0 {
            let summary = atom_summary_exec(e, max);
            let ghost before = entries@;
            entries.push(
                SendEntry {
                    ident: EntryIdent::AtomId(e.id.clone()),
                    title: e.title.clone(),
                    url: e.links[0].clone(),
                    summary,
                },
            );
            assert(send_views(entries@) =~= send_views(before).push(entries@.last()@));
        } else {
            let ghost before = warnings@;
            warnings.push(FeedWarning::LinkMissing { title: e.title.clone() });
            assert(warning_views(warnings@) =~= warning_views(before).push(warnings@.last()@));
        }
        i = i + 1;
    }
    assert(vs.take(i as int) =~= vs);
    (entries, warnings)
}

/// The summary of an RSS item; see [`rss_summary`].
fn rss_summary_exec(item: &RssItem, max: usize, max_inferred: usize) -> (r: String)
    requires
        rss_item_ok(item@, max, max_inferred),
        rss_ident(item@) is Some,
        item@.link is Some,
    ensures
        r@ == rss_summary(item@, max, max_inferred),
{
    match &item.description {
        Some(d) => {
            let cs = chars_of(d.as_str());
            if byte_len_exec(cs.as_slice()) > max as u128 {
                match cut_at_bytes_exec(cs.as_slice(), max) {
                    Some(p) => string_from_chars(p.as_slice()),
                    None => String::new(),
                }
            } else {
                d.clone()
            }
        },
        None => match &item.content {
            Some(c) => {
                let cs = chars_of(c.as_str());
                if byte_len_exec(cs.as_slice()) > max_inferred as u128 {
                    match cut_at_bytes_exec(cs.as_slice(), max_inferred) {
                        Some(p) => string_from_chars(p.as_slice()).concat("..."),
                        None => String::new(),
                    }
                } else {
                    c.clone()
                }
            },
            None => String::from_str("[no description]"),
        },
    }
}

/// Whether the summary of `item` can be cut; see [`rss_item_ok`].
pub fn rss_item_ok_exec(item: &RssItem, max: usize, max_inferred: usize) -> (r: bool)
    ensures
        r == rss_item_ok(item@, max, max_inferred),
{
    if item.link.is_none() {
        return true;
    }
    match &item.description {
        Some(d) => {
            let cs = chars_of(d.as_str());
            byte_len_exec(cs.as_slice()) <= max as u128 || cut_at_bytes_exec(cs.as_slice(), max).is_some()
        },
        None => match &item.content {
            Some(c) => {
                let cs = chars_of(c.as_str());
                byte_len_exec(cs.as_slice()) <= max_inferred as u128 || cut_at_bytes_exec(
                    cs.as_slice(),
                    max_inferred,
                ).is_some()
            },
            None => true,
        },
    }
}

/// The announced entries and the warnings of the RSS items `items`.
pub fn rss_report(items: &Vec<RssItem>, max: usize, max_inferred: usize) -> (r: (
    Vec<SendEntry>,
    Vec<FeedWarning>,
))
    requires
        rss_items_ok(items@.map_values(|i: RssItem| i@), max, max_inferred),
    ensures
        send_views(r.0@) == rss_sends(items@.map_values(|i: RssItem| i@), max, max_inferred),
        warning_views(r.1@) == rss_warnings(items@.map_values(|i: RssItem| i@)),
{
    let ghost vs = items@.map_values(|i: RssItem| i@);
    let mut entries: Vec<SendEntry> = Vec::new();
    let mut warnings: Vec<FeedWarning> = Vec::new();
    let mut i: usize = 0;
    proof {
        assert(vs.take(0) =~= Seq::<RssItemView>::empty());
        assert(send_views(entries@) =~= Seq::<SendEntryView>::empty());
        assert(warning_views(warnings@) =~= Seq::<FeedWarningView>::empty());
    }
    while i < items.len()
        invariant
            i <= items@.len(),
            vs == items@.map_values(|i: RssItem| i@),
            rss_items_ok(vs, max, max_inferred),
            send_views(entries@) == rss_sends(vs.take(i as int), max, max_inferred),
            warning_views(warnings@) == rss_warnings(vs.take(i as int)),
        decreases items@.len() - i,
    {
        let item = &items[i];
        proof {
            assert(vs.take(i + 1).drop_last() =~= vs.take(i as int));
            assert(vs.take(i + 1).last() == item@);
            assert(rss_item_ok(vs[i as int], max, max_inferred));
        }
        let ident = match &item.guid {
            Some(g) => Some(EntryIdent::RssGuid(g.clone())),
            None => match &item.link {
                Some(l) => Some(EntryIdent::RssLink(l.clone())),
                None => None,
            },
        };
        match ident {
            None => {
                let ghost before = warnings@;
                warnings.push(FeedWarning::Unidentifiable);
                assert(warning_views(warnings@) =~= warning_views(before).push(
                    FeedWarningView::Unidentifiable,
                ));
            },
            Some(id) => {
                match &item.link {
                    None => {},
                    Some(url) => {
                        let title = match &item.title {
                            Some(t) => t.clone(),
                            None => String::from_str("[no title]"),
                        };
                        let summary = rss_summary_exec(item, max, max_inferred);
                        let ghost before = entries@;
                        entries.push(SendEntry { ident: id, title, url: url.clone(), summary });
                        assert(send_views(entries@) =~= send_views(before).push(entries@.last()@));
                    },
                }
            },
        }
        i = i + 1;
    }
    assert(vs.take(i as int) =~= vs);
    (entries, warnings)
}

/// Reads a fetched feed: as an Atom feed if it is one, else as an RSS
/// channel. `None` where cutting an RSS summary would fall inside a
/// character (where the daemon stops); Atom summaries are cut at the last
/// character boundary within the limit.
pub fn feed_report(text: &str, max: usize, max_inferred: usize) -> (r: Option<FeedReport>)
    ensures
        match atom_entries_of(text@) {
            Some(es) => r matches Some(FeedReport::Atom { entries, warnings }) && send_views(entries@)
                == atom_sends(es, max) && warning_views(warnings@) == atom_warnings(es),
            None => match rss_items_of(text@) {
                Some(is) => if rss_items_ok(is, max, max_inferred) {
                    r matches Some(FeedReport::Rss { entries, warnings }) && send_views(entries@)
                        == rss_sends(is, max, max_inferred) && warning_views(warnings@)
                        == rss_warnings(is)
                } else {
                    r is None
                },
                None => r matches Some(FeedReport::Invalid),
            },
        },
{
    match parse_atom(text) {
        Some(es) => {
            let ghost vs = es@.map_values(|e: AtomEntry| e@);
            assert(atom_entries_of(text@) == Some(vs));
            let (entries, warnings) = atom_report(&es, max);
            Some(FeedReport::Atom { entries, warnings })
        },
        None => match parse_rss(text) {
            Some(items) => {
                let ghost vs = items@.map_values(|i: RssItem| i@);
                assert(atom_entries_of(text@) is None);
                assert(rss_items_of(text@) == Some(vs));
                let mut k: usize = 0;
                while k < items.len()
                    invariant
                        k <= items@.len(),
                        vs == items@.map_values(|i: RssItem| i@),
                        atom_entries_of(text@) is None,
                        rss_items_of(text@) == Some(vs),
                        forall|j: int| 0 <= j < k ==> rss_item_ok(#[trigger] vs[j], max, max_inferred),
                    decreases items@.len() - k,
                {
                    if !rss_item_ok_exec(&items[k], max, max_inferred) {
                        assert(!rss_item_ok(vs[k as int], max, max_inferred));
                        assert(!rss_items_ok(vs, max, max_inferred));
                        return None;
                    }
                    k = k + 1;
                }
                let (entries, warnings) = rss_report(&items, max, max_inferred);
                Some(FeedReport::Rss { entries, warnings })
            },
            None => Some(FeedReport::Invalid),
        },
    }
}

} // verus!
