//! Identifiers of feed entries and their text form `Kind(value)`.

use vstd::prelude::*;

use crate::text::{chars_eq, chars_of, find, find_exec, lemma_find_is_match, lemma_find_single, string_from_chars, sub_chars};

verus! {

broadcast use vstd::string::group_string_axioms;

/// How an entry of a feed is identified.
#[derive(Debug, Clone, PartialEq, Eq, Hash)]
pub enum EntryIdent {
    /// The `id` of an Atom entry.
    AtomId(String),
    /// The `guid` of an RSS item.
    RssGuid(String),
    /// The `link` of an RSS item that has no `guid`.
    RssLink(String),
}

/// The mathematical value of an [`EntryIdent`].
pub enum EntryIdentView {
    AtomId(Seq<char>),
    RssGuid(Seq<char>),
    RssLink(Seq<char>),
}

impl View for EntryIdent {
    type V = EntryIdentView;

    open spec fn view(&self) -> EntryIdentView {
        match self {
            EntryIdent::AtomId(v) => EntryIdentView::AtomId(v@),
            EntryIdent::RssGuid(v) => EntryIdentView::RssGuid(v@),
            EntryIdent::RssLink(v) => EntryIdentView::RssLink(v@),
        }
    }
}

/// Why a text is not an entry identifier.
#[derive(Debug, Clone, Copy, PartialEq, Eq, Structural)]
pub enum IdentParseError {
    /// The text has no `(`.
    InvalidValue,
    /// The text before the first `(` names no kind of identifier.
    InvalidKind,
}

impl IdentParseError {
    /// The text that describes the error.
    pub fn message(&self) -> (s: &'static str)
        ensures
            *self == IdentParseError::InvalidValue ==> s@ == "invalid value"@,
            *self == IdentParseError::InvalidKind ==> s@ == "invalid enum kind"@,
    {
        match self {
            IdentParseError::InvalidValue => "invalid value",
            IdentParseError::InvalidKind => "invalid enum kind",
        }
    }
}

/// `AtomId`
pub open spec fn atom_id_name() -> Seq<char> {
    seq!['A', 't', 'o', 'm', 'I', 'd']
}

/// `RssGuid`
pub open spec fn rss_guid_name() -> Seq<char> {
    seq!['R', 's', 's', 'G', 'u', 'i', 'd']
}

/// `RssLink`
pub open spec fn rss_link_name() -> Seq<char> {
    seq!['R', 's', 's', 'L', 'i', 'n', 'k']
}

/// The text form of an identifier: its kind, then its value in parentheses.
pub open spec fn ident_text(v: EntryIdentView) -> Seq<char> {
    match v {
        EntryIdentView::AtomId(x) => atom_id_name() + seq!['('] + x + seq![')'],
        EntryIdentView::RssGuid(x) => rss_guid_name() + seq!['('] + x + seq![')'],
        EntryIdentView::RssLink(x) => rss_link_name() + seq!['('] + x + seq![')'],
    }
}

/// Parsing `s` does not fail on a byte index: where `s` has a `(`, the text
/// after the first one is not empty and ends in a one-byte character.
pub open spec fn ident_text_ok(s: Seq<char>) -> bool {
    find(s, seq!['(']) matches Some(i) ==> {
        &&& i + 1 < s.len()
        &&& (s.last() as u32) < 0x80
    }
}

/// The identifier that the text `s` denotes: the text before the first `(`
/// names the kind, and the text after it, without its last character, is the value.
pub open spec fn parse_ident(s: Seq<char>) -> Result<EntryIdentView, IdentParseError> {
    match find(s, seq!['(']) {
        None => Err(IdentParseError::InvalidValue),
        Some(i) => {
            let kind = s.take(i);
            let value = s.subrange(i + 1, s.len() - 1);
            if kind == atom_id_name() {
                Ok(EntryIdentView::AtomId(value))
            } else if kind == rss_guid_name() {
                Ok(EntryIdentView::RssGuid(value))
            } else if kind == rss_link_name() {
                Ok(EntryIdentView::RssLink(value))
            } else {
                Err(IdentParseError::InvalidKind)
            }
        },
    }
}

/// Writing an identifier as text and parsing that text gives the identifier back.
pub proof fn lemma_ident_round_trip(v: EntryIdentView)
    ensures
        ident_text_ok(ident_text(v)),
        parse_ident(ident_text(v)) == Ok::<EntryIdentView, IdentParseError>(v),
{
    let (name, x) = match v {
        EntryIdentView::AtomId(x) => (atom_id_name(), x),
        EntryIdentView::RssGuid(x) => (rss_guid_name(), x),
        EntryIdentView::RssLink(x) => (rss_link_name(), x),
    };
    let s = ident_text(v);
    assert(s =~= name + seq!['('] + x + seq![')']);
    let n = name.len() as int;
    assert(forall|k: int| 0 <= k < n ==> s[k] == name[k]);
    assert(forall|k: int| 0 <= k < n ==> name[k] != '(');
    lemma_find_single(s, '(', n);
    assert(s.take(n) =~= name);
    assert(s.subrange(n + 1, s.len() - 1) =~= x);
    assert(s.last() == ')');
}

impl EntryIdent {
    /// A copy of the identifier.
    pub fn duplicate(&self) -> (r: EntryIdent)
        ensures
            r@ == self@,
    {
        match self {
            EntryIdent::AtomId(v) => EntryIdent::AtomId(v.clone()),
            EntryIdent::RssGuid(v) => EntryIdent::RssGuid(v.clone()),
            EntryIdent::RssLink(v) => EntryIdent::RssLink(v.clone()),
        }
    }

    /// Whether the two identifiers are the same: the same kind and value.
    pub fn same_as(&self, other: &EntryIdent) -> (r: bool)
        ensures
            r == (self@ == other@),
    {
        match (self, other) {
            (EntryIdent::AtomId(a), EntryIdent::AtomId(b)) => *a == *b,
            (EntryIdent::RssGuid(a), EntryIdent::RssGuid(b)) => *a == *b,
            (EntryIdent::RssLink(a), EntryIdent::RssLink(b)) => *a == *b,
            _ => false,
        }
    }

    /// The text form of the identifier, such as `AtomId(urn:x)`.
    pub fn to_string(&self) -> (s: String)
        ensures
            s@ == ident_text(self@),
    {
        let (mut cs, value) = match self {
            EntryIdent::AtomId(v) => (vec!['A', 't', 'o', 'm', 'I', 'd'], v),
            EntryIdent::RssGuid(v) => (vec!['R', 's', 's', 'G', 'u', 'i', 'd'], v),
            EntryIdent::RssLink(v) => (vec!['R', 's', 's', 'L', 'i', 'n', 'k'], v),
        };
        let ghost name = cs@;
        cs.push('(');
        let vs = chars_of(value.as_str());
        let mut i: usize = 0;
        while i < vs.len()
            invariant
                i <= vs@.len(),
                cs@ == name + seq!['('] + vs@.take(i as int),
            decreases vs@.len() - i,
        {
            cs.push(vs[i]);
            i = i + 1;
            assert(cs@ =~= name + seq!['('] + vs@.take(i as int));
        }
        cs.push(')');
        assert(vs@.take(i as int) =~= vs@);
        assert(cs@ =~= ident_text(self@));
        string_from_chars(cs.as_slice())
    }

    /// Whether parsing `s` is defined: see [`ident_text_ok`].
    pub fn text_is_parsable(s: &str) -> (r: bool)
        ensures
            r == ident_text_ok(s@),
    {
        let cs = chars_of(s);
        let open = vec!['('];
        assert(open@ =~= seq!['(']);
        match find_exec(cs.as_slice(), open.as_slice()) {
            None => true,
            Some(i) => {
                proof {
                    lemma_find_is_match(cs@, seq!['(']);
                }
                assert(seq!['('].len() == 1);
                assert(i + 1 <= cs.len());
                cs.len() - i > 1 && (cs[cs.len() - 1] as u32) < 0x80
            },
        }
    }

    /// Parses the text form `Kind(value)` of an identifier.
    pub fn from_str(s: &str) -> (r: Result<EntryIdent, IdentParseError>)
        requires
            ident_text_ok(s@),
        ensures
            match (r, parse_ident(s@)) {
                (Ok(a), Ok(b)) => a@ == b,
                (Err(a), Err(b)) => a == b,
                _ => false,
            },
    {
        let cs = chars_of(s);
        let open = vec!['('];
        assert(open@ =~= seq!['(']);
        match find_exec(cs.as_slice(), open.as_slice()) {
            None => Err(IdentParseError::InvalidValue),
            Some(i) => {
                proof {
                    lemma_find_is_match(cs@, seq!['(']);
                }
                assert(seq!['('].len() == 1);
                assert(i + 1 <= cs.len());
                let kind = sub_chars(cs.as_slice(), 0, i);
                let value = sub_chars(cs.as_slice(), i + 1, cs.len() - 1);
                assert(kind@ =~= cs@.take(i as int));
                let atom = vec!['A', 't', 'o', 'm', 'I', 'd'];
                let guid = vec!['R', 's', 's', 'G', 'u', 'i', 'd'];
                let link = vec!['R', 's', 's', 'L', 'i', 'n', 'k'];
                assert(atom@ =~= atom_id_name());
                assert(guid@ =~= rss_guid_name());
                assert(link@ =~= rss_link_name());
                if chars_eq(kind.as_slice(), atom.as_slice()) {
                    Ok(EntryIdent::AtomId(string_from_chars(value.as_slice())))
                } else if chars_eq(kind.as_slice(), guid.as_slice()) {
                    Ok(EntryIdent::RssGuid(string_from_chars(value.as_slice())))
                } else if chars_eq(kind.as_slice(), link.as_slice()) {
                    Ok(EntryIdent::RssLink(string_from_chars(value.as_slice())))
                } else {
                    Err(IdentParseError::InvalidKind)
                }
            },
        }
    }
}

} // verus!
