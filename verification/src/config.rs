//! The daemon's configuration and the parser of its configuration file.
//!
//! The file holds `key = value` pairs, one per line. Everything after `//`
//! on a line is a comment. Lines without ` = ` are ignored. Keys:
//! `fetch interval` (seconds), `action` (a file in the configuration
//! directory), `removal threshold` (days, or seconds with an `s` suffix;
//! `0` disables it), `max summary length` and `max inferred summary length`.

use vstd::prelude::*;

use crate::number::{IntParseError, parse_uint, parse_uint_exec, lemma_scan_digits_bounds};
use crate::text::{
    chars_of, chars_eq, find, find_exec, lines, newline_pieces, string_from_chars, strip_cr,
    sub_chars, trim, trim_end, trim_exec, trim_start, is_whitespace,
    lemma_find_is_match, lemma_find_first, lemma_find_none,
};

verus! {

broadcast use vstd::string::group_string_axioms;

/// The path of the file `name` taken in the directory `dir` (both not
/// empty): `name` itself when it is absolute, else `dir` and `name` with a
/// `/` between them unless `dir` already ends in one.
pub open spec fn path_in_dir(dir: Seq<char>, name: Seq<char>) -> Seq<char> {
    if name[0] == '/' {
        name
    } else if dir.last() == '/' {
        dir + name
    } else {
        dir + seq!['/'] + name
    }
}

/// The path `name` joined onto the directory `dir`.
///
/// Trusted: calls `std::path::Path::join` and reads the result back as a
/// `String` with `to_string_lossy` (both parts are UTF-8, so nothing is
/// lost). Stated is what the documentation of `Path::join` and
/// `PathBuf::push` gives for Unix paths, where this program runs, when both
/// parts are non-empty: an absolute `name` replaces `dir`, and otherwise
/// `name` is appended with a separator if `dir` does not end in one. What
/// comes of an empty part is left unsaid.
#[verifier::external_body]
fn join_path(dir: &str, name: &str) -> (r: String)
    ensures
        (dir@.len() > 0 && name@.len() > 0) ==> r@ == path_in_dir(dir@, name@),
{
    std::path::Path::new(dir).join(name).to_string_lossy().into_owned()
}

/// Seconds in a day.
pub const SECONDS_PER_DAY: u64 = 86400;

/// The daemon's settings.
pub struct Config {
    /// How often the followed feeds are fetched, in seconds.
    pub fetch_interval: u64,
    /// File name of the program run for new items, relative to the configuration directory.
    pub action: Option<String>,
    /// Age after which read entries may be removed, in seconds; `None` when disabled.
    pub removal_threshold: Option<u64>,
    /// Longest summary taken from an item's description, in bytes.
    pub max_summary_length: usize,
    /// Longest summary taken from an item's content, in bytes.
    pub max_inferred_summary_length: usize,
}

/// The mathematical value of a [`Config`].
pub struct ConfigView {
    pub fetch_interval: u64,
    pub action: Option<Seq<char>>,
    pub removal_threshold: Option<u64>,
    pub max_summary_length: usize,
    pub max_inferred_summary_length: usize,
}

impl View for Config {
    type V = ConfigView;

    open spec fn view(&self) -> ConfigView {
        ConfigView {
            fetch_interval: self.fetch_interval,
            action: match self.action {
                Some(a) => Some(a@),
                None => None,
            },
            removal_threshold: self.removal_threshold,
            max_summary_length: self.max_summary_length,
            max_inferred_summary_length: self.max_inferred_summary_length,
        }
    }
}

/// A configuration line that could not be applied; the settings it names keep their values.
pub enum ConfigIssue {
    /// The value of `fetch interval` is not a number.
    InvalidAssignment { var: String, ass: String, error: IntParseError },
    /// The value of a numeric setting is not a number.
    InvalidNumber { var: String, error: IntParseError },
    /// The key names no setting.
    UnknownVariable { var: String },
}

/// The mathematical value of a [`ConfigIssue`].
pub enum ConfigIssueView {
    InvalidAssignment { var: Seq<char>, ass: Seq<char>, error: IntParseError },
    InvalidNumber { var: Seq<char>, error: IntParseError },
    UnknownVariable { var: Seq<char> },
}

impl View for ConfigIssue {
    type V = ConfigIssueView;

    open spec fn view(&self) -> ConfigIssueView {
        match self {
            ConfigIssue::InvalidAssignment { var, ass, error } => ConfigIssueView::InvalidAssignment {
                var: var@,
                ass: ass@,
                error: *error,
            },
            ConfigIssue::InvalidNumber { var, error } => ConfigIssueView::InvalidNumber {
                var: var@,
                error: *error,
            },
            ConfigIssue::UnknownVariable { var } => ConfigIssueView::UnknownVariable { var: var@ },
        }
    }
}

/// The views of a sequence of issues.
pub open spec fn issue_views(v: Seq<ConfigIssue>) -> Seq<ConfigIssueView> {
    v.map_values(|i: ConfigIssue| i@)
}

/// The settings used where the configuration file says nothing.
pub open spec fn default_config() -> ConfigView {
    ConfigView {
        fetch_interval: 600,
        action: None,
        removal_threshold: Some(7776000u64),
        max_summary_length: 240,
        max_inferred_summary_length: 240,
    }
}

/// A `removal threshold` value ends in `s` when it is given in seconds.
pub open spec fn in_seconds(ass: Seq<char>) -> bool {
    ass.len() > 0 && ass.last() == 's'
}

/// The digits of a `removal threshold` value.
pub open spec fn threshold_digits(ass: Seq<char>) -> Seq<char> {
    if in_seconds(ass) {
        ass.drop_last()
    } else {
        ass
    }
}

/// The pair can be applied: a `removal threshold` value is not empty, and
/// a value in days is not so large that its count of seconds overflows.
pub open spec fn pair_ok(var: Seq<char>, ass: Seq<char>) -> bool {
    var == "removal threshold"@ ==> {
        &&& ass.len() > 0
        &&& !in_seconds(ass) ==> (parse_uint(ass, u64::MAX as int) matches Ok(x) ==> x * 86400
            <= u64::MAX)
    }
}

/// The settings and issue after applying the pair `var = ass` to `c`.
pub open spec fn update_spec(c: ConfigView, var: Seq<char>, ass: Seq<char>) -> (
    ConfigView,
    Option<ConfigIssueView>,
) {
    if var == "fetch interval"@ {
        match parse_uint(ass, u64::MAX as int) {
            Ok(x) => (ConfigView { fetch_interval: x as u64, ..c }, None),
            Err(e) => (c, Some(ConfigIssueView::InvalidAssignment { var, ass, error: e })),
        }
    } else if var == "action"@ {
        (ConfigView { action: Some(ass), ..c }, None)
    } else if var == "removal threshold"@ {
        match parse_uint(threshold_digits(ass), u64::MAX as int) {
            Ok(x) => {
                let secs = if in_seconds(ass) {
                    x
                } else {
                    x * 86400
                };
                (
                    ConfigView {
                        removal_threshold: if secs == 0 {
                            None
                        } else {
                            Some(secs as u64)
                        },
                        ..c
                    },
                    None,
                )
            },
            Err(e) => (c, Some(ConfigIssueView::InvalidNumber { var, error: e })),
        }
    } else if var == "max inferred summary length"@ {
        match parse_uint(ass, usize::MAX as int) {
            Ok(x) => (ConfigView { max_inferred_summary_length: x as usize, ..c }, None),
            Err(e) => (c, Some(ConfigIssueView::InvalidNumber { var, error: e })),
        }
    } else if var == "max summary length"@ {
        match parse_uint(ass, usize::MAX as int) {
            Ok(x) => (ConfigView { max_summary_length: x as usize, ..c }, None),
            Err(e) => (c, Some(ConfigIssueView::InvalidNumber { var, error: e })),
        }
    } else {
        (c, Some(ConfigIssueView::UnknownVariable { var }))
    }
}

/// A line without its comment: what comes before the first `//`.
pub open spec fn before_comment(line: Seq<char>) -> Seq<char> {
    match find(line, seq!['/', '/']) {
        Some(i) => line.take(i),
        None => line,
    }
}

/// The `key = value` pair that a line holds: the trimmed line without its
/// comment, split at its first ` = `.
pub open spec fn line_pair(line: Seq<char>) -> Option<(Seq<char>, Seq<char>)> {
    let t = trim(before_comment(line));
    match find(t, seq![' ', '=', ' ']) {
        Some(i) => Some((t.take(i), t.skip(i + 3))),
        None => None,
    }
}

/// The settings and issues after applying the pair that `line` holds, if any, to `c` and `is`.
pub open spec fn apply_line(c: ConfigView, is: Seq<ConfigIssueView>, line: Seq<char>) -> (
    ConfigView,
    Seq<ConfigIssueView>,
) {
    match line_pair(line) {
        None => (c, is),
        Some((v, a)) => {
            let (c2, issue) = update_spec(c, v, a);
            (
                c2,
                match issue {
                    Some(i) => is.push(i),
                    None => is,
                },
            )
        },
    }
}

/// The settings and issues after applying the pairs of the lines `ls`, in order, to `c`.
pub open spec fn apply_lines(c: ConfigView, ls: Seq<Seq<char>>) -> (ConfigView, Seq<ConfigIssueView>)
    decreases ls.len(),
{
    if ls.len() == 0 {
        (c, Seq::empty())
    } else {
        let (c1, is1) = apply_lines(c, ls.drop_last());
        apply_line(c1, is1, ls.last())
    }
}

/// Every pair held by the lines `ls` can be applied.
pub open spec fn lines_ok(ls: Seq<Seq<char>>) -> bool {
    forall|k: int|
        0 <= k < ls.len() ==> (#[trigger] line_pair(ls[k]) matches Some((v, a)) ==> pair_ok(v, a))
}

/// The settings and issues that the configuration text `text` gives.
pub open spec fn config_of_text(text: Seq<char>) -> (ConfigView, Seq<ConfigIssueView>) {
    apply_lines(default_config(), lines(text))
}

// ---------------------------------------------------------------------------
// Lemmas
// ---------------------------------------------------------------------------

proof fn lemma_trim_end_last(s: Seq<char>)
    ensures
        trim_end(s).len() > 0 ==> !is_whitespace(trim_end(s).last()),
    decreases s.len(),
{
    if s.len() > 0 && is_whitespace(s.last()) {
        lemma_trim_end_last(s.drop_last());
    }
}

/// The value of a pair found on a line is never empty.
proof fn lemma_line_pair_value_nonempty(line: Seq<char>)
    ensures
        line_pair(line) matches Some((v, a)) ==> a.len() > 0,
{
    let t = trim(before_comment(line));
    lemma_trim_end_last(trim_start(before_comment(line)));
    if let Some(i) = find(t, seq![' ', '=', ' ']) {
        lemma_find_is_match(t, seq![' ', '=', ' ']);
        if t.skip(i + 3).len() == 0 {
            assert(t.subrange(i, i + 3)[2] == ' ');
            assert(t.last() == ' ');
            assert(is_whitespace(' '));
        }
    }
}

/// A comment does not change what a line says: text after `//` is ignored,
/// for a line that has no `//` of its own and does not end in `/`.
pub proof fn lemma_comment_ignored(line: Seq<char>, comment: Seq<char>)
    requires
        find(line, seq!['/', '/']) is None,
        line.len() == 0 || line.last() != '/',
    ensures
        before_comment(line + seq!['/', '/'] + comment) == line,
        line_pair(line + seq!['/', '/'] + comment) == line_pair(line),
{
    let s = line + seq!['/', '/'] + comment;
    let n = line.len() as int;
    assert(s.subrange(n, n + 2) =~= seq!['/', '/']);
    assert forall|k: int| 0 <= k < n implies !crate::text::matches_at(s, seq!['/', '/'], k) by {
        if crate::text::matches_at(s, seq!['/', '/'], k) {
            assert(s.subrange(k, k + 2)[0] == '/');
            assert(s.subrange(k, k + 2)[1] == '/');
            if k + 1 < n {
                lemma_find_none(line, seq!['/', '/'], k);
                assert(line.subrange(k, k + 2) =~= s.subrange(k, k + 2));
            } else {
                assert(s[k] == line.last());
            }
        }
    }
    lemma_find_first(s, seq!['/', '/'], n);
    assert(s.take(n) =~= line);
}

/// A text in which no line holds a ` = ` pair gives the default settings
/// and no issues.
pub proof fn lemma_no_pairs_gives_defaults(text: Seq<char>)
    requires
        forall|k: int| 0 <= k < lines(text).len() ==> #[trigger] line_pair(lines(text)[k]) is None,
    ensures
        config_of_text(text) == (default_config(), Seq::<ConfigIssueView>::empty()),
{
    lemma_no_pairs_apply(default_config(), lines(text));
}

proof fn lemma_no_pairs_apply(c: ConfigView, ls: Seq<Seq<char>>)
    requires
        forall|k: int| 0 <= k < ls.len() ==> #[trigger] line_pair(ls[k]) is None,
    ensures
        apply_lines(c, ls) == (c, Seq::<ConfigIssueView>::empty()),
    decreases ls.len(),
{
    if ls.len() > 0 {
        let d = ls.drop_last();
        assert forall|k: int| 0 <= k < d.len() implies #[trigger] line_pair(d[k]) is None by {
            assert(d[k] == ls[k]);
        }
        lemma_no_pairs_apply(c, d);
        assert(line_pair(ls[ls.len() - 1]) is None);
    }
}

/// Of two lines that set the same setting, the later one decides: after a
/// line that sets `fetch interval` to a number, that number is the interval,
/// whatever came before.
pub proof fn lemma_later_line_wins(c: ConfigView, ls: Seq<Seq<char>>, line: Seq<char>, ass: Seq<char>, x: int)
    requires
        line_pair(line) == Some(("fetch interval"@, ass)),
        parse_uint(ass, u64::MAX as int) == Ok::<int, IntParseError>(x),
    ensures
        apply_lines(c, ls.push(line)).0.fetch_interval == x,
{
    assert(ls.push(line).drop_last() =~= ls);
    lemma_parse_uint_bounds(ass, u64::MAX as int);
}

/// A parsed value lies between zero and the bound.
pub proof fn lemma_parse_uint_bounds(s: Seq<char>, max: int)
    requires
        0 <= max,
    ensures
        parse_uint(s, max) matches Ok(v) ==> 0 <= v <= max,
{
    lemma_scan_digits_bounds(s, max);
    if s.len() > 0 {
        lemma_scan_digits_bounds(s.drop_first(), max);
    }
}

// ---------------------------------------------------------------------------
// Executable functions
// ---------------------------------------------------------------------------

impl Config {
    /// The settings used where the configuration file says nothing.
    pub fn default() -> (c: Config)
        ensures
            c@ == default_config(),
    {
        Config {
            fetch_interval: 600,
            action: None,
            removal_threshold: Some(90 * SECONDS_PER_DAY),
            max_summary_length: 240,
            max_inferred_summary_length: 240,
        }
    }

    fn update_chars(&mut self, var: &[char], ass: &[char]) -> (issue: Option<ConfigIssue>)
        requires
            pair_ok(var@, ass@),
        ensures
            (final(self)@, match issue {
                Some(i) => Some(i@),
                None => None,
            }) == update_spec(old(self)@, var@, ass@),
    {
        if chars_eq(var, &chars_of("fetch interval")) {
            match parse_uint_exec(ass, u64::MAX) {
                Ok(x) => {
                    self.fetch_interval = x;
                    None
                },
                Err(e) => Some(
                    ConfigIssue::InvalidAssignment {
                        var: string_from_chars(var),
                        ass: string_from_chars(ass),
                        error: e,
                    },
                ),
            }
        } else if chars_eq(var, &chars_of("action")) {
            self.action = Some(string_from_chars(ass));
            None
        } else if chars_eq(var, &chars_of("removal threshold")) {
            let is_in_seconds = ass[ass.len() - 1] == 's';
            let parsed = if is_in_seconds {
                parse_uint_exec(&sub_chars(ass, 0, ass.len() - 1), u64::MAX)
            } else {
                parse_uint_exec(ass, u64::MAX)
            };
            proof {
                if is_in_seconds {
                    assert(ass@.subrange(0, ass@.len() - 1) =~= ass@.drop_last());
                }
                lemma_scan_digits_bounds(threshold_digits(ass@), u64::MAX as int);
            }
            match parsed {
                Ok(x) => {
                    let secs = if is_in_seconds {
                        x
                    } else {
                        x * SECONDS_PER_DAY
                    };
                    self.removal_threshold = if secs == 0 {
                        None
                    } else {
                        Some(secs)
                    };
                    None
                },
                Err(e) => Some(ConfigIssue::InvalidNumber { var: string_from_chars(var), error: e }),
            }
        } else if chars_eq(var, &chars_of("max inferred summary length")) {
            match parse_uint_exec(ass, usize::MAX as u64) {
                Ok(x) => {
                    self.max_inferred_summary_length = x as usize;
                    None
                },
                Err(e) => Some(ConfigIssue::InvalidNumber { var: string_from_chars(var), error: e }),
            }
        } else if chars_eq(var, &chars_of("max summary length")) {
            match parse_uint_exec(ass, usize::MAX as u64) {
                Ok(x) => {
                    self.max_summary_length = x as usize;
                    None
                },
                Err(e) => Some(ConfigIssue::InvalidNumber { var: string_from_chars(var), error: e }),
            }
        } else {
            Some(ConfigIssue::UnknownVariable { var: string_from_chars(var) })
        }
    }

    /// The path of the action file: the file named by `action`, taken in the
    /// configuration directory `config_dir` (see [`path_in_dir`]).
    pub fn action_path(&self, config_dir: &str) -> (r: Option<String>)
        ensures
            self.action is None <==> r is None,
            self@.action matches Some(a) ==> (a.len() > 0 && config_dir@.len() > 0 ==> (r matches Some(
                p,
            ) && p@ == path_in_dir(config_dir@, a))),
    {
        match &self.action {
            Some(a) => Some(join_path(config_dir, a.as_str())),
            None => None,
        }
    }

    /// Applies the configuration pair `var = ass`. Returns the issue to
    /// report when the pair cannot be applied; then nothing changes.
    pub fn update_from_config_pair(&mut self, var: &str, ass: &str) -> (issue: Option<ConfigIssue>)
        requires
            pair_ok(var@, ass@),
        ensures
            (final(self)@, match issue {
                Some(i) => Some(i@),
                None => None,
            }) == update_spec(old(self)@, var@, ass@),
    {
        let v = chars_of(var);
        let a = chars_of(ass);
        self.update_chars(v.as_slice(), a.as_slice())
    }

    /// Applies the pair held by `line`, if any. Returns `false`, changing
    /// nothing, when the pair cannot be applied.
    fn apply_line_exec(&mut self, issues: &mut Vec<ConfigIssue>, line: &[char]) -> (ok: bool)
        ensures
            ok == (line_pair(line@) matches Some((v, a)) ==> pair_ok(v, a)),
            ok ==> (final(self)@, issue_views(final(issues)@)) == apply_line(
                old(self)@,
                issue_views(old(issues)@),
                line@,
            ),
    {
        let slashes = vec!['/', '/'];
        let uncommented = match find_exec(line, slashes.as_slice()) {
            Some(i) => {
                proof {
                    lemma_find_is_match(line@, seq!['/', '/']);
                }
                sub_chars(line, 0, i)
            },
            None => sub_chars(line, 0, line.len()),
        };
        assert(uncommented@ =~= before_comment(line@)) by {
            assert(slashes@ =~= seq!['/', '/']);
        }
        let t = trim_exec(uncommented.as_slice());
        let sep = vec![' ', '=', ' '];
        assert(sep@ =~= seq![' ', '=', ' ']);
        proof {
            lemma_line_pair_value_nonempty(line@);
            lemma_find_is_match(t@, seq![' ', '=', ' ']);
        }
        match find_exec(t.as_slice(), sep.as_slice()) {
            None => true,
            Some(i) => {
                assert(crate::text::matches_at(t@, seq![' ', '=', ' '], i as int));
                assert(seq![' ', '=', ' '].len() == 3);
                assert(i + 3 <= t.len());
                let var = sub_chars(t.as_slice(), 0, i);
                let ass = sub_chars(t.as_slice(), i + 3, t.len());
                assert(var@ =~= t@.take(i as int));
                assert(ass@ =~= t@.skip(i + 3));
                if !pair_ok_exec(var.as_slice(), ass.as_slice()) {
                    return false;
                }
                let issue = self.update_chars(var.as_slice(), ass.as_slice());
                match issue {
                    Some(x) => {
                        issues.push(x);
                        assert(issue_views(issues@) =~= issue_views(old(issues)@).push(x@));
                    },
                    None => {},
                }
                true
            },
        }
    }
}

/// Whether the pair `var = ass` can be applied.
pub fn pair_ok_exec(var: &[char], ass: &[char]) -> (r: bool)
    ensures
        r == pair_ok(var@, ass@),
{
    if !chars_eq(var, &chars_of("removal threshold")) {
        return true;
    }
    if ass.len() == 0 {
        return false;
    }
    if ass[ass.len() - 1] == 's' {
        return true;
    }
    match parse_uint_exec(ass, u64::MAX) {
        Ok(x) => x <= u64::MAX / SECONDS_PER_DAY,
        Err(_) => true,
    }
}

/// The settings and issues that the configuration text `text` gives, or
/// `None` when a `removal threshold` value in days is too large for its
/// count of seconds (where `Config::parse` overflows).
pub fn parse_config_text(text: &str) -> (r: Option<(Config, Vec<ConfigIssue>)>)
    ensures
        r is None <==> !lines_ok(lines(text@)),
        r matches Some((c, is)) ==> (c@, issue_views(is@)) == config_of_text(text@),
{
    let cs = chars_of(text);
    let mut cfg = Config::default();
    let mut issues: Vec<ConfigIssue> = Vec::new();
    let mut current: Vec<char> = Vec::new();
    let mut bad = false;
    let mut i: usize = 0;
    proof {
        assert(cs@.take(0) =~= Seq::<char>::empty());
        assert(issue_views(issues@) =~= Seq::<ConfigIssueView>::empty());
        let p = newline_pieces(cs@.take(0));
        assert(p.drop_last().map_values(|l: Seq<char>| strip_cr(l)) =~= Seq::<Seq<char>>::empty());
    }
    while i < cs.len()
        invariant
            i <= cs@.len(),
            cs@ == text@,
            ({
                let p = newline_pieces(cs@.take(i as int));
                let ended = p.drop_last().map_values(|l: Seq<char>| strip_cr(l));
                &&& p.len() >= 1
                &&& current@ == p.last()
                &&& !bad ==> (cfg@, issue_views(issues@)) == apply_lines(default_config(), ended)
                &&& !bad ==> lines_ok(ended)
                &&& bad ==> !lines_ok(ended)
            }),
        decreases cs@.len() - i,
    {
        let ghost p = newline_pieces(cs@.take(i as int));
        let ghost ended = p.drop_last().map_values(|l: Seq<char>| strip_cr(l));
        let c = cs[i];
        proof {
            assert(cs@.take(i + 1).drop_last() =~= cs@.take(i as int));
            assert(cs@.take(i + 1).last() == c);
        }
        if c == '\n' {
            let line = if current.len() > 0 && current[current.len() - 1] == '\r' {
                sub_chars(current.as_slice(), 0, current.len() - 1)
            } else {
                sub_chars(current.as_slice(), 0, current.len())
            };
            assert(line@ =~= strip_cr(current@));
            let ghost p2 = newline_pieces(cs@.take(i + 1));
            assert(p2 == p.push(Seq::<char>::empty()));
            let ghost ended2 = p2.drop_last().map_values(|l: Seq<char>| strip_cr(l));
            assert(ended2 =~= ended.push(strip_cr(current@))) by {
                assert(p2.drop_last() =~= p);
                assert(p =~= p.drop_last().push(p.last()));
            }
            assert(ended2.drop_last() =~= ended);
            assert(ended2.last() == line@);
            assert(forall|k: int| 0 <= k < ended.len() ==> ended2[k] == ended[k]);
            if !bad {
                let ok = cfg.apply_line_exec(&mut issues, line.as_slice());
                if !ok {
                    bad = true;
                    assert(!lines_ok(ended2)) by {
                        let k = ended2.len() - 1;
                        assert(line_pair(ended2[k]) == line_pair(line@));
                    }
                } else {
                    assert(lines_ok(ended2)) by {
                        assert forall|k: int| 0 <= k < ended2.len() implies (#[trigger] line_pair(
                            ended2[k],
                        ) matches Some((v, a)) ==> pair_ok(v, a)) by {
                            if k < ended.len() {
                                assert(ended2[k] == ended[k]);
                            }
                        }
                    }
                }
            } else {
                assert(!lines_ok(ended2)) by {
                    let k = choose|k: int|
                        0 <= k < ended.len() && !(#[trigger] line_pair(ended[k]) matches Some(
                            (v, a),
                        ) ==> pair_ok(v, a));
                    assert(ended2[k] == ended[k]);
                }
            }
            current = Vec::new();
            assert(current@ =~= p2.last());
        } else {
            current.push(c);
            let ghost p2 = newline_pieces(cs@.take(i + 1));
            assert(p2 == p.update(p.len() - 1, p.last().push(c)));
            assert(p2.drop_last() =~= p.drop_last());
        }
        i = i + 1;
    }
    let ghost p = newline_pieces(cs@.take(i as int));
    let ghost ended = p.drop_last().map_values(|l: Seq<char>| strip_cr(l));
    assert(cs@.take(i as int) =~= text@);
    assert(forall|k: int| 0 <= k < ended.len() ==> lines(text@)[k] == ended[k]);
    if bad {
        assert(!lines_ok(lines(text@))) by {
            let k = choose|k: int|
                0 <= k < ended.len() && !(#[trigger] line_pair(ended[k]) matches Some((v, a))
                    ==> pair_ok(v, a));
            assert(lines(text@)[k] == ended[k]);
        }
        return None;
    }
    if current.len() > 0 {
        let ok = cfg.apply_line_exec(&mut issues, current.as_slice());
        let ghost ls = lines(text@);
        assert(ls =~= ended.push(current@));
        assert(ls.drop_last() =~= ended);
        if !ok {
            assert(!lines_ok(ls)) by {
                assert(line_pair(ls[ls.len() - 1]) == line_pair(current@));
            }
            return None;
        }
        assert(lines_ok(ls)) by {
            assert forall|k: int| 0 <= k < ls.len() implies (#[trigger] line_pair(ls[k]) matches Some(
                (v, a),
            ) ==> pair_ok(v, a)) by {
                if k < ended.len() {
                    assert(ls[k] == ended[k]);
                }
            }
        }
    } else {
        assert(lines(text@) =~= ended);
    }
    Some((cfg, issues))
}

} // verus!
