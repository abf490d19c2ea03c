//! A changelog file: finding a release in it, and writing a new release into it.
use vstd::prelude::*;

use super::release::{Release, ReleaseView};
use crate::package::{Name, NameView};
use crate::semver::{parse_version_spec, version_text, Version, VersionView};
use crate::text::{
    lemma_join_cons, lemma_join_lines_of, lemma_lines_of_joined, lemma_lines_plain, lemma_lines_unlines,
    plain_line, trim_end, trim_start, unlines, is_whitespace,
    chars_of, has_prefix, has_suffix, join_with, lines_in, lines_of, push_all, push_joined,
    push_str, slice_chars, starts_with, string_of, trim, trim_range, views_of, words, words_of,
};

verus! {

/// The header level of the titles of releases.
#[derive(Clone, Copy, Debug, PartialEq, Eq, Structural)]
pub enum HeaderLevel {
    H1,
    H2,
}

pub open spec fn header_text(l: HeaderLevel) -> Seq<char> {
    match l {
        HeaderLevel::H1 => seq!['#'],
        HeaderLevel::H2 => seq!['#', '#'],
    }
}

impl HeaderLevel {
    /// `#` or `##`.
    pub fn as_str(self) -> (r: &'static str)
        ensures
            r@ == header_text(self),
    {
        proof {
            reveal_strlit("#");
            reveal_strlit("##");
        }
        match self {
            HeaderLevel::H1 => "#",
            HeaderLevel::H2 => "##",
        }
    }
}

/// A calendar date, as `time::Date` holds it.
#[derive(Clone, Copy, Debug, PartialEq, Eq, Structural)]
pub struct Date {
    pub year: i32,
    pub month: u8,
    pub day: u8,
}

/// The name of what `time::Date::parse` reads from text with the format
/// `[year]-[month]-[day]`: the year, month number and day, or `None`.
pub uninterp spec fn date_parse(s: Seq<char>) -> Option<Date>;

/// Calls `time::Date::parse` with the format `[year]-[month]-[day]` and gives the
/// year, month number and day. What it reads is named `date_parse`; nothing more
/// is claimed of it.
#[verifier::external_body]
fn parse_date(s: &str) -> (r: Option<Date>)
    ensures
        r == date_parse(s@),
{
    let format = time::format_description::parse("[year]-[month]-[day]").ok()?;
    let d = time::Date::parse(s, &format).ok()?;
    Some(Date { year: d.year(), month: u8::from(d.month()), day: d.day() })
}

/// Why a line is not a release title.
#[derive(Clone, Copy, Debug, PartialEq, Eq, Structural)]
pub enum ParseError {
    MissingVersion,
    HeaderLevel,
}

/// A word without its leading `(`s and trailing `)`s.
pub open spec fn strip_parens(w: Seq<char>) -> Seq<char> {
    trim_end_char(trim_start_char(w, '('), ')')
}

pub open spec fn trim_start_char(w: Seq<char>, c: char) -> Seq<char>
    decreases w.len(),
{
    if w.len() > 0 && w[0] == c {
        trim_start_char(w.drop_first(), c)
    } else {
        w
    }
}

pub open spec fn trim_end_char(w: Seq<char>, c: char) -> Seq<char>
    decreases w.len(),
{
    if w.len() > 0 && w.last() == c {
        trim_end_char(w.drop_last(), c)
    } else {
        w
    }
}

/// The first of the words that reads as a date.
pub open spec fn first_date(ws: Seq<Seq<char>>) -> Option<Date>
    decreases ws.len(),
{
    if ws.len() == 0 {
        None
    } else {
        match date_parse(strip_parens(ws[0])) {
            Some(d) => Some(d),
            None => first_date(ws.drop_first()),
        }
    }
}

/// A release title: `#` or `##`, a version, and optionally a date among the
/// following words.
pub open spec fn parse_title_spec(title: Seq<char>) -> Result<(HeaderLevel, VersionView, Option<Date>), ParseError> {
    let ws = words(title, true);
    if ws.len() == 0 || !(ws[0] == seq!['#', '#'] || ws[0] == seq!['#']) {
        Err(ParseError::HeaderLevel)
    } else {
        let level = if ws[0] == seq!['#', '#'] {
            HeaderLevel::H2
        } else {
            HeaderLevel::H1
        };
        if ws.len() < 2 {
            Err(ParseError::MissingVersion)
        } else {
            match parse_version_spec(ws[1]) {
                Err(_) => Err(ParseError::MissingVersion),
                Ok(v) => Ok((level, v, first_date(ws.skip(2)))),
            }
        }
    }
}

/// `w` without its leading `c`s.
fn trim_start_chars(w: &Vec<char>, c: char) -> (r: Vec<char>)
    ensures
        r@ == trim_start_char(w@, c),
{
    let mut a: usize = 0;
    assert(w@.skip(0) =~= w@);
    while a < w.len() && w[a] == c
        invariant
            a <= w.len(),
            trim_start_char(w@, c) == trim_start_char(w@.skip(a as int), c),
        decreases w.len() - a,
    {
        assert(w@.skip(a as int).drop_first() =~= w@.skip(a + 1));
        a = a + 1;
    }
    assert(w@.skip(a as int) =~= w@.subrange(a as int, w.len() as int));
    slice_chars(w, a, w.len())
}

/// `w` without its trailing `c`s.
fn trim_end_chars(w: &Vec<char>, c: char) -> (r: Vec<char>)
    ensures
        r@ == trim_end_char(w@, c),
{
    let mut b: usize = w.len();
    assert(w@.subrange(0, b as int) =~= w@);
    while b > 0 && w[b - 1] == c
        invariant
            b <= w.len(),
            trim_end_char(w@, c) == trim_end_char(w@.subrange(0, b as int), c),
        decreases b,
    {
        assert(w@.subrange(0, b as int).drop_last() =~= w@.subrange(0, b - 1));
        b = b - 1;
    }
    slice_chars(w, 0, b)
}

/// Parses a release title held as characters.
fn parse_title_chars(title: &Vec<char>) -> (r: Result<(HeaderLevel, Version, Option<Date>), ParseError>)
    ensures
        match (r, parse_title_spec(title@)) {
            (Ok((l, v, d)), Ok((l2, v2, d2))) => l == l2 && v@ == v2 && d == d2,
            (Err(e), Err(e2)) => e == e2,
            _ => false,
        },
{
    let ws = words_of(title, true);
    let ghost wv = views_of(ws@);
    let hh: Vec<char> = vec!['#', '#'];
    let h: Vec<char> = vec!['#'];
    if ws.len() == 0 {
        return Err(ParseError::HeaderLevel);
    }
    assert(wv[0] == ws@[0]@);
    let level = if crate::text::chars_eq(&ws[0], &hh) {
        HeaderLevel::H2
    } else if crate::text::chars_eq(&ws[0], &h) {
        HeaderLevel::H1
    } else {
        assert(hh@ =~= seq!['#', '#']);
        assert(h@ =~= seq!['#']);
        return Err(ParseError::HeaderLevel);
    };
    assert(hh@ =~= seq!['#', '#']);
    assert(h@ =~= seq!['#']);
    if ws.len() < 2 {
        return Err(ParseError::MissingVersion);
    }
    assert(wv[1] == ws@[1]@);
    let w1 = &ws[1];
    assert(w1@.subrange(0, w1@.len() as int) =~= w1@);
    let version = match Version::parse_range(w1, 0, w1.len()) {
        Ok(v) => v,
        Err(_) => return Err(ParseError::MissingVersion),
    };
    let ghost expected = parse_title_spec(title@);
    assert(expected == Ok::<(HeaderLevel, VersionView, Option<Date>), ParseError>(
        (level, version@, first_date(wv.skip(2))),
    ));
    let mut k: usize = 2;
    while k < ws.len()
        invariant
            2 <= k <= ws.len(),
            wv == views_of(ws@),
            wv == words(title@, true),
            expected == parse_title_spec(title@),
            expected == Ok::<(HeaderLevel, VersionView, Option<Date>), ParseError>(
                (level, version@, first_date(wv.skip(k as int))),
            ),
        decreases ws.len() - k,
    {
        let part = trim_end_chars(&trim_start_chars(&ws[k], '('), ')');
        let s = string_of(&part);
        assert(wv.skip(k as int)[0] == ws@[k as int]@);
        assert(wv.skip(k as int).drop_first() =~= wv.skip(k + 1));
        assert(s@ == strip_parens(wv.skip(k as int)[0]));
        match parse_date(s.as_str()) {
            Some(d) => {
                assert(wv.skip(k as int).len() > 0);
                assert(first_date(wv.skip(k as int)) == Some(d));
                return Ok((level, version, Some(d)));
            },
            None => {},
        }
        k = k + 1;
    }
    assert(wv.skip(k as int).len() == 0);
    Ok((level, version, None))
}

/// Parses a release title: its header level, version and date.
pub fn parse_title(title: &str) -> (r: Result<(HeaderLevel, Version, Option<Date>), ParseError>)
    ensures
        match (r, parse_title_spec(title@)) {
            (Ok((l, v, d)), Ok((l2, v2, d2))) => l == l2 && v@ == v2 && d == d2,
            (Err(e), Err(e2)) => e == e2,
            _ => false,
        },
{
    parse_title_chars(&chars_of(title))
}

/// The line with one less `#` if it is a header of level 2 or more.
pub open spec fn reduce_header_spec(line: Seq<char>) -> Seq<char> {
    if has_prefix(line, seq!['#', '#']) {
        line.drop_first()
    } else {
        line
    }
}

fn reduce_header_level(line: &Vec<char>) -> (r: Vec<char>)
    ensures
        r@ == reduce_header_spec(line@),
{
    let hh: Vec<char> = vec!['#', '#'];
    assert(hh@ =~= seq!['#', '#']);
    if starts_with(line, &hh) {
        assert(line@.subrange(1, line@.len() as int) =~= line@.drop_first());
        slice_chars(line, 1, line.len())
    } else {
        slice_chars(line, 0, line.len())
    }
}

/// The lines starting with `#`, in order.
pub open spec fn hash_lines(ls: Seq<Seq<char>>) -> Seq<Seq<char>>
    decreases ls.len(),
{
    if ls.len() == 0 {
        seq![]
    } else {
        let prev = hash_lines(ls.drop_last());
        if has_prefix(ls.last(), seq!['#']) {
            prev.push(ls.last())
        } else {
            prev
        }
    }
}

/// The header level of releases in a changelog: that of its second header, or
/// `##` if it has fewer than two.
pub open spec fn release_level_of(content: Seq<char>) -> HeaderLevel {
    let hs = hash_lines(lines_of(content));
    if hs.len() > 1 && !has_prefix(hs[1], seq!['#', '#']) {
        HeaderLevel::H1
    } else {
        HeaderLevel::H2
    }
}

/// A line that starts with `#`.
pub open spec fn starts_with_hash() -> spec_fn(Seq<char>) -> bool {
    |l: Seq<char>| l.len() >= 1 && l[0] == '#'
}

/// Every line that `hash_lines` keeps starts with `#`, and it keeps the lines
/// that do, in order.
pub proof fn lemma_hash_lines(ls: Seq<Seq<char>>)
    ensures
        hash_lines(ls) == ls.filter(starts_with_hash()),
        forall|j: int|
            0 <= j < hash_lines(ls).len() ==> (#[trigger] hash_lines(ls)[j]).len() >= 1 && hash_lines(ls)[j][0] == '#',
        hash_lines(ls).len() <= ls.len(),
    decreases ls.len(),
{
    reveal(Seq::filter);
    if ls.len() > 0 {
        lemma_hash_lines(ls.drop_last());
        let prev = hash_lines(ls.drop_last());
        if ls.last().len() >= 1 {
            assert(ls.last().take(1) =~= seq![ls.last()[0]]);
        }
        if has_prefix(ls.last(), seq!['#']) {
            assert(ls.last().take(1)[0] == ls.last()[0]);
            assert forall|j: int| 0 <= j < hash_lines(ls).len() implies (#[trigger] hash_lines(ls)[j]).len() >= 1
                && hash_lines(ls)[j][0] == '#' by {
                if j < prev.len() {
                    assert(hash_lines(ls)[j] == prev[j]);
                }
            }
        }
    }
}

/// The level of the releases in a changelog follows its second header line: a
/// second `#` there means releases at level 2 (`##`), a single `#` level 1; with
/// fewer than two header lines the level is 2.
pub proof fn lemma_release_level(content: Seq<char>)
    ensures
        hash_lines(lines_of(content)).len() <= 1 ==> release_level_of(content) == HeaderLevel::H2,
        hash_lines(lines_of(content)).len() > 1 ==> {
            let second = hash_lines(lines_of(content))[1];
            &&& second.len() >= 1 && second[0] == '#'
            &&& (second.len() >= 2 && second[1] == '#') ==> release_level_of(content) == HeaderLevel::H2
            &&& !(second.len() >= 2 && second[1] == '#') ==> release_level_of(content) == HeaderLevel::H1
        },
{
    let hs = hash_lines(lines_of(content));
    lemma_hash_lines(lines_of(content));
    if hs.len() > 1 {
        let second = hs[1];
        assert(second.len() >= 1 && second[0] == '#');
        if second.len() >= 2 && second[1] == '#' {
            assert(second.take(2) =~= seq!['#', '#']);
        } else if second.len() >= 2 {
            assert(second.take(2)[1] == second[1]);
        }
    }
}

/// `line` opens the release of `version` at `level`.
pub open spec fn is_release_line(line: Seq<char>, level: HeaderLevel, version: VersionView) -> bool {
    &&& has_prefix(line, header_text(level) + seq![' '] + version_text(version))
    &&& parse_title_spec(line) matches Ok((l, v, _)) && l == level && v == version
}

/// The first line from `k` on that opens the release of `version`.
pub open spec fn find_release_line(ls: Seq<Seq<char>>, level: HeaderLevel, version: VersionView, k: int) -> Option<int>
    decreases ls.len() - k,
{
    if k < 0 || k >= ls.len() {
        None
    } else if is_release_line(ls[k], level, version) {
        Some(k)
    } else {
        find_release_line(ls, level, version, k + 1)
    }
}

/// How many of the lines come before the next release title at `level`.
pub open spec fn notes_len(ls: Seq<Seq<char>>, level: HeaderLevel, k: int) -> int
    decreases ls.len() - k,
{
    if k < 0 || k >= ls.len() || has_prefix(ls[k], header_text(level) + seq![' ']) {
        k
    } else {
        notes_len(ls, level, k + 1)
    }
}

/// The line as release notes hold it: at level 2, headers are reduced by one.
pub open spec fn note_line(line: Seq<char>, level: HeaderLevel) -> Seq<char> {
    match level {
        HeaderLevel::H1 => line,
        HeaderLevel::H2 => reduce_header_spec(line),
    }
}

pub open spec fn note_lines(ls: Seq<Seq<char>>, level: HeaderLevel) -> Seq<Seq<char>> {
    ls.map_values(|l: Seq<char>| note_line(l, level))
}

/// The text before the first `#`s are removed and the rest trimmed.
pub open spec fn title_of_line(line: Seq<char>) -> Seq<char> {
    trim(trim_start_char(line, '#'))
}

/// The release of `version` in a changelog: the title of its line, and the lines
/// up to the next release title as its notes; none if not found or the notes are empty.
pub open spec fn get_release_spec(content: Seq<char>, level: HeaderLevel, version: VersionView, name: NameView) -> Option<ReleaseView> {
    let ls = lines_of(content);
    match find_release_line(ls, level, version, 0) {
        None => None,
        Some(i) => {
            let e = notes_len(ls, level, i + 1);
            let notes = join_with(note_lines(ls.subrange(i + 1, e), level), "\n"@);
            if notes.len() == 0 {
                None
            } else {
                Some(ReleaseView { title: title_of_line(ls[i]), version, notes, package_name: name })
            }
        },
    }
}

/// A line of release notes as the changelog holds it: at level 2, headers go one
/// level down.
pub open spec fn changelog_note_line(line: Seq<char>, level: HeaderLevel) -> Seq<char> {
    if has_prefix(line, seq!['#']) && level == HeaderLevel::H2 {
        seq!['#'] + line
    } else {
        line
    }
}

/// The lines of release notes as the changelog holds them.
pub open spec fn changelog_note_lines(ls: Seq<Seq<char>>, level: HeaderLevel) -> Seq<Seq<char>> {
    ls.map_values(|l: Seq<char>| changelog_note_line(l, level))
}

/// The text of a new release in a changelog.
pub open spec fn new_changes_text(level: HeaderLevel, release: ReleaseView) -> Seq<char> {
    header_text(level) + seq![' '] + release.title + "\n\n"@ + join_with(
        changelog_note_lines(lines_of(release.notes), level),
        "\n"@,
    )
}

/// The lines of a changelog, with `new` inserted before the first release title
/// (or at the end if there is none).
pub open spec fn insert_release(ls: Seq<Seq<char>>, new: Seq<char>, written: bool) -> Seq<char>
    decreases ls.len(),
{
    if ls.len() == 0 {
        if written {
            seq![]
        } else {
            new
        }
    } else if !written && parse_title_spec(ls[0]) is Ok {
        new + "\n\n"@ + ls[0] + seq!['\n'] + insert_release(ls.drop_first(), new, true)
    } else {
        ls[0] + seq!['\n'] + insert_release(ls.drop_first(), new, written)
    }
}

/// The changelog after `new` is inserted; a final newline is kept.
pub open spec fn with_release_content(content: Seq<char>, new: Seq<char>) -> Seq<char> {
    let c = insert_release(lines_of(content), new, false);
    if (has_suffix(content, seq!['\n']) || content.len() == 0) && !has_suffix(c, seq!['\n']) {
        c.push('\n')
    } else {
        c
    }
}

// ---------------------------------------------------------------------------
// Reading back a release that was written
// ---------------------------------------------------------------------------

/// The index of the first line that reads as a release title.
pub open spec fn first_title(ls: Seq<Seq<char>>) -> Option<int>
    decreases ls.len(),
{
    if ls.len() == 0 {
        None
    } else if parse_title_spec(ls[0]) is Ok {
        Some(0)
    } else {
        match first_title(ls.drop_first()) {
            Some(k) => Some(k + 1),
            None => None,
        }
    }
}

proof fn lemma_first_title(ls: Seq<Seq<char>>)
    ensures
        first_title(ls) matches Some(k) ==> 0 <= k < ls.len() && parse_title_spec(ls[k]) is Ok && forall|i: int|
            0 <= i < k ==> parse_title_spec(#[trigger] ls[i]) is Err,
        first_title(ls) is None ==> forall|i: int| 0 <= i < ls.len() ==> parse_title_spec(#[trigger] ls[i]) is Err,
    decreases ls.len(),
{
    if ls.len() > 0 {
        lemma_first_title(ls.drop_first());
        assert forall|i: int| 0 < i < ls.len() implies ls[i] == ls.drop_first()[i - 1] by {}
    }
}

proof fn lemma_unlines_one(l: Seq<char>)
    ensures
        unlines(seq![l]) == l + seq!['\n'],
{
    assert(seq![l].drop_first() =~= Seq::<Seq<char>>::empty());
    assert(unlines(Seq::<Seq<char>>::empty()) == Seq::<char>::empty());
    assert(seq![l][0] == l);
    assert(unlines(seq![l]) =~= l + seq!['\n']);
}

proof fn lemma_unlines_concat(a: Seq<Seq<char>>, b: Seq<Seq<char>>)
    ensures
        unlines(a + b) == unlines(a) + unlines(b),
    decreases a.len(),
{
    if a.len() == 0 {
        assert(a + b =~= b);
        assert(unlines(a) + unlines(b) =~= unlines(b));
    } else {
        assert((a + b).drop_first() =~= a.drop_first() + b);
        lemma_unlines_concat(a.drop_first(), b);
        assert(unlines(a + b) =~= unlines(a) + unlines(b));
    }
}

/// Where `insert_release` puts the new release: before the first title, or at
/// the end.
proof fn lemma_insert_release(ls: Seq<Seq<char>>, new: Seq<char>)
    ensures
        insert_release(ls, new, true) == unlines(ls),
        insert_release(ls, new, false) == match first_title(ls) {
            Some(k) => unlines(ls.take(k)) + new + seq!['\n', '\n'] + unlines(ls.skip(k)),
            None => unlines(ls) + new,
        },
    decreases ls.len(),
{
    reveal_strlit("\n\n");
    if ls.len() == 0 {
        assert(unlines(ls) + new =~= new);
    } else {
        let rest = ls.drop_first();
        lemma_insert_release(rest, new);
        lemma_first_title(rest);
        assert(insert_release(ls, new, true) =~= unlines(ls));
        if parse_title_spec(ls[0]) is Ok {
            assert(ls.take(0) =~= Seq::<Seq<char>>::empty());
            assert(ls.skip(0) =~= ls);
            assert(insert_release(ls, new, false) =~= unlines(ls.take(0)) + new + seq!['\n', '\n'] + unlines(ls.skip(0)));
        } else {
            match first_title(rest) {
                Some(k) => {
                    assert(ls.take(k + 1).drop_first() =~= rest.take(k));
                    assert(ls.take(k + 1)[0] == ls[0]);
                    assert(ls.skip(k + 1) =~= rest.skip(k));
                    assert(insert_release(ls, new, false) =~= unlines(ls.take(k + 1)) + new + seq!['\n', '\n']
                        + unlines(ls.skip(k + 1)));
                },
                None => {
                    assert(insert_release(ls, new, false) =~= unlines(ls) + new);
                },
            }
        }
    }
}

proof fn lemma_find_release_line(ls: Seq<Seq<char>>, level: HeaderLevel, version: VersionView, j: int, t: int)
    requires
        0 <= j <= t < ls.len(),
        is_release_line(ls[t], level, version),
        forall|i: int| j <= i < t ==> !is_release_line(#[trigger] ls[i], level, version),
    ensures
        find_release_line(ls, level, version, j) == Some(t),
    decreases t - j,
{
    if j < t {
        lemma_find_release_line(ls, level, version, j + 1, t);
    }
}

proof fn lemma_notes_len(ls: Seq<Seq<char>>, level: HeaderLevel, j: int, e: int)
    requires
        0 <= j <= e <= ls.len(),
        e < ls.len() ==> has_prefix(ls[e], header_text(level) + seq![' ']),
        forall|i: int| j <= i < e ==> !has_prefix(#[trigger] ls[i], header_text(level) + seq![' ']),
    ensures
        notes_len(ls, level, j) == e,
    decreases e - j,
{
    if j < e {
        lemma_notes_len(ls, level, j + 1, e);
    }
}

/// Reading a line of notes back from the changelog gives the line written.
proof fn lemma_note_line_back(l: Seq<char>, level: HeaderLevel)
    ensures
        note_line(changelog_note_line(l, level), level) == l,
        plain_line(l) ==> plain_line(changelog_note_line(l, level)),
        l.len() > 0 ==> changelog_note_line(l, level).len() > 0,
{
    if has_prefix(l, seq!['#']) && level == HeaderLevel::H2 {
        let w = seq!['#'] + l;
        assert(w.take(2) =~= seq!['#', '#']) by {
            assert(l.take(1) == seq!['#']);
            assert(l.take(1)[0] == l[0]);
        }
        assert(w.drop_first() =~= l);
        assert(plain_line(l) ==> plain_line(w)) by {
            if plain_line(l) {
                assert forall|i: int| 0 <= i < w.len() implies #[trigger] w[i] != '\n' && w[i] != '\r' by {
                    if i > 0 {
                        assert(w[i] == l[i - 1]);
                    }
                }
            }
        }
    } else if level == HeaderLevel::H2 {
        assert(!has_prefix(l, seq!['#', '#'])) by {
            if has_prefix(l, seq!['#', '#']) {
                assert(l.take(1) =~= seq!['#']);
            }
        }
    }
}

proof fn lemma_trim_title(t: Seq<char>, h: Seq<char>)
    requires
        trim(t) == t,
        t.len() > 0 ==> t[0] != '#',
        forall|i: int| 0 <= i < h.len() ==> h[i] == '#',
    ensures
        title_of_line(h + seq![' '] + t) == t,
    decreases h.len(),
{
    let w = h + seq![' '] + t;
    if h.len() > 0 {
        assert(w.drop_first() =~= h.drop_first() + seq![' '] + t);
        lemma_trim_title(t, h.drop_first());
    } else {
        assert(w =~= seq![' '] + t);
        assert(trim_start_char(w, '#') == w);
        assert(w.drop_first() =~= t);
        assert(trim_start(w) == trim_start(t));
    }
}

/// Lines followed by a release title at the level: the lines read back.
proof fn lemma_release_lines(pre: Seq<Seq<char>>, t: Seq<char>, notes: Seq<Seq<char>>, post: Seq<Seq<char>>)
    requires
        forall|k: int| 0 <= k < pre.len() ==> plain_line(#[trigger] pre[k]),
        forall|k: int| 0 <= k < post.len() ==> plain_line(#[trigger] post[k]),
        forall|k: int| 0 <= k < notes.len() ==> plain_line(#[trigger] notes[k]),
        plain_line(t),
        notes.len() > 0,
        notes.last().len() > 0,
    ensures
        lines_of(unlines(pre) + (t + seq!['\n', '\n'] + join_with(notes, seq!['\n'])) + seq!['\n', '\n'] + unlines(post))
            == pre + seq![t, seq![]] + notes + seq![seq![]] + post,
        lines_of(unlines(pre) + (t + seq!['\n', '\n'] + join_with(notes, seq!['\n']))) == pre + seq![t, seq![]] + notes,
        lines_of(unlines(pre) + (t + seq!['\n', '\n'] + join_with(notes, seq!['\n'])) + seq!['\n']) == pre + seq![t, seq![]]
            + notes,
{
    let j = join_with(notes, seq!['\n']);
    lemma_lines_of_joined(notes);
    let all = pre + seq![t, seq![]] + notes + seq![seq![]] + post;
    let head = pre + seq![t, seq![]];
    lemma_unlines_one(seq![]);
    assert(unlines(seq![seq![]]) =~= seq!['\n']);
    assert(unlines(seq![t, seq![]]) =~= t + seq!['\n', '\n']) by {
        assert(seq![t, seq![]].drop_first() =~= seq![seq![]]);
        assert(seq![t, seq![]][0] == t);
    }
    lemma_unlines_concat(pre, seq![t, seq![]]);
    lemma_unlines_concat(head, notes);
    lemma_unlines_concat(head + notes, seq![seq![]]);
    lemma_unlines_concat(head + notes + seq![seq![]], post);
    assert(unlines(pre) + (t + seq!['\n', '\n'] + j) + seq!['\n', '\n'] + unlines(post) =~= unlines(all));
    assert forall|k: int| 0 <= k < all.len() implies plain_line(#[trigger] all[k]) by {
        if k < pre.len() {
            assert(all[k] == pre[k]);
        } else if k < pre.len() + 2 {
        } else if k < pre.len() + 2 + notes.len() {
            assert(all[k] == notes[k - pre.len() - 2]);
        } else if k == pre.len() + 2 + notes.len() {
        } else {
            assert(all[k] == post[k - pre.len() - 3 - notes.len()]);
        }
    }
    lemma_lines_unlines(all, Seq::<char>::empty());
    assert(unlines(all) + Seq::<char>::empty() =~= unlines(all));
    assert(all + Seq::<Seq<char>>::empty() =~= all);
    assert forall|k: int| 0 <= k < head.len() implies plain_line(#[trigger] head[k]) by {
        if k < pre.len() {
            assert(head[k] == pre[k]);
        }
    }
    lemma_lines_unlines(head, j);
    assert(unlines(pre) + (t + seq!['\n', '\n'] + j) =~= unlines(head) + j);
    lemma_lines_unlines(head, j + seq!['\n']);
    assert(unlines(pre) + (t + seq!['\n', '\n'] + j) + seq!['\n'] =~= unlines(head) + (j + seq!['\n']));
}

proof fn lemma_get_release_of(
    text: Seq<char>,
    pre: Seq<Seq<char>>,
    t: Seq<char>,
    written: Seq<Seq<char>>,
    tail: Seq<Seq<char>>,
    level: HeaderLevel,
    rel: ReleaseView,
    name: NameView,
)
    requires
        lines_of(text) == pre + seq![t, seq![]] + written + tail,
        forall|i: int| 0 <= i < pre.len() ==> parse_title_spec(#[trigger] pre[i]) is Err,
        is_release_line(t, level, rel.version),
        title_of_line(t) == rel.title,
        forall|k: int| 0 <= k < written.len() ==> !has_prefix(#[trigger] written[k], header_text(level) + seq![' ']),
        note_lines(written, level) == lines_of(rel.notes),
        lines_of(rel.notes).len() > 0,
        join_with(lines_of(rel.notes), seq!['\n']) == rel.notes,
        tail.len() == 0 || (tail.len() >= 2 && tail[0] == Seq::<char>::empty() && has_prefix(
            tail[1],
            header_text(level) + seq![' '],
        )),
    ensures
        get_release_spec(text, level, rel.version, name) == Some(
            ReleaseView {
                title: rel.title,
                version: rel.version,
                notes: seq!['\n'] + rel.notes + if tail.len() > 0 {
                    seq!['\n']
                } else {
                    Seq::<char>::empty()
                },
                package_name: name,
            },
        ),
{
    reveal_strlit("\n");
    assert("\n"@ =~= seq!['\n']);
    let h = header_text(level);
    let all = pre + seq![t, seq![]] + written + tail;
    let p = pre.len() as int;
    let nl = lines_of(rel.notes);
    assert(all[p] == t);
    assert forall|i: int| 0 <= i < p implies !is_release_line(#[trigger] all[i], level, rel.version) by {
        assert(all[i] == pre[i]);
    }
    lemma_find_release_line(all, level, rel.version, 0, p);
    let e = if tail.len() > 0 {
        p + 2 + written.len() + 1
    } else {
        all.len() as int
    };
    if tail.len() > 0 {
        assert(all[e] == tail[1]);
    }
    assert forall|i: int| p + 1 <= i < e implies !has_prefix(#[trigger] all[i], h + seq![' ']) by {
        if p + 2 <= i < p + 2 + written.len() {
            assert(all[i] == written[i - p - 2]);
        } else if i == p + 2 + written.len() {
            assert(all[i] == tail[0]);
        }
    }
    lemma_notes_len(all, level, p + 1, e);
    let body = all.subrange(p + 1, e);
    let s2 = seq![seq![]] + nl;
    lemma_join_cons(seq![], nl, seq!['\n']);
    assert(join_with(s2, seq!['\n']) =~= seq!['\n'] + rel.notes);
    let notes = join_with(note_lines(body, level), seq!['\n']);
    if tail.len() > 0 {
        assert(body =~= seq![seq![]] + written + seq![seq![]]);
        assert(note_lines(body, level) =~= s2.push(seq![]));
        assert(s2.push(seq![]).drop_last() =~= s2);
        assert(join_with(s2.push(seq![]), seq!['\n']) =~= join_with(s2, seq!['\n']) + seq!['\n']);
        assert(notes =~= seq!['\n'] + rel.notes + seq!['\n']);
    } else {
        assert(body =~= seq![seq![]] + written);
        assert(note_lines(body, level) =~= s2);
        assert(notes =~= seq!['\n'] + rel.notes);
    }
    assert(lines_of(text) == all);
    assert(find_release_line(lines_of(text), level, rel.version, 0) == Some(p));
    assert(notes_len(lines_of(text), level, p + 1) == e);
    assert(lines_of(text)[p] == t);
}

/// What a changelog's new text must hold to read the release back.
pub open spec fn readable(
    t: Seq<char>,
    written: Seq<Seq<char>>,
    level: HeaderLevel,
    rel: ReleaseView,
) -> bool {
    &&& plain_line(t)
    &&& forall|k: int| 0 <= k < written.len() ==> plain_line(#[trigger] written[k])
    &&& written.len() > 0
    &&& written.last().len() > 0
    &&& is_release_line(t, level, rel.version)
    &&& title_of_line(t) == rel.title
    &&& forall|k: int| 0 <= k < written.len() ==> !has_prefix(#[trigger] written[k], header_text(level) + seq![' '])
    &&& note_lines(written, level) == lines_of(rel.notes)
    &&& lines_of(rel.notes).len() > 0
    &&& join_with(lines_of(rel.notes), seq!['\n']) == rel.notes
}

proof fn lemma_read_back_before(
    ls: Seq<Seq<char>>,
    k: int,
    t: Seq<char>,
    written: Seq<Seq<char>>,
    level: HeaderLevel,
    rel: ReleaseView,
    name: NameView,
)
    requires
        0 <= k < ls.len(),
        forall|i: int| 0 <= i < k ==> parse_title_spec(#[trigger] ls[i]) is Err,
        forall|x: int| 0 <= x < ls.len() ==> plain_line(#[trigger] ls[x]),
        has_prefix(ls[k], header_text(level) + seq![' ']),
        readable(t, written, level, rel),
    ensures
        ({
            let c = unlines(ls.take(k)) + (t + seq!['\n', '\n'] + join_with(written, seq!['\n'])) + seq!['\n', '\n']
                + unlines(ls.skip(k));
            &&& has_suffix(c, seq!['\n'])
            &&& get_release_spec(c, level, rel.version, name) == Some(
                ReleaseView {
                    title: rel.title,
                    version: rel.version,
                    notes: seq!['\n'] + rel.notes + seq!['\n'],
                    package_name: name,
                },
            )
        }),
{
    let pre = ls.take(k);
    let post = ls.skip(k);
    let c = unlines(pre) + (t + seq!['\n', '\n'] + join_with(written, seq!['\n'])) + seq!['\n', '\n'] + unlines(post);
    assert forall|x: int| 0 <= x < pre.len() implies plain_line(#[trigger] pre[x]) by {
        assert(pre[x] == ls[x]);
    }
    assert forall|x: int| 0 <= x < post.len() implies plain_line(#[trigger] post[x]) by {
        assert(post[x] == ls[x + k]);
    }
    lemma_release_lines(pre, t, written, post);
    lemma_unlines_last(post);
    let a = unlines(pre) + (t + seq!['\n', '\n'] + join_with(written, seq!['\n'])) + seq!['\n', '\n'];
    assert(c == a + unlines(post));
    assert(c.last() == '\n');
    assert(c.skip(c.len() - 1) =~= seq!['\n']);
    let tail = seq![seq![]] + post;
    assert(pre + seq![t, seq![]] + written + seq![seq![]] + post =~= pre + seq![t, seq![]] + written + tail);
    assert(tail[1] == ls[k]);
    assert forall|i: int| 0 <= i < pre.len() implies parse_title_spec(#[trigger] pre[i]) is Err by {
        assert(pre[i] == ls[i]);
    }
    lemma_get_release_of(c, pre, t, written, tail, level, rel, name);
}

proof fn lemma_read_back_at_end(
    ls: Seq<Seq<char>>,
    text: Seq<char>,
    t: Seq<char>,
    written: Seq<Seq<char>>,
    level: HeaderLevel,
    rel: ReleaseView,
    name: NameView,
)
    requires
        forall|i: int| 0 <= i < ls.len() ==> parse_title_spec(#[trigger] ls[i]) is Err,
        forall|x: int| 0 <= x < ls.len() ==> plain_line(#[trigger] ls[x]),
        readable(t, written, level, rel),
        text == unlines(ls) + (t + seq!['\n', '\n'] + join_with(written, seq!['\n'])) || text == unlines(ls) + (t
            + seq!['\n', '\n'] + join_with(written, seq!['\n'])) + seq!['\n'],
    ensures
        get_release_spec(text, level, rel.version, name) == Some(
            ReleaseView { title: rel.title, version: rel.version, notes: seq!['\n'] + rel.notes, package_name: name },
        ),
{
    lemma_release_lines(ls, t, written, seq![]);
    assert(lines_of(text) == ls + seq![t, seq![]] + written);
    assert(ls + seq![t, seq![]] + written =~= ls + seq![t, seq![]] + written + Seq::<Seq<char>>::empty());
    lemma_get_release_of(text, ls, t, written, Seq::<Seq<char>>::empty(), level, rel, name);
}

/// After a release is written into a changelog, reading the release of its
/// version back gives that release: its title, its version and its notes, with
/// a blank line before them (and after them, where an older release follows).
/// This holds for text without carriage returns, a title that reads as the
/// release title of the version, notes none of whose lines would read as the
/// start of another release, and a changelog whose first release title is at
/// the level of its releases.
pub proof fn lemma_release_read_back(content: Seq<char>, level: HeaderLevel, rel: ReleaseView, name: NameView)
    requires
        forall|i: int| 0 <= i < content.len() ==> #[trigger] content[i] != '\r',
        plain_line(rel.title),
        rel.title.len() > 0 && rel.title[0] != '#',
        trim(rel.title) == rel.title,
        is_release_line(header_text(level) + seq![' '] + rel.title, level, rel.version),
        forall|i: int| 0 <= i < rel.notes.len() ==> #[trigger] rel.notes[i] != '\r',
        rel.notes.len() > 0,
        rel.notes.last() != '\n',
        forall|k: int|
            0 <= k < lines_of(rel.notes).len() ==> !has_prefix(
                changelog_note_line(#[trigger] lines_of(rel.notes)[k], level),
                header_text(level) + seq![' '],
            ),
        first_title(lines_of(content)) matches Some(k) ==> has_prefix(lines_of(content)[k], header_text(level) + seq![' ']),
    ensures
        get_release_spec(with_release_content(content, new_changes_text(level, rel)), level, rel.version, name) == Some(
            ReleaseView {
                title: rel.title,
                version: rel.version,
                notes: seq!['\n'] + rel.notes + if first_title(lines_of(content)) is Some {
                    seq!['\n']
                } else {
                    Seq::<char>::empty()
                },
                package_name: name,
            },
        ),
{
    let ls = lines_of(content);
    let h = header_text(level);
    let t = h + seq![' '] + rel.title;
    let nl = lines_of(rel.notes);
    let written = changelog_note_lines(nl, level);
    let new = new_changes_text(level, rel);
    assert(readable(t, written, level, rel)) by {
        lemma_readable(level, rel);
    }
    lemma_lines_plain(content);
    lemma_first_title(ls);
    assert(new =~= t + seq!['\n', '\n'] + join_with(written, seq!['\n'])) by {
        reveal_strlit("\n\n");
        reveal_strlit("\n");
        assert("\n\n"@ =~= seq!['\n', '\n']);
        assert("\n"@ =~= seq!['\n']);
    }
    lemma_insert_release(ls, new);
    let c = insert_release(ls, new, false);
    match first_title(ls) {
        Some(k) => {
            lemma_read_back_before(ls, k, t, written, level, rel, name);
            assert(with_release_content(content, new) == c);
        },
        None => {
            if (has_suffix(content, seq!['\n']) || content.len() == 0) && !has_suffix(c, seq!['\n']) {
                assert(with_release_content(content, new) == c.push('\n'));
                assert(c.push('\n') =~= c + seq!['\n']);
            }
            lemma_read_back_at_end(ls, with_release_content(content, new), t, written, level, rel, name);
        },
    }
}

proof fn lemma_readable(level: HeaderLevel, rel: ReleaseView)
    requires
        plain_line(rel.title),
        rel.title.len() > 0 && rel.title[0] != '#',
        trim(rel.title) == rel.title,
        is_release_line(header_text(level) + seq![' '] + rel.title, level, rel.version),
        forall|i: int| 0 <= i < rel.notes.len() ==> #[trigger] rel.notes[i] != '\r',
        rel.notes.len() > 0,
        rel.notes.last() != '\n',
        forall|k: int|
            0 <= k < lines_of(rel.notes).len() ==> !has_prefix(
                changelog_note_line(#[trigger] lines_of(rel.notes)[k], level),
                header_text(level) + seq![' '],
            ),
    ensures
        readable(
            header_text(level) + seq![' '] + rel.title,
            changelog_note_lines(lines_of(rel.notes), level),
            level,
            rel,
        ),
{
    let h = header_text(level);
    let t = h + seq![' '] + rel.title;
    assert(plain_line(t)) by {
        assert forall|i: int| 0 <= i < t.len() implies #[trigger] t[i] != '\n' && t[i] != '\r' by {
            if i >= h.len() + 1 {
                assert(t[i] == rel.title[i - h.len() - 1]);
            }
        }
    }
    let nl = lines_of(rel.notes);
    lemma_lines_plain(rel.notes);
    lemma_join_lines_of(rel.notes);
    let written = changelog_note_lines(nl, level);
    assert forall|k: int| 0 <= k < written.len() implies plain_line(#[trigger] written[k]) by {
        lemma_note_line_back(nl[k], level);
    }
    lemma_note_line_back(nl.last(), level);
    assert(written.last() == changelog_note_line(nl.last(), level));
    assert(note_lines(written, level) =~= nl) by {
        assert forall|k: int| 0 <= k < nl.len() implies note_lines(written, level)[k] == nl[k] by {
            lemma_note_line_back(nl[k], level);
        }
    }
    assert(forall|i: int| 0 <= i < h.len() ==> h[i] == '#');
    lemma_trim_title(rel.title, h);
    assert forall|k: int| 0 <= k < written.len() implies !has_prefix(#[trigger] written[k], h + seq![' ']) by {
        assert(written[k] == changelog_note_line(nl[k], level));
    }
}

/// The text of lines ends with a newline.
proof fn lemma_unlines_last(ls: Seq<Seq<char>>)
    requires
        ls.len() > 0,
    ensures
        unlines(ls).len() > 0 && unlines(ls).last() == '\n',
    decreases ls.len(),
{
    let u = unlines(ls);
    assert(u == ls[0] + seq!['\n'] + unlines(ls.drop_first()));
    if ls.len() > 1 {
        lemma_unlines_last(ls.drop_first());
        assert(u.last() == unlines(ls.drop_first()).last());
    } else {
        assert(ls.drop_first() =~= Seq::<Seq<char>>::empty());
        assert(unlines(ls.drop_first()) == Seq::<char>::empty());
        assert(u.last() == '\n');
    }
}

/// A changelog file and what has been written to it.
#[derive(Clone, Debug, PartialEq, Eq)]
pub struct Changelog {
    /// The path to the CHANGELOG file
    pub path: String,
    /// The content that's been written to `path`
    pub content: String,
    /// The header level of the title of each release (the version + date)
    pub release_header_level: HeaderLevel,
}

impl Changelog {
    pub open spec fn level(self) -> HeaderLevel {
        self.release_header_level
    }

    /// A changelog with the given content; the release header level is that of its
    /// second header.
    pub fn new(path: String, content: String) -> (r: Self)
        ensures
            r.path@ == path@,
            r.content@ == content@,
            r.level() == release_level_of(content@),
    {
        let cs = chars_of(content.as_str());
        assert(cs@.subrange(0, cs@.len() as int) =~= cs@);
        let ls = lines_in(&cs, 0, cs.len());
        let ghost lv = views_of(ls@);
        let h: Vec<char> = vec!['#'];
        let hh: Vec<char> = vec!['#', '#'];
        assert(h@ =~= seq!['#']);
        assert(hh@ =~= seq!['#', '#']);
        let mut count: usize = 0;
        let mut second_is_h2 = true;
        let mut i: usize = 0;
        while i < ls.len()
            invariant
                i <= ls.len(),
                lv == views_of(ls@),
                h@ == seq!['#'],
                hh@ == seq!['#', '#'],
                count as int == if hash_lines(lv.take(i as int)).len() > 2 {
                    2
                } else {
                    hash_lines(lv.take(i as int)).len() as int
                },
                hash_lines(lv.take(i as int)).len() > 1 ==> second_is_h2 == has_prefix(
                    hash_lines(lv.take(i as int))[1],
                    seq!['#', '#'],
                ),
            decreases ls.len() - i,
        {
            let ghost t = lv.take(i + 1);
            assert(t.drop_last() =~= lv.take(i as int));
            assert(t.last() == ls@[i as int]@);
            if starts_with(&ls[i], &h) {
                if count == 1 {
                    second_is_h2 = starts_with(&ls[i], &hh);
                }
                if count < 2 {
                    count = count + 1;
                }
            }
            i = i + 1;
        }
        assert(lv.take(i as int) =~= lv);
        let level = if count > 1 && !second_is_h2 {
            HeaderLevel::H1
        } else {
            HeaderLevel::H2
        };
        Changelog { path, content, release_header_level: level }
    }

    /// Find a release matching `version`, if any, within the changelog.
    pub fn get_release(&self, version: &Version, package_name: &Name) -> (r: Option<Release>)
        ensures
            match r {
                Some(rel) => get_release_spec(self.content@, self.level(), version@, package_name@) == Some(rel@),
                None => get_release_spec(self.content@, self.level(), version@, package_name@) is None,
            },
    {
        let level = self.release_header_level;
        let cs = chars_of(self.content.as_str());
        assert(cs@.subrange(0, cs@.len() as int) =~= cs@);
        let ls = lines_in(&cs, 0, cs.len());
        let ghost lv = views_of(ls@);
        let mut expected: Vec<char> = chars_of(level.as_str());
        expected.push(' ');
        version.write_to(&mut expected);
        let mut i: usize = 0;
        let mut found = false;
        while i < ls.len()
            invariant_except_break
                !found,
            invariant
                i <= ls.len(),
                lv == views_of(ls@),
                expected@ == header_text(level) + seq![' '] + crate::semver::version_text(version@),
                find_release_line(lv, level, version@, 0) == find_release_line(lv, level, version@, i as int),
            ensures
                found ==> i < ls.len() && find_release_line(lv, level, version@, 0) == Some(i as int),
                !found ==> find_release_line(lv, level, version@, 0) is None,
            decreases ls.len() - i,
        {
            assert(lv[i as int] == ls@[i as int]@);
            if starts_with(&ls[i], &expected) {
                match parse_title_chars(&ls[i]) {
                    Ok((l, v, _)) => {
                        if l == level && v.equals(version) {
                            found = true;
                            break;
                        }
                    },
                    Err(_) => {},
                }
            }
            i = i + 1;
        }
        if !found {
            return None;
        }
        let line = &ls[i];
        let stripped = trim_start_chars(line, '#');
        let (a, b) = trim_range(&stripped, 0, stripped.len());
        assert(stripped@.subrange(0, stripped@.len() as int) =~= stripped@);
        let title = string_of(&slice_chars(&stripped, a, b));
        let prefix: Vec<char> = {
            let mut p = chars_of(level.as_str());
            p.push(' ');
            p
        };
        let mut e = i + 1;
        while e < ls.len() && !starts_with(&ls[e], &prefix)
            invariant
                i + 1 <= e <= ls.len(),
                lv == views_of(ls@),
                prefix@ == header_text(level) + seq![' '],
                notes_len(lv, level, i + 1) == notes_len(lv, level, e as int),
            decreases ls.len() - e,
        {
            assert(lv[e as int] == ls@[e as int]@);
            e = e + 1;
        }
        proof {
            if e < ls.len() {
                assert(lv[e as int] == ls@[e as int]@);
            }
        }
        let mut body: Vec<Vec<char>> = Vec::new();
        let mut k = i + 1;
        while k < e
            invariant
                i + 1 <= k <= e <= ls.len(),
                lv == views_of(ls@),
                views_of(body@) == note_lines(lv.subrange(i + 1, k as int), level),
            decreases e - k,
        {
            let l = match level {
                HeaderLevel::H1 => slice_chars(&ls[k], 0, ls[k].len()),
                HeaderLevel::H2 => reduce_header_level(&ls[k]),
            };
            assert(ls[k as int]@.subrange(0, ls[k as int]@.len() as int) =~= ls[k as int]@);
            assert(lv[k as int] == ls@[k as int]@);
            assert(l@ == note_line(lv[k as int], level));
            let ghost before = body@;
            body.push(l);
            assert(lv.subrange(i + 1, k + 1) =~= lv.subrange(i + 1, k as int).push(lv[k as int]));
            assert(views_of(body@) =~= views_of(before).push(l@));
            assert(views_of(body@) =~= note_lines(lv.subrange(i + 1, k + 1), level));
            k = k + 1;
        }
        let mut notes: Vec<char> = Vec::new();
        let nl: Vec<char> = chars_of("\n");
        push_joined(&mut notes, &body, 0, &nl);
        assert(views_of(body@).skip(0) =~= views_of(body@));
        if notes.len() == 0 {
            return None;
        }
        Some(
            Release {
                title,
                version: version.duplicate(),
                notes: string_of(&notes),
                package_name: package_name.duplicate(),
            },
        )
    }

    /// Update `self.content` with the new release, return the diff being applied.
    pub fn with_release(&mut self, release: &Release) -> (r: String)
        ensures
            r@ == new_changes_text(old(self).level(), release@),
            final(self).content@ == with_release_content(old(self).content@, r@),
            final(self).path@ == old(self).path@,
            final(self).level() == old(self).level(),
    {
        let level = self.release_header_level;
        let new_changes = new_changes_of(level, release);
        let cs = chars_of(self.content.as_str());
        assert(cs@.subrange(0, cs@.len() as int) =~= cs@);
        let ls = lines_in(&cs, 0, cs.len());
        let ghost lv = views_of(ls@);
        let ghost nv = new_changes@;
        let mut out: Vec<char> = Vec::new();
        let mut not_written = true;
        let mut i: usize = 0;
        assert(lv.skip(0) =~= lv);
        while i < ls.len()
            invariant
                i <= ls.len(),
                lv == views_of(ls@),
                nv == new_changes@,
                out@ + insert_release(lv.skip(i as int), nv, !not_written) == insert_release(lv, nv, false),
            decreases ls.len() - i,
        {
            let ghost before = out@;
            let ghost rest = lv.skip(i as int);
            assert(rest[0] == ls@[i as int]@);
            assert(rest.drop_first() =~= lv.skip(i + 1));
            let ghost w0 = !not_written;
            let is_title = parse_title_chars(&ls[i]).is_ok();
            assert(is_title == parse_title_spec(rest[0]) is Ok);
            if not_written && is_title {
                push_all(&mut out, &new_changes);
                out.push('\n');
                out.push('\n');
                not_written = false;
            }
            push_all(&mut out, &ls[i]);
            out.push('\n');
            proof {
                reveal_strlit("\n\n");
                if !w0 && is_title {
                    assert(out@ =~= before + (nv + "\n\n"@ + rest[0] + seq!['\n']));
                } else {
                    assert(out@ =~= before + (rest[0] + seq!['\n']));
                }
                assert(out@ + insert_release(lv.skip(i + 1), nv, !not_written) =~= before + insert_release(rest, nv, w0));
            }
            i = i + 1;
        }
        if not_written {
            push_all(&mut out, &new_changes);
        }
        assert(lv.skip(i as int) =~= Seq::<Seq<char>>::empty());
        assert(out@ == insert_release(lv, nv, false));
        if (ends_with_newline(&cs) || cs.len() == 0) && !ends_with_newline(&out) {
            out.push('\n');
        }
        self.content = string_of(&out);
        string_of(&new_changes)
    }
}

/// Whether the text ends with a newline.
fn ends_with_newline(v: &Vec<char>) -> (r: bool)
    ensures
        r == has_suffix(v@, seq!['\n']),
{
    if v.len() == 0 {
        false
    } else {
        let ghost s = v@.skip(v.len() - 1);
        assert(s.len() == 1 && s[0] == v@[v.len() - 1]);
        if v[v.len() - 1] == '\n' {
            assert(s =~= seq!['\n']);
            true
        } else {
            false
        }
    }
}

/// The text that a release adds to a changelog whose release titles are at `level`.
fn new_changes_of(level: HeaderLevel, release: &Release) -> (r: Vec<char>)
    ensures
        r@ == new_changes_text(level, release@),
{
    let mut out: Vec<char> = chars_of(level.as_str());
    out.push(' ');
    push_str(&mut out, release.title.as_str());
    out.push('\n');
    out.push('\n');
    let notes = chars_of(release.notes.as_str());
    assert(notes@.subrange(0, notes@.len() as int) =~= notes@);
    let ls = lines_in(&notes, 0, notes.len());
    let ghost lv = views_of(ls@);
    let ghost f = |l: Seq<char>| changelog_note_line(l, level);
    let h: Vec<char> = vec!['#'];
    assert(h@ =~= seq!['#']);
    let mut body: Vec<Vec<char>> = Vec::new();
    let mut k: usize = 0;
    while k < ls.len()
        invariant
            k <= ls.len(),
            lv == views_of(ls@),
            h@ == seq!['#'],
            views_of(body@) == lv.take(k as int).map_values(|l: Seq<char>| changelog_note_line(l, level)),
        decreases ls.len() - k,
    {
        let l = if starts_with(&ls[k], &h) && level == HeaderLevel::H2 {
            let mut m: Vec<char> = vec!['#'];
            push_all(&mut m, &ls[k]);
            m
        } else {
            slice_chars(&ls[k], 0, ls[k].len())
        };
        assert(ls[k as int]@.subrange(0, ls[k as int]@.len() as int) =~= ls[k as int]@);
        assert(lv[k as int] == ls@[k as int]@);
        proof {
            if has_prefix(lv[k as int], seq!['#']) && level == HeaderLevel::H2 {
                assert(l@ =~= seq!['#'] + lv[k as int]);
            }
        }
        assert(l@ == changelog_note_line(lv[k as int], level));
        let ghost before = body@;
        body.push(l);
        assert(lv.take(k + 1) =~= lv.take(k as int).push(lv[k as int]));
        assert(views_of(body@) =~= views_of(before).push(l@));
        assert(views_of(body@) =~= lv.take(k + 1).map_values(|l: Seq<char>| changelog_note_line(l, level)));
        k = k + 1;
    }
    assert(lv.take(k as int) =~= lv);
    let nl: Vec<char> = vec!['\n'];
    assert(nl@ =~= "\n"@) by {
        reveal_strlit("\n");
    }
    push_joined(&mut out, &body, 0, &nl);
    assert(views_of(body@).skip(0) =~= views_of(body@));
    proof {
        reveal_strlit("\n\n");
    }
    assert(out@ =~= new_changes_text(level, release@));
    out
}

} // verus!
