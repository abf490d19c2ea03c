//! Text files whose version is found by a regular expression with a `version`
//! group.
use vstd::prelude::*;

use super::opt_text;
use crate::action::{Action, ActionView};
use crate::pattern::{
    compile, first_version, has_group, pattern_of, regex_compiles, regex_has_group, regex_pattern,
    regex_replaced, regex_version, replace_versions,
};
use crate::semver::{parse_version_spec, version_text, Version, VersionView};
use crate::text::{chars_eq, chars_of, lines_in, lines_of, slice_chars, string_of, trim, trim_range, views_of};

verus! {

/// Why a text file's version could not be found.
#[derive(Debug)]
pub enum Error {
    /// Invalid regex pattern: the pattern, the path and the message.
    InvalidPattern { regex: String, path: String, source: String },
    /// The pattern has no named capture group called 'version'.
    MissingVersionGroup { regex: String, path: String },
    /// The pattern did not match any content.
    NoMatch { regex: String, path: String },
    /// The matched version is not a valid semantic version.
    InvalidVersion { version: String, path: String, source: crate::semver::Error },
}

/// A text file and the expression that finds its version.
#[derive(Debug)]
pub struct TextFile {
    pub path: String,
    pub content: String,
    pub regex: regex::Regex,
    pub diff: Option<String>,
}

/// The first line that differs between two texts, trimmed, from the new text.
pub open spec fn first_changed_line(old: Seq<Seq<char>>, new: Seq<Seq<char>>) -> Option<Seq<char>>
    decreases old.len(),
{
    if old.len() == 0 || new.len() == 0 {
        None
    } else if old[0] != new[0] {
        Some(trim(new[0]))
    } else {
        first_changed_line(old.drop_first(), new.drop_first())
    }
}

/// The diff after an edit: the first changed line, or the diff as it was.
pub open spec fn diff_after(old: Seq<char>, new: Seq<char>, diff: Option<Seq<char>>) -> Option<Seq<char>> {
    match first_changed_line(lines_of(old), lines_of(new)) {
        Some(l) => Some(l),
        None => diff,
    }
}

/// The first line that differs between two texts, trimmed.
pub fn changed_line(old: &str, new: &str) -> (r: Option<String>)
    ensures
        match r {
            Some(l) => first_changed_line(lines_of(old@), lines_of(new@)) == Some(l@),
            None => first_changed_line(lines_of(old@), lines_of(new@)) is None,
        },
{
    let a = chars_of(old);
    let b = chars_of(new);
    assert(a@.subrange(0, a@.len() as int) =~= a@);
    assert(b@.subrange(0, b@.len() as int) =~= b@);
    let la = lines_in(&a, 0, a.len());
    let lb = lines_in(&b, 0, b.len());
    let ghost va = views_of(la@);
    let ghost vb = views_of(lb@);
    let mut i: usize = 0;
    assert(va.skip(0) =~= va);
    assert(vb.skip(0) =~= vb);
    while i < la.len() && i < lb.len()
        invariant
            va == views_of(la@),
            vb == views_of(lb@),
            va == lines_of(old@),
            vb == lines_of(new@),
            i <= la.len(),
            i <= lb.len(),
            first_changed_line(va, vb) == first_changed_line(va.skip(i as int), vb.skip(i as int)),
        decreases la.len() - i,
    {
        assert(va.skip(i as int)[0] == la@[i as int]@);
        assert(vb.skip(i as int)[0] == lb@[i as int]@);
        if !chars_eq(&la[i], &lb[i]) {
            let (s, e) = trim_range(&lb[i], 0, lb[i].len());
            assert(lb@[i as int]@.subrange(0, lb@[i as int]@.len() as int) =~= lb@[i as int]@);
            return Some(string_of(&slice_chars(&lb[i], s, e)));
        }
        assert(va.skip(i as int).drop_first() =~= va.skip(i + 1));
        assert(vb.skip(i as int).drop_first() =~= vb.skip(i + 1));
        i = i + 1;
    }
    None
}

impl TextFile {
    /// Compiles the pattern, which must have a `version` group.
    pub fn new(path: String, content: String, regex: String) -> (r: Result<TextFile, Error>)
        ensures
            match r {
                Ok(t) => regex_pattern(t.regex) == regex@ && regex_has_group(regex@, "version"@) && t.path@ == path@
                    && t.content@ == content@ && t.diff is None,
                Err(Error::InvalidPattern { regex: p, path: q, .. }) => !regex_compiles(regex@) && p@ == regex@ && q@ == path@,
                Err(Error::MissingVersionGroup { regex: p, path: q }) => regex_compiles(regex@) && !regex_has_group(regex@, "version"@)
                    && p@ == regex@ && q@ == path@,
                Err(_) => false,
            },
    {
        let re = match compile(regex.as_str()) {
            Ok(re) => re,
            Err(source) => return Err(Error::InvalidPattern { regex, path, source }),
        };
        if !has_group(&re, "version") {
            return Err(Error::MissingVersionGroup { regex, path });
        }
        Ok(TextFile { path, content, regex: re, diff: None })
    }

    /// The version found by the first match's `version` group.
    pub fn get_version(&self) -> (r: Result<Version, Error>)
        ensures
            match regex_version(regex_pattern(self.regex), self.content@) {
                Some(Some(s)) => match (r, parse_version_spec(s)) {
                    (Ok(v), Ok(w)) => v@ == w,
                    (Err(Error::InvalidVersion { version, source, .. }), Err(m)) => version@ == s && source.0@ == m,
                    _ => false,
                },
                _ => r matches Err(Error::NoMatch { regex, path }) && regex@ == regex_pattern(self.regex) && path@ == self.path@,
            },
    {
        match first_version(&self.regex, self.content.as_str()) {
            Some(Some(s)) => match Version::parse(s.as_str()) {
                Ok(v) => Ok(v),
                Err(e) => Err(Error::InvalidVersion { version: s, path: self.path.clone(), source: e }),
            },
            _ => Err(Error::NoMatch { regex: pattern_of(&self.regex), path: self.path.clone() }),
        }
    }

    /// Replaces the `version` group of every match; the diff is the first changed line.
    pub fn set_version(self, new_version: &Version) -> (r: TextFile)
        ensures
            r.content@ == regex_replaced(regex_pattern(self.regex), self.content@, version_text(new_version@)),
            opt_text(r.diff) == diff_after(self.content@, r.content@, opt_text(self.diff)),
            r.path@ == self.path@,
            regex_pattern(r.regex) == regex_pattern(self.regex),
    {
        let TextFile { path, content, regex, diff } = self;
        let mut vt: Vec<char> = Vec::new();
        new_version.write_to(&mut vt);
        let new_content = replace_versions(&regex, content.as_str(), string_of(&vt).as_str());
        let diff = match changed_line(content.as_str(), new_content.as_str()) {
            Some(l) => Some(l),
            None => diff,
        };
        TextFile { path, content: new_content, regex, diff }
    }

    /// The action that writes the file, if a version was set.
    pub fn write(self) -> (r: Option<Action>)
        ensures
            match self.diff {
                Some(d) => r matches Some(a) && a@ == (ActionView::WriteToFile { path: self.path@, content: self.content@, diff: d@ }),
                None => r is None,
            },
    {
        match self.diff {
            Some(diff) => Some(Action::WriteToFile { path: self.path, content: self.content, diff }),
            None => None,
        }
    }
}

/// A text file whose version is found by several expressions, each with a
/// `version` group: the first that finds one gives the version, and every one
/// has its matches replaced.
#[derive(Debug)]
pub struct RegexFile {
    pub path: String,
    pub content: String,
    pub regexes: Vec<regex::Regex>,
    pub diff: Option<String>,
}

pub open spec fn patterns_of(v: Seq<regex::Regex>) -> Seq<Seq<char>> {
    v.map_values(|r: regex::Regex| regex_pattern(r))
}

/// The version text found by the first expression that finds one.
pub open spec fn first_found(ps: Seq<Seq<char>>, text: Seq<char>) -> Option<Seq<char>>
    decreases ps.len(),
{
    if ps.len() == 0 {
        None
    } else {
        match regex_version(ps[0], text) {
            Some(Some(s)) => Some(s),
            _ => first_found(ps.drop_first(), text),
        }
    }
}

/// The text with the matches of every expression replaced, in order.
pub open spec fn replaced_all(ps: Seq<Seq<char>>, text: Seq<char>, new: Seq<char>) -> Seq<char>
    decreases ps.len(),
{
    if ps.len() == 0 {
        text
    } else {
        regex_replaced(ps.last(), replaced_all(ps.drop_last(), text, new), new)
    }
}

impl RegexFile {
    /// What `new` gives.
    pub open spec fn new_spec(path: Seq<char>, content: Seq<char>, patterns: Seq<Seq<char>>, r: Result<RegexFile, Error>) -> bool {
        &&& match r {
                    Ok(f) => patterns_of(f.regexes@) == patterns && f.path@ == (path)
                        && f.content@ == (content) && f.diff is None && patterns.len() > 0,
                    Err(Error::NoMatch { path: q, .. }) => patterns.len() == 0 && q@ == (path),
                    Err(Error::InvalidPattern { regex: p, path: q, .. }) => !regex_compiles(p@) && q@ == (path),
                    Err(Error::MissingVersionGroup { regex: p, path: q }) => !regex_has_group(p@, "version"@) && q@ == (path),
                    Err(_) => false,
                }
    }

    /// Compiles the patterns, each of which must have a `version` group; there
    /// must be at least one.
    pub fn new(path: String, content: String, patterns: Vec<String>) -> (r: Result<RegexFile, Error>)
        ensures
            Self::new_spec(path@, content@, patterns@.map_values(|p: String| p@), r),
    {
        if patterns.len() == 0 {
            return Err(Error::NoMatch { regex: string_of(&Vec::new()), path });
        }
        let mut regexes: Vec<regex::Regex> = Vec::new();
        let mut i: usize = 0;
        while i < patterns.len()
            invariant
                i <= patterns.len(),
                patterns_of(regexes@) == patterns@.map_values(|p: String| p@).take(i as int),
            decreases patterns.len() - i,
        {
            let re = match compile(patterns[i].as_str()) {
                Ok(re) => re,
                Err(source) => return Err(Error::InvalidPattern { regex: patterns[i].clone(), path, source }),
            };
            if !has_group(&re, "version") {
                return Err(Error::MissingVersionGroup { regex: patterns[i].clone(), path });
            }
            let ghost before = regexes@;
            regexes.push(re);
            assert(patterns_of(regexes@) =~= patterns_of(before).push(regex_pattern(re)));
            assert(patterns@.map_values(|p: String| p@).take(i + 1) =~= patterns@.map_values(|p: String| p@).take(i as int).push(patterns@[i as int]@));
            i = i + 1;
        }
        assert(patterns@.map_values(|p: String| p@).take(i as int) =~= patterns@.map_values(|p: String| p@));
        Ok(RegexFile { path, content, regexes, diff: None })
    }

    /// What `get_version` gives.
    pub open spec fn get_version_spec(self, r: Result<Version, Error>) -> bool {
        &&& match first_found(patterns_of(self.regexes@), self.content@) {
                    Some(s) => match (r, parse_version_spec(s)) {
                        (Ok(v), Ok(w)) => v@ == w,
                        (Err(Error::InvalidVersion { version, source, .. }), Err(m)) => version@ == s && source.0@ == m,
                        _ => false,
                    },
                    None => r matches Err(Error::NoMatch { path, .. }) && path@ == self.path@,
                }
    }

    /// The version found by the first expression that finds one.
    pub fn get_version(&self) -> (r: Result<Version, Error>)
        ensures
            (*self).get_version_spec(r),
    {
        let ghost ps = patterns_of(self.regexes@);
        let mut i: usize = 0;
        assert(ps.skip(0) =~= ps);
        while i < self.regexes.len()
            invariant
                i <= self.regexes.len(),
                ps == patterns_of(self.regexes@),
                first_found(ps, self.content@) == first_found(ps.skip(i as int), self.content@),
            decreases self.regexes.len() - i,
        {
            assert(ps.skip(i as int)[0] == regex_pattern(self.regexes@[i as int]));
            assert(ps.skip(i as int).drop_first() =~= ps.skip(i + 1));
            match first_version(&self.regexes[i], self.content.as_str()) {
                Some(Some(s)) => {
                    return match Version::parse(s.as_str()) {
                        Ok(v) => Ok(v),
                        Err(e) => Err(Error::InvalidVersion { version: s, path: self.path.clone(), source: e }),
                    };
                },
                _ => {},
            }
            i = i + 1;
        }
        let regex = if self.regexes.len() > 0 {
            pattern_of(&self.regexes[0])
        } else {
            string_of(&Vec::new())
        };
        Err(Error::NoMatch { regex, path: self.path.clone() })
    }

    /// What `set_version` gives.
    pub open spec fn set_version_spec(self, new_version: VersionView, r: RegexFile) -> bool {
        &&& r.content@ == replaced_all(patterns_of(self.regexes@), self.content@, version_text(new_version))
        &&& opt_text(r.diff) == diff_after(self.content@, r.content@, opt_text(self.diff))
        &&& r.path@ == self.path@
        &&& patterns_of(r.regexes@) == patterns_of(self.regexes@)
    }

    /// Replaces the `version` group of every match of every expression, in order;
    /// the diff is the first changed line.
    pub fn set_version(self, new_version: &Version) -> (r: RegexFile)
        ensures
            self.set_version_spec(new_version@, r),
    {
        let RegexFile { path, content, regexes, diff } = self;
        let ghost ps = patterns_of(regexes@);
        let mut vt: Vec<char> = Vec::new();
        new_version.write_to(&mut vt);
        let new = string_of(&vt);
        let mut current = string_of(&chars_of(content.as_str()));
        let mut i: usize = 0;
        assert(ps.take(0) =~= Seq::<Seq<char>>::empty());
        while i < regexes.len()
            invariant
                i <= regexes.len(),
                ps == patterns_of(regexes@),
                new@ == version_text(new_version@),
                current@ == replaced_all(ps.take(i as int), content@, new@),
            decreases regexes.len() - i,
        {
            current = replace_versions(&regexes[i], current.as_str(), new.as_str());
            assert(ps.take(i + 1).drop_last() =~= ps.take(i as int));
            i = i + 1;
        }
        assert(ps.take(i as int) =~= ps);
        let diff = match changed_line(content.as_str(), current.as_str()) {
            Some(l) => Some(l),
            None => diff,
        };
        RegexFile { path, content: current, regexes, diff }
    }

    /// What `write` gives.
    pub open spec fn write_spec(self, r: Option<Action>) -> bool {
        &&& match self.diff {
                    Some(d) => r matches Some(a) && a@ == (ActionView::WriteToFile { path: self.path@, content: self.content@, diff: d@ }),
                    None => r is None,
                }
    }

    /// The action that writes the file, if a version was set.
    pub fn write(self) -> (r: Option<Action>)
        ensures
            self.write_spec(r),
    {
        match self.diff {
            Some(diff) => Some(Action::WriteToFile { path: self.path, content: self.content, diff }),
            None => None,
        }
    }
}

} // verus!
