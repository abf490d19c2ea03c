//! Regular expressions, compiled and run by the `regex` crate. The compiled
//! expression is `regex`'s; what it finds and replaces is named here.
use vstd::prelude::*;

verus! {

#[verifier::external_type_specification]
#[verifier::external_body]
pub struct ExRegex(regex::Regex);

/// The pattern that a compiled expression was made from (`Regex::as_str`).
pub uninterp spec fn regex_pattern(r: regex::Regex) -> Seq<char>;

/// Whether `Regex::new` compiles a pattern.
pub uninterp spec fn regex_compiles(p: Seq<char>) -> bool;

/// Whether the pattern has a capture group of the given name (`Regex::capture_names`).
pub uninterp spec fn regex_has_group(p: Seq<char>, name: Seq<char>) -> bool;

/// What `Regex::captures` finds first in a text: `None` without a match; else the
/// text of the `version` group, if it took part.
pub uninterp spec fn regex_version(p: Seq<char>, text: Seq<char>) -> Option<Option<Seq<char>>>;

/// What `Regex::replace_all` gives when each match is replaced by
/// `replace_in_match` of the match, its `version` group and `new`.
pub uninterp spec fn regex_replaced(p: Seq<char>, text: Seq<char>, new: Seq<char>) -> Seq<char>;

/// Compiles a pattern with `Regex::new`; an error is given by its message.
#[verifier::external_body]
pub(crate) fn compile(p: &str) -> (r: Result<regex::Regex, String>)
    ensures
        r matches Ok(re) ==> regex_compiles(p@) && regex_pattern(re) == p@,
        r is Err ==> !regex_compiles(p@),
{
    regex::Regex::new(p).map_err(|e| e.to_string())
}

/// The pattern of a compiled expression (`Regex::as_str`).
#[verifier::external_body]
pub(crate) fn pattern_of(re: &regex::Regex) -> (r: String)
    ensures
        r@ == regex_pattern(*re),
{
    re.as_str().to_string()
}

/// Whether the expression has a capture group `name`; named `regex_has_group`.
#[verifier::external_body]
pub(crate) fn has_group(re: &regex::Regex, name: &str) -> (r: bool)
    ensures
        r == regex_has_group(regex_pattern(*re), name@),
{
    re.capture_names().any(|n| n == Some(name))
}

/// The first match's `version` group (`Regex::captures`, `Captures::name`); named
/// `regex_version`.
#[verifier::external_body]
pub(crate) fn first_version(re: &regex::Regex, text: &str) -> (r: Option<Option<String>>)
    ensures
        match r {
            None => regex_version(regex_pattern(*re), text@) is None,
            Some(None) => regex_version(regex_pattern(*re), text@) == Some(None::<Seq<char>>),
            Some(Some(s)) => regex_version(regex_pattern(*re), text@) == Some(Some(s@)),
        },
{
    re.captures(text).map(|caps| caps.name("version").map(|m| m.as_str().to_string()))
}

/// `Regex::replace_all`, each match replaced by `replace_in_match`; named
/// `regex_replaced`.
#[verifier::external_body]
pub(crate) fn replace_versions(re: &regex::Regex, text: &str, new: &str) -> (r: String)
    ensures
        r@ == regex_replaced(regex_pattern(*re), text@, new@),
{
    re.replace_all(text, |caps: &regex::Captures| {
        replace_in_match(caps.get(0).map_or("", |m| m.as_str()), caps.name("version").map(|m| m.as_str()), new)
    }).to_string()
}

/// `str::replace` with a pattern that may be empty: an empty pattern puts `rep`
/// before each character and at the end.
pub open spec fn str_replace(s: Seq<char>, pat: Seq<char>, rep: Seq<char>) -> Seq<char>
    decreases s.len(),
{
    if pat.len() > 0 {
        crate::text::replace_all(s, pat, rep)
    } else if s.len() == 0 {
        rep
    } else {
        rep + seq![s[0]] + str_replace(s.drop_first(), pat, rep)
    }
}

/// A match with its `version` group's text replaced by the new version; without a
/// `version` group, the match as it is.
pub fn replace_in_match(full: &str, version: Option<&str>, new: &str) -> (r: String)
    ensures
        r@ == match version {
            Some(v) => str_replace(full@, v@, new@),
            None => full@,
        },
{
    let f = crate::text::chars_of(full);
    match version {
        None => crate::text::string_of(&f),
        Some(v) => {
            let vc = crate::text::chars_of(v);
            let nc = crate::text::chars_of(new);
            if vc.len() > 0 {
                crate::text::string_of(&crate::text::replace_exec(&f, &vc, &nc))
            } else {
                let mut out: Vec<char> = Vec::new();
                let mut i: usize = 0;
                assert(f@.skip(0) =~= f@);
                assert(out@ + str_replace(f@.skip(0), vc@, nc@) =~= str_replace(f@, vc@, nc@));
                while i < f.len()
                    invariant
                        i <= f.len(),
                        vc@.len() == 0,
                        out@ + str_replace(f@.skip(i as int), vc@, nc@) == str_replace(f@, vc@, nc@),
                    decreases f.len() - i,
                {
                    let ghost before = out@;
                    crate::text::push_all(&mut out, &nc);
                    out.push(f[i]);
                    assert(f@.skip(i as int).drop_first() =~= f@.skip(i + 1));
                    assert(f@.skip(i as int)[0] == f@[i as int]);
                    assert(out@ =~= before + (nc@ + seq![f@[i as int]]));
                    i = i + 1;
                }
                crate::text::push_all(&mut out, &nc);
                assert(f@.skip(i as int) =~= Seq::<char>::empty());
                crate::text::string_of(&out)
            }
        },
    }
}

} // verus!
