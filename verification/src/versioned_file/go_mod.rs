//! `go.mod` files: the module line, the version of the module (from the comment
//! that this crate keeps on the module line, or from the git tags), and the
//! rules for writing a new version.
use vstd::prelude::*;

use crate::action::{Action, ActionView};
use crate::path::{path_ends_with, path_parent, rel_ends_with, rel_parent};
use crate::semver::{parse_version_spec, version_text, Version, VersionView};
use crate::text::{
    chars_of, has_prefix, has_suffix, last_index_of, lines_in, lines_of, parse_u64, parse_u64_spec,
    push_all, push_str, push_u64, replace_all, replace_exec, rfind_char, slice_chars, starts_with,
    string_of, u64_text, views_of, words, words_of, is_whitespace, lemma_words_word, lemma_words_sep,
    lemma_u64_text, lemma_parse_u64_text,
};

verus! {

/// Why a module line could not be read.
#[derive(Clone, Copy, Debug, PartialEq, Eq, Structural)]
pub enum ModuleLineError {
    /// missing module path
    MissingModulePath,
}

/// The line defining the module in go.mod, formatted like `module github.com/owner/repo/v2 // v2.1.4`.
///
/// The final component of the URI will only exist for versions >=2.0.0, and is only the major
/// component of the version.
///
/// The comment at the end is maintained by this crate and may not exist for projects which
/// haven't yet had a version set by it.
#[derive(Clone, Debug, PartialEq, Eq)]
pub struct ModuleLine {
    pub module: String,
    pub major_version: Option<u64>,
    pub version: Option<Version>,
}

pub struct ModuleLineView {
    pub module: Seq<char>,
    pub major_version: Option<u64>,
    pub version: Option<VersionView>,
}

pub open spec fn opt_version_view(v: Option<Version>) -> Option<VersionView> {
    match v {
        Some(x) => Some(x@),
        None => None,
    }
}

impl View for ModuleLine {
    type V = ModuleLineView;

    open spec fn view(&self) -> ModuleLineView {
        ModuleLineView {
            module: self.module@,
            major_version: self.major_version,
            version: opt_version_view(self.version),
        }
    }
}

/// The major version that a module path ends with, as `/v{major}`.
pub open spec fn major_of_module(m: Seq<char>) -> Option<u64> {
    match last_index_of(m, '/') {
        None => None,
        Some(i) => {
            let tail = m.skip(i + 1);
            if has_prefix(tail, seq!['v']) {
                match parse_u64_spec(tail.skip(1)) {
                    Ok(n) => Some(n),
                    Err(_) => None,
                }
            } else {
                None
            }
        },
    }
}

/// The module path without a final `/v{major}`.
pub open spec fn module_path_of(m: Seq<char>) -> Seq<char> {
    if major_of_module(m) is Some {
        m.take(last_index_of(m, '/')->0)
    } else {
        m
    }
}

/// The version in a `// v{version}` comment after the module path.
pub open spec fn comment_version(parts: Seq<Seq<char>>) -> Option<VersionView> {
    if parts.len() > 3 && parts[2] == "//"@ && has_prefix(parts[3], seq!['v']) {
        match parse_version_spec(parts[3].skip(1)) {
            Ok(v) => Some(v),
            Err(_) => None,
        }
    } else {
        None
    }
}

/// A module line read from its words: `module`, the module path, and optionally
/// a comment with the version.
pub open spec fn parse_module_line_spec(s: Seq<char>) -> Result<ModuleLineView, ModuleLineError> {
    let parts = words(s, false);
    if parts.len() < 2 {
        Err(ModuleLineError::MissingModulePath)
    } else {
        Ok(
            ModuleLineView {
                module: module_path_of(parts[1]),
                major_version: major_of_module(parts[1]),
                version: comment_version(parts),
            },
        )
    }
}

/// The text of a module line.
pub open spec fn module_line_text(l: ModuleLineView) -> Seq<char> {
    "module "@ + l.module + (match l.major_version {
        Some(m) => if m > 1 {
            "/v"@ + u64_text(m as nat)
        } else {
            Seq::<char>::empty()
        },
        None => Seq::<char>::empty(),
    }) + (match l.version {
        Some(v) => " // v"@ + version_text(v),
        None => Seq::<char>::empty(),
    })
}

/// No character of `s` is whitespace.
pub open spec fn no_whitespace(s: Seq<char>) -> bool {
    forall|i: int| 0 <= i < s.len() ==> !is_whitespace(#[trigger] s[i])
}

proof fn lemma_no_whitespace_concat(a: Seq<char>, b: Seq<char>)
    requires
        no_whitespace(a),
        no_whitespace(b),
    ensures
        no_whitespace(a + b),
{
    assert forall|i: int| 0 <= i < (a + b).len() implies !is_whitespace(#[trigger] (a + b)[i]) by {
        if i < a.len() {
            assert((a + b)[i] == a[i]);
        } else {
            assert((a + b)[i] == b[i - a.len()]);
        }
    }
}

proof fn lemma_u64_text_no_whitespace(n: u64)
    ensures
        no_whitespace(u64_text(n as nat)),
        crate::semver::lacks(u64_text(n as nat), '/'),
{
    lemma_u64_text(n);
}

proof fn lemma_version_text_no_whitespace(v: VersionView)
    requires
        v matches VersionView::Pre(_, p) ==> no_whitespace(p.label),
    ensures
        no_whitespace(version_text(v)),
{
    let st = match v {
        VersionView::Stable(s) => s,
        VersionView::Pre(s, _) => s,
    };
    lemma_u64_text_no_whitespace(st.major);
    lemma_u64_text_no_whitespace(st.minor);
    lemma_u64_text_no_whitespace(st.patch);
    assert(no_whitespace(seq!['.']));
    lemma_no_whitespace_concat(u64_text(st.major as nat), seq!['.']);
    lemma_no_whitespace_concat(u64_text(st.major as nat) + seq!['.'], u64_text(st.minor as nat));
    lemma_no_whitespace_concat(u64_text(st.major as nat) + seq!['.'] + u64_text(st.minor as nat), seq!['.']);
    lemma_no_whitespace_concat(
        u64_text(st.major as nat) + seq!['.'] + u64_text(st.minor as nat) + seq!['.'],
        u64_text(st.patch as nat),
    );
    match v {
        VersionView::Stable(_) => {},
        VersionView::Pre(_, p) => {
            let a = crate::semver::stable_text(st);
            assert(no_whitespace(seq!['-']));
            lemma_no_whitespace_concat(a, seq!['-']);
            lemma_no_whitespace_concat(a + seq!['-'], p.label);
            lemma_no_whitespace_concat(a + seq!['-'] + p.label, seq!['.']);
            lemma_u64_text_no_whitespace(p.version);
            lemma_no_whitespace_concat(a + seq!['-'] + p.label + seq!['.'], u64_text(p.version as nat));
            assert(version_text(v) =~= a + seq!['-'] + p.label + seq!['.'] + u64_text(p.version as nat));
        },
    }
}

proof fn lemma_last_slash(a: Seq<char>, b: Seq<char>)
    requires
        crate::semver::lacks(b, '/'),
    ensures
        last_index_of(a + seq!['/'] + b, '/') == Some(a.len() as int),
    decreases b.len(),
{
    if b.len() == 0 {
        assert((a + seq!['/'] + b).last() == '/');
    } else {
        assert((a + seq!['/'] + b).drop_last() =~= a + seq!['/'] + b.drop_last());
        lemma_last_slash(a, b.drop_last());
    }
}

/// The module path as a module line writes it: with `/v{major}` for a major
/// version above 1.
pub open spec fn written_path(l: ModuleLineView) -> Seq<char> {
    l.module + match l.major_version {
        Some(m) => if m > 1 {
            "/v"@ + u64_text(m as nat)
        } else {
            Seq::<char>::empty()
        },
        None => Seq::<char>::empty(),
    }
}

proof fn lemma_written_path(l: ModuleLineView)
    requires
        no_whitespace(l.module),
        major_of_module(l.module) is None,
        l.major_version matches Some(m) ==> m > 1,
    ensures
        no_whitespace(written_path(l)),
        major_of_module(written_path(l)) == l.major_version,
        module_path_of(written_path(l)) == l.module,
{
    reveal_strlit("/v");
    let mp = written_path(l);
    match l.major_version {
        Some(m) => {
            let digits = u64_text(m as nat);
            lemma_u64_text_no_whitespace(m);
            assert(no_whitespace("/v"@));
            lemma_no_whitespace_concat("/v"@, digits);
            lemma_no_whitespace_concat(l.module, "/v"@ + digits);
            assert(mp =~= l.module + seq!['/'] + (seq!['v'] + digits));
            assert(crate::semver::lacks(seq!['v'] + digits, '/'));
            lemma_last_slash(l.module, seq!['v'] + digits);
            let tail = mp.skip(l.module.len() + 1int);
            assert(tail =~= seq!['v'] + digits);
            assert(tail.take(1) =~= seq!['v']);
            assert(tail.skip(1) =~= digits);
            lemma_parse_u64_text(m);
            assert(mp.take(l.module.len() as int) =~= l.module);
        },
        None => {
            assert(mp =~= l.module);
        },
    }
}

/// The words of a module line as it is written.
pub open spec fn written_words(l: ModuleLineView) -> Seq<Seq<char>> {
    match l.version {
        Some(v) => seq!["module"@, written_path(l), "//"@, "v"@ + version_text(v)],
        None => seq!["module"@, written_path(l)],
    }
}

proof fn lemma_written_words(l: ModuleLineView)
    requires
        written_path(l).len() > 0,
        no_whitespace(written_path(l)),
        l.version matches Some(VersionView::Pre(_, p)) ==> no_whitespace(p.label),
    ensures
        words(module_line_text(l), false) == written_words(l),
{
    reveal_strlit("module ");
    reveal_strlit("module");
    reveal_strlit(" // v");
    reveal_strlit("//");
    reveal_strlit("v");
    reveal_strlit("/v");
    let mp = written_path(l);
    let tail = match l.version {
        Some(v) => " // v"@ + version_text(v),
        None => Seq::<char>::empty(),
    };
    assert(module_line_text(l) =~= "module"@ + (seq![' '] + (mp + tail)));
    assert(no_whitespace("module"@));
    lemma_words_word("module"@, seq![' '] + (mp + tail), false);
    lemma_words_sep(' ', mp + tail, false);
    assert(words(Seq::<char>::empty(), false) =~= Seq::<Seq<char>>::empty());
    match l.version {
        None => {
            assert(mp + tail =~= mp + Seq::<char>::empty());
            lemma_words_word(mp, Seq::<char>::empty(), false);
            assert(words(module_line_text(l), false) =~= written_words(l));
        },
        Some(v) => {
            let vt = "v"@ + version_text(v);
            lemma_version_text_no_whitespace(v);
            assert(no_whitespace("v"@));
            lemma_no_whitespace_concat("v"@, version_text(v));
            assert(no_whitespace("//"@));
            assert(tail =~= seq![' '] + ("//"@ + (seq![' '] + vt)));
            lemma_words_word(mp, tail, false);
            lemma_words_sep(' ', "//"@ + (seq![' '] + vt), false);
            lemma_words_word("//"@, seq![' '] + vt, false);
            lemma_words_sep(' ', vt, false);
            assert(vt =~= vt + Seq::<char>::empty());
            lemma_words_word(vt, Seq::<char>::empty(), false);
            assert(words(module_line_text(l), false) =~= written_words(l));
        },
    }
}

/// Writing a module line and reading it back gives the same module line. This
/// holds for a module path without whitespace that does not itself end in a
/// major version (it may be empty where a major version follows), a major
/// version above 1 (lower ones are not written), and a version whose
/// pre-release label has no dot and no whitespace.
pub proof fn lemma_module_line_roundtrip(l: ModuleLineView)
    requires
        l.module.len() > 0 || l.major_version is Some,
        no_whitespace(l.module),
        major_of_module(l.module) is None,
        l.major_version matches Some(m) ==> m > 1,
        l.version matches Some(VersionView::Pre(_, p)) ==> crate::semver::lacks(p.label, '.') && no_whitespace(p.label),
    ensures
        parse_module_line_spec(module_line_text(l)) == Ok::<ModuleLineView, ModuleLineError>(l),
{
    reveal_strlit("v");
    reveal_strlit("/v");
    assert(written_path(l).len() > 0);
    lemma_written_path(l);
    lemma_written_words(l);
    match l.version {
        Some(v) => {
            let vt = "v"@ + version_text(v);
            assert(vt.take(1) =~= seq!['v']);
            assert(vt.skip(1) =~= version_text(v));
            crate::semver::lemma_parse_version_text(v);
            assert(comment_version(written_words(l)) == Some(v));
        },
        None => {},
    }
}

impl ModuleLine {
    /// Reads a module line.
    pub fn parse(s: &str) -> (r: Result<ModuleLine, ModuleLineError>)
        ensures
            match (r, parse_module_line_spec(s@)) {
                (Ok(l), Ok(v)) => l@ == v,
                (Err(e), Err(e2)) => e == e2,
                _ => false,
            },
    {
        let cs = chars_of(s);
        let parts = words_of(&cs, false);
        let ghost pv = views_of(parts@);
        if parts.len() < 2 {
            return Err(ModuleLineError::MissingModulePath);
        }
        let m = &parts[1];
        assert(pv[1] == m@);
        let mut major_version: Option<u64> = None;
        let mut module = slice_chars(m, 0, m.len());
        assert(m@.subrange(0, m@.len() as int) =~= m@);
        match rfind_char(m, '/') {
            None => {},
            Some(i) => {
                let ghost tail = m@.skip(i + 1);
                if i + 1 < m.len() && m[i + 1] == 'v' {
                    assert(has_prefix(tail, seq!['v'])) by {
                        assert(tail.take(1) =~= seq!['v']);
                    }
                    assert(tail.skip(1) =~= m@.subrange(i + 2, m@.len() as int));
                    match parse_u64(m, i + 2, m.len()) {
                        Ok(n) => {
                            major_version = Some(n);
                            module = slice_chars(m, 0, i);
                            assert(m@.subrange(0, i as int) =~= m@.take(i as int));
                        },
                        Err(_) => {},
                    }
                } else {
                    assert(!has_prefix(tail, seq!['v'])) by {
                        if has_prefix(tail, seq!['v']) {
                            assert(tail.take(1)[0] == 'v');
                        }
                    }
                }
            },
        }
        let mut version: Option<Version> = None;
        if parts.len() > 3 {
            let slashes: Vec<char> = chars_of("//");
            assert(pv[2] == parts@[2]@);
            assert(pv[3] == parts@[3]@);
            let w = &parts[3];
            if crate::text::chars_eq(&parts[2], &slashes) && w.len() > 0 && w[0] == 'v' {
                assert(has_prefix(pv[3], seq!['v'])) by {
                    assert(pv[3].take(1) =~= seq!['v']);
                }
                assert(w@.skip(1) =~= w@.subrange(1, w@.len() as int));
                match Version::parse_range(w, 1, w.len()) {
                    Ok(v) => {
                        version = Some(v);
                    },
                    Err(_) => {},
                }
            } else {
                proof {
                    if pv[2] == "//"@ && has_prefix(pv[3], seq!['v']) {
                        assert(pv[3].take(1)[0] == 'v');
                    }
                }
            }
        }
        Ok(ModuleLine { module: string_of(&module), major_version, version })
    }

    /// The text of the module line.
    pub fn to_string(&self) -> (r: String)
        ensures
            r@ == module_line_text(self@),
    {
        let mut out: Vec<char> = chars_of("module ");
        push_str(&mut out, self.module.as_str());
        match self.major_version {
            Some(m) => {
                if m > 1 {
                    push_str(&mut out, "/v");
                    push_u64(&mut out, m);
                }
            },
            None => {},
        }
        match &self.version {
            Some(v) => {
                push_str(&mut out, " // v");
                v.write_to(&mut out);
            },
            None => {},
        }
        proof {
            let l = self@;
            let a = match l.major_version {
                Some(m) => if m > 1 {
                    "/v"@ + u64_text(m as nat)
                } else {
                    Seq::<char>::empty()
                },
                None => Seq::<char>::empty(),
            };
            let b = match l.version {
                Some(v) => " // v"@ + version_text(v),
                None => Seq::<char>::empty(),
            };
            assert(out@ =~= "module "@ + l.module + a + b);
        }
        string_of(&out)
    }
}

impl core::str::FromStr for ModuleLine {
    type Err = ModuleLineError;

    fn from_str(s: &str) -> (r: Result<Self, Self::Err>)
        ensures
            match (r, parse_module_line_spec(s@)) {
                (Ok(l), Ok(v)) => l@ == v,
                (Err(e), Err(e2)) => e == e2,
                _ => false,
            },
    {
        ModuleLine::parse(s)
    }
}

// ---------------------------------------------------------------------------
// go.mod files
// ---------------------------------------------------------------------------

/// The versioning strategy for Go modules.
#[derive(Clone, Copy, Debug, PartialEq, Eq, Structural)]
pub enum GoVersioning {
    /// The standard versioning strategy for Go modules:
    ///
    /// 1. Major version can't be bumped beyond 1
    /// 2. Module line must end with v{major} for major versions > 1
    Standard,
    /// Don't worry about the major version of the module line.
    IgnoreMajorRules,
    /// Bumping the major version of the module line is okay
    BumpMajor,
}

impl Default for GoVersioning {
    fn default() -> (r: Self)
        ensures
            r == GoVersioning::Standard,
    {
        GoVersioning::Standard
    }
}

/// Why a go.mod file could not be read.
#[derive(Clone, Debug, PartialEq, Eq)]
pub enum Error {
    /// No module line found in go.mod file
    MissingModuleLine,
    ModuleLine(ModuleLineError),
    /// No matching tag found for the go.mod file
    NoMatchingTag { prefix: String, major_filter: Vec<u64> },
}

pub enum ErrorView {
    MissingModuleLine,
    ModuleLine(ModuleLineError),
    NoMatchingTag { prefix: Seq<char>, major_filter: Seq<u64> },
}

impl View for Error {
    type V = ErrorView;

    open spec fn view(&self) -> ErrorView {
        match self {
            Error::MissingModuleLine => ErrorView::MissingModuleLine,
            Error::ModuleLine(e) => ErrorView::ModuleLine(*e),
            Error::NoMatchingTag { prefix, major_filter } => ErrorView::NoMatchingTag {
                prefix: prefix@,
                major_filter: major_filter@,
            },
        }
    }
}

/// Why a new version could not be set.
#[derive(Clone, Copy, Debug, PartialEq, Eq, Structural)]
pub enum SetError {
    /// Will not bump Go modules to 2.0.0
    BumpingToV2,
    /// Cannot bump major versions of directory-based go modules
    MajorVersionDirectoryBased,
}

/// A line that defines the module.
pub open spec fn is_module_line(l: Seq<char>) -> bool {
    has_prefix(l, "module "@)
}

/// The first line that defines the module.
pub open spec fn first_module_line(ls: Seq<Seq<char>>) -> Option<Seq<char>>
    decreases ls.len(),
{
    if ls.len() == 0 {
        None
    } else if is_module_line(ls[0]) {
        Some(ls[0])
    } else {
        first_module_line(ls.drop_first())
    }
}

/// The version of a tag `{prefix}v{version}`, if it is one.
pub open spec fn tag_version(tag: Seq<char>, prefix: Seq<char>) -> Option<VersionView> {
    if has_prefix(tag, prefix + seq!['v']) {
        match parse_version_spec(tag.skip(prefix.len() as int + 1)) {
            Ok(v) => Some(v),
            Err(_) => None,
        }
    } else {
        None
    }
}

/// The version of the first tag `{prefix}v{version}` whose major version is
/// one of `majors`.
pub open spec fn first_matching_tag(tags: Seq<Seq<char>>, prefix: Seq<char>, majors: Seq<u64>) -> Option<VersionView>
    decreases tags.len(),
{
    if tags.len() == 0 {
        None
    } else {
        match tag_version(tags[0], prefix) {
            Some(v) => if majors.contains(v.stable().major) {
                Some(v)
            } else {
                first_matching_tag(tags.drop_first(), prefix, majors)
            },
            None => first_matching_tag(tags.drop_first(), prefix, majors),
        }
    }
}

/// The tag prefix of a module in directory `dir`: `{dir}/`, or nothing at the root.
pub open spec fn dir_prefix(dir: Option<Seq<char>>) -> Seq<char> {
    match dir {
        Some(d) => if d.len() > 0 {
            d + seq!['/']
        } else {
            Seq::<char>::empty()
        },
        None => Seq::<char>::empty(),
    }
}

/// The major versions whose tags can version a module line: its own, or 0 and 1.
pub open spec fn major_filter_of(major: Option<u64>) -> Seq<u64> {
    match major {
        Some(m) => seq![m],
        None => seq![0u64, 1u64],
    }
}

pub open spec fn strs_view(v: Seq<&str>) -> Seq<Seq<char>> {
    v.map_values(|t: &str| t@)
}

/// The version of a module in directory `dir` with major version `major`, read from the tags.
pub open spec fn version_from_tags_spec(tags: Seq<Seq<char>>, dir: Option<Seq<char>>, major: Option<u64>) -> Result<VersionView, ErrorView> {
    let prefix = dir_prefix(dir);
    let majors = major_filter_of(major);
    match first_matching_tag(tags, prefix, majors) {
        Some(v) => Ok(v),
        None => Err(ErrorView::NoMatchingTag { prefix, major_filter: majors }),
    }
}

/// The directory whose tags version a module at `path`: its parent, or, where the
/// parent is the major version directory `v{major}`, the parent of that.
pub open spec fn tag_dir(path: Seq<char>, major: Option<u64>) -> Option<Seq<char>> {
    let parent = rel_parent(path);
    match (major, parent) {
        (Some(m), Some(p)) => if rel_ends_with(p, "v"@ + u64_text(m as nat)) {
            rel_parent(p)
        } else {
            parent
        },
        _ => parent,
    }
}

/// The mathematical value of a [`GoMod`].
pub struct GoModView {
    pub path: Seq<char>,
    pub raw: Seq<char>,
    pub module_line: ModuleLineView,
    pub version: VersionView,
}

/// A go.mod file read at `path`: its module line, and the version from the
/// comment on it or else from the tags.
pub open spec fn go_mod_spec(path: Seq<char>, raw: Seq<char>, tags: Seq<Seq<char>>) -> Result<GoModView, ErrorView> {
    match first_module_line(lines_of(raw)) {
        None => Err(ErrorView::MissingModuleLine),
        Some(l) => match parse_module_line_spec(l) {
            Err(e) => Err(ErrorView::ModuleLine(e)),
            Ok(ml) => match ml.version {
                Some(v) => Ok(GoModView { path, raw, module_line: ml, version: v }),
                None => match version_from_tags_spec(tags, tag_dir(path, ml.major_version), ml.major_version) {
                    Ok(v) => Ok(GoModView { path, raw, module_line: ml, version: v }),
                    Err(e) => Err(e),
                },
            },
        },
    }
}

/// A go.mod file.
#[derive(Clone, Debug, PartialEq, Eq)]
pub struct GoMod {
    path: String,
    raw: String,
    module_line: ModuleLine,
    version: Version,
    actions: Option<Vec<Action>>,
}

impl View for GoMod {
    type V = GoModView;

    closed spec fn view(&self) -> GoModView {
        GoModView {
            path: self.path@,
            raw: self.raw@,
            module_line: self.module_line@,
            version: self.version@,
        }
    }
}

/// The first line of `ls` that defines the module, with its index.
fn find_module_line(ls: &Vec<Vec<char>>) -> (r: Option<usize>)
    ensures
        match r {
            Some(i) => i < ls.len() && first_module_line(views_of(ls@)) == Some(ls@[i as int]@),
            None => first_module_line(views_of(ls@)) is None,
        },
{
    let ghost lv = views_of(ls@);
    let prefix: Vec<char> = chars_of("module ");
    let mut i: usize = 0;
    assert(lv.skip(0) =~= lv);
    while i < ls.len()
        invariant
            i <= ls.len(),
            lv == views_of(ls@),
            prefix@ == "module "@,
            first_module_line(lv) == first_module_line(lv.skip(i as int)),
        decreases ls.len() - i,
    {
        assert(lv.skip(i as int)[0] == ls@[i as int]@);
        assert(lv.skip(i as int).drop_first() =~= lv.skip(i + 1));
        if starts_with(&ls[i], &prefix) {
            return Some(i);
        }
        i = i + 1;
    }
    None
}

/// The version of a module in directory `dir` with major version `major`, read from
/// the first of the tags `{dir}/v{version}` with a matching major version.
pub fn version_from_tags(tags: &[&str], dir: Option<String>, major: Option<u64>) -> (r: Result<Version, Error>)
    ensures
        match r {
            Ok(v) => version_from_tags_spec(strs_view(tags@), opt_string_view(dir), major) == Ok::<VersionView, ErrorView>(v@),
            Err(e) => version_from_tags_spec(strs_view(tags@), opt_string_view(dir), major) == Err::<VersionView, ErrorView>(e@),
        },
{
    let ghost tv = strs_view(tags@);
    let mut prefix: Vec<char> = Vec::new();
    match &dir {
        Some(d) => {
            push_str(&mut prefix, d.as_str());
            if prefix.len() > 0 {
                prefix.push('/');
            }
        },
        None => {},
    }
    let majors: Vec<u64> = match major {
        Some(m) => vec![m],
        None => vec![0, 1],
    };
    assert(prefix@ =~= dir_prefix(opt_string_view(dir)));
    assert(majors@ =~= major_filter_of(major));
    let mut pv: Vec<char> = slice_chars(&prefix, 0, prefix.len());
    pv.push('v');
    assert(prefix@.subrange(0, prefix@.len() as int) =~= prefix@);
    let mut i: usize = 0;
    assert(tv.skip(0) =~= tv);
    while i < tags.len()
        invariant
            i <= tags.len(),
            tv == strs_view(tags@),
            pv@ == prefix@ + seq!['v'],
            prefix@ == dir_prefix(opt_string_view(dir)),
            majors@ == major_filter_of(major),
            first_matching_tag(tv, prefix@, majors@) == first_matching_tag(tv.skip(i as int), prefix@, majors@),
        decreases tags.len() - i,
    {
        let ghost rest = tv.skip(i as int);
        assert(rest[0] == tags@[i as int]@);
        assert(rest.drop_first() =~= tv.skip(i + 1));
        let t = chars_of(tags[i]);
        if starts_with(&t, &pv) {
            assert(t@.skip(prefix@.len() as int + 1) =~= t@.subrange(pv.len() as int, t@.len() as int));
            match Version::parse_range(&t, pv.len(), t.len()) {
                Ok(v) => {
                    let mj = v.stable_component().major;
                    let mut k: usize = 0;
                    let mut found = false;
                    while k < majors.len()
                        invariant
                            k <= majors.len(),
                            found ==> majors@.contains(mj),
                            !found ==> forall|j: int| 0 <= j < k ==> majors@[j] != mj,
                        decreases majors.len() - k,
                    {
                        if majors[k] == mj {
                            found = true;
                        }
                        k = k + 1;
                    }
                    if found {
                        return Ok(v);
                    }
                },
                Err(_) => {},
            }
        }
        i = i + 1;
    }
    Err(Error::NoMatchingTag { prefix: string_of(&prefix), major_filter: majors })
}

pub open spec fn opt_string_view(o: Option<String>) -> Option<Seq<char>> {
    match o {
        Some(s) => Some(s@),
        None => None,
    }
}

/// The go.mod file has a module line.
pub open spec fn has_module_line(g: GoModView) -> bool {
    first_module_line(lines_of(g.raw)) is Some
}

/// The module uses major version directories: its directory is `v{major}`.
pub open spec fn major_dir_based(path: Seq<char>, major: Option<u64>) -> bool {
    match major {
        Some(m) => match rel_parent(path) {
            Some(p) => rel_ends_with(p, "v"@ + u64_text(m as nat)),
            None => false,
        },
        None => false,
    }
}

/// The tag of a new version of a module whose go.mod is in directory `parent`:
/// `v{version}`, after the directory (without a final `v{major}` and `/`) if any.
pub open spec fn go_tag_text(parent: Option<Seq<char>>, v: VersionView) -> Seq<char> {
    match parent {
        None => "v"@ + version_text(v),
        Some(ps) => {
            let suf = "v"@ + u64_text(v.stable().major as nat);
            let p1 = if has_suffix(ps, suf) {
                ps.take(ps.len() - suf.len())
            } else {
                ps
            };
            let p2 = if has_suffix(p1, seq!['/']) {
                p1.drop_last()
            } else {
                p1
            };
            if p2.len() == 0 {
                "v"@ + version_text(v)
            } else {
                p2 + "/v"@ + version_text(v)
            }
        },
    }
}

/// The module line needs a new major version: the version goes past 1 to a
/// major version it does not name, and the major rules are not ignored.
pub open spec fn needs_new_major(ml: ModuleLineView, v: VersionView, versioning: GoVersioning) -> bool {
    let new_major = v.stable().major;
    let old_major = match ml.major_version {
        Some(m) => m,
        None => 0,
    };
    new_major > 1 && new_major != old_major && versioning != GoVersioning::IgnoreMajorRules
}

/// The module line with the new version.
pub open spec fn new_module_line(ml: ModuleLineView, v: VersionView, versioning: GoVersioning) -> ModuleLineView {
    ModuleLineView {
        module: ml.module,
        major_version: if needs_new_major(ml, v, versioning) {
            Some(v.stable().major)
        } else {
            ml.major_version
        },
        version: Some(v),
    }
}

/// Setting version `v`: the go.mod file with its new module line, and the tag.
pub open spec fn set_version_spec(g: GoModView, v: VersionView, versioning: GoVersioning) -> Result<Seq<ActionView>, SetError> {
    let ml = g.module_line;
    let needs = needs_new_major(ml, v, versioning);
    if needs && ml.major_version is None && versioning != GoVersioning::BumpMajor {
        Err(SetError::BumpingToV2)
    } else if needs && major_dir_based(g.path, ml.major_version) {
        Err(SetError::MajorVersionDirectoryBased)
    } else {
        let line = module_line_text(new_module_line(ml, v, versioning));
        let orig = first_module_line(lines_of(g.raw))->0;
        Ok(
            seq![
                ActionView::WriteToFile { path: g.path, content: replace_all(g.raw, orig, line), diff: line },
                ActionView::AddTag { tag: go_tag_text(rel_parent(g.path), v) },
            ],
        )
    }
}

/// The tag of a new version of a module whose go.mod is in directory `parent`.
pub fn go_tag(parent: Option<String>, version: &Version) -> (r: String)
    ensures
        r@ == go_tag_text(opt_string_view(parent), version@),
{
    let mut out: Vec<char> = Vec::new();
    match parent {
        None => {},
        Some(ps) => {
            let p = chars_of(ps.as_str());
            let mut suf: Vec<char> = vec!['v'];
            push_u64(&mut suf, version.stable_component().major);
            let ghost sv = "v"@ + u64_text(version@.stable().major as nat);
            assert(suf@ =~= sv) by {
                reveal_strlit("v");
            }
            let mut end = p.len();
            if suf.len() <= p.len() {
                let mut same = true;
                let mut k: usize = 0;
                let start = p.len() - suf.len();
                while k < suf.len()
                    invariant
                        start + suf.len() == p.len(),
                        k <= suf.len(),
                        same <==> forall|j: int| 0 <= j < k ==> p@[start + j] == suf@[j],
                    decreases suf.len() - k,
                {
                    if p[start + k] != suf[k] {
                        same = false;
                    }
                    k = k + 1;
                }
                proof {
                    if same {
                        assert(p@.skip(start as int) =~= suf@);
                    } else {
                        if p@.skip(start as int) == suf@ {
                            let j = choose|j: int| 0 <= j < k && p@[start + j] != suf@[j];
                            assert(p@.skip(start as int)[j] == p@[start + j]);
                        }
                    }
                }
                if same {
                    end = start;
                }
            }
            let ghost p1 = p@.take(end as int);
            assert(p1 == (if has_suffix(p@, sv) { p@.take(p@.len() - sv.len()) } else { p@ }));
            if end > 0 && p[end - 1] == '/' {
                assert(has_suffix(p1, seq!['/'])) by {
                    assert(p1.skip(p1.len() - 1) =~= seq!['/']);
                }
                assert(p1.drop_last() =~= p@.take(end - 1));
                end = end - 1;
            } else {
                proof {
                    if has_suffix(p1, seq!['/']) {
                        assert(p1.skip(p1.len() - 1)[0] == p1[p1.len() - 1]);
                    }
                }
            }
            if end > 0 {
                push_all(&mut out, &slice_chars(&p, 0, end));
                out.push('/');
            }
        },
    }
    out.push('v');
    version.write_to(&mut out);
    proof {
        reveal_strlit("v");
        reveal_strlit("/v");
    }
    string_of(&out)
}

impl GoMod {
    /// Reads a go.mod file at `path`; where the module line carries no version,
    /// the version is that of the first matching tag.
    pub fn new(path: String, raw: String, git_tags: &[&str]) -> (r: Result<GoMod, Error>)
        ensures
            match r {
                Ok(g) => go_mod_spec(path@, raw@, strs_view(git_tags@)) == Ok::<GoModView, ErrorView>(g@),
                Err(e) => go_mod_spec(path@, raw@, strs_view(git_tags@)) == Err::<GoModView, ErrorView>(e@),
            },
    {
        let cs = chars_of(raw.as_str());
        assert(cs@.subrange(0, cs@.len() as int) =~= cs@);
        let ls = lines_in(&cs, 0, cs.len());
        let i = match find_module_line(&ls) {
            Some(i) => i,
            None => return Err(Error::MissingModuleLine),
        };
        let line = string_of(&ls[i]);
        let module_line = match ModuleLine::parse(line.as_str()) {
            Ok(l) => l,
            Err(e) => return Err(Error::ModuleLine(e)),
        };
        match &module_line.version {
            Some(v) => {
                let version = v.duplicate();
                return Ok(GoMod { path, raw, module_line, version, actions: None });
            },
            None => {},
        }
        let parent = path_parent(path.as_str());
        let dir = match module_line.major_version {
            Some(m) => match parent {
                Some(p) => {
                    let mut major_dir: Vec<char> = vec!['v'];
                    push_u64(&mut major_dir, m);
                    assert(major_dir@ =~= "v"@ + u64_text(m as nat)) by {
                        reveal_strlit("v");
                    }
                    if path_ends_with(p.as_str(), string_of(&major_dir).as_str()) {
                        path_parent(p.as_str())
                    } else {
                        Some(p)
                    }
                },
                None => None,
            },
            None => parent,
        };
        match version_from_tags(git_tags, dir, module_line.major_version) {
            Ok(version) => Ok(GoMod { path, raw, module_line, version, actions: None }),
            Err(e) => Err(e),
        }
    }

    pub fn get_version(&self) -> (r: &Version)
        ensures
            r@ == self@.version,
    {
        &self.version
    }

    pub fn get_path(&self) -> (r: &String)
        ensures
            r@ == self@.path,
    {
        &self.path
    }

    /// Sets a new version: the module line gets the version in its comment (and a
    /// new major version where the rules allow it), and the version gets a tag.
    pub fn set_version(&self, new_version: &Version, versioning: GoVersioning) -> (r: Result<[Action; 2], SetError>)
        requires
            has_module_line(self@),
        ensures
            match r {
                Ok(a) => set_version_spec(self@, new_version@, versioning) == Ok::<Seq<ActionView>, SetError>(
                    a@.map_values(|x: Action| x@),
                ),
                Err(e) => set_version_spec(self@, new_version@, versioning) == Err::<Seq<ActionView>, SetError>(e),
            },
    {
        match self.action_pair(new_version, versioning) {
            Ok((a, b)) => {
                let r = [a, b];
                assert(r@.map_values(|x: Action| x@) =~= seq![a@, b@]);
                Ok(r)
            },
            Err(e) => Err(e),
        }
    }

    fn action_pair(&self, new_version: &Version, versioning: GoVersioning) -> (r: Result<(Action, Action), SetError>)
        requires
            has_module_line(self@),
        ensures
            match r {
                Ok((a, b)) => set_version_spec(self@, new_version@, versioning) == Ok::<Seq<ActionView>, SetError>(seq![a@, b@]),
                Err(e) => set_version_spec(self@, new_version@, versioning) == Err::<Seq<ActionView>, SetError>(e),
            },
    {
        let ghost g = self@;
        let cs = chars_of(self.raw.as_str());
        assert(cs@.subrange(0, cs@.len() as int) =~= cs@);
        let ls = lines_in(&cs, 0, cs.len());
        let i = match find_module_line(&ls) {
            Some(i) => i,
            None => {
                assert(false);
                return Err(SetError::BumpingToV2);
            },
        };
        let path = &self.path;
        let module_line = &self.module_line;
        let new_major = new_version.stable_component().major;
        let old_major = match module_line.major_version {
            Some(m) => m,
            None => 0,
        };
        let needs = new_major > 1 && new_major != old_major && versioning != GoVersioning::IgnoreMajorRules;
        if needs {
            if module_line.major_version.is_none() && versioning != GoVersioning::BumpMajor {
                return Err(SetError::BumpingToV2);
            }
            match module_line.major_version {
                Some(old) => match path_parent(path.as_str()) {
                    Some(p) => {
                        let mut major_dir: Vec<char> = vec!['v'];
                        push_u64(&mut major_dir, old);
                        assert(major_dir@ =~= "v"@ + u64_text(old as nat)) by {
                            reveal_strlit("v");
                        }
                        if path_ends_with(p.as_str(), string_of(&major_dir).as_str()) {
                            return Err(SetError::MajorVersionDirectoryBased);
                        }
                    },
                    None => {},
                },
                None => {},
            }
        }
        let new_line = ModuleLine {
            module: module_line.module.clone(),
            major_version: if needs {
                Some(new_major)
            } else {
                module_line.major_version
            },
            version: Some(new_version.duplicate()),
        };
        let line_text = new_line.to_string();
        let content = replace_exec(&cs, &ls[i], &chars_of(line_text.as_str()));
        let tag = go_tag(path_parent(path.as_str()), new_version);
        let diff = string_of(&chars_of(line_text.as_str()));
        let a = Action::WriteToFile { path: path.clone(), content: string_of(&content), diff };
        let b = Action::AddTag { tag };
        assert(seq![a@, b@] =~= set_version_spec(g, new_version@, versioning)->Ok_0);
        Ok((a, b))
    }

    /// The actions that a new version takes, if one was set.
    pub closed spec fn pending(&self) -> Option<Seq<ActionView>> {
        match self.actions {
            Some(v) => Some(v@.map_values(|a: Action| a@)),
            None => None,
        }
    }

    /// Sets a new version and keeps the actions that write it.
    pub fn with_version(self, new_version: &Version, versioning: GoVersioning) -> (r: Result<GoMod, SetError>)
        requires
            has_module_line(self@),
        ensures
            match r {
                Ok(g) => set_version_spec(self@, new_version@, versioning) matches Ok(a) && g.pending() == Some(a)
                    && g@ == (GoModView { version: new_version@, ..self@ }),
                Err(e) => set_version_spec(self@, new_version@, versioning) == Err::<Seq<ActionView>, SetError>(e),
            },
    {
        let (first, second) = match self.action_pair(new_version, versioning) {
            Ok(p) => p,
            Err(e) => return Err(e),
        };
        let ghost expected = seq![first@, second@];
        let v = vec![first, second];
        assert(v@.map_values(|a: Action| a@) =~= expected);
        let GoMod { path, raw, module_line, version: _, actions: _ } = self;
        Ok(GoMod { path, raw, module_line, version: new_version.duplicate(), actions: Some(v) })
    }

    /// The actions that write the file and tag the version, if one was set.
    pub fn write(self) -> (r: Option<Vec<Action>>)
        ensures
            match self.pending() {
                Some(a) => r matches Some(v) && v@.map_values(|x: Action| x@) == a,
                None => r is None,
            },
    {
        self.actions
    }
}

} // verus!
