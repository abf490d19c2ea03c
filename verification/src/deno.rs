//! Deno's package specifiers and lock files, read and written by `deno_semver`
//! and `deno_lockfile`. What they read and write is named here.
use vstd::prelude::*;

use crate::json::{entries_view, items_view, json_parse, lemma_array_view, lemma_object_view, Json, JsonView};
use crate::text::{chars_eq, chars_of, string_of};

verus! {

/// A package requirement of a specifier like `jsr:@scope/name@^1`: whether it
/// is npm's (else JSR's), the package name, and the text of the version
/// requirement.
#[derive(Debug)]
pub struct DepReq {
    pub npm: bool,
    pub name: String,
    pub version_text: String,
}

pub struct DepReqView {
    pub npm: bool,
    pub name: Seq<char>,
    pub version_text: Seq<char>,
}

/// What `JsrDepPackageReq::from_str` reads from a specifier.
pub uninterp spec fn dep_req_of(s: Seq<char>) -> Option<DepReqView>;

/// What `PackageNv::from_str` reads from `name@version`: the name and the
/// version, written again.
pub uninterp spec fn nv_of(s: Seq<char>) -> Option<(Seq<char>, Seq<char>)>;

/// What a `PackageNv` read from `key` writes, with its version replaced by the
/// one `Version::parse_standard` reads from `v`.
pub uninterp spec fn nv_with_version(key: Seq<char>, v: Seq<char>) -> Option<Seq<char>>;

/// Whether `Version::parse_standard` reads a version from the text.
pub uninterp spec fn deno_version_ok(v: Seq<char>) -> bool;

/// Whether `LockfileContent::from_json` reads lock file content from a JSON
/// value. Its errors come from sections read in the order of the value's keys
/// and from dependencies that name no specifier at all, so whether it reads
/// depends on the value alone.
pub uninterp spec fn lockfile_reads(j: JsonView) -> bool;

/// Calls `JsrDepPackageReq::from_str`; what it reads is named `dep_req_of`.
#[verifier::external_body]
pub(crate) fn parse_dep_req(s: &str) -> (r: Option<DepReq>)
    ensures
        match r {
            Some(d) => dep_req_of(s@) == Some(DepReqView { npm: d.npm, name: d.name@, version_text: d.version_text@ }),
            None => dep_req_of(s@) is None,
        },
{
    let req = deno_semver::jsr::JsrDepPackageReq::from_str(s).ok()?;
    Some(DepReq {
        npm: req.kind == deno_semver::package::PackageKind::Npm,
        name: req.req.name.to_string(),
        version_text: req.req.version_req.version_text().to_string(),
    })
}

/// Calls `PackageNv::from_str`; the name and the version written again are named
/// `nv_of`.
#[verifier::external_body]
pub(crate) fn parse_nv(s: &str) -> (r: Option<(String, String)>)
    ensures
        match r {
            Some((n, v)) => nv_of(s@) == Some((n@, v@)),
            None => nv_of(s@) is None,
        },
{
    let nv = deno_semver::package::PackageNv::from_str(s).ok()?;
    Some((nv.name.to_string(), nv.version.to_string()))
}

/// Reads `key` with `PackageNv::from_str` and `v` with `Version::parse_standard`,
/// puts the version in the package and writes it; named `nv_with_version`.
#[verifier::external_body]
pub(crate) fn nv_with_new_version(key: &str, v: &str) -> (r: Option<String>)
    ensures
        match r {
            Some(s) => nv_with_version(key@, v@) == Some(s@),
            None => nv_with_version(key@, v@) is None,
        },
{
    let mut nv = deno_semver::package::PackageNv::from_str(key).ok()?;
    nv.version = deno_semver::Version::parse_standard(v).ok()?;
    Some(nv.to_string())
}

/// Calls `Version::parse_standard`; whether it reads is named `deno_version_ok`.
/// An error is given by its message.
#[verifier::external_body]
pub(crate) fn check_deno_version(v: &str) -> (r: Result<(), String>)
    ensures
        r is Ok <==> deno_version_ok(v@),
{
    deno_semver::Version::parse_standard(v).map(|_| ()).map_err(|e| e.to_string())
}

// ---------------------------------------------------------------------------
// npm package ids that `deno_lockfile` can split
// ---------------------------------------------------------------------------

/// An npm package id whose first character, and each character after a `:`,
/// is ASCII. `deno_lockfile` splits an id (and the part after `npm:` in a
/// dependency) at its second byte, which needs the first character to be one
/// byte long.
pub open spec fn id_safe(s: Seq<char>) -> bool {
    forall|i: int| 0 <= i < s.len() && (i == 0 || s[i - 1] == ':') ==> (#[trigger] s[i] as u32) < 128
}

/// The strings of a list are ids that can be split.
pub open spec fn strs_safe(xs: Seq<JsonView>) -> bool {
    forall|i: int| 0 <= i < xs.len() ==> (#[trigger] xs[i] matches JsonView::Str(s) ==> id_safe(s))
}

pub open spec fn list_safe(v: JsonView) -> bool {
    match v {
        JsonView::Array(xs) => strs_safe(xs),
        _ => true,
    }
}

/// The keys under which an npm package lists its dependencies.
pub open spec fn is_dep_list_key(k: Seq<char>) -> bool {
    k == "dependencies"@ || k == "optionalDependencies"@ || k == "optionalPeers"@
}

/// The dependency lists of an npm package hold ids that can be split.
pub open spec fn fields_safe(fs: Seq<(Seq<char>, JsonView)>) -> bool {
    forall|i: int| 0 <= i < fs.len() && #[trigger] is_dep_list_key(fs[i].0) ==> list_safe(fs[i].1)
}

pub open spec fn entry_safe(v: JsonView) -> bool {
    match v {
        JsonView::Object(fs) => fields_safe(fs),
        _ => true,
    }
}

/// The ids of an `npm` section, and its packages' dependencies, can be split.
/// An npm package whose id and dependencies can be split.
pub open spec fn package_safe(e: (Seq<char>, JsonView)) -> bool {
    id_safe(e.0) && entry_safe(e.1)
}

pub open spec fn packages_safe(ns: Seq<(Seq<char>, JsonView)>) -> bool {
    forall|i: int| 0 <= i < ns.len() ==> #[trigger] package_safe(ns[i])
}

pub open spec fn npm_safe(v: JsonView) -> bool {
    match v {
        JsonView::Object(ns) => packages_safe(ns),
        _ => true,
    }
}

/// Every `npm` section of a lock file can be split by `deno_lockfile`.
pub open spec fn sections_safe(es: Seq<(Seq<char>, JsonView)>) -> bool {
    forall|i: int| 0 <= i < es.len() && (#[trigger] es[i].0) == "npm"@ ==> npm_safe(es[i].1)
}

pub open spec fn lock_ids_safe(j: JsonView) -> bool {
    match j {
        JsonView::Object(es) => sections_safe(es),
        _ => true,
    }
}

/// Whether `deno_lockfile` reads the lock file: its ids can be split, and it
/// reads the content.
pub open spec fn lock_reads(j: JsonView) -> bool {
    lock_ids_safe(j) && lockfile_reads(j)
}

/// A text that reads as a JSON object.
pub open spec fn is_object_text(t: Seq<char>) -> bool {
    json_parse(t) matches Some(JsonView::Object(_))
}

fn id_safe_exec(s: &str) -> (r: bool)
    ensures
        r == id_safe(s@),
{
    let cs = chars_of(s);
    let mut i: usize = 0;
    while i < cs.len()
        invariant
            i <= cs.len(),
            cs@ == s@,
            forall|k: int| 0 <= k < i && (k == 0 || cs@[k - 1] == ':') ==> (#[trigger] cs@[k] as u32) < 128,
        decreases cs.len() - i,
    {
        if i == 0 || cs[i - 1] == ':' {
            if (cs[i] as u32) >= 128 {
                return false;
            }
        }
        i = i + 1;
    }
    true
}

fn list_safe_exec(v: &Json) -> (r: bool)
    ensures
        r == list_safe(v@),
{
    match v {
        Json::Array(xs) => {
            proof {
                lemma_array_view(*xs);
            }
            let ghost xv = items_view(xs@);
            let mut i: usize = 0;
            while i < xs.len()
                invariant
                    i <= xs.len(),
                    xv == items_view(xs@),
                    v@ == JsonView::Array(xv),
                    forall|k: int| 0 <= k < i ==> (#[trigger] xv[k] matches JsonView::Str(s) ==> id_safe(s)),
                decreases xs.len() - i,
            {
                match &xs[i] {
                    Json::Str(s) => {
                        if !id_safe_exec(s.as_str()) {
                            assert(xv[i as int] matches JsonView::Str(t) && !id_safe(t));
                            return false;
                        }
                    },
                    _ => {},
                }
                i = i + 1;
            }
            true
        },
        _ => true,
    }
}

fn entry_safe_exec(v: &Json) -> (r: bool)
    ensures
        r == entry_safe(v@),
{
    match v {
        Json::Object(fs) => {
            proof {
                lemma_object_view(*fs);
            }
            let ghost fv = entries_view(fs@);
            let mut i: usize = 0;
            while i < fs.len()
                invariant
                    i <= fs.len(),
                    fv == entries_view(fs@),
                    v@ == JsonView::Object(fv),
                    forall|k: int| 0 <= k < i && is_dep_list_key(#[trigger] fv[k].0) ==> list_safe(fv[k].1),
                decreases fs.len() - i,
            {
                assert(fv[i as int] == (fs@[i as int].0@, fs@[i as int].1@));
                let k = chars_of(fs[i].0.as_str());
                if chars_eq(&k, &chars_of("dependencies")) || chars_eq(&k, &chars_of("optionalDependencies"))
                    || chars_eq(&k, &chars_of("optionalPeers")) {
                    if !list_safe_exec(&fs[i].1) {
                        assert(is_dep_list_key(fv[i as int].0));
                        assert(!list_safe(fv[i as int].1));
                        assert(!fields_safe(fv));
                        return false;
                    }
                }
                i = i + 1;
            }
            true
        },
        _ => true,
    }
}

fn npm_safe_exec(v: &Json) -> (r: bool)
    ensures
        r == npm_safe(v@),
{
    match v {
        Json::Object(ns) => {
            proof {
                lemma_object_view(*ns);
            }
            let ghost nv = entries_view(ns@);
            let mut i: usize = 0;
            while i < ns.len()
                invariant
                    i <= ns.len(),
                    nv == entries_view(ns@),
                    v@ == JsonView::Object(nv),
                    forall|k: int| 0 <= k < i ==> #[trigger] package_safe(nv[k]),
                decreases ns.len() - i,
            {
                assert(nv[i as int] == (ns@[i as int].0@, ns@[i as int].1@));
                let id_ok = id_safe_exec(ns[i].0.as_str());
                let entry_ok = entry_safe_exec(&ns[i].1);
                assert(id_ok == id_safe(nv[i as int].0));
                assert(entry_ok == entry_safe(nv[i as int].1));
                if !id_ok || !entry_ok {
                    assert(!package_safe(nv[i as int]));
                    assert(!packages_safe(nv));
                    return false;
                }
                i = i + 1;
            }
            true
        },
        _ => true,
    }
}

/// Whether every `npm` section of the lock file can be split by `deno_lockfile`.
pub fn lock_ids_safe_exec(j: &Json) -> (r: bool)
    ensures
        r == lock_ids_safe(j@),
{
    match j {
        Json::Object(es) => {
            proof {
                lemma_object_view(*es);
            }
            let ghost ev = entries_view(es@);
            let mut i: usize = 0;
            while i < es.len()
                invariant
                    i <= es.len(),
                    ev == entries_view(es@),
                    j@ == JsonView::Object(ev),
                    forall|k: int| 0 <= k < i && (#[trigger] ev[k].0) == "npm"@ ==> npm_safe(ev[k].1),
                decreases es.len() - i,
            {
                assert(ev[i as int] == (es@[i as int].0@, es@[i as int].1@));
                if chars_eq(&chars_of(es[i].0.as_str()), &chars_of("npm")) {
                    if !npm_safe_exec(&es[i].1) {
                        assert(ev[i as int].0 == "npm"@ && !npm_safe(ev[i as int].1));
                        assert(!sections_safe(ev));
                        return false;
                    }
                }
                i = i + 1;
            }
            true
        },
        _ => true,
    }
}

/// The text `deno_lockfile` writes for a lock file: an error where an npm id
/// cannot be split or where `deno_lockfile` cannot read the content.
pub(crate) fn read_lock_text(j: &Json) -> (r: Result<String, String>)
    ensures
        r is Ok <==> lock_reads(j@),
        r matches Ok(s) ==> is_object_text(s@),
{
    if !lock_ids_safe_exec(j) {
        return Err(string_of(&chars_of("an npm package id starts with a character that is not ASCII")));
    }
    lockfile_json_text(j)
}

/// Reads the content of a lock file from a JSON value (`LockfileContent::from_json`)
/// and writes it (`Lockfile::as_json_string`). Claimed: it succeeds exactly
/// where `from_json` reads the content (named `lockfile_reads`), and the text
/// is a JSON object, as `serde_json` serializes the lock file struct. Which
/// text comes out is not stated: where several specifiers share a package
/// name, `from_json` resolves a dependency without a version requirement by a
/// walk of a `HashMap` whose order is seeded per process. An error is given by
/// its message. `from_json` splits each npm package id, and the part after
/// `npm:` in a dependency, at its second byte, which panics where the first
/// character is longer than one byte; `requires` leaves those ids out.
#[verifier::external_body]
pub(crate) fn lockfile_json_text(j: &Json) -> (r: Result<String, String>)
    requires
        lock_ids_safe(j@),
    ensures
        r is Ok <==> lockfile_reads(j@),
        r matches Ok(s) ==> is_object_text(s@),
{
    let content = deno_lockfile::LockfileContent::from_json(crate::json::value_of_json(j)).map_err(|e| e.to_string())?;
    let lockfile = deno_lockfile::Lockfile { overwrite: false, has_content_changed: true, content, filename: Default::default() };
    Ok(lockfile.as_json_string())
}

} // verus!
