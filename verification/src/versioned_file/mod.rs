//! Files that hold versions: reading the version of a package, and writing a
//! new one.
use vstd::prelude::*;

use crate::json::{obj_get, JsonView};
use crate::path::{path_file_name, rel_file_name};
use crate::semver::{parse_version_spec, Version, VersionView};
use crate::text::{chars_eq, chars_of, push_all, push_str, string_of};

pub mod cargo;
pub mod cargo_lock;
pub mod deno_json;
pub mod deno_lock;
pub mod gleam;
pub mod go_mod;
pub mod maven_pom;
pub mod package_json;
pub mod package_lock_json;
pub mod pubspec;
pub mod pyproject;
pub mod tauri_conf_json;
pub mod text_file;
pub mod versioned;

pub use self::go_mod::GoVersioning;
pub use self::versioned::{Error, SetError, VersionedFile};

verus! {

/// The diff so far with one more entry: entries are apart by `, `.
pub open spec fn diff_with(diff: Option<Seq<char>>, entry: Seq<char>) -> Seq<char> {
    match diff {
        Some(d) => if d.len() > 0 {
            d + ", "@ + entry
        } else {
            entry
        },
        None => entry,
    }
}

/// The text of an optional string slice.
pub open spec fn opt_str(o: Option<&str>) -> Option<Seq<char>> {
    match o {
        Some(s) => Some(s@),
        None => None,
    }
}

pub open spec fn opt_text(o: Option<String>) -> Option<Seq<char>> {
    match o {
        Some(s) => Some(s@),
        None => None,
    }
}

/// Adds an entry to the diff.
pub fn push_diff(diff: &mut Option<String>, entry: &Vec<char>)
    ensures
        opt_text(*final(diff)) == Some(diff_with(opt_text(*old(diff)), entry@)),
{
    let mut out: Vec<char> = Vec::new();
    match &*diff {
        Some(d) => {
            push_str(&mut out, d.as_str());
            if out.len() > 0 {
                push_str(&mut out, ", ");
            }
        },
        None => {},
    }
    push_all(&mut out, entry);
    *diff = Some(string_of(&out));
}

/// The text `{name} = {version}` of a diff entry.
pub fn diff_entry(name: &str, version: &Version) -> (r: Vec<char>)
    ensures
        r@ == name@ + " = "@ + crate::semver::version_text(version@),
{
    let mut out = chars_of(name);
    push_str(&mut out, " = ");
    version.write_to(&mut out);
    out
}

pub open spec fn msg_missing_version() -> Seq<char> {
    "missing field `version`"@
}

pub open spec fn msg_not_object() -> Seq<char> {
    "expected a JSON object"@
}

pub open spec fn msg_version_not_string() -> Seq<char> {
    "`version` is not a string"@
}

/// The version that a JSON object holds at `version`, or why there is none.
pub open spec fn json_version(j: JsonView) -> Result<VersionView, Seq<char>> {
    match j {
        JsonView::Object(es) => match obj_get(es, "version"@) {
            None => Err(msg_missing_version()),
            Some(JsonView::Str(s)) => parse_version_spec(s),
            Some(_) => Err(msg_version_not_string()),
        },
        _ => Err(msg_not_object()),
    }
}

/// Reads the version that a JSON object holds at `version`.
pub fn read_json_version(j: &crate::json::Json) -> (r: Result<Version, String>)
    ensures
        match (r, json_version(j@)) {
            (Ok(v), Ok(w)) => v@ == w,
            (Err(m), Err(n)) => m@ == n,
            _ => false,
        },
{
    match j {
        crate::json::Json::Object(es) => {
            proof {
                crate::json::lemma_object_view(*es);
            }
            match crate::json::find_key(es, "version") {
                None => Err(string_of(&chars_of("missing field `version`"))),
                Some(i) => match &es[i].1 {
                    crate::json::Json::Str(s) => match Version::parse(s.as_str()) {
                        Ok(v) => Ok(v),
                        Err(e) => Err(e.0),
                    },
                    _ => Err(string_of(&chars_of("`version` is not a string"))),
                },
            }
        },
        _ => Err(string_of(&chars_of("expected a JSON object"))),
    }
}

// ---------------------------------------------------------------------------
// Configuration of versioned files
// ---------------------------------------------------------------------------

/// All the file types supported for versioning.
#[derive(Clone, Copy, Debug, PartialEq, Eq, Structural)]
pub enum FileFormat {
    Cargo,
    CargoLock,
    DenoJson,
    PyProject,
    PubSpec,
    Gleam,
    GoMod,
    PackageJson,
    PackageLockJson,
    DenoLock,
    MavenPom,
    TauriConf,
    RegexFile,
}

/// The file names by which the type of a file is known.
pub open spec fn file_names() -> Seq<(Seq<char>, FileFormat)> {
    seq![
        ("Cargo.toml"@, FileFormat::Cargo),
        ("Cargo.lock"@, FileFormat::CargoLock),
        ("deno.json"@, FileFormat::DenoJson),
        ("deno.lock"@, FileFormat::DenoLock),
        ("gleam.toml"@, FileFormat::Gleam),
        ("go.mod"@, FileFormat::GoMod),
        ("package.json"@, FileFormat::PackageJson),
        ("package-lock.json"@, FileFormat::PackageLockJson),
        ("pom.xml"@, FileFormat::MavenPom),
        ("pubspec.yaml"@, FileFormat::PubSpec),
        ("pyproject.toml"@, FileFormat::PyProject),
        ("tauri.conf.json"@, FileFormat::TauriConf),
        ("tauri.macos.conf.json"@, FileFormat::TauriConf),
        ("tauri.windows.conf.json"@, FileFormat::TauriConf),
        ("tauri.linux.conf.json"@, FileFormat::TauriConf),
    ]
}

/// The type of the first file name in the table that equals `name`.
pub open spec fn format_of_name(table: Seq<(Seq<char>, FileFormat)>, name: Seq<char>) -> Option<FileFormat>
    decreases table.len(),
{
    if table.len() == 0 {
        None
    } else if table[0].0 == name {
        Some(table[0].1)
    } else {
        format_of_name(table.drop_first(), name)
    }
}

impl FileFormat {
    /// The file names by which the type of a file is known.
    pub fn file_names() -> (r: Vec<(&'static str, FileFormat)>)
        ensures
            r@.map_values(|e: (&'static str, FileFormat)| (e.0@, e.1)) == file_names(),
    {
        let r = vec![
            ("Cargo.toml", FileFormat::Cargo),
            ("Cargo.lock", FileFormat::CargoLock),
            ("deno.json", FileFormat::DenoJson),
            ("deno.lock", FileFormat::DenoLock),
            ("gleam.toml", FileFormat::Gleam),
            ("go.mod", FileFormat::GoMod),
            ("package.json", FileFormat::PackageJson),
            ("package-lock.json", FileFormat::PackageLockJson),
            ("pom.xml", FileFormat::MavenPom),
            ("pubspec.yaml", FileFormat::PubSpec),
            ("pyproject.toml", FileFormat::PyProject),
            ("tauri.conf.json", FileFormat::TauriConf),
            ("tauri.macos.conf.json", FileFormat::TauriConf),
            ("tauri.windows.conf.json", FileFormat::TauriConf),
            ("tauri.linux.conf.json", FileFormat::TauriConf),
        ];
        assert(r@.map_values(|e: (&'static str, FileFormat)| (e.0@, e.1)) =~= file_names());
        r
    }

    /// The type of a file, known by its name.
    pub fn try_from(file_name: &str) -> (r: Option<FileFormat>)
        ensures
            r == format_of_name(file_names(), file_name@),
    {
        let table = FileFormat::file_names();
        let ghost t = file_names();
        let name = chars_of(file_name);
        let mut i: usize = 0;
        assert(t.skip(0) =~= t);
        while i < table.len()
            invariant
                i <= table.len(),
                t == table@.map_values(|e: (&'static str, FileFormat)| (e.0@, e.1)),
                name@ == file_name@,
                t == file_names(),
                format_of_name(t, file_name@) == format_of_name(t.skip(i as int), file_name@),
            decreases table.len() - i,
        {
            assert(t.skip(i as int)[0] == t[i as int]);
            assert(t[i as int] == (table@[i as int].0@, table@[i as int].1));
            assert(t.skip(i as int).drop_first() =~= t.skip(i + 1));
            if chars_eq(&chars_of(table[i].0), &name) {
                return Some(table[i].1);
            }
            i = i + 1;
        }
        None
    }
}

/// A file whose type is not known by its name.
#[derive(Clone, Debug, PartialEq, Eq)]
pub struct UnknownFile {
    pub path: String,
}

/// A file configured with both a dependency and patterns.
#[derive(Clone, Debug, PartialEq, Eq)]
pub struct ConflictingOptions {
    pub path: String,
}

/// Why a versioned file's configuration is refused.
#[derive(Clone, Debug, PartialEq, Eq)]
pub enum ConfigError {
    UnknownFile(UnknownFile),
    ConflictingOptions(ConflictingOptions),
}

/// The configuration of a versioned file.
#[derive(Clone, Debug, PartialEq, Eq)]
pub struct Config {
    /// The location of the file
    pub path: String,
    /// The type of file
    pub format: FileFormat,
    /// If, within the file, we're versioning a dependency (not the entire package)
    pub dependency: Option<String>,
    /// If set, use regex pattern matching to find and replace the versions.
    pub regex: Option<Vec<String>>,
}

impl Config {
    /// A configuration for a file: by patterns, where they are given, else by the
    /// type that its name tells.
    pub fn new(path: String, dependency: Option<String>, regex: Option<Vec<String>>) -> (r: Result<Config, ConfigError>)
        ensures
            dependency is Some && regex is Some ==> (r matches Err(ConfigError::ConflictingOptions(c)) && c.path@ == path@),
            dependency is None && regex is Some ==> (r matches Ok(c) && c.path@ == path@ && c.format == FileFormat::RegexFile
                && c.dependency == dependency && c.regex == regex),
            regex is None ==> match rel_file_name(path@) {
                None => r matches Err(ConfigError::UnknownFile(u)) && u.path@ == path@,
                Some(name) => match format_of_name(file_names(), name) {
                    None => r matches Err(ConfigError::UnknownFile(u)) && u.path@ == path@,
                    Some(f) => r matches Ok(c) && c.path@ == path@ && c.format == f && c.dependency == dependency
                        && c.regex is None,
                },
            },
    {
        if dependency.is_some() && regex.is_some() {
            return Err(ConfigError::ConflictingOptions(ConflictingOptions { path }));
        }
        if regex.is_some() {
            return Ok(Config { path, format: FileFormat::RegexFile, dependency, regex });
        }
        let file_name = match path_file_name(path.as_str()) {
            Some(n) => n,
            None => return Err(ConfigError::UnknownFile(UnknownFile { path })),
        };
        match FileFormat::try_from(file_name.as_str()) {
            Some(format) => Ok(Config { path, format, dependency, regex: None }),
            None => Err(ConfigError::UnknownFile(UnknownFile { path })),
        }
    }

    /// The location of the file.
    pub fn as_path(&self) -> (r: String)
        ensures
            r@ == self.path@,
    {
        self.path.clone()
    }

    /// A configuration for each file name by which a type is known.
    pub fn defaults() -> (r: Vec<Config>)
        ensures
            r@.len() == file_names().len(),
            forall|i: int|
                0 <= i < r@.len() ==> (#[trigger] r@[i]).path@ == file_names()[i].0 && r@[i].format == file_names()[i].1
                    && r@[i].dependency is None && r@[i].regex is None,
    {
        let table = FileFormat::file_names();
        let ghost t = file_names();
        let mut r: Vec<Config> = Vec::new();
        let mut i: usize = 0;
        while i < table.len()
            invariant
                i <= table.len(),
                t == table@.map_values(|e: (&'static str, FileFormat)| (e.0@, e.1)),
                r@.len() == i,
                forall|j: int|
                    0 <= j < i ==> (#[trigger] r@[j]).path@ == t[j].0 && r@[j].format == t[j].1 && r@[j].dependency is None
                        && r@[j].regex is None,
            decreases table.len() - i,
        {
            r.push(Config { path: string_of(&chars_of(table[i].0)), format: table[i].1, dependency: None, regex: None });
            i = i + 1;
        }
        r
    }
}

} // verus!
