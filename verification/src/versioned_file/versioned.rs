//! A versioned file of any supported type: reading it, its version, setting a
//! new one and the actions that write it.
use vstd::prelude::*;

use super::go_mod::{has_module_line, strs_view, GoVersioning};
use super::{
    cargo, cargo_lock, deno_json, deno_lock, gleam, go_mod, maven_pom, package_json, package_lock_json,
    pubspec, pyproject, tauri_conf_json, text_file, Config, FileFormat,
};
use crate::action::Action;
use crate::semver::{Version, VersionView};
use crate::text::{chars_of, string_of};
use crate::xml::{xml_child_names, xml_child_texts};

verus! {

/// The version that a text holds, where it reads as one.
pub open spec fn text_version(s: Option<Seq<char>>) -> Option<VersionView> {
    match s {
        Some(t) => match crate::semver::parse_version_spec(t) {
            Ok(w) => Some(w),
            Err(_) => None,
        },
        None => None,
    }
}

/// The version of the package in a file, where `version` finds one.
pub open spec fn version_of(f: VersionedFile) -> Option<VersionView> {
    match f {
        VersionedFile::CargoLock(_) | VersionedFile::DenoLock(_) => None,
        VersionedFile::DenoJson(d) => d@.version,
        VersionedFile::GoMod(g) => Some(g@.version),
        VersionedFile::PackageJson(p) => Some(p@.version),
        VersionedFile::TauriConf(t) | VersionedFile::TauriMacosConf(t) | VersionedFile::TauriWindowsConf(t)
        | VersionedFile::TauriLinuxConf(t) => Some(t@.version),
        VersionedFile::PyProject(p) => Some(p.version@),
        VersionedFile::PubSpec(p) => Some(p.version@),
        VersionedFile::Cargo(f) => text_version(crate::toml::toml_strings(f.document).get(seq!["package"@, "version"@])),
        VersionedFile::Gleam(f) => text_version(crate::toml::toml_strings(f.document).get(seq!["version"@])),
        VersionedFile::PackageLockJson(f) => text_version(package_lock_json::top_version(f@.parsed)),
        VersionedFile::MavenPom(f) => match maven_pom::first_child(xml_child_names(f.project), "version"@) {
            Some(i) => text_version(xml_child_texts(f.project)[i]),
            None => None,
        },
        VersionedFile::RegexFile(f) => text_version(text_file::first_found(text_file::patterns_of(f.regexes@), f.content@)),
    }
}

/// A versioned file.
#[derive(Debug)]
pub enum VersionedFile {
    Cargo(cargo::Cargo),
    CargoLock(cargo_lock::CargoLock),
    DenoJson(deno_json::DenoJson),
    DenoLock(deno_lock::DenoLock),
    PubSpec(pubspec::PubSpec),
    Gleam(gleam::Gleam),
    GoMod(go_mod::GoMod),
    PackageJson(package_json::PackageJson),
    PackageLockJson(package_lock_json::PackageLockJson),
    PyProject(pyproject::PyProject),
    MavenPom(maven_pom::MavenPom),
    TauriConf(tauri_conf_json::TauriConfJson),
    TauriMacosConf(tauri_conf_json::TauriConfJson),
    TauriWindowsConf(tauri_conf_json::TauriConfJson),
    TauriLinuxConf(tauri_conf_json::TauriConfJson),
    RegexFile(text_file::RegexFile),
}

/// Why a file could not be read, or has no version.
#[derive(Debug)]
pub enum Error {
    /// This file can't contain a version
    NoVersion,
    Cargo(cargo::Error),
    CargoLock(cargo_lock::Error),
    DenoJson(deno_json::Error),
    PyProject(pyproject::Error),
    PubSpec(pubspec::Error),
    Gleam(gleam::Error),
    GoMod(go_mod::Error),
    PackageJson(package_json::Error),
    PackageLockJson(package_lock_json::Error),
    MavenPom(maven_pom::Error),
    TauriConfJson(tauri_conf_json::Error),
    DenoLock(deno_lock::Error),
    RegexFile(text_file::Error),
}

/// Why a version could not be set.
#[derive(Debug)]
pub enum SetError {
    /// Error serializing JSON: the message.
    Json(String),
    /// Error serializing YAML: the message.
    Yaml(String),
    GoMod(go_mod::SetError),
    CargoLock(cargo_lock::SetError),
    MavenPom(maven_pom::Error),
    DenoLock(deno_lock::Error),
}

/// What reading a file of the configured type gives: what reading that type
/// of file gives, for the file's path and text.
pub open spec fn read_spec(config: Config, content: Seq<char>, tags: Seq<Seq<char>>, r: Result<VersionedFile, Error>) -> bool {
    let path = config.path@;
    match config.format {
        FileFormat::Cargo => match r {
            Ok(VersionedFile::Cargo(f)) => cargo::Cargo::new_spec(path, content, Ok(f)),
            Err(Error::Cargo(e)) => cargo::Cargo::new_spec(path, content, Err(e)),
            _ => false,
        },
        FileFormat::CargoLock => match r {
            Ok(VersionedFile::CargoLock(f)) => cargo_lock::CargoLock::new_spec(path, content, Ok(f)),
            Err(Error::CargoLock(e)) => cargo_lock::CargoLock::new_spec(path, content, Err(e)),
            _ => false,
        },
        FileFormat::DenoJson => match r {
            Ok(VersionedFile::DenoJson(f)) => deno_json::DenoJson::new_spec(path, content, Ok(f)),
            Err(Error::DenoJson(e)) => deno_json::DenoJson::new_spec(path, content, Err(e)),
            _ => false,
        },
        FileFormat::DenoLock => match r {
            Ok(VersionedFile::DenoLock(f)) => deno_lock::DenoLock::new_spec(path, content, Ok(f)),
            Err(Error::DenoLock(e)) => deno_lock::DenoLock::new_spec(path, content, Err(e)),
            _ => false,
        },
        FileFormat::PyProject => match r {
            Ok(VersionedFile::PyProject(f)) => pyproject::PyProject::new_spec(path, content, Ok(f)),
            Err(Error::PyProject(e)) => pyproject::PyProject::new_spec(path, content, Err(e)),
            _ => false,
        },
        FileFormat::PubSpec => match r {
            Ok(VersionedFile::PubSpec(f)) => pubspec::PubSpec::new_spec(path, content, Ok(f)),
            Err(Error::PubSpec(e)) => pubspec::PubSpec::new_spec(path, content, Err(e)),
            _ => false,
        },
        FileFormat::Gleam => match r {
            Ok(VersionedFile::Gleam(f)) => gleam::Gleam::new_spec(path, content, Ok(f)),
            Err(Error::Gleam(e)) => gleam::Gleam::new_spec(path, content, Err(e)),
            _ => false,
        },
        FileFormat::GoMod => match r {
            Ok(VersionedFile::GoMod(g)) => go_mod::go_mod_spec(path, content, tags) == Ok::<
                go_mod::GoModView,
                go_mod::ErrorView,
            >(g@),
            Err(Error::GoMod(e)) => go_mod::go_mod_spec(path, content, tags) == Err::<
                go_mod::GoModView,
                go_mod::ErrorView,
            >(e@),
            _ => false,
        },
        FileFormat::PackageJson => match r {
            Ok(VersionedFile::PackageJson(f)) => package_json::PackageJson::new_spec(path, content, Ok(f)),
            Err(Error::PackageJson(e)) => package_json::PackageJson::new_spec(path, content, Err(e)),
            _ => false,
        },
        FileFormat::PackageLockJson => match r {
            Ok(VersionedFile::PackageLockJson(f)) => package_lock_json::PackageLockJson::new_spec(path, content, Ok(f)),
            Err(Error::PackageLockJson(e)) => package_lock_json::PackageLockJson::new_spec(path, content, Err(e)),
            _ => false,
        },
        FileFormat::MavenPom => match r {
            Ok(VersionedFile::MavenPom(f)) => maven_pom::MavenPom::new_spec(path, content, Ok(f)),
            Err(Error::MavenPom(e)) => maven_pom::MavenPom::new_spec(path, content, Err(e)),
            _ => false,
        },
        FileFormat::TauriConf => match r {
            Ok(VersionedFile::TauriConf(f)) => tauri_conf_json::TauriConfJson::new_spec(path, content, Ok(f)),
            Err(Error::TauriConfJson(e)) => tauri_conf_json::TauriConfJson::new_spec(path, content, Err(e)),
            _ => false,
        },
        FileFormat::RegexFile => match config.regex {
            None => r matches Err(Error::RegexFile(text_file::Error::NoMatch { path: p, .. })) && p@ == path,
            Some(ps) => match r {
                Ok(VersionedFile::RegexFile(f)) => text_file::RegexFile::new_spec(
                    path,
                    content,
                    ps@.map_values(|x: String| x@),
                    Ok(f),
                ),
                Err(Error::RegexFile(e)) => text_file::RegexFile::new_spec(
                    path,
                    content,
                    ps@.map_values(|x: String| x@),
                    Err(e),
                ),
                _ => false,
            },
        },
    }
}

/// What setting a version in a file gives: what setting it in that type of
/// file gives.
pub open spec fn set_spec(f: VersionedFile, new_version: VersionView, dependency: Option<Seq<char>>, r: Result<VersionedFile, SetError>) -> bool {
    match f {
        VersionedFile::Cargo(f) => r matches Ok(VersionedFile::Cargo(g)) && f.set_version_spec(new_version, dependency, g),
        VersionedFile::CargoLock(f) => match r {
            Ok(VersionedFile::CargoLock(g)) => f.set_version_spec(new_version, dependency, Ok(g)),
            Err(SetError::CargoLock(e)) => f.set_version_spec(new_version, dependency, Err(e)),
            _ => false,
        },
        VersionedFile::DenoJson(f) => match r {
            Ok(VersionedFile::DenoJson(g)) => f.set_version_spec(new_version, dependency, Ok(g)),
            Err(SetError::Json(e)) => f.set_version_spec(new_version, dependency, Err(e)),
            _ => false,
        },
        VersionedFile::DenoLock(f) => match r {
            Ok(VersionedFile::DenoLock(g)) => f.set_version_spec(new_version, dependency, Ok(g)),
            Err(SetError::DenoLock(e)) => f.set_version_spec(new_version, dependency, Err(e)),
            _ => false,
        },
        VersionedFile::PubSpec(f) => match r {
            Ok(VersionedFile::PubSpec(g)) => f.set_version_spec(new_version, Ok(g)),
            Err(SetError::Yaml(e)) => f.set_version_spec(new_version, Err(e)),
            _ => false,
        },
        VersionedFile::Gleam(f) => r matches Ok(VersionedFile::Gleam(g)) && f.set_version_spec(new_version, g),
        VersionedFile::GoMod(_) => true,
        VersionedFile::PackageJson(f) => match r {
            Ok(VersionedFile::PackageJson(g)) => f.set_version_spec(new_version, dependency, Ok(g)),
            Err(SetError::Json(e)) => f.set_version_spec(new_version, dependency, Err(e)),
            _ => false,
        },
        VersionedFile::PackageLockJson(f) => r matches Ok(VersionedFile::PackageLockJson(g)) && f.set_version_spec(
            new_version,
            dependency,
            g,
        ),
        VersionedFile::PyProject(f) => r matches Ok(VersionedFile::PyProject(g)) && f.set_version_spec(new_version, g),
        VersionedFile::MavenPom(f) => match r {
            Ok(VersionedFile::MavenPom(g)) => f.set_version_spec(new_version, Ok(g)),
            Err(SetError::MavenPom(e)) => f.set_version_spec(new_version, Err(e)),
            _ => false,
        },
        VersionedFile::TauriConf(f) => match r {
            Ok(VersionedFile::TauriConf(g)) => f.set_version_spec(new_version, Ok(g)),
            Err(SetError::Json(e)) => f.set_version_spec(new_version, Err(e)),
            _ => false,
        },
        VersionedFile::TauriMacosConf(f) => match r {
            Ok(VersionedFile::TauriMacosConf(g)) => f.set_version_spec(new_version, Ok(g)),
            Err(SetError::Json(e)) => f.set_version_spec(new_version, Err(e)),
            _ => false,
        },
        VersionedFile::TauriWindowsConf(f) => match r {
            Ok(VersionedFile::TauriWindowsConf(g)) => f.set_version_spec(new_version, Ok(g)),
            Err(SetError::Json(e)) => f.set_version_spec(new_version, Err(e)),
            _ => false,
        },
        VersionedFile::TauriLinuxConf(f) => match r {
            Ok(VersionedFile::TauriLinuxConf(g)) => f.set_version_spec(new_version, Ok(g)),
            Err(SetError::Json(e)) => f.set_version_spec(new_version, Err(e)),
            _ => false,
        },
        VersionedFile::RegexFile(f) => r matches Ok(VersionedFile::RegexFile(g)) && f.set_version_spec(new_version, g),
    }
}

/// The one action of a file that is not a go.mod.
pub open spec fn single_action(r: Option<Vec<Action>>) -> Option<Action> {
    match r {
        Some(v) => Some(v@[0]),
        None => None,
    }
}

/// What writing a file gives: what writing that type of file gives.
pub open spec fn write_spec(f: VersionedFile, r: Option<Action>) -> bool {
    match f {
        VersionedFile::GoMod(_) => true,
        VersionedFile::Cargo(f) => f.write_spec(r),
        VersionedFile::CargoLock(f) => f.write_spec(r),
        VersionedFile::DenoJson(f) => f.write_spec(r),
        VersionedFile::DenoLock(f) => f.write_spec(r),
        VersionedFile::PyProject(f) => f.write_spec(r),
        VersionedFile::PubSpec(f) => f.write_spec(r),
        VersionedFile::Gleam(f) => f.write_spec(r),
        VersionedFile::PackageJson(f) => f.write_spec(r),
        VersionedFile::PackageLockJson(f) => f.write_spec(r),
        VersionedFile::MavenPom(f) => f.write_spec(r),
        VersionedFile::TauriConf(f) | VersionedFile::TauriMacosConf(f) | VersionedFile::TauriWindowsConf(f)
        | VersionedFile::TauriLinuxConf(f) => f.write_spec(r),
        VersionedFile::RegexFile(f) => f.write_spec(r),
    }
}

impl VersionedFile {
    /// What a file must keep for its operations: a go.mod its module line, a
    /// pom.xml a text for each child.
    pub open spec fn wf(&self) -> bool {
        match self {
            VersionedFile::GoMod(g) => has_module_line(g@),
            VersionedFile::MavenPom(m) => xml_child_texts(m.project).len() == xml_child_names(m.project).len(),
            _ => true,
        }
    }

    /// The type of the file.
    pub open spec fn format(&self) -> FileFormat {
        match self {
            VersionedFile::Cargo(_) => FileFormat::Cargo,
            VersionedFile::CargoLock(_) => FileFormat::CargoLock,
            VersionedFile::DenoJson(_) => FileFormat::DenoJson,
            VersionedFile::DenoLock(_) => FileFormat::DenoLock,
            VersionedFile::PubSpec(_) => FileFormat::PubSpec,
            VersionedFile::Gleam(_) => FileFormat::Gleam,
            VersionedFile::GoMod(_) => FileFormat::GoMod,
            VersionedFile::PackageJson(_) => FileFormat::PackageJson,
            VersionedFile::PackageLockJson(_) => FileFormat::PackageLockJson,
            VersionedFile::PyProject(_) => FileFormat::PyProject,
            VersionedFile::MavenPom(_) => FileFormat::MavenPom,
            VersionedFile::TauriConf(_) => FileFormat::TauriConf,
            VersionedFile::TauriMacosConf(_) => FileFormat::TauriConf,
            VersionedFile::TauriWindowsConf(_) => FileFormat::TauriConf,
            VersionedFile::TauriLinuxConf(_) => FileFormat::TauriConf,
            VersionedFile::RegexFile(_) => FileFormat::RegexFile,
        }
    }

    /// The path of the file.
    pub open spec fn path_view(&self) -> Seq<char> {
        match self {
            VersionedFile::Cargo(f) => f.path@,
            VersionedFile::CargoLock(f) => f.path@,
            VersionedFile::DenoJson(f) => f@.path,
            VersionedFile::DenoLock(f) => f.path@,
            VersionedFile::PubSpec(f) => f.path@,
            VersionedFile::Gleam(f) => f.path@,
            VersionedFile::GoMod(f) => f@.path,
            VersionedFile::PackageJson(f) => f@.path,
            VersionedFile::PackageLockJson(f) => f@.path,
            VersionedFile::PyProject(f) => f.path@,
            VersionedFile::MavenPom(f) => f.path@,
            VersionedFile::TauriConf(f) => f@.path,
            VersionedFile::TauriMacosConf(f) => f@.path,
            VersionedFile::TauriWindowsConf(f) => f@.path,
            VersionedFile::TauriLinuxConf(f) => f@.path,
            VersionedFile::RegexFile(f) => f.path@,
        }
    }

    /// Reads a file of the configured type. A go.mod reads its version from the
    /// git tags where its module line has none; a file read by patterns needs them.
    pub fn new(config: &Config, content: String, git_tags: &[&str]) -> (r: Result<VersionedFile, Error>)
        ensures
            r matches Ok(f) ==> f.wf() && f.path_view() == config.path@ && f.format() == config.format,
            read_spec(*config, content@, strs_view(git_tags@), r),
    {
        let path = config.as_path();
        match config.format {
            FileFormat::Cargo => match cargo::Cargo::new(path, content.as_str()) {
                Ok(f) => Ok(VersionedFile::Cargo(f)),
                Err(e) => Err(Error::Cargo(e)),
            },
            FileFormat::CargoLock => match cargo_lock::CargoLock::new(path, content.as_str()) {
                Ok(f) => Ok(VersionedFile::CargoLock(f)),
                Err(e) => Err(Error::CargoLock(e)),
            },
            FileFormat::DenoJson => match deno_json::DenoJson::new(path, content) {
                Ok(f) => Ok(VersionedFile::DenoJson(f)),
                Err(e) => Err(Error::DenoJson(e)),
            },
            FileFormat::DenoLock => match deno_lock::DenoLock::new(path, content.as_str()) {
                Ok(f) => Ok(VersionedFile::DenoLock(f)),
                Err(e) => Err(Error::DenoLock(e)),
            },
            FileFormat::PyProject => match pyproject::PyProject::new(path, content) {
                Ok(f) => Ok(VersionedFile::PyProject(f)),
                Err(e) => Err(Error::PyProject(e)),
            },
            FileFormat::PubSpec => match pubspec::PubSpec::new(path, content) {
                Ok(f) => Ok(VersionedFile::PubSpec(f)),
                Err(e) => Err(Error::PubSpec(e)),
            },
            FileFormat::Gleam => match gleam::Gleam::new(path, content.as_str()) {
                Ok(f) => Ok(VersionedFile::Gleam(f)),
                Err(e) => Err(Error::Gleam(e)),
            },
            FileFormat::GoMod => match go_mod::GoMod::new(path, content, git_tags) {
                Ok(f) => Ok(VersionedFile::GoMod(f)),
                Err(e) => Err(Error::GoMod(e)),
            },
            FileFormat::PackageJson => match package_json::PackageJson::new(path, content) {
                Ok(f) => Ok(VersionedFile::PackageJson(f)),
                Err(e) => Err(Error::PackageJson(e)),
            },
            FileFormat::PackageLockJson => match package_lock_json::PackageLockJson::new(path, content.as_str()) {
                Ok(f) => Ok(VersionedFile::PackageLockJson(f)),
                Err(e) => Err(Error::PackageLockJson(e)),
            },
            FileFormat::MavenPom => match maven_pom::MavenPom::new(path, content) {
                Ok(f) => Ok(VersionedFile::MavenPom(f)),
                Err(e) => Err(Error::MavenPom(e)),
            },
            FileFormat::TauriConf => match tauri_conf_json::TauriConfJson::new(path, content) {
                Ok(f) => Ok(VersionedFile::TauriConf(f)),
                Err(e) => Err(Error::TauriConfJson(e)),
            },
            FileFormat::RegexFile => {
                let patterns = match &config.regex {
                    Some(p) => {
                        let q = p.clone();
                        assert(q@.map_values(|x: String| x@) =~= p@.map_values(|x: String| x@)) by {
                            assert forall|i: int| 0 <= i < q@.len() implies q@[i]@ == p@[i]@ by {
                                assert(cloned::<String>(p@[i], q@[i]));
                            }
                        }
                        q
                    },
                    None => {
                        return Err(
                            Error::RegexFile(text_file::Error::NoMatch { regex: string_of(&Vec::new()), path }),
                        );
                    },
                };
                match text_file::RegexFile::new(path, content, patterns) {
                    Ok(f) => Ok(VersionedFile::RegexFile(f)),
                    Err(e) => Err(Error::RegexFile(e)),
                }
            },
        }
    }

    /// The path of the file.
    pub fn path(&self) -> (r: &String)
        ensures
            r@ == self.path_view(),
    {
        match self {
            VersionedFile::Cargo(f) => &f.path,
            VersionedFile::CargoLock(f) => &f.path,
            VersionedFile::DenoJson(f) => f.get_path(),
            VersionedFile::DenoLock(f) => &f.path,
            VersionedFile::PubSpec(f) => &f.path,
            VersionedFile::Gleam(f) => &f.path,
            VersionedFile::GoMod(f) => f.get_path(),
            VersionedFile::PackageJson(f) => f.get_path(),
            VersionedFile::PackageLockJson(f) => f.get_path(),
            VersionedFile::PyProject(f) => &f.path,
            VersionedFile::MavenPom(f) => &f.path,
            VersionedFile::TauriConf(f) => f.get_path(),
            VersionedFile::TauriMacosConf(f) => f.get_path(),
            VersionedFile::TauriWindowsConf(f) => f.get_path(),
            VersionedFile::TauriLinuxConf(f) => f.get_path(),
            VersionedFile::RegexFile(f) => &f.path,
        }
    }

    /// The version of the package in the file; lock files hold none.
    pub fn version(&self) -> (r: Result<Version, Error>)
        requires
            self.wf(),
        ensures
            match version_of(*self) {
                Some(w) => r matches Ok(v) && v@ == w,
                None => r is Err,
            },
            match self {
                VersionedFile::CargoLock(_) | VersionedFile::DenoLock(_) => r matches Err(Error::NoVersion),
                VersionedFile::DenoJson(d) => match d@.version {
                    Some(v) => r matches Ok(w) && w@ == v,
                    None => r matches Err(Error::NoVersion),
                },
                VersionedFile::GoMod(g) => r matches Ok(w) && w@ == g@.version,
                VersionedFile::PackageJson(p) => r matches Ok(w) && w@ == p@.version,
                VersionedFile::TauriConf(t) | VersionedFile::TauriMacosConf(t) | VersionedFile::TauriWindowsConf(t)
                | VersionedFile::TauriLinuxConf(t) => r matches Ok(w) && w@ == t@.version,
                VersionedFile::PyProject(p) => r matches Ok(w) && w@ == p.version@,
                VersionedFile::PubSpec(p) => r matches Ok(w) && w@ == p.version@,
                VersionedFile::Cargo(f) => match r {
                    Ok(v) => f.get_version_spec(Ok(v)),
                    Err(Error::Cargo(e)) => f.get_version_spec(Err(e)),
                    _ => false,
                },
                VersionedFile::Gleam(f) => match r {
                    Ok(v) => f.get_version_spec(Ok(v)),
                    Err(Error::Gleam(e)) => f.get_version_spec(Err(e)),
                    _ => false,
                },
                VersionedFile::PackageLockJson(f) => match r {
                    Ok(v) => f.get_version_spec(Ok(v)),
                    Err(Error::PackageLockJson(e)) => f.get_version_spec(Err(e)),
                    _ => false,
                },
                VersionedFile::MavenPom(f) => match r {
                    Ok(v) => f.get_version_spec(Ok(v)),
                    Err(Error::MavenPom(e)) => f.get_version_spec(Err(e)),
                    _ => false,
                },
                VersionedFile::RegexFile(f) => match r {
                    Ok(v) => f.get_version_spec(Ok(v)),
                    Err(Error::RegexFile(e)) => f.get_version_spec(Err(e)),
                    _ => false,
                },
            },
    {
        match self {
            VersionedFile::Cargo(f) => match f.get_version() {
                Ok(v) => Ok(v),
                Err(e) => Err(Error::Cargo(e)),
            },
            VersionedFile::CargoLock(_) | VersionedFile::DenoLock(_) => Err(Error::NoVersion),
            VersionedFile::DenoJson(f) => match f.get_version() {
                Some(v) => Ok(v.duplicate()),
                None => Err(Error::NoVersion),
            },
            VersionedFile::PyProject(f) => Ok(f.version.duplicate()),
            VersionedFile::PubSpec(f) => Ok(f.get_version().duplicate()),
            VersionedFile::Gleam(f) => match f.get_version() {
                Ok(v) => Ok(v),
                Err(e) => Err(Error::Gleam(e)),
            },
            VersionedFile::GoMod(f) => Ok(f.get_version().duplicate()),
            VersionedFile::PackageJson(f) => Ok(f.get_version().duplicate()),
            VersionedFile::PackageLockJson(f) => match f.get_version() {
                Ok(v) => Ok(v),
                Err(e) => Err(Error::PackageLockJson(e)),
            },
            VersionedFile::MavenPom(f) => match f.get_version() {
                Ok(v) => Ok(v),
                Err(e) => Err(Error::MavenPom(e)),
            },
            VersionedFile::TauriConf(f) | VersionedFile::TauriMacosConf(f) | VersionedFile::TauriWindowsConf(f)
            | VersionedFile::TauriLinuxConf(f) => Ok(f.get_version().duplicate()),
            VersionedFile::RegexFile(f) => match f.get_version() {
                Ok(v) => Ok(v),
                Err(e) => Err(Error::RegexFile(e)),
            },
        }
    }

    /// Sets the version in the file; a go.mod follows the Go rules for major
    /// versions.
    pub fn set_version(self, new_version: &Version, dependency: Option<&str>, go_versioning: GoVersioning) -> (r: Result<
        VersionedFile,
        SetError,
    >)
        requires
            self.wf(),
        ensures
            r matches Ok(f) ==> f.wf() && f.path_view() == self.path_view() && f.format() == self.format(),
            set_spec(self, new_version@, super::opt_str(dependency), r),
            self matches VersionedFile::GoMod(g) ==> match r {
                Ok(VersionedFile::GoMod(h)) => go_mod::set_version_spec(g@, new_version@, go_versioning) matches Ok(a)
                    && h.pending() == Some(a),
                Err(SetError::GoMod(e)) => go_mod::set_version_spec(g@, new_version@, go_versioning) == Err::<
                    Seq<crate::action::ActionView>,
                    go_mod::SetError,
                >(e),
                _ => false,
            },
    {
        match self {
            VersionedFile::Cargo(f) => Ok(VersionedFile::Cargo(f.set_version(new_version, dependency))),
            VersionedFile::CargoLock(f) => match f.set_version(new_version, dependency) {
                Ok(f) => Ok(VersionedFile::CargoLock(f)),
                Err(e) => Err(SetError::CargoLock(e)),
            },
            VersionedFile::DenoJson(f) => match f.set_version(new_version, dependency) {
                Ok(f) => Ok(VersionedFile::DenoJson(f)),
                Err(e) => Err(SetError::Json(e)),
            },
            VersionedFile::DenoLock(f) => match f.set_version(new_version, dependency) {
                Ok(f) => Ok(VersionedFile::DenoLock(f)),
                Err(e) => Err(SetError::DenoLock(e)),
            },
            VersionedFile::PyProject(f) => Ok(VersionedFile::PyProject(f.set_version(new_version))),
            VersionedFile::PubSpec(f) => match f.set_version(new_version) {
                Ok(f) => Ok(VersionedFile::PubSpec(f)),
                Err(e) => Err(SetError::Yaml(e)),
            },
            VersionedFile::Gleam(f) => Ok(VersionedFile::Gleam(f.set_version(new_version))),
            VersionedFile::GoMod(f) => match f.with_version(new_version, go_versioning) {
                Ok(f) => Ok(VersionedFile::GoMod(f)),
                Err(e) => Err(SetError::GoMod(e)),
            },
            VersionedFile::PackageJson(f) => match f.set_version(new_version, dependency) {
                Ok(f) => Ok(VersionedFile::PackageJson(f)),
                Err(e) => Err(SetError::Json(e)),
            },
            VersionedFile::PackageLockJson(f) => Ok(VersionedFile::PackageLockJson(f.set_version(new_version, dependency))),
            VersionedFile::MavenPom(f) => match f.set_version(new_version) {
                Ok(f) => Ok(VersionedFile::MavenPom(f)),
                Err(e) => Err(SetError::MavenPom(e)),
            },
            VersionedFile::TauriConf(f) => match f.set_version(new_version) {
                Ok(f) => Ok(VersionedFile::TauriConf(f)),
                Err(e) => Err(SetError::Json(e)),
            },
            VersionedFile::TauriMacosConf(f) => match f.set_version(new_version) {
                Ok(f) => Ok(VersionedFile::TauriMacosConf(f)),
                Err(e) => Err(SetError::Json(e)),
            },
            VersionedFile::TauriWindowsConf(f) => match f.set_version(new_version) {
                Ok(f) => Ok(VersionedFile::TauriWindowsConf(f)),
                Err(e) => Err(SetError::Json(e)),
            },
            VersionedFile::TauriLinuxConf(f) => match f.set_version(new_version) {
                Ok(f) => Ok(VersionedFile::TauriLinuxConf(f)),
                Err(e) => Err(SetError::Json(e)),
            },
            VersionedFile::RegexFile(f) => Ok(VersionedFile::RegexFile(f.set_version(new_version))),
        }
    }

    /// The actions that write the file, if a version was set: a go.mod also tags
    /// the version.
    pub fn write(self) -> (r: Option<Vec<Action>>)
        ensures
            match self {
                VersionedFile::GoMod(g) => match g.pending() {
                    Some(a) => r matches Some(v) && v@.map_values(|x: Action| x@) == a,
                    None => r is None,
                },
                _ => (r matches Some(v) ==> v@.len() == 1) && write_spec(self, single_action(r)),
            },
    {
        let single = match self {
            VersionedFile::GoMod(g) => return g.write(),
            VersionedFile::Cargo(f) => f.write(),
            VersionedFile::CargoLock(f) => f.write(),
            VersionedFile::DenoJson(f) => f.write(),
            VersionedFile::DenoLock(f) => f.write(),
            VersionedFile::PyProject(f) => f.write(),
            VersionedFile::PubSpec(f) => f.write(),
            VersionedFile::Gleam(f) => f.write(),
            VersionedFile::PackageJson(f) => f.write(),
            VersionedFile::PackageLockJson(f) => f.write(),
            VersionedFile::MavenPom(f) => f.write(),
            VersionedFile::TauriConf(f) | VersionedFile::TauriMacosConf(f) | VersionedFile::TauriWindowsConf(f)
            | VersionedFile::TauriLinuxConf(f) => f.write(),
            VersionedFile::RegexFile(f) => f.write(),
        };
        match single {
            Some(a) => Some(vec![a]),
            None => None,
        }
    }
}

} // verus!
