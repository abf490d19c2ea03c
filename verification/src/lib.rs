//! Versioning of packages: semantic versions and the rules that bump them,
//! changes from conventional commits and change files, release notes and
//! changelogs, and the files of many ecosystems that hold a package's version.

pub mod action;
pub mod changes;
pub mod config;
pub mod deno;
pub mod json;
pub mod jsonc;
pub mod package;
pub mod path;
pub mod pattern;
pub mod release_notes;
pub mod semver;
pub mod sorted_map;
pub mod text;
pub mod toml;
pub mod versioned_file;
pub mod xml;
pub mod yaml;

pub use action::{Action, ReleaseTag};
pub use package::{NewError as PackageNewError, Package};
pub use versioned_file::{
    Config as VersionedFileConfig, ConfigError, Error as VersionedFileError, GoVersioning, SetError,
    UnknownFile, VersionedFile,
};
