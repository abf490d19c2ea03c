# knope_versioning

A verified library for versioning packages: semantic versions and the rules by
which they are bumped, the versioned files of many ecosystems (Cargo, npm,
Deno, Go, Gleam, Maven, Python, Dart, Tauri, and files matched by regular
expressions), conventional commits and change files, and changelogs and
release notes.

`src/` holds the library, verified by Verus; `tests/` its tests; `app/` the
parts that read the configuration file with `serde` and convert change files
from the `changesets` crate.

## Ordered maps

The versions of a package keep their pre-releases in two ordered maps: by
stable version, and within a stable version by label. These are kept as
vectors in strictly increasing key order (`src/sorted_map.rs`, used by
`src/semver/package_versions.rs` and `src/semver/prerelease_map.rs`), with that
order as their invariant, rather than as `BTreeMap`s. vstd's specification of
`BTreeMap` holds only for key types that obey its model of `Ord`, and the keys
here are types of this library whose order would come from a derived `Ord`,
which Verus does not read; a hand-written `Ord` is not accepted. With the
order written as a spec function over the keys' views, the maps' contents,
their greatest key and their updates are proved.
