[package]
name = "knope_versioning"
version = "0.1.0"
edition = "2021"
publish = false

[dependencies]
changesets = "=0.4.0"
deno_lockfile = "=0.62.0"
deno_semver = "=0.10.1"
git-conventional = "=1.1.0"
regex = "=1.13.1"
relative-path = "=2.0.3"
serde = { version = "=1.0.229", features = ["derive"] }
serde_json = { version = "=1.0.154", features = ["preserve_order"] }
serde_yaml = "=0.9.34+deprecated"
time = { version = "=0.3.55", features = ["parsing", "formatting", "macros"] }
toml = "=1.1.8+spec-1.1.0"
toml_edit = "=0.25.17+spec-1.1.0"
xml-rs = "=1.0.0"
xmltree = { version = "=0.12.0", features = ["attribute-order"] }
