use std::str::FromStr;

use knope_versioning::semver::Version;
use knope_versioning::versioned_file::cargo_lock::{CargoLock, SetError};
use knope_versioning::Action;

#[test]
fn cargo_lock_sets_each_matching_package() {
    let content = "version = 4\n\n[[package]]\nname = \"a\"\nversion = \"0.1.0\"\n\n[[package]]\nname = \"b\"\nversion = \"0.1.0\"\n";
    let lock = CargoLock::new("Cargo.lock".to_string(), content).unwrap();
    let lock = lock.set_version(&Version::from_str("0.2.0").unwrap(), Some("a")).unwrap();
    let action = lock.write().unwrap();
    assert_eq!(
        action,
        Action::WriteToFile {
            path: "Cargo.lock".to_string(),
            content: "version = 4\n\n[[package]]\nname = \"a\"\nversion = \"0.2.0\"\n\n[[package]]\nname = \"b\"\nversion = \"0.1.0\"\n".to_string(),
            diff: "a = 0.2.0".to_string(),
        }
    );
}

#[test]
fn cargo_lock_package_without_name_is_malformed() {
    let content = "[[package]]\nversion = \"0.1.0\"\n";
    let lock = CargoLock::new("Cargo.lock".to_string(), content).unwrap();
    let err = lock.set_version(&Version::from_str("0.2.0").unwrap(), Some("a")).unwrap_err();
    assert_eq!(err, SetError::MalformedPackage("Cargo.lock".to_string()));
}

#[test]
fn cargo_lock_needs_a_dependency() {
    let lock = CargoLock::new("Cargo.lock".to_string(), "[[package]]\nname = \"a\"\n").unwrap();
    let err = lock.set_version(&Version::from_str("0.2.0").unwrap(), None).unwrap_err();
    assert_eq!(err, SetError::MissingDependency);
}
