use std::str::FromStr;

use knope_versioning::semver::Version;
use knope_versioning::versioned_file::pyproject::{Error, PyProject};
use knope_versioning::Action;

#[test]
fn test_get_version_poetry() {
    let content = r#"
    [tool.poetry]
    name = "tester"
    version = "0.1.0-rc.0"
    "#;

    assert_eq!(
        PyProject::new(String::new(), content.to_string())
            .unwrap()
            .version,
        Version::from_str("0.1.0-rc.0").unwrap()
    );
}

#[test]
fn test_get_version_pep621() {
    let content = r#"
    [project]
    name = "tester"
    version = "0.1.0-rc.0"
    "#;

    assert_eq!(
        PyProject::new(String::new(), content.to_string())
            .unwrap()
            .version,
        Version::from_str("0.1.0-rc.0").unwrap()
    );
}

#[test]
fn test_get_version_mixed() {
    let content = r#"
    [tool.poetry]
    name = "tester"
    version = "0.1.0-rc.0"

    [project]
    name = "tester"
    version = "0.1.0-rc.0"
    "#;

    assert_eq!(
        PyProject::new(String::new(), content.to_string())
            .unwrap()
            .version,
        Version::from_str("0.1.0-rc.0").unwrap()
    );
}

#[test]
fn test_get_version_mismatch() {
    let content = r#"
    [tool.poetry]
    name = "tester"
    version = "1.0.0"

    [project]
    name = "tester"
    version = "2.3.4"
    "#;

    match PyProject::new(String::new(), content.to_string()) {
        Err(Error::InconsistentVersions {
            poetry, project, ..
        }) => {
            assert_eq!(poetry, "1.0.0".to_string());
            assert_eq!(project, "2.3.4".to_string());
        }
        other => panic!("Unexpected result {other:?}"),
    }
}

#[test]
fn pyproject_test_set_version() {
    let content = r#"
    [tool.poetry]
    name = "tester"
    version = "0.1.0-rc.0"

    [project]
    name = "tester"
    version = "0.1.0-rc.0"
    "#;

    let pyproject =
        PyProject::new(String::from("beep/boop"), String::from(content)).unwrap();
    let action = pyproject
        .set_version(&Version::from_str("1.2.3-rc.4").unwrap())
        .write()
        .expect("Diff to write");

    let expected = Action::WriteToFile {
        content: r#"
    [tool.poetry]
    name = "tester"
    version = "1.2.3-rc.4"

    [project]
    name = "tester"
    version = "1.2.3-rc.4"
    "#
        .to_string(),
        path: String::from("beep/boop"),
        diff: "1.2.3-rc.4".to_string(),
    };
    assert_eq!(action, expected);
}

#[test]
fn pyproject_without_versions_is_an_error() {
    let content = "[project]\nname = \"tester\"\n";
    assert!(matches!(
        PyProject::new(String::new(), content.to_string()),
        Err(Error::NoVersions(_))
    ));
}

#[test]
fn pyproject_invalid_toml_is_an_error() {
    assert!(matches!(
        PyProject::new(String::new(), "[project".to_string()),
        Err(Error::Deserialization(..))
    ));
}

#[test]
fn pyproject_nothing_set_writes_nothing() {
    let content = "[project]\nversion = \"1.0.0\"\n";
    let p = PyProject::new(String::new(), content.to_string()).unwrap();
    assert!(p.write().is_none());
}
