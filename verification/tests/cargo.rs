use std::str::FromStr;

use knope_versioning::semver::Version;
use knope_versioning::versioned_file::cargo::{contains_dependency, name_from_document, Cargo};
use knope_versioning::Action;
use toml_edit::DocumentMut;

#[test]
fn basic_dependency() {
    let content = r#"
        [package]
        name = "tester"
        version = "1.2.3-rc.0"
        
        [dependencies]
        knope-versioning = "0.1.0"
        "#;

    let document: DocumentMut = content.parse().expect("valid toml");
    assert!(contains_dependency(&document, "knope-versioning"));
}

#[test]
fn inline_table_dependency() {
    let content = r#"
        [package]
        name = "tester"
        version = "1.2.3-rc.0"
        
        [dependencies]
        knope-versioning = { version = "0.1.0" }
        "#;

    let document: DocumentMut = content.parse().expect("valid toml");
    assert!(contains_dependency(&document, "knope-versioning"));
}

#[test]
fn table_dependency() {
    let content = r#"
        [package]
        name = "tester"
        version = "1.2.3-rc.0"
        
        [dependencies.knope-versioning]
        path = "../knope-versioning"
        version = "0.1.0"
        "#;

    let document: DocumentMut = content.parse().expect("valid toml");
    assert!(contains_dependency(&document, "knope-versioning"));
}

#[test]
fn dev_dependency() {
    let content = r#"
        [package]
        name = "tester"
        version = "1.2.3-rc.0"
        
        [dev-dependencies]
        knope-versioning = "0.1.0"
        "#;

    let document: DocumentMut = content.parse().expect("valid toml");
    assert!(contains_dependency(&document, "knope-versioning"));
}

#[test]
fn workspace_dependency() {
    let content = r#"
        [package]
        name = "tester"
        version = "1.2.3-rc.0"
        
        [workspace.dependencies]
        knope-versioning = "0.1.0"
        "#;

    let document: DocumentMut = content.parse().expect("valid toml");
    assert!(contains_dependency(&document, "knope-versioning"));
}

#[test]
fn missing_dependency() {
    let content = "[package]\nname = \"tester\"\n\n[dependencies]\nother = \"1\"\n";
    let document: DocumentMut = content.parse().expect("valid toml");
    assert!(!contains_dependency(&document, "knope-versioning"));
    assert_eq!(name_from_document(&document).as_deref(), Some("tester"));
}

#[test]
fn cargo_set_package_version() {
    let content = r#"
        [package]
        name = "tester"
        version = "0.1.0-rc.0"
        
        [dependencies]
        knope-versioning = "0.1.0"
        "#;

    let new = Cargo::new("beep/Cargo.toml".to_string(), content).unwrap();
    assert_eq!(
        new.get_version().unwrap(),
        Version::from_str("0.1.0-rc.0").unwrap()
    );

    let new_version = "1.2.3-rc.4";
    let expected = content.replace("0.1.0-rc.0", new_version);
    let new = new.set_version(&Version::from_str(new_version).unwrap(), None);

    assert_eq!(new.document.to_string(), expected);
}

#[test]
fn dependencies() {
    let content = r#"
        [package]
        name = "tester"
        version = "1.2.3-rc.0"
        
        [dependencies]
        knope-versioning = "0.1.0"
        other = {path = "../other"}
        complex-requirement = "3.*"
        complex-requirement-in-object = { version = "1.2.*" }
        
        [dev-dependencies]
        knope-versioning = {path = "../blah", version = "0.1.0" }
        
        [workspace.dependencies]
        knope-versioning = "0.1.0"
        "#;

    let new = Cargo::new("beep/Cargo.toml".to_string(), content).unwrap();

    let new = new.set_version(
        &Version::from_str("0.2.0").unwrap(),
        Some("knope-versioning"),
    );
    let expected = content.replace("0.1.0", "0.2.0");
    let new = new.set_version(
        &Version::from_str("2.0.0").unwrap(),
        Some("complex-requirement-in-object"),
    );
    let expected = expected.replace("1.2.*", "2.0.0");

    let expected = Action::WriteToFile {
        path: "beep/Cargo.toml".to_string(),
        content: expected,
        diff: "knope-versioning.version = 2.0.0, complex-requirement-in-object.version = 2.0.0"
            .to_string(),
    };

    assert_eq!(new.write().expect("diff to write"), expected);
}

#[test]
fn invalid_toml_is_an_error() {
    assert!(Cargo::new("Cargo.toml".to_string(), "[package").is_err());
}

#[test]
fn missing_version_is_an_error() {
    let cargo = Cargo::new("Cargo.toml".to_string(), "[package]\nname = \"x\"\n").unwrap();
    assert!(cargo.get_version().is_err());
}

#[test]
fn nothing_set_writes_nothing() {
    let cargo = Cargo::new("Cargo.toml".to_string(), "[package]\nversion = \"1.0.0\"\n").unwrap();
    assert!(cargo.write().is_none());
}

#[test]
fn package_without_version_is_left_alone() {
    let content = "[package]\nname = \"a\"\n";
    let cargo = Cargo::new("Cargo.toml".to_string(), content).unwrap();
    let action = cargo.set_version(&Version::from_str("1.0.0").unwrap(), None).write().unwrap();
    match action {
        Action::WriteToFile { content: written, .. } => assert_eq!(written, content),
        _ => panic!("expected a write"),
    }
}
