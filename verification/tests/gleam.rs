use std::str::FromStr;

use knope_versioning::semver::Version;
use knope_versioning::versioned_file::gleam::Gleam;
use knope_versioning::Action;

#[test]
fn gleam_set_package_version() {
    let content = r#"
        version = "0.1.0-rc.0"
        "#;

    let new = Gleam::new("beep/Cargo.toml".to_string(), content).unwrap();

    let new_version = "1.2.3-rc.4";
    let expected = content.replace("0.1.0-rc.0", new_version);
    let new = new.set_version(&Version::from_str(new_version).unwrap());

    assert_eq!(new.document.to_string(), expected);
}

#[test]
fn gleam_reads_and_writes_version() {
    let gleam = Gleam::new("gleam.toml".to_string(), "name = \"x\"\nversion = \"1.0.0\"\n").unwrap();
    assert_eq!(gleam.get_version().unwrap(), Version::new(1, 0, 0, None));
    let gleam = gleam.set_version(&Version::new(1, 1, 0, None));
    let Some(Action::WriteToFile { content, diff, .. }) = gleam.write() else {
        panic!("expected a write");
    };
    assert_eq!(content, "name = \"x\"\nversion = \"1.1.0\"\n");
    assert_eq!(diff, "version = 1.1.0");
}

#[test]
fn gleam_missing_version() {
    let gleam = Gleam::new("gleam.toml".to_string(), "name = \"x\"\n").unwrap();
    assert!(gleam.get_version().is_err());
}
