use std::str::FromStr;

use knope_versioning::semver::Version;
use knope_versioning::versioned_file::pubspec::PubSpec;
use knope_versioning::Action;

const PUBSPEC: &str = "name: my_app\ndescription: An app.\nversion: 1.0.0\n\nenvironment:\n  sdk: '>=3.0.0 <4.0.0'\n";

#[test]
fn pubspec_reads_version() {
    assert_eq!(
        PubSpec::new(String::new(), PUBSPEC.to_string())
            .unwrap()
            .get_version(),
        &Version::from_str("1.0.0").unwrap()
    );
}

#[test]
fn pubspec_sets_version_in_place() {
    let pubspec = PubSpec::new("blah/blah".to_string(), PUBSPEC.to_string())
        .unwrap()
        .set_version(&Version::from_str("1.2.3-rc.4").unwrap())
        .unwrap();
    let Some(Action::WriteToFile { path, content, diff }) = pubspec.write() else {
        panic!("expected a write");
    };
    assert_eq!(path, "blah/blah");
    assert_eq!(content, PUBSPEC.replace("1.0.0", "1.2.3-rc.4"));
    assert_eq!(diff, "version = 1.2.3-rc.4");
}

#[test]
fn pubspec_without_version_is_an_error() {
    assert!(PubSpec::new(String::new(), "name: x\n".to_string()).is_err());
}
