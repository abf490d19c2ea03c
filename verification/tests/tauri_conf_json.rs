use std::str::FromStr;

use knope_versioning::semver::Version;
use knope_versioning::versioned_file::tauri_conf_json::TauriConfJson;
use knope_versioning::Action;

#[test]
fn tauri_conf_json_test_get_version() {
    let content = r#"{
        "productName": "tester",
        "version": "0.1.0-rc.0"
        }"#;

    assert_eq!(
        TauriConfJson::new(String::new(), content.to_string())
            .unwrap()
            .get_version(),
        &Version::from_str("0.1.0-rc.0").unwrap()
    );
}

#[test]
fn tauri_conf_json_test_set_version() {
    let content = r#"{
        "productName": "tester",
        "version": "0.1.0-rc.0"
        }"#;

    let new = TauriConfJson::new(String::new(), content.to_string())
        .unwrap()
        .set_version(&Version::from_str("1.2.3-rc.4").unwrap())
        .unwrap()
        .write()
        .expect("diff to write");

    let expected = r#"{
  "productName": "tester",
  "version": "1.2.3-rc.4"
}"#
    .to_string();
    let expected = Action::WriteToFile {
        path: String::new(),
        content: expected,
        diff: "1.2.3-rc.4".to_string(),
    };
    assert_eq!(new, expected);
}

#[test]
fn tauri_conf_json_retain_property_order() {
    let content = r#"{
        "productName": "tester",
        "version": "0.1.0-rc.0",
        "identifier": "com.knope.tester"
        }"#;

    let new = TauriConfJson::new(String::new(), content.to_string())
        .unwrap()
        .set_version(&Version::from_str("1.2.3-rc.4").unwrap())
        .unwrap()
        .write()
        .expect("diff to write");

    let expected = r#"{
  "name": "tester",
  "version": "1.2.3-rc.4",
  "identifier": "com.knope.tester"
}"#
    .to_string();
    let expected = Action::WriteToFile {
        path: String::new(),
        content: expected,
        diff: "1.2.3-rc.4".to_string(),
    };
    assert_eq!(new, expected);
}

#[test]
fn tauri_missing_version_is_an_error() {
    assert!(TauriConfJson::new(String::new(), r#"{"productName": "x"}"#.to_string()).is_err());
}
