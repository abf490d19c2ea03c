use std::str::FromStr;

use knope_versioning::semver::Version;
use knope_versioning::versioned_file::package_json::PackageJson;
use knope_versioning::Action;

    #[test]
    fn package_json_test_get_version() {
        let content = r#"{
        "name": "tester",
        "version": "0.1.0-rc.0"
        }"#;

        assert_eq!(
            PackageJson::new(String::new(), content.to_string())
                .unwrap()
                .get_version(),
            &Version::from_str("0.1.0-rc.0").unwrap()
        );
    }

    #[test]
    fn package_json_test_set_version() {
        let content = r#"{
        "name": "tester",
        "version": "0.1.0-rc.0"
        }"#;

        let new = PackageJson::new(String::new(), content.to_string())
            .unwrap()
            .set_version(&Version::from_str("1.2.3-rc.4").unwrap(), None)
            .unwrap()
            .write()
            .expect("diff to write");

        let expected = r#"{
  "name": "tester",
  "version": "1.2.3-rc.4"
}"#
        .to_string();
        let expected = Action::WriteToFile {
            path: String::new(),
            content: expected,
            diff: "version = 1.2.3-rc.4".to_string(),
        };
        assert_eq!(new, expected);
    }

    #[test]
    fn package_json_retain_property_order() {
        let content = r#"{
        "name": "tester",
        "version": "0.1.0-rc.0",
        "dependencies": {}
        }"#;

        let new = PackageJson::new(String::new(), content.to_string())
            .unwrap()
            .set_version(&Version::from_str("1.2.3-rc.4").unwrap(), None)
            .unwrap()
            .write()
            .expect("diff to write");

        let expected = r#"{
  "name": "tester",
  "version": "1.2.3-rc.4",
  "dependencies": {}
}"#
        .to_string();
        let expected = Action::WriteToFile {
            path: String::new(),
            content: expected,
            diff: "version = 1.2.3-rc.4".to_string(),
        };
        assert_eq!(new, expected);
    }

    #[test]
    fn package_json_update_dependency() {
        let content = r#"{
            "name": "tester",
            "version": "1.0.0",
            "dependencies": {
                "dependency-name": "2.0.0",
                "some-other-dependency": "0.1.0"
            },
            "devDependencies": {
                "@another/dev-dependency": "0.2.0",
                "@dev/dependency-name": "3.0.0"
            }
        }"#;

        // Test updating a regular dependency
        let new = PackageJson::new(String::new(), content.to_string())
            .unwrap()
            .set_version(
                &Version::from_str("2.1.0").unwrap(),
                Some("dependency-name"),
            )
            .unwrap()
            .write()
            .expect("diff to write");

        let expected = r#"{
  "name": "tester",
  "version": "1.0.0",
  "dependencies": {
    "dependency-name": "2.1.0",
    "some-other-dependency": "0.1.0"
  },
  "devDependencies": {
    "@another/dev-dependency": "0.2.0",
    "@dev/dependency-name": "3.0.0"
  }
}"#
        .to_string();
        let expected = Action::WriteToFile {
            path: String::new(),
            content: expected,
            diff: "dependency-name = 2.1.0".to_string(),
        };
        assert_eq!(new, expected);

        // Test updating a dev dependency
        let new = PackageJson::new(String::new(), content.to_string())
            .unwrap()
            .set_version(
                &Version::from_str("3.1.0").unwrap(),
                Some("@dev/dependency-name"),
            )
            .unwrap()
            .write()
            .expect("diff to write");

        let expected = r#"{
  "name": "tester",
  "version": "1.0.0",
  "dependencies": {
    "dependency-name": "2.0.0",
    "some-other-dependency": "0.1.0"
  },
  "devDependencies": {
    "@another/dev-dependency": "0.2.0",
    "@dev/dependency-name": "3.1.0"
  }
}"#
        .to_string();
        let expected = Action::WriteToFile {
            path: String::new(),
            content: expected,
            diff: "@dev/dependency-name = 3.1.0".to_string(),
        };
        assert_eq!(new, expected);
    }

#[test]
fn package_json_missing_version_is_an_error() {
    assert!(PackageJson::new(String::new(), r#"{"name": "x"}"#.to_string()).is_err());
}

#[test]
fn package_json_missing_dependency_changes_nothing() {
    let content = r#"{"name": "x", "version": "1.0.0"}"#;
    let new = PackageJson::new(String::new(), content.to_string())
        .unwrap()
        .set_version(&Version::new(2, 0, 0, None), Some("absent"))
        .unwrap();
    assert_eq!(new.get_version(), &Version::new(1, 0, 0, None));
}
