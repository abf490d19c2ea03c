use std::str::FromStr;

use knope_versioning::semver::Version;
use knope_versioning::versioned_file::package_lock_json::PackageLockJson;
use knope_versioning::Action;
use serde_json::{to_string_pretty, Value};

    #[test]
    fn package_lock_json_test_get_version() {
        let content = r#"{
        "name": "tester",
        "version": "0.1.0-rc.0"
        }"#;

        assert_eq!(
            PackageLockJson::new(String::new(), content)
                .unwrap()
                .get_version()
                .unwrap(),
            Version::from_str("0.1.0-rc.0").unwrap()
        );
    }

    #[test]
    fn package_lock_json_test_set_version() {
        let content = r#"{
        "name": "tester",
        "version": "0.1.0-rc.0",
        "packages": {
          "": {
            "version": "0.1.0-rc.0"
          }
        }
        }"#;

        let new = PackageLockJson::new(String::new(), content)
            .unwrap()
            .set_version(&Version::from_str("1.2.3-rc.4").unwrap(), None)
            .write()
            .expect("diff to write");

        let expected = r#"{
  "name": "tester",
  "version": "1.2.3-rc.4",
  "packages": {
    "": {
      "version": "1.2.3-rc.4"
    }
  }
}"#
        .to_string();
        let expected = Action::WriteToFile {
            path: String::new(),
            content: expected,
            diff: "version = 1.2.3-rc.4".to_string(),
        };
        assert_eq!(new, expected);
    }

    #[test]
    fn package_lock_json_update_dependency() {
        let content: Value = serde_json::from_str(
        r#"{
            "name": "tester",
            "version": "1.0.0",
            "packages": {
                "": {
                    "dependencies": {
                        "dependency-name": "2.0.0",
                        "some-other-dependency": "0.1.0"
                    },
                    "devDependencies": {
                        "@another/dev-dependency": "0.2.0",
                        "@dev/dependency-name": "3.0.0"
                    }
                },
                "a": {
                    "name": "dependency-name",
                    "version": "2.0.0",
                    "dependencies": {
                        "some-other-dependency": "0.1.0"
                    },
                     "devDependencies": {
                      "@another/dev-dependency": "0.2.0",
                      "@dev/dependency-name": "3.0.0"
                    }
                },
                "b": {
                    "name": "some-other-dependency",
                    "version": "0.1.0",
                    "dependencies": {
                        "dependency-name": "2.0.0"
                    },
                    "devDependencies": {
                        "@another/dev-dependency": "0.2.0",
                        "@dev/dependency-name": "3.0.0"
                    }
                },
                "c": {
                    "name": "@another/dev-dependency",
                    "version": "0.2.0",
                    "dependencies": {
                        "dependency-name": "2.0.0"
                    },
                    "devDependencies": {
                        "@dev/dependency-name": "3.0.0"
                    }
                },
                "d": {
                    "name": "@dev/dependency-name",
                    "version": "3.0.0",
                    "dependencies": {
                        "dependency-name": "2.0.0"
                    },
                    "devDependencies": {
                        "@another/dev-dependency": "0.2.0"
                    }
                }
            }
        }"#,
    )
    .unwrap();

        // Test updating a regular dependency
        let new = PackageLockJson::new(String::new(), &content.to_string())
            .unwrap()
            .set_version(
                &Version::from_str("2.1.0").unwrap(),
                Some("dependency-name"),
            )
            .write()
            .expect("diff to write");

        let expected = to_string_pretty(&content)
            .unwrap()
            .replace("2.0.0", "2.1.0");
        let expected = Action::WriteToFile {
            path: String::new(),
            content: expected,
            diff: "dependency-name = 2.1.0".to_string(),
        };
        assert_eq!(new, expected);

        // Test updating a dev dependency
        let new = PackageLockJson::new(String::new(), &content.to_string())
            .unwrap()
            .set_version(
                &Version::from_str("3.1.0").unwrap(),
                Some("@dev/dependency-name"),
            )
            .write()
            .expect("diff to write");

        let expected = to_string_pretty(&content)
            .unwrap()
            .replace("3.0.0", "3.1.0");
        let expected = Action::WriteToFile {
            path: String::new(),
            content: expected,
            diff: "@dev/dependency-name = 3.1.0".to_string(),
        };
        assert_eq!(new, expected);
    }

#[test]
fn package_lock_json_without_version_is_an_error() {
    let lock = PackageLockJson::new(String::new(), r#"{"name": "x"}"#).unwrap();
    assert!(lock.get_version().is_err());
}

#[test]
fn package_lock_json_invalid_is_an_error() {
    assert!(PackageLockJson::new(String::new(), "[").is_err());
}
