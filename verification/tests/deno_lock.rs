use knope_versioning::semver::Version;
use knope_versioning::versioned_file::deno_lock::{DenoLock, Error};
use knope_versioning::Action;
use serde_json::Value;

    fn sample_lock() -> String {
        r#"{
  "version": "5",
  "specifiers": {
    "jsr:@scope/first@^1.0.0": "1.0.0",
    "npm:left-pad@^1": "1.3.0"
  },
  "jsr": {
    "@scope/first@1.0.0": {
      "integrity": "sha256-abc",
      "dependencies": []
    }
  },
  "npm": {
    "left-pad@1.3.0": {
      "integrity": "sha256-def",
      "dependencies": []
    }
  },
  "redirects": {},
  "remote": {},
  "workspace": {
    "dependencies": [
      "jsr:@scope/first@1.0.0",
      "npm:left-pad@1.3.0"
    ],
    "packageJson": {
      "dependencies": [
        "jsr:@scope/first@^1.0.0",
        "npm:left-pad@^1"
      ]
    },
    "members": {
      "first": {
        "dependencies": [
          "jsr:@scope/first@1.0.0",
          "npm:left-pad@1.3.0"
        ],
        "packageJson": {
          "dependencies": [
            "jsr:@scope/first@^1.0.0",
            "npm:left-pad@^1"
          ]
        }
      }
    },
    "links": {
      "jsr:@scope/first@1.0.0": {
        "dependencies": [],
        "optionalDependencies": [],
        "peerDependencies": [],
        "peerDependenciesMeta": {}
      },
      "npm:left-pad@1.3.0": {
        "dependencies": [],
        "optionalDependencies": [
          "npm:left-pad@1.3.0"
        ],
        "peerDependencies": [
          "npm:left-pad@^1"
        ],
        "peerDependenciesMeta": {}
      }
    }
  }
}"#
        .to_string()
    }

#[test]
fn updates_specifiers_and_workspace() {
    let content = sample_lock();
    let lock = DenoLock::new("deno.lock".to_string(), &content).unwrap();
    let updated = lock
        .set_version(&Version::new(1, 2, 0, None), Some("@scope/first"))
        .unwrap();
    let write_action = updated.write().unwrap();
    if let Action::WriteToFile { content, diff, .. } = write_action {
        assert!(content.contains("\"jsr:@scope/first@1\": \"1.2.0\""));
        assert!(content.contains("\"@scope/first@1.2.0\""));
        assert!(content.contains("\"jsr:@scope/first@1.2.0\""));
        assert_eq!(diff, "@scope/first = 1.2.0");
    } else {
        panic!("Expected write action");
    }
}

#[test]
fn ignores_missing_dependency() {
    let content = sample_lock();
    let lock = DenoLock::new("deno.lock".to_string(), &content).unwrap();
    let lock = lock
        .set_version(&Version::new(1, 2, 0, None), Some("@scope/second"))
        .unwrap();
    assert!(lock.write().is_none());
}

#[test]
fn updates_npm_dependency() {
    let content = sample_lock();
    let lock = DenoLock::new("deno.lock".to_string(), &content).unwrap();
    let updated = lock
        .set_version(&Version::new(1, 4, 0, None), Some("left-pad"))
        .unwrap();
    let write_action = updated.write().unwrap();
    if let Action::WriteToFile { content, diff, .. } = write_action {
        let value: Value = serde_json::from_str(&content).unwrap();
        let specifiers = value
            .get("specifiers")
            .and_then(Value::as_object)
            .expect("specifiers map");
        assert_eq!(
            specifiers
                .get("npm:left-pad@1")
                .and_then(Value::as_str)
                .unwrap(),
            "1.4.0"
        );
        let npm = value
            .get("npm")
            .and_then(Value::as_object)
            .expect("npm map");
        assert!(npm.contains_key("left-pad@1.4.0"));
        let workspace = value
            .get("workspace")
            .and_then(Value::as_object)
            .expect("workspace map");
        let workspace_deps = workspace
            .get("dependencies")
            .and_then(Value::as_array)
            .expect("workspace dependencies");
        assert!(
            workspace_deps
                .iter()
                .any(|value| value.as_str() == Some("npm:left-pad@1.4.0"))
        );
        let package_json_deps = workspace
            .get("packageJson")
            .and_then(Value::as_object)
            .and_then(|obj| obj.get("dependencies"))
            .and_then(Value::as_array)
            .expect("packageJson dependencies");
        assert!(
            package_json_deps
                .iter()
                .any(|value| value.as_str() == Some("npm:left-pad@1.4.0"))
        );
        let members = workspace
            .get("members")
            .and_then(Value::as_object)
            .expect("members map");
        let first = members
            .get("first")
            .and_then(Value::as_object)
            .expect("first member");
        let first_deps = first
            .get("dependencies")
            .and_then(Value::as_array)
            .expect("first dependencies");
        assert!(
            first_deps
                .iter()
                .any(|value| value.as_str() == Some("npm:left-pad@1.4.0"))
        );
        let first_package_json_deps = first
            .get("packageJson")
            .and_then(Value::as_object)
            .and_then(|obj| obj.get("dependencies"))
            .and_then(Value::as_array)
            .expect("first packageJson dependencies");
        assert!(
            first_package_json_deps
                .iter()
                .any(|value| value.as_str() == Some("npm:left-pad@1.4.0"))
        );
        let links = workspace
            .get("links")
            .and_then(Value::as_object)
            .expect("links map");
        let npm_link = links
            .get("npm:left-pad@1.4.0")
            .and_then(Value::as_object)
            .expect("npm link");
        let optional_deps = npm_link
            .get("optionalDependencies")
            .and_then(Value::as_array)
            .expect("optional dependencies");
        assert!(
            optional_deps
                .iter()
                .any(|value| value.as_str() == Some("npm:left-pad@1.4.0"))
        );
        let peer_deps = npm_link
            .get("peerDependencies")
            .and_then(Value::as_array)
            .expect("peer dependencies");
        assert!(
            peer_deps
                .iter()
                .any(|value| value.as_str() == Some("npm:left-pad@1.4.0"))
        );
        assert_eq!(diff, "left-pad = 1.4.0");
    } else {
        panic!("Expected write action");
    }
}

#[test]
fn legacy_version_errors() {
    let content = r#"{"version":"4"}"#.to_string();
    let err = DenoLock::new("deno.lock".to_string(), &content).unwrap_err();
    assert!(matches!(err, Error::LegacyLockfileNeedsNpmInfo { .. }));
}

#[test]
fn unsupported_lockfile_version_errors() {
    let content = r#"{"version":"9"}"#.to_string();
    let err = DenoLock::new("deno.lock".to_string(), &content).unwrap_err();
    assert!(matches!(err, Error::UnsupportedVersion { .. }));
}

#[test]
fn invalid_lockfile_errors() {
    let err = DenoLock::new("deno.lock".to_string(), "{").unwrap_err();
    assert!(matches!(err, Error::Deserialize { .. }));
}

#[test]
fn missing_lockfile_version_is_legacy() {
    let err = DenoLock::new("deno.lock".to_string(), "{}").unwrap_err();
    assert!(matches!(err, Error::LegacyLockfileNeedsNpmInfo { version, .. } if version == "1"));
}

#[test]
fn lockfile_that_is_no_object_errors() {
    let err = DenoLock::new("deno.lock".to_string(), "[1, 2]").unwrap_err();
    assert!(matches!(err, Error::UnexpectedStructure(p) if p == "deno.lock"));
}

#[test]
fn npm_id_starting_with_a_wide_character_is_refused() {
    let content = r#"{"version":"5","npm":{"éa@1.0.0":{"integrity":"x"}}}"#;
    let err = DenoLock::new("deno.lock".to_string(), content).unwrap_err();
    assert!(matches!(err, Error::LockfileDeserialize { .. }));
}
