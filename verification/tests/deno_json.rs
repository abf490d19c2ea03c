use std::str::FromStr;

use knope_versioning::semver::Version;
use knope_versioning::versioned_file::deno_json::DenoJson;
use knope_versioning::Action;

#[test]
fn test_deno_json_with_version() {
    let content = r#"{"name": "@scope/package", "version": "1.0.0"}"#;
    let deno_json = DenoJson::new("deno.json".into(), content.to_string()).unwrap();
    assert_eq!(
        deno_json.get_version(),
        Some(&Version::from_str("1.0.0").unwrap())
    );
}

#[test]
fn test_deno_json_without_version() {
    let content = r#"{"name": "@scope/package", "tasks": {"dev": "deno run main.ts"}}"#;
    let deno_json = DenoJson::new("deno.json".into(), content.to_string()).unwrap();
    assert_eq!(deno_json.get_version(), None);
}

#[test]
fn deno_json_test_set_version() {
    let content = r#"{"name": "@scope/package", "version": "1.0.0"}"#;
    let deno_json = DenoJson::new("deno.json".into(), content.to_string()).unwrap();
    let new_version = Version::from_str("1.1.0").unwrap();
    let updated = deno_json.set_version(&new_version, None).unwrap();
    assert_eq!(updated.get_version(), Some(&new_version));
}

#[test]
fn test_set_version_on_file_without_version() {
    let content = r#"{"name": "@scope/package", "tasks": {"dev": "deno run main.ts"}}"#;
    let deno_json = DenoJson::new("deno.json".into(), content.to_string()).unwrap();
    let new_version = Version::from_str("1.0.0").unwrap();
    let updated = deno_json.set_version(&new_version, None).unwrap();
    assert_eq!(updated.get_version(), Some(&new_version));
}

#[test]
fn test_deno_json_with_comments() {
    let content = "// leading comment\n{\"name\": \"@scope/package\", \"version\": \"1.0.0\"}";
    let deno_json = DenoJson::new("deno.jsonc".into(), content.to_string()).unwrap();
    assert_eq!(
        deno_json.get_version(),
        Some(&Version::from_str("1.0.0").unwrap())
    );
}

#[test]
fn test_set_version_with_comment_source() {
    let content = "// leading comment\n{\"name\": \"@scope/package\", \"version\": \"1.0.0\"}";
    let deno_json = DenoJson::new("deno.jsonc".into(), content.to_string()).unwrap();
    let new_version = Version::from_str("1.2.0").unwrap();
    let updated = deno_json.set_version(&new_version, None).unwrap();
    assert_eq!(updated.get_version(), Some(&new_version));
}

#[test]
fn deno_json_write_reports_the_version() {
    let content = r#"{"name": "@scope/package", "version": "1.0.0"}"#;
    let deno_json = DenoJson::new("deno.json".into(), content.to_string()).unwrap();
    let updated = deno_json
        .set_version(&Version::from_str("2.0.0").unwrap(), None)
        .unwrap();
    let Some(Action::WriteToFile { path, content, diff }) = updated.write() else {
        panic!("expected a write");
    };
    assert_eq!(path, "deno.json");
    assert!(content.contains("\"version\": \"2.0.0\""));
    assert_eq!(diff, "version = 2.0.0");
}

#[test]
fn deno_json_invalid_is_an_error() {
    assert!(DenoJson::new("deno.json".into(), "{not json".to_string()).is_err());
}
