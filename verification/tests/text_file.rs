use std::str::FromStr;

use knope_versioning::semver::Version;
use knope_versioning::versioned_file::text_file::{Error, RegexFile, TextFile};
use knope_versioning::Action;

#[test]
fn test_simple_version_pattern() {
    let content = "version: 1.2.3\nother: stuff";
    let regex = r"version:\s+(?<version>\d+\.\d+\.\d+)";

    let file = TextFile::new(
        "test.txt".to_string(),
        content.to_string(),
        regex.to_string(),
    )
    .unwrap();

    let version = file.get_version().unwrap();
    assert_eq!(version, Version::from_str("1.2.3").unwrap());
}

#[test]
fn text_file_test_set_version() {
    let content = "version: 1.2.3\nother: stuff";
    let regex = r"version:\s+(?<version>\d+\.\d+\.\d+)";

    let file = TextFile::new(
        "test.txt".to_string(),
        content.to_string(),
        regex.to_string(),
    )
    .unwrap();

    let new_version = Version::from_str("2.0.0").unwrap();
    let updated = file.set_version(&new_version);

    assert!(updated.content.contains("version: 2.0.0"));
    assert!(updated.content.contains("other: stuff"));
}

#[test]
fn test_readme_example() {
    let content = r"steps:
  - uses: knope-dev/action@v1
    with:
      version: 0.21.4";
    let regex = r"version:\s+(?<version>\d+\.\d+\.\d+)";

    let file = TextFile::new(
        "README.md".to_string(),
        content.to_string(),
        regex.to_string(),
    )
    .unwrap();

    let version = file.get_version().unwrap();
    assert_eq!(version, Version::from_str("0.21.4").unwrap());

    let new_version = Version::from_str("0.22.0").unwrap();
    let updated = file.set_version(&new_version);

    assert!(updated.content.contains("version: 0.22.0"));
}

#[test]
fn test_invalid_pattern() {
    let content = "version: 1.2.3";
    let regex = r"[invalid(regex";

    let result = TextFile::new(
        "test.txt".to_string(),
        content.to_string(),
        regex.to_string(),
    );

    assert!(result.is_err());
}

#[test]
fn test_pattern_no_match() {
    let content = "no version here";
    let regex = r"version:\s+(?<version>\d+\.\d+\.\d+)";

    let file = TextFile::new(
        "test.txt".to_string(),
        content.to_string(),
        regex.to_string(),
    )
    .unwrap();

    let result = file.get_version();
    assert!(result.is_err());
}

#[test]
fn test_missing_named_group() {
    let content = "version: 1.2.3";
    let regex = r"version:\s+(\d+\.\d+\.\d+)"; // No named group

    let result = TextFile::new(
        "test.txt".to_string(),
        content.to_string(),
        regex.to_string(),
    );

    assert!(result.is_err());
    if let Err(Error::MissingVersionGroup { .. }) = result {
        // Expected error
    } else {
        panic!("Expected MissingVersionGroup error");
    }
}

#[test]
fn text_file_write_reports_the_changed_line() {
    let content = "name: x\nversion: 1.2.3\nother: stuff";
    let regex = r"version:\s+(?<version>\d+\.\d+\.\d+)";
    let file = TextFile::new("a.txt".to_string(), content.to_string(), regex.to_string()).unwrap();
    let file = file.set_version(&Version::new(1, 3, 0, None));
    let Some(Action::WriteToFile { content, diff, .. }) = file.write() else {
        panic!("expected a write");
    };
    assert_eq!(content, "name: x\nversion: 1.3.0\nother: stuff");
    assert_eq!(diff, "version: 1.3.0");
}

#[test]
fn regex_file_uses_the_first_pattern_that_matches() {
    let content = "v = 1.0.0\nversion: 2.0.0";
    let patterns = vec![
        r"version:\s+(?<version>\d+\.\d+\.\d+)".to_string(),
        r"v = (?<version>\d+\.\d+\.\d+)".to_string(),
    ];
    let file = RegexFile::new("a.txt".to_string(), content.to_string(), patterns).unwrap();
    assert_eq!(file.get_version().unwrap(), Version::new(2, 0, 0, None));
}
