use knope_versioning::changes::{Change, ChangeSource, ChangeType};
use knope_versioning::package::{BumpError, ChangeConfig, Name, NewError, Package};
use knope_versioning::release_notes::ReleaseNotes;
use knope_versioning::semver::{Label, StableRule, Version};
use knope_versioning::versioned_file::{Config, FileFormat, GoVersioning, VersionedFile};
use knope_versioning::{Action, ReleaseTag};

fn package_json(version: &str) -> String {
    format!("{{\"name\": \"tester\", \"version\": \"{version}\"}}")
}

fn file(path: &str, content: String) -> VersionedFile {
    let config = Config::new(path.to_string(), None, None).unwrap();
    VersionedFile::new(&config, content, &[]).unwrap()
}

fn change(change_type: ChangeType, id: &str) -> Change {
    Change {
        change_type,
        summary: format!("change {id}"),
        details: None,
        original_source: ChangeSource::ChangeFile { id: id.to_string() },
        git: None,
    }
}

#[test]
fn new_package_reads_version_from_files() {
    let files = vec![file("package.json", package_json("1.2.3"))];
    let config = vec![Config::new("package.json".to_string(), None, None).unwrap()];
    let package = Package::new(
        Name::Default,
        &["v1.0.0"],
        config,
        &files,
        ReleaseNotes::default(),
        None,
    )
    .unwrap();
    assert_eq!(package.versions.clone().into_latest(), Some(Version::new(1, 2, 3, None)));
}

#[test]
fn inconsistent_versions_are_an_error() {
    let files = vec![
        file("package.json", package_json("1.2.3")),
        file("a/package.json", package_json("2.0.0")),
    ];
    let config = vec![
        Config::new("package.json".to_string(), None, None).unwrap(),
        Config::new("a/package.json".to_string(), None, None).unwrap(),
    ];
    let err = Package::new(Name::Default, &[], config, &files, ReleaseNotes::default(), None).unwrap_err();
    assert!(matches!(err, NewError::InconsistentVersions { .. }));
}

#[test]
fn listed_file_must_exist() {
    let config = vec![Config::new("package.json".to_string(), None, None).unwrap()];
    let err = Package::new(Name::Default, &[], config, &[], ReleaseNotes::default(), None).unwrap_err();
    assert!(matches!(err, NewError::NotFound(p) if p == "package.json"));
}

#[test]
fn dependency_not_supported_in_every_file() {
    let files = vec![file("pyproject.toml", "[project]\nversion = \"1.0.0\"\n".to_string())];
    let config = vec![Config::new("pyproject.toml".to_string(), Some("dep".to_string()), None).unwrap()];
    let err = Package::new(Name::Default, &[], config, &files, ReleaseNotes::default(), None).unwrap_err();
    assert!(matches!(err, NewError::UnsupportedDependency(n) if n == "pyproject.toml"));
}

#[test]
fn apply_changes_bumps_and_removes_change_files() {
    let files = vec![file("package.json", package_json("1.2.3"))];
    let config = vec![Config::new("package.json".to_string(), None, None).unwrap()];
    let mut package =
        Package::new(Name::Default, &[], config, &files, ReleaseNotes::default(), None).unwrap();
    let changes = [change(ChangeType::Feature, "abc"), change(ChangeType::Fix, "def")];
    let (updated, actions) = package
        .apply_changes(
            &changes,
            files,
            ChangeConfig::Calculate {
                prerelease_label: None,
                go_versioning: GoVersioning::Standard,
            },
        )
        .unwrap();
    assert_eq!(updated.len(), 1);
    let written = updated.into_iter().next().unwrap().write().unwrap();
    let Action::WriteToFile { content, .. } = &written[0] else {
        panic!("expected a write");
    };
    assert!(content.contains("\"version\": \"1.3.0\""));
    assert_eq!(actions[0], Action::RemoveFile { path: ".changeset/abc.md".to_string() });
    assert_eq!(actions[1], Action::RemoveFile { path: ".changeset/def.md".to_string() });
    let Action::CreateRelease(release) = &actions[2] else {
        panic!("expected a release");
    };
    assert_eq!(release.version, Version::new(1, 3, 0, None));
    assert_eq!(package.versions.clone().into_latest(), Some(Version::new(1, 3, 0, None)));
}

#[test]
fn prerelease_keeps_change_files() {
    let files = vec![file("package.json", package_json("1.2.3"))];
    let config = vec![Config::new("package.json".to_string(), None, None).unwrap()];
    let mut package =
        Package::new(Name::Default, &[], config, &files, ReleaseNotes::default(), None).unwrap();
    let changes = [change(ChangeType::Breaking, "abc")];
    let (_, actions) = package
        .apply_changes(
            &changes,
            files,
            ChangeConfig::Calculate {
                prerelease_label: Some(Label::from("rc")),
                go_versioning: GoVersioning::Standard,
            },
        )
        .unwrap();
    assert_eq!(actions.len(), 1);
    let Action::CreateRelease(release) = &actions[0] else {
        panic!("expected a release");
    };
    assert_eq!(release.version.to_string(), "2.0.0-rc.0");
}

#[test]
fn forced_version_is_used() {
    let files = vec![file("package.json", package_json("1.2.3"))];
    let config = vec![Config::new("package.json".to_string(), None, None).unwrap()];
    let mut package =
        Package::new(Name::Default, &[], config, &files, ReleaseNotes::default(), None).unwrap();
    let (updated, _) = package
        .apply_changes(&[], files, ChangeConfig::Force(Version::new(5, 0, 0, None)))
        .unwrap();
    let written = updated.into_iter().next().unwrap().write().unwrap();
    let Action::WriteToFile { content, .. } = &written[0] else {
        panic!("expected a write");
    };
    assert!(content.contains("\"version\": \"5.0.0\""));
}

#[test]
fn go_mod_bump_to_v2_is_refused() {
    let config = Config::new("go.mod".to_string(), None, None).unwrap();
    assert_eq!(config.format, FileFormat::GoMod);
    let go = VersionedFile::new(&config, "module github.com/o/r\n".to_string(), &["v1.0.0"]).unwrap();
    let mut package = Package::new(
        Name::Default,
        &["v1.0.0"],
        vec![config],
        std::slice::from_ref(&go),
        ReleaseNotes::default(),
        None,
    )
    .unwrap();
    let err = package
        .apply_changes(
            &[change(ChangeType::Breaking, "x")],
            vec![go],
            ChangeConfig::Calculate {
                prerelease_label: None,
                go_versioning: GoVersioning::Standard,
            },
        )
        .unwrap_err();
    assert!(matches!(err, BumpError::SetError(_)));
}

#[test]
fn release_tags() {
    let version = Version::new(1, 2, 3, None);
    let tag = ReleaseTag::new(&version, &Name::Default);
    assert_eq!(tag.as_str(), "v1.2.3");
    assert!(ReleaseTag::is_release_tag("v1.2.3", &Name::Default));
    let custom = Name::from("first");
    let tag = ReleaseTag::new(&version, &custom);
    assert_eq!(tag.as_str(), "first/v1.2.3");
    assert!(ReleaseTag::is_release_tag("first/v1.2.3", &custom));
    assert!(!ReleaseTag::is_release_tag("v1.2.3", &custom));
    assert!(!ReleaseTag::is_release_tag("vsomething", &Name::Default));
}

#[test]
fn unknown_file_names_are_refused() {
    assert!(Config::new("unknown.txt".to_string(), None, None).is_err());
}

#[test]
fn package_needs_a_versioned_file() {
    let err = Package::new(Name::Default, &[], Vec::new(), &[], ReleaseNotes::default(), None).unwrap_err();
    assert!(matches!(err, NewError::NoPackages));
}

#[test]
fn inconsistent_versions_name_the_first_difference() {
    let files = vec![
        file("package.json", package_json("1.2.3")),
        file("a/package.json", package_json("1.2.3")),
        file("b/package.json", package_json("2.0.0")),
    ];
    let config = vec![
        Config::new("package.json".to_string(), None, None).unwrap(),
        Config::new("a/package.json".to_string(), None, None).unwrap(),
        Config::new("b/package.json".to_string(), None, None).unwrap(),
    ];
    let err = Package::new(Name::Default, &[], config, &files, ReleaseNotes::default(), None).unwrap_err();
    match err {
        NewError::InconsistentVersions { first_path, first_version, second_path, second_version } => {
            assert_eq!(first_path, "package.json");
            assert_eq!(first_version, Version::new(1, 2, 3, None));
            assert_eq!(second_path, "b/package.json");
            assert_eq!(second_version, Version::new(2, 0, 0, None));
        },
        _ => panic!("expected inconsistent versions"),
    }
}

#[test]
fn highest_rule_over_the_changes_wins() {
    let changes = vec![
        change(ChangeType::Fix, "a"),
        change(ChangeType::Breaking, "b"),
        change(ChangeType::Feature, "c"),
    ];
    assert_eq!(StableRule::from_changes(&changes), StableRule::Major);
    assert_eq!(StableRule::from_changes(&changes[..1]), StableRule::Patch);
    assert_eq!(StableRule::from_changes(&[]), StableRule::Patch);
}
