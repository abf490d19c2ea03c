use knope_versioning::changes::{Change, ChangeSource, ChangeType, GitInfo};
use knope_versioning::package::Name;
use knope_versioning::release_notes::changelog::{parse_title, Date, HeaderLevel};
use knope_versioning::release_notes::{ChangeTemplate, Changelog, ReleaseNotes};
use knope_versioning::semver::Version;
use knope_versioning::Action;

fn change_file(summary: &str, details: Option<&str>) -> Change {
    Change {
        change_type: ChangeType::Feature,
        original_source: ChangeSource::ChangeFile { id: String::new() },
        summary: summary.to_string(),
        details: details.map(String::from),
        git: None,
    }
}

fn commit_change(summary: &str, git: Option<GitInfo>) -> Change {
    Change {
        change_type: ChangeType::Feature,
        original_source: ChangeSource::ConventionalCommit {
            description: String::new(),
        },
        summary: summary.to_string(),
        details: None,
        git,
    }
}

#[test]
fn no_date() {
    let title = "## 0.1.2";
    let (header_level, version, date) = parse_title(title).unwrap();
    assert_eq!(header_level, HeaderLevel::H2);
    assert_eq!(version, Version::new(0, 1, 2, None));
    assert!(date.is_none());
}

#[test]
fn with_date() {
    let title = "## 0.1.2 (2023-05-02)";
    let (header_level, version, date) = parse_title(title).unwrap();
    assert_eq!(header_level, HeaderLevel::H2);
    assert_eq!(version, Version::new(0, 1, 2, None));
    assert_eq!(
        date,
        Some(Date {
            year: 2023,
            month: 5,
            day: 2
        })
    );
}

#[test]
fn no_version() {
    let title = "## 2023-05-02";
    let result = parse_title(title);
    assert!(result.is_err());
}

#[test]
fn bad_version() {
    let title = "## sad";
    let result = parse_title(title);
    assert!(result.is_err());
}

#[test]
fn h1() {
    let title = "# 0.1.2 (2023-05-02)";
    let (header_level, version, date) = parse_title(title).unwrap();
    assert_eq!(header_level, HeaderLevel::H1);
    assert_eq!(version, Version::new(0, 1, 2, None));
    assert_eq!(
        date,
        Some(Date {
            year: 2023,
            month: 5,
            day: 2
        })
    );
}

#[test]
fn too_deep_header_is_an_error() {
    assert!(parse_title("### 0.1.2").is_err());
}

#[test]
fn simple_changes_before_complex() {
    let changes = vec![
        change_file("a complex feature", Some("some details")),
        change_file("a simple feature", None),
        commit_change("a super simple feature", None),
    ];

    let mut actions = ReleaseNotes::create_release(
        &mut ReleaseNotes::default(),
        Version::new(1, 0, 0, None),
        &changes,
        &Name::Default,
    )
    .expect("can create release notes");
    assert_eq!(actions.len(), 1);

    let action = actions.pop().unwrap();

    let Action::CreateRelease(release) = action else {
        panic!("expected release action");
    };

    assert_eq!(
        release.notes,
        "## Features\n\n- a simple feature\n- a super simple feature\n\n### a complex feature\n\nsome details"
    );
}

#[test]
fn custom_templates() {
    let change_templates: Vec<ChangeTemplate> = [
        "* $summary by $commit_author_name ($commit_hash)",
        "###### $summary!!! $notAVariable\n\n$details",
        "* $summary",
    ]
    .into_iter()
    .map(ChangeTemplate::from)
    .collect();

    let mut release_notes = ReleaseNotes {
        change_templates,
        changelog: Some(Changelog::new(
            "CHANGELOG.md".into(),
            "# My Changelog\n\n## 1.2.3 (previous version)".to_string(),
        )),
        ..ReleaseNotes::default()
    };

    let changes = &[
        change_file("a complex feature", Some("some details")),
        change_file("a simple feature", None),
        commit_change(
            "a super simple feature",
            Some(GitInfo {
                author_name: "Sushi".into(),
                hash: "1234".into(),
            }),
        ),
    ];

    let mut actions = release_notes
        .create_release(Version::new(1, 3, 0, None), changes, &Name::Default)
        .expect("can create release notes");
    let Some(Action::CreateRelease(release)) = actions.pop() else {
        panic!("expected release action");
    };

    assert_eq!(
        release.notes,
        "## Features\n\n* a simple feature\n* a super simple feature by Sushi (1234)\n\n###### a complex feature!!! $notAVariable\n\nsome details"
    );

    let Some(Action::WriteToFile { diff, .. }) = actions.pop() else {
        panic!("expected write changelog action");
    };

    assert!(diff.ends_with(
        "\n\n### Features\n\n* a simple feature\n* a super simple feature by Sushi (1234)\n\n####### a complex feature!!! $notAVariable\n\nsome details\n"
    ));
}

#[test]
fn fall_back_to_built_in_templates() {
    let change_templates: Vec<ChangeTemplate> = ["* $summary by $commit_author_name"]
        .into_iter()
        .map(ChangeTemplate::from)
        .collect();
    let mut release_notes = ReleaseNotes {
        change_templates,
        ..ReleaseNotes::default()
    };

    let changes = &[
        change_file("a complex feature", Some("some details")),
        change_file("a simple feature", None),
        commit_change(
            "a super simple feature",
            Some(GitInfo {
                author_name: "Sushi".into(),
                hash: String::new(),
            }),
        ),
    ];

    let mut actions = release_notes
        .create_release(Version::new(1, 3, 0, None), changes, &Name::Default)
        .expect("can create release notes");
    let Some(Action::CreateRelease(release)) = actions.pop() else {
        panic!("expected release action");
    };
    assert_eq!(
        release.notes,
        "## Features\n\n- a simple feature\n* a super simple feature by Sushi\n\n### a complex feature\n\nsome details"
    );
}

#[test]
fn dated_release_is_written_into_the_changelog() {
    let mut release_notes = ReleaseNotes {
        changelog: Some(Changelog::new(
            "CHANGELOG.md".into(),
            "# My Changelog\n\n## 1.2.3\n\n### Fixes\n\n- old\n".to_string(),
        )),
        ..ReleaseNotes::default()
    };
    let changes = [change_file("new thing", None)];
    let actions = release_notes.create_release_dated(
        Version::new(1, 3, 0, None),
        &changes,
        &Name::Default,
        "2024-01-02",
    );
    assert_eq!(actions.len(), 2);
    let Action::CreateRelease(release) = &actions[1] else {
        panic!("expected release action");
    };
    assert_eq!(release.title, "1.3.0 (2024-01-02)");
    let changelog = release_notes.changelog.unwrap();
    assert_eq!(
        changelog.content,
        "# My Changelog\n\n## 1.3.0 (2024-01-02)\n\n### Features\n\n- new thing\n\n## 1.2.3\n\n### Fixes\n\n- old\n"
    );
    let found = changelog
        .get_release(&Version::new(1, 3, 0, None), &Name::Default)
        .unwrap();
    assert_eq!(found.notes, "\n## Features\n\n- new thing\n");
}

#[test]
fn release_written_to_an_empty_changelog_is_read_back() {
    let mut release_notes = ReleaseNotes {
        changelog: Some(Changelog::new("CHANGELOG.md".into(), String::new())),
        ..ReleaseNotes::default()
    };
    let changes = [change_file("first thing", None)];
    release_notes.create_release_dated(
        Version::new(0, 1, 0, None),
        &changes,
        &Name::Default,
        "2024-01-02",
    );
    let changelog = release_notes.changelog.unwrap();
    let found = changelog
        .get_release(&Version::new(0, 1, 0, None), &Name::Default)
        .unwrap();
    assert_eq!(found.title, "0.1.0 (2024-01-02)");
    assert_eq!(found.notes, "\n## Features\n\n- first thing");
}
