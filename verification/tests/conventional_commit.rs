use knope_versioning::changes::conventional_commit::{changes_from_commit_messages, Commit};
use knope_versioning::changes::{Change, ChangeSource, ChangeType};
use knope_versioning::release_notes::{SectionSource, Sections};

fn commit(message: &str) -> Commit {
    Commit {
        message: message.to_string(),
        ..Default::default()
    }
}

fn from_commit(change_type: ChangeType, summary: &str, description: &str) -> Change {
    Change {
        change_type,
        summary: summary.into(),
        details: None,
        original_source: ChangeSource::ConventionalCommit {
            description: String::from(description),
        },
        git: None,
    }
}

#[test]
fn commit_types() {
    let commits = &[
        commit("fix: a bug"),
        commit("fix!: a breaking bug fix"),
        commit("feat!: add a feature"),
        commit("feat: add another feature"),
    ];
    let changes = changes_from_commit_messages(commits, None, &Sections::default());
    assert_eq!(
        changes,
        vec![
            from_commit(ChangeType::Fix, "a bug", "fix: a bug"),
            from_commit(ChangeType::Breaking, "a breaking bug fix", "fix!: a breaking bug fix"),
            from_commit(ChangeType::Breaking, "add a feature", "feat!: add a feature"),
            from_commit(ChangeType::Feature, "add another feature", "feat: add another feature"),
        ]
    );
}

#[test]
fn separate_breaking_messages() {
    let commits = [
        commit("fix: a bug\n\nBREAKING CHANGE: something broke"),
        commit("feat: a features\n\nBREAKING CHANGE: something else broke"),
    ];
    let changes = changes_from_commit_messages(&commits, None, &Sections::default());
    assert_eq!(
        changes,
        vec![
            from_commit(
                ChangeType::Breaking,
                "something broke",
                "fix: a bug\n\tContaining footer BREAKING CHANGE: something broke"
            ),
            from_commit(ChangeType::Fix, "a bug", "fix: a bug"),
            from_commit(
                ChangeType::Breaking,
                "something else broke",
                "feat: a features\n\tContaining footer BREAKING CHANGE: something else broke"
            ),
            from_commit(ChangeType::Feature, "a features", "feat: a features"),
        ]
    );
}

#[test]
fn scopes_used_but_none_defined() {
    let commits = [
        commit("feat(scope)!: Wrong scope breaking change!"),
        commit("fix: No scope"),
    ];
    let changes = changes_from_commit_messages(&commits, None, &Sections::default());
    assert_eq!(
        changes,
        vec![
            from_commit(
                ChangeType::Breaking,
                "Wrong scope breaking change!",
                "feat(scope)!: Wrong scope breaking change!"
            ),
            from_commit(ChangeType::Fix, "No scope", "fix: No scope"),
        ]
    );
}

#[test]
fn filter_scopes() {
    let commits = [
        commit("feat(wrong_scope)!: Wrong scope breaking change!"),
        commit("feat(scope): Scoped feature"),
        commit("fix: No scope"),
    ];

    let changes = changes_from_commit_messages(
        &commits,
        Some(&vec![String::from("scope")]),
        &Sections::default(),
    );
    assert_eq!(
        changes,
        vec![
            from_commit(ChangeType::Feature, "Scoped feature", "feat(scope): Scoped feature"),
            from_commit(ChangeType::Fix, "No scope", "fix: No scope"),
        ]
    );
}

#[test]
fn custom_footers() {
    let commits = [commit(
        "chore: ignored type\n\nignored-footer: ignored\ncustom-footer: hello",
    )];
    let changelog_sections = Sections(vec![(
        "custom section".into(),
        vec![ChangeType::Custom(SectionSource::CommitFooter(
            "custom-footer".into(),
        ))],
    )]);
    let changes = changes_from_commit_messages(&commits, None, &changelog_sections);
    assert_eq!(
        changes,
        vec![from_commit(
            ChangeType::Custom(SectionSource::CommitFooter("custom-footer".into())),
            "hello",
            "chore: ignored type\n\tContaining footer custom-footer: hello"
        )]
    );
}

#[test]
fn non_conventional_commits_are_skipped() {
    let commits = [commit("just some text"), commit("fix: real")];
    let changes = changes_from_commit_messages(&commits, None, &Sections::default());
    assert_eq!(changes, vec![from_commit(ChangeType::Fix, "real", "fix: real")]);
}

#[test]
fn other_commit_types_make_no_change() {
    let commits = [commit("chore: tidy up"), commit("docs: words")];
    let changes = changes_from_commit_messages(&commits, None, &Sections::default());
    assert!(changes.is_empty());
}
