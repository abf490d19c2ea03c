use knope_versioning::changes::{Change, ChangeSource, ChangeType, ChangesetType, GitInfo, PackageChange};
use knope_versioning::semver::StableRule;

#[test]
fn simple_changeset() {
    let package_change = PackageChange {
        unique_id: "1234".to_string(),
        change_type: ChangesetType::Minor,
        summary: "# a feature\n\n\n\n".into(),
    };
    let change = Change::from_package_change_and_commit(&package_change, None);
    assert_eq!(change.summary, "a feature");
    assert!(change.details.is_none());
    assert_eq!(
        change.original_source,
        ChangeSource::ChangeFile {
            id: package_change.unique_id,
        }
    );
    assert_eq!(change.change_type, ChangeType::Feature);
}

#[test]
fn complex_changeset() {
    let package_change = PackageChange {
        unique_id: "1234".to_string(),
        change_type: ChangesetType::Minor,
        summary: "# a feature\n\nwith details\n\n- first\n- second".into(),
    };
    let change = Change::from_package_change_and_commit(&package_change, None);
    assert_eq!(change.summary, "a feature");
    assert_eq!(change.details.unwrap(), "with details\n\n- first\n- second");
    assert_eq!(
        change.original_source,
        ChangeSource::ChangeFile {
            id: package_change.unique_id,
        }
    );
    assert_eq!(change.change_type, ChangeType::Feature);
}

#[test]
fn from_package_changes_with_commits() {
    let changes_with_commits = vec![
        (
            PackageChange {
                unique_id: "committed-change".to_string(),
                change_type: ChangesetType::Major,
                summary: "# Breaking change".into(),
            },
            Some(GitInfo {
                author_name: "Bob".to_string(),
                hash: "def456".to_string(),
            }),
        ),
        (
            PackageChange {
                unique_id: "uncommitted-change".to_string(),
                change_type: ChangesetType::Minor,
                summary: "# Feature without commit".into(),
            },
            None,
        ),
    ];

    let changes: Vec<Change> = Change::from_changeset(&changes_with_commits);

    assert_eq!(changes.len(), 2);

    assert_eq!(changes[0].summary, "Breaking change");
    assert_eq!(changes[0].git.as_ref().unwrap().author_name, "Bob");
    assert_eq!(changes[0].git.as_ref().unwrap().hash, "def456");
    assert_eq!(changes[0].change_type, ChangeType::Breaking);

    assert_eq!(changes[1].summary, "Feature without commit");
    assert_eq!(changes[1].git, None);
}

#[test]
fn patch_and_custom_change_types() {
    let patch = PackageChange {
        unique_id: "p".to_string(),
        change_type: ChangesetType::Patch,
        summary: "a fix".into(),
    };
    assert_eq!(
        Change::from_package_change_and_commit(&patch, None).change_type,
        ChangeType::Fix
    );
    assert_eq!(ChangesetType::from_name("major"), ChangesetType::Major);
    assert_eq!(
        ChangesetType::from_name("note"),
        ChangesetType::Custom("note".to_string())
    );
}

#[test]
fn rule_does_not_depend_on_order_of_changes() {
    let fix = Change::from_package_change_and_commit(
        &PackageChange {
            unique_id: "a".to_string(),
            change_type: ChangesetType::Patch,
            summary: "fix".into(),
        },
        None,
    );
    let feature = Change::from_package_change_and_commit(
        &PackageChange {
            unique_id: "b".to_string(),
            change_type: ChangesetType::Minor,
            summary: "feature".into(),
        },
        None,
    );
    let a = StableRule::from_changes(&[fix.clone(), feature.clone()]);
    let b = StableRule::from_changes(&[feature, fix]);
    assert_eq!(a, StableRule::Minor);
    assert_eq!(a, b);
    assert_eq!(StableRule::from_changes(&[]), StableRule::Patch);
}
