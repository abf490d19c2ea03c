use std::str::FromStr;

use knope_versioning::semver::{
    Label, PackageVersions, Prerelease, Rule, StableRule, StableVersion, Version,
};

#[test]
fn collect_all_newer_pre_releases() {
    let tags = [
        "v2.0.0-alpha.0",
        "v1.3.0-beta.0",
        "v1.3.0-alpha.1",
        "v1.3.0-alpha.0",
        "v1.2.4-rc.0",
        "v1.2.3",
    ];

    let versions = PackageVersions::from_tags(None, &tags);

    assert_eq!(
        versions.stable().unwrap(),
        StableVersion {
            major: 1,
            minor: 2,
            patch: 3
        }
    );

    assert_eq!(
        versions.clone().into_latest(),
        Version::from_str("2.0.0-alpha.0").ok()
    );
    let v130 = StableVersion {
        major: 1,
        minor: 3,
        patch: 0,
    };
    assert_eq!(
        versions.get_prerelease(&v130, &Label::from("alpha")).unwrap(),
        Prerelease::new("alpha".into(), 1)
    );
    assert_eq!(
        versions.get_prerelease(&v130, &Label::from("beta")).unwrap(),
        Prerelease::new("beta".into(), 0)
    );
}

#[test]
fn major() {
    let mut versions: PackageVersions = Version::new(1, 2, 3, None).into();
    versions.bump(Rule::Stable(StableRule::Major)).unwrap();

    assert_eq!(versions.into_latest().unwrap(), Version::new(2, 0, 0, None));
}

#[test]
fn major_0() {
    let mut versions = PackageVersions::from(Version::new(0, 1, 2, None));
    versions.bump(Rule::Stable(StableRule::Major)).unwrap();

    assert_eq!(versions.into_latest().unwrap(), Version::new(0, 2, 0, None));
}

#[test]
fn major_pre_only() {
    let mut versions = PackageVersions::from_tags(None, &["v1.0.0-rc.0"]);
    versions.bump(Rule::Stable(StableRule::Major)).unwrap();

    assert_eq!(versions.into_latest().unwrap(), Version::new(1, 0, 0, None));
}

#[test]
fn major_unset() {
    let mut versions = PackageVersions::default();
    versions.bump(Rule::Stable(StableRule::Major)).unwrap();

    assert_eq!(versions.into_latest().unwrap(), Version::new(0, 0, 0, None));
}

#[test]
fn major_after_pre() {
    for pre_version in ["1.2.4-rc.0", "1.3.0-rc.0", "2.0.0-rc.0"] {
        let mut versions = PackageVersions::from(Version::new(1, 2, 3, None));
        versions.update_version(Version::from_str(pre_version).unwrap());
        versions.bump(Rule::Stable(StableRule::Major)).unwrap();

        assert_eq!(versions.into_latest().unwrap(), Version::new(2, 0, 0, None));
    }
}

#[test]
fn minor() {
    let mut versions = PackageVersions::from(Version::new(1, 2, 3, None));
    versions.bump(Rule::Stable(StableRule::Minor)).unwrap();

    assert_eq!(versions.into_latest().unwrap(), Version::new(1, 3, 0, None));
}

#[test]
fn minor_0() {
    let mut versions = PackageVersions::from(Version::new(0, 1, 2, None));
    versions.bump(Rule::Stable(StableRule::Minor)).unwrap();

    assert_eq!(versions.into_latest().unwrap(), Version::new(0, 1, 3, None));
}

#[test]
fn minor_pre_only() {
    let mut versions = PackageVersions::from_tags(None, &["v1.0.0-rc.0"]);
    versions.bump(Rule::Stable(StableRule::Minor)).unwrap();
    assert_eq!(versions.into_latest().unwrap(), Version::new(1, 0, 0, None));
}

#[test]
fn minor_unset() {
    let mut versions = PackageVersions::default();
    versions.bump(Rule::Stable(StableRule::Minor)).unwrap();

    assert_eq!(versions.into_latest().unwrap(), Version::new(0, 0, 0, None));
}

#[test]
fn minor_after_pre() {
    for pre_version in ["1.2.4-rc.0", "1.3.0-rc.0"] {
        let mut versions = PackageVersions::from(Version::new(1, 2, 3, None));
        versions.update_version(Version::from_str(pre_version).unwrap());
        versions.bump(Rule::Stable(StableRule::Minor)).unwrap();

        assert_eq!(versions.into_latest().unwrap(), Version::new(1, 3, 0, None));
    }
}

#[test]
fn patch() {
    let mut versions = PackageVersions::from(Version::new(1, 2, 3, None));
    versions.bump(Rule::Stable(StableRule::Patch)).unwrap();

    assert_eq!(versions.into_latest().unwrap(), Version::new(1, 2, 4, None));
}

#[test]
fn patch_0() {
    let mut versions = PackageVersions::from(Version::new(0, 1, 0, None));
    versions.bump(Rule::Stable(StableRule::Patch)).unwrap();

    assert_eq!(versions.into_latest().unwrap(), Version::new(0, 1, 1, None));
}

#[test]
fn patch_pre_only() {
    let mut versions = PackageVersions::from_tags(None, &["v1.0.0-rc.0"]);
    versions.bump(Rule::Stable(StableRule::Patch)).unwrap();
    assert_eq!(versions.into_latest().unwrap(), Version::new(1, 0, 0, None));
}

#[test]
fn patch_unset() {
    let mut versions = PackageVersions::default();
    versions.bump(Rule::Stable(StableRule::Patch)).unwrap();

    assert_eq!(versions.into_latest().unwrap(), Version::new(0, 0, 0, None));
}

#[test]
fn patch_after_pre() {
    let mut versions = PackageVersions::from(Version::new(1, 2, 3, None));
    versions.update_version(Version::from_str("1.2.4-rc.0").unwrap());
    versions.bump(Rule::Stable(StableRule::Patch)).unwrap();

    assert_eq!(versions.into_latest().unwrap(), Version::new(1, 2, 4, None));
}

#[test]
fn pre() {
    let mut versions = PackageVersions::from(Version::new(1, 2, 3, None));
    versions
        .bump(Rule::Pre {
            label: Label::from("rc"),
            stable_rule: StableRule::Minor,
        })
        .unwrap();

    assert_eq!(versions.into_latest(), Version::from_str("1.3.0-rc.0").ok());
}

#[test]
fn pre_after_same_pre() {
    let mut versions = PackageVersions::from(Version::new(1, 2, 3, None));
    versions.update_version(Version::from_str("1.3.0-rc.0").unwrap());
    versions.update_version(Version::from_str("1.2.4-rc.1").unwrap());
    versions.update_version(Version::from_str("2.0.0-rc.2").unwrap());
    versions
        .bump(Rule::Pre {
            label: Label::from("rc"),
            stable_rule: StableRule::Minor,
        })
        .unwrap();

    assert_eq!(versions.into_latest(), Version::from_str("1.3.0-rc.1").ok());
}

#[test]
fn pre_without_stable() {
    let mut versions = PackageVersions::default();
    versions.update_version(Version::from_str("1.3.0-rc.0").unwrap());
    versions.update_version(Version::from_str("1.2.4-rc.1").unwrap());
    versions.update_version(Version::from_str("2.0.0-rc.2").unwrap());
    versions
        .bump(Rule::Pre {
            label: Label::from("rc"),
            stable_rule: StableRule::Minor,
        })
        .unwrap();

    assert_eq!(versions.into_latest(), Version::from_str("2.0.0-rc.3").ok());
}

#[test]
fn pre_after_different_pre_version() {
    let mut versions = PackageVersions::from(Version::new(1, 2, 3, None));
    versions.update_version(Version::from_str("1.2.4-beta.1").unwrap());
    versions.update_version(Version::from_str("1.2.4-rc.0").unwrap());
    versions
        .bump(Rule::Pre {
            label: Label::from("beta"),
            stable_rule: StableRule::Patch,
        })
        .unwrap();

    assert_eq!(
        versions.into_latest(),
        Version::from_str("1.2.4-beta.2").ok()
    );
}

#[test]
fn pre_after_different_pre_label() {
    let mut versions = PackageVersions::from(Version::new(1, 2, 3, None));
    versions.update_version(Version::from_str("1.3.0-beta.0").unwrap());
    versions
        .bump(Rule::Pre {
            label: Label::from("rc"),
            stable_rule: StableRule::Minor,
        })
        .unwrap();

    assert_eq!(versions.into_latest(), Version::from_str("1.3.0-rc.0").ok());
}

#[test]
fn release() {
    let mut versions = PackageVersions::default();
    versions.update_version(Version::from_str("1.2.3-rc.0").unwrap());
    versions.update_version(Version::from_str("1.2.4-rc.1").unwrap());
    versions.update_version(Version::from_str("2.0.0-rc.2").unwrap());

    versions.bump(Rule::Release).unwrap();

    assert_eq!(versions.into_latest().unwrap(), Version::new(2, 0, 0, None));
}

#[test]
fn release_without_pre_release_is_an_error() {
    let mut versions = PackageVersions::from(Version::new(1, 2, 3, None));
    assert!(versions.bump(Rule::Release).is_err());
}

#[test]
fn bumped_version_is_the_latest() {
    let mut versions = PackageVersions::from(Version::new(1, 2, 3, None));
    let chosen = versions.bump(Rule::Stable(StableRule::Minor)).unwrap();
    assert_eq!(versions.into_latest(), Some(chosen));
}

#[test]
fn older_stable_version_does_not_replace_newer() {
    let mut versions = PackageVersions::from(Version::new(2, 0, 0, None));
    versions.update_version(Version::new(1, 0, 0, None));
    assert_eq!(versions.into_latest(), Some(Version::new(2, 0, 0, None)));
}

#[test]
fn version_prints_and_parses_back() {
    for text in ["1.2.3", "0.0.0", "10.20.30-rc.4", "1.0.0-alpha.0"] {
        let v = Version::from_str(text).unwrap();
        assert_eq!(v.to_string(), text);
    }
}

#[test]
fn version_parse_errors() {
    assert!(Version::from_str("1.2").is_err());
    assert!(Version::from_str("a.b.c").is_err());
    assert!(Version::from_str("1.2.3-rc").is_err());
}

#[test]
fn from_tags_takes_the_first_stable_tag_and_ignores_others() {
    let versions = PackageVersions::from_tags(None, &["other", "v2.0.0-rc.0", "vnot", "v1.0.0", "v0.5.0"]);
    assert_eq!(versions.stable(), Some(StableVersion { major: 1, minor: 0, patch: 0 }));
    assert_eq!(versions.into_latest(), Some(Version::from_str("2.0.0-rc.0").unwrap()));
}
