use std::str::FromStr;

use knope_versioning::semver::Version;
use knope_versioning::versioned_file::go_mod::{GoMod, ModuleLine, SetError};
use knope_versioning::versioned_file::GoVersioning;
use knope_versioning::Action;

#[test]
fn if_module_line_has_comment_no_tags_needed() {
    let go_mod = GoMod::new(
        "go.mod".to_string(),
        "module github.com/owner/repo // v2.1.4".to_string(),
        &[""],
    )
    .unwrap();
    assert_eq!(go_mod.get_version(), &Version::new(2, 1, 4, None));
}

#[test]
fn get_version_from_tag() {
    let go_mod = GoMod::new(
        "go.mod".to_string(),
        "module github.com/owner/repo".to_string(),
        &["v1.2.3"],
    )
    .unwrap();
    assert_eq!(go_mod.get_version(), &Version::new(1, 2, 3, None));
}

#[test]
fn use_v1_tags() {
    let go_mod = GoMod::new(
        "go.mod".to_string(),
        "module github.com/owner/repo".to_string(),
        &["v1.2.3", "v2.0.0"],
    )
    .unwrap();
    assert_eq!(go_mod.get_version(), &Version::new(1, 2, 3, None));
}

#[test]
fn look_for_major_tag() {
    let go_mod = GoMod::new(
        "go.mod".to_string(),
        "module github.com/owner/repo/v2".to_string(),
        &["v1.2.3", "v2.0.0", "v3.0.0"],
    )
    .unwrap();
    assert_eq!(go_mod.get_version(), &Version::new(2, 0, 0, None));
}

#[test]
fn tag_prefix_for_submodules() {
    let go_mod = GoMod::new(
        "submodule/go.mod".to_string(),
        "module github.com/owner/repo/submodule".to_string(),
        &["v1.2.3", "submodule/v0.2.0", "v1.2.4"],
    )
    .unwrap();
    assert_eq!(go_mod.get_version(), &Version::new(0, 2, 0, None));
}

#[test]
fn parse_basic() {
    let line = ModuleLine::from_str("module github.com/owner/repo").unwrap();
    assert_eq!(
        line,
        ModuleLine {
            module: "github.com/owner/repo".to_string(),
            major_version: None,
            version: None,
        }
    );
}

#[test]
fn parse_with_major_version() {
    let line = ModuleLine::from_str("module github.com/owner/repo/v2").unwrap();
    assert_eq!(
        line,
        ModuleLine {
            module: "github.com/owner/repo".to_string(),
            major_version: Some(2),
            version: None,
        }
    );
}

#[test]
fn parse_with_version() {
    let line = ModuleLine::from_str("module github.com/owner/repo // v2.1.4").unwrap();
    assert_eq!(
        line,
        ModuleLine {
            module: "github.com/owner/repo".to_string(),
            major_version: None,
            version: Some("2.1.4".parse().unwrap()),
        }
    );
}

#[test]
fn parse_with_major_version_and_version() {
    let line = ModuleLine::from_str("module github.com/owner/repo/v2 // v3.1.4").unwrap();
    assert_eq!(
        line,
        ModuleLine {
            module: "github.com/owner/repo".to_string(),
            major_version: Some(2),
            version: Some("3.1.4".parse().unwrap()),
        }
    );
}

#[test]
fn parse_with_random_comment() {
    let line = ModuleLine::from_str(
        "module github.com/owner/repo/v2 // comment that is not the thing you expect",
    )
    .unwrap();
    assert_eq!(
        line,
        ModuleLine {
            module: "github.com/owner/repo".to_string(),
            major_version: Some(2),
            version: None,
        }
    );
}

#[test]
fn format_basic() {
    let line = ModuleLine {
        module: "github.com/owner/repo".to_string(),
        major_version: None,
        version: None,
    };
    assert_eq!(line.to_string(), "module github.com/owner/repo");
}

#[test]
fn format_with_major_version() {
    let line = ModuleLine {
        module: "github.com/owner/repo".to_string(),
        major_version: Some(2),
        version: None,
    };
    assert_eq!(line.to_string(), "module github.com/owner/repo/v2");
}

#[test]
fn format_with_version() {
    let line = ModuleLine {
        module: "github.com/owner/repo".to_string(),
        major_version: None,
        version: Some("2.1.4".parse().unwrap()),
    };
    assert_eq!(line.to_string(), "module github.com/owner/repo // v2.1.4");
}

#[test]
fn format_with_major_version_and_version() {
    let line = ModuleLine {
        module: "github.com/owner/repo".to_string(),
        major_version: Some(2),
        version: Some("3.1.4".parse().unwrap()),
    };
    assert_eq!(
        line.to_string(),
        "module github.com/owner/repo/v2 // v3.1.4"
    );
}

#[test]
fn missing_module_path() {
    assert!(ModuleLine::from_str("module").is_err());
}

#[test]
fn no_matching_tag_is_an_error() {
    assert!(GoMod::new(
        "go.mod".to_string(),
        "module github.com/owner/repo".to_string(),
        &["v3.0.0"],
    )
    .is_err());
}

#[test]
fn set_version_writes_module_line_and_tag() {
    let go_mod = GoMod::new(
        "go.mod".to_string(),
        "module github.com/owner/repo\n\ngo 1.21\n".to_string(),
        &["v1.2.3"],
    )
    .unwrap();
    let [write, tag] = go_mod
        .set_version(&Version::new(1, 3, 0, None), GoVersioning::Standard)
        .unwrap();
    let Action::WriteToFile { content, .. } = write else {
        panic!("expected a write");
    };
    assert_eq!(content, "module github.com/owner/repo // v1.3.0\n\ngo 1.21\n");
    assert_eq!(tag, Action::AddTag { tag: "v1.3.0".to_string() });
}

#[test]
fn will_not_bump_to_v2_by_default() {
    let go_mod = GoMod::new(
        "go.mod".to_string(),
        "module github.com/owner/repo".to_string(),
        &["v1.2.3"],
    )
    .unwrap();
    assert_eq!(
        go_mod
            .set_version(&Version::new(2, 0, 0, None), GoVersioning::Standard)
            .unwrap_err(),
        SetError::BumpingToV2
    );
}

#[test]
fn bump_major_updates_module_line() {
    let go_mod = GoMod::new(
        "go.mod".to_string(),
        "module github.com/owner/repo".to_string(),
        &["v1.2.3"],
    )
    .unwrap();
    let [write, _] = go_mod
        .set_version(&Version::new(2, 0, 0, None), GoVersioning::BumpMajor)
        .unwrap();
    let Action::WriteToFile { content, .. } = write else {
        panic!("expected a write");
    };
    assert_eq!(content, "module github.com/owner/repo/v2 // v2.0.0");
}

#[test]
fn submodule_tag_has_prefix() {
    let go_mod = GoMod::new(
        "submodule/go.mod".to_string(),
        "module github.com/owner/repo/submodule".to_string(),
        &["submodule/v0.2.0"],
    )
    .unwrap();
    let [_, tag] = go_mod
        .set_version(&Version::new(0, 3, 0, None), GoVersioning::Standard)
        .unwrap();
    assert_eq!(
        tag,
        Action::AddTag {
            tag: "submodule/v0.3.0".to_string()
        }
    );
}

#[test]
fn module_line_prints_and_parses_back() {
    let line = ModuleLine {
        module: "github.com/owner/repo".to_string(),
        major_version: Some(3),
        version: Some("3.1.4-rc.2".parse().unwrap()),
    };
    assert_eq!(ModuleLine::from_str(&line.to_string()).unwrap(), line);
}

#[test]
fn empty_module_path_with_major_version_round_trips() {
    let line = ModuleLine { module: String::new(), major_version: Some(3), version: None };
    let text = line.to_string();
    assert_eq!(text, "module /v3");
    assert_eq!(ModuleLine::from_str(&text).unwrap(), line);
}
