use knope_versioning::changes::ChangeType;
use knope_versioning::config::{convert_to_versioning, Asset, ChangelogSection, Template, Variable};
use knope_versioning::release_notes::{CommitFooter, CustomChangeType, SectionName, SectionSource};

#[test]
fn no_extra_sections_gives_the_built_in_ones() {
    let sections = convert_to_versioning(Vec::new());
    assert_eq!(
        sections.0,
        vec![
            (SectionName::from("Breaking Changes"), vec![ChangeType::Breaking]),
            (SectionName::from("Features"), vec![ChangeType::Feature]),
            (SectionName::from("Fixes"), vec![ChangeType::Fix]),
        ]
    );
}

#[test]
fn extra_section_takes_its_types_and_absorbs_same_name() {
    let sections = convert_to_versioning(vec![
        ChangelogSection {
            name: SectionName::from("Notes"),
            footers: vec![CommitFooter::from("Changelog-Note")],
            types: vec![CustomChangeType::from("note")],
        },
        ChangelogSection {
            name: SectionName::from("Fixes"),
            footers: Vec::new(),
            types: vec![CustomChangeType::from("major")],
        },
    ]);
    assert_eq!(
        sections.0,
        vec![
            (SectionName::from("Features"), vec![ChangeType::Feature]),
            (
                SectionName::from("Notes"),
                vec![
                    ChangeType::Custom(SectionSource::CommitFooter(CommitFooter::from("Changelog-Note"))),
                    ChangeType::Custom(SectionSource::CustomChangeType(CustomChangeType::from("note"))),
                ]
            ),
            (
                SectionName::from("Fixes"),
                vec![ChangeType::Breaking, ChangeType::Fix]
            ),
        ]
    );
}

#[test]
fn template_replaces_used_variables() {
    let template = Template::new("Release $version\n\n$changelog".to_string(), None);
    let looked_up = std::cell::RefCell::new(Vec::new());
    let result: Result<String, ()> = template.replace_variables(|v| {
        looked_up.borrow_mut().push(v);
        Ok(match v {
            Variable::Version => "1.2.3".to_string(),
            _ => "notes".to_string(),
        })
    });
    assert_eq!(result.unwrap(), "Release 1.2.3\n\nnotes");
    assert_eq!(looked_up.into_inner(), vec![Variable::Version, Variable::ChangelogEntry]);
}

#[test]
fn template_skips_unused_variables() {
    let template = Template::new("plain".to_string(), None);
    let result: Result<String, &str> = template.replace_variables(|_| Err("not needed"));
    assert_eq!(result.unwrap(), "plain");
}

#[test]
fn template_passes_on_lookup_error() {
    let template = Template::new("$version".to_string(), None);
    let result: Result<String, &str> = template.replace_variables(|_| Err("no version"));
    assert_eq!(result.unwrap_err(), "no version");
}

#[test]
fn asset_name_from_path() {
    let asset = Asset {
        path: "dist/app.tar.gz".to_string(),
        name: None,
    };
    assert_eq!(asset.name().unwrap(), "app.tar.gz");
    let named = Asset {
        path: "dist/app.tar.gz".to_string(),
        name: Some("custom".to_string()),
    };
    assert_eq!(named.name().unwrap(), "custom");
    let nameless = Asset {
        path: String::new(),
        name: None,
    };
    assert!(nameless.name().is_err());
}
