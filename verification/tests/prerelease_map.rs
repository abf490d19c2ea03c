use knope_versioning::semver::prerelease_map::PrereleaseMap;
use knope_versioning::semver::{Label, Prerelease};

#[test]
fn prerelease_map_keeps_the_latest_per_label_and_gives_the_greatest_label_last() {
    let mut map = PrereleaseMap::new(Prerelease::new(Label::from_text("rc"), 0));
    map.insert(Prerelease::new(Label::from_text("alpha"), 3));
    map.insert(Prerelease::new(Label::from_text("rc"), 2));
    map.insert(Prerelease::new(Label::from_text("beta"), 1));
    let last = map.last();
    assert_eq!(last, &Prerelease::new(Label::from_text("rc"), 2));
    assert_eq!(map.get(&Label::from_text("alpha")), Some(&Prerelease::new(Label::from_text("alpha"), 3)));
    assert_eq!(map.get(&Label::from_text("gamma")), None);
}
