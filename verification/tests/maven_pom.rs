use std::str::FromStr;

use knope_versioning::semver::Version;
use knope_versioning::versioned_file::maven_pom::{Error, MavenPom};
use knope_versioning::Action;

#[test]
fn get_version() {
    let content = r"
        <project>
          <modelVersion>4.0.0</modelVersion>
          <groupId>com.mycompany.app</groupId>
          <artifactId>my-app</artifactId>
          <version>1.2.3-rc.1</version>
        </project>
        ";

    assert_eq!(
        MavenPom::new(String::new(), content.to_string())
            .unwrap()
            .get_version()
            .unwrap(),
        Version::from_str("1.2.3-rc.1").unwrap()
    );
}

#[test]
fn error_on_missing_project() {
    let content = r"
        <somethingElse>
          Invalid data  
        </somethingElse>
        ";

    let pom = MavenPom::new(String::new(), content.to_string());
    if let Err(Error::MissingRequiredProperties { property, .. }) = pom {
        assert_eq!(property, "project");
    } else {
        panic!("Expected error");
    }
}

#[test]
fn error_on_missing_version() {
    let content = r"
        <project>
          <modelVersion>4.0.0</modelVersion>
          <groupId>com.mycompany.app</groupId>
          <artifactId>my-app</artifactId>
        </project>
        ";

    let pom = MavenPom::new(String::new(), content.to_string()).unwrap();
    if let Err(Error::MissingRequiredProperties { property, .. }) = pom.get_version() {
        assert_eq!(property, "project.version");
    } else {
        panic!("Expected error");
    }
}

#[test]
fn set_version() {
    let content = r"
        <project>
          <modelVersion>4.0.0</modelVersion>
          <groupId>com.mycompany.app</groupId>
          <artifactId>my-app</artifactId>
          <version>0.1.0-rc.0</version>
        </project>
        ";

    let pom = MavenPom::new(String::new(), content.to_string()).unwrap();

    let new_version = Version::from_str("1.2.3-rc.4").unwrap();
    let pom = pom.set_version(&new_version).unwrap();
    let expected = r"<project>
  <modelVersion>4.0.0</modelVersion>
  <groupId>com.mycompany.app</groupId>
  <artifactId>my-app</artifactId>
  <version>1.2.3-rc.4</version>
</project>";
    assert_eq!(pom.raw, expected);
}

#[test]
fn maven_write_reports_the_version() {
    let content = "<project><version>1.0.0</version></project>";
    let pom = MavenPom::new("pom.xml".to_string(), content.to_string()).unwrap();
    let pom = pom.set_version(&Version::new(1, 0, 1, None)).unwrap();
    let Some(Action::WriteToFile { path, diff, .. }) = pom.write() else {
        panic!("expected a write");
    };
    assert_eq!(path, "pom.xml");
    assert_eq!(diff, "project.version = 1.0.1");
}

#[test]
fn invalid_xml_is_an_error() {
    assert!(MavenPom::new("pom.xml".to_string(), "<project>".to_string()).is_err());
}
