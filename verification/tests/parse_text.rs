use valhall::api::match_version;
use valhall::errors::ApiError2;
use valhall::index::{Index, SparseIndex};
use valhall::parse::{parse_requirement, parse_version};
use valhall::record::CrateVersion;
use valhall::requirement::Requirement;
use valhall::version::Version;

#[test]
fn parse_plain_versions() {
    let v = parse_version(b"1.2.3").unwrap();
    assert_eq!((v.major, v.minor, v.patch), (1, 2, 3));
    assert!(v.pre.is_empty());
    assert!(v.build.is_empty());

    let v = parse_version(b"0.0.0").unwrap();
    assert_eq!((v.major, v.minor, v.patch), (0, 0, 0));

    let v = parse_version(b"10.250.4001").unwrap();
    assert_eq!(v.to_text(), "10.250.4001");
}

#[test]
fn parse_pre_release_and_build() {
    let v = parse_version(b"1.2.3-alpha.1").unwrap();
    assert_eq!(v.pre, vec![b"alpha".to_vec(), b"1".to_vec()]);
    assert!(v.build.is_empty());

    let v = parse_version(b"1.2.3-alpha.1+build5").unwrap();
    assert_eq!(v.pre, vec![b"alpha".to_vec(), b"1".to_vec()]);
    assert_eq!(v.build, b"build5".to_vec());

    let v = parse_version(b"2.0.1+nightly.01").unwrap();
    assert!(v.pre.is_empty());
    assert_eq!(v.build, b"nightly.01".to_vec());

    // parsing and rendering are inverse on canonical text
    for text in ["1.2.3", "0.1.0-rc.2", "3.4.5-a-b.9+x-y.7"] {
        assert_eq!(parse_version(text.as_bytes()).unwrap().to_text(), text);
    }
}

#[test]
fn parse_rejects_malformed_versions() {
    for bad in [
        "", "1", "1.2", "1.2.", "1.2.3.4", "01.2.3", "1.02.3", "1.2.03", "a.b.c", "1.2.x",
        "1.2.3-", "1.2.3-alpha..1", "1.2.3-01", "1.2.3+", "1.2.3 ", " 1.2.3", "1.2.3-al pha",
        "1.2.3-alpha+",
    ] {
        assert!(parse_version(bad.as_bytes()).is_none(), "accepted {:?}", bad);
    }
    // a numeric identifier with a leading zero is invalid, but the
    // same digits are fine inside an alphanumeric identifier
    assert!(parse_version(b"1.2.3-01a").is_some());
}

#[test]
fn parse_requirements_of_every_shape() {
    assert!(matches!(parse_requirement(b""), Some(Requirement::Wildcard)));
    assert!(matches!(parse_requirement(b"*"), Some(Requirement::Wildcard)));
    match parse_requirement(b"=1.2.3") {
        Some(Requirement::Exact(v)) => assert_eq!(v.to_text(), "1.2.3"),
        other => panic!("expected exact pin, got {:?}", other),
    }
    match parse_requirement(b"^1.2.3") {
        Some(Requirement::Caret(v)) => assert_eq!(v.to_text(), "1.2.3"),
        other => panic!("expected caret, got {:?}", other),
    }
    match parse_requirement(b"1.2.3") {
        Some(Requirement::Caret(v)) => assert_eq!(v.to_text(), "1.2.3"),
        other => panic!("expected caret, got {:?}", other),
    }
    assert!(parse_requirement(b"**").is_none());
    assert!(parse_requirement(b"=").is_none());
    assert!(parse_requirement(b">=1.2").is_none());
}

fn rec(name: &str, version: Version, yanked: bool) -> CrateVersion {
    CrateVersion {
        name: name.to_string(),
        version,
        dependencies: Vec::new(),
        checksum: String::from("00"),
        features: Vec::new(),
        yanked,
        links: None,
    }
}

#[test]
fn match_version_goes_through_the_text_surface() {
    let mut idx = Index::Sparse(SparseIndex::new());
    idx.add_record(rec("demo", parse_version(b"1.0.0").unwrap(), false)).unwrap();
    idx.add_record(rec("demo", parse_version(b"1.4.0").unwrap(), true)).unwrap();
    idx.add_record(rec("demo", parse_version(b"1.2.0").unwrap(), false)).unwrap();

    let name = String::from("demo");
    let hit = match_version(&idx, &name, b"^1.0.0").unwrap();
    assert_eq!(hit.version.to_text(), "1.2.0");
    let hit = match_version(&idx, &name, b"=1.4.0").unwrap();
    assert!(hit.yanked);
    let hit = match_version(&idx, &name, b"*").unwrap();
    assert_eq!(hit.version.to_text(), "1.2.0");
    assert!(matches!(
        match_version(&idx, &name, b"not a requirement"),
        Err(ApiError2::VersionSyntax)
    ));
}
