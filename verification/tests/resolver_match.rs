use valhall::errors::{ApiError2, IndexError};
use valhall::record::CrateVersion;
use valhall::requirement::Requirement;
use valhall::resolver::{latest, match_req, would_accept_publish};
use valhall::version::Version;

fn v(major: u64, minor: u64, patch: u64) -> Version {
    Version::release(major, minor, patch)
}

fn vpre(major: u64, minor: u64, patch: u64, pre: &[&str]) -> Version {
    let mut out = Version::release(major, minor, patch);
    out.pre = pre.iter().map(|p| p.as_bytes().to_vec()).collect();
    out
}

fn rec(name: &str, version: Version, yanked: bool) -> CrateVersion {
    CrateVersion {
        name: name.to_string(),
        version,
        dependencies: Vec::new(),
        checksum: String::from("0000"),
        features: Vec::new(),
        yanked,
        links: None,
    }
}

#[test]
fn latest_returns_maximum_regardless_of_yank() {
    let records = vec![
        rec("demo", v(1, 0, 0), false),
        rec("demo", v(1, 4, 2), true),
        rec("demo", v(1, 3, 9), false),
    ];
    let best = latest(&records).unwrap();
    assert_eq!(best.version.to_text(), "1.4.2");
    assert!(best.yanked);

    let empty: Vec<CrateVersion> = Vec::new();
    assert!(matches!(latest(&empty), Err(IndexError::NotFound)));
}

#[test]
fn latest_ranks_pre_release_below_release() {
    let records = vec![
        rec("demo", vpre(2, 0, 0, &["alpha"]), false),
        rec("demo", v(1, 9, 0), false),
    ];
    // 2.0.0-alpha is still newer than 1.9.0
    assert_eq!(latest(&records).unwrap().version.to_text(), "2.0.0-alpha");

    let records = vec![
        rec("demo", vpre(2, 0, 0, &["alpha"]), false),
        rec("demo", v(2, 0, 0), false),
    ];
    assert_eq!(latest(&records).unwrap().version.to_text(), "2.0.0");
}

#[test]
fn match_skips_yanked_records() {
    let records = vec![
        rec("demo", v(1, 0, 0), false),
        rec("demo", v(1, 2, 0), true),
        rec("demo", v(1, 1, 0), false),
    ];
    let req = Requirement::Caret(v(1, 0, 0));
    let hit = match_req(&records, &req).unwrap();
    assert_eq!(hit.version.to_text(), "1.1.0");
    assert!(!hit.yanked);
}

#[test]
fn match_exact_pin_still_resolves_yanked() {
    let records = vec![rec("demo", v(1, 2, 0), true), rec("demo", v(1, 3, 0), false)];
    let pin = Requirement::Exact(v(1, 2, 0));
    let hit = match_req(&records, &pin).unwrap();
    assert_eq!(hit.version.to_text(), "1.2.0");
    assert!(hit.yanked);
}

#[test]
fn match_wildcard_never_selects_pre_release() {
    let records = vec![
        rec("demo", vpre(1, 0, 0, &["alpha"]), false),
        rec("demo", v(0, 9, 0), false),
    ];
    let hit = match_req(&records, &Requirement::Wildcard).unwrap();
    assert_eq!(hit.version.to_text(), "0.9.0");

    let only_pre = vec![rec("demo", vpre(1, 0, 0, &["alpha"]), false)];
    assert!(matches!(
        match_req(&only_pre, &Requirement::Wildcard),
        Err(IndexError::NotFound)
    ));
}

#[test]
fn match_caret_respects_leading_nonzero_component() {
    let records = vec![
        rec("demo", v(0, 2, 3), false),
        rec("demo", v(0, 2, 9), false),
        rec("demo", v(0, 3, 0), false),
        rec("demo", v(1, 0, 0), false),
    ];
    let hit = match_req(&records, &Requirement::Caret(v(0, 2, 3))).unwrap();
    assert_eq!(hit.version.to_text(), "0.2.9");
    let hit = match_req(&records, &Requirement::Caret(v(1, 0, 0))).unwrap();
    assert_eq!(hit.version.to_text(), "1.0.0");
    assert!(matches!(
        match_req(&records, &Requirement::Caret(v(2, 0, 0))),
        Err(IndexError::NotFound)
    ));
}

#[test]
fn match_caret_with_pre_release_requirement() {
    let records = vec![
        rec("demo", vpre(1, 2, 3, &["beta"]), false),
        rec("demo", v(1, 2, 2), false),
    ];
    // ^1.2.3-alpha admits 1.2.3-beta (same triple, higher pre)
    let req = Requirement::Caret(vpre(1, 2, 3, &["alpha"]));
    let hit = match_req(&records, &req).unwrap();
    assert_eq!(hit.version.to_text(), "1.2.3-beta");
}

#[test]
fn accepts_strictly_newer_versions_only() {
    let records = vec![rec("demo", v(1, 1, 0), false)];
    assert!(would_accept_publish(&records, &v(1, 2, 0)).is_ok());
    assert!(would_accept_publish(&records, &v(2, 0, 0)).is_ok());
    match would_accept_publish(&records, &v(1, 0, 5)) {
        Err(ApiError2::VersionTooLow { available, provided }) => {
            assert_eq!(available.to_text(), "1.1.0");
            assert_eq!(provided.to_text(), "1.0.5");
        }
        other => panic!("expected VersionTooLow, got {:?}", other),
    }
}

#[test]
fn rejection_names_the_highest_compatible_version() {
    let records = vec![
        rec("demo", v(1, 1, 0), false),
        rec("demo", v(1, 2, 0), true),
    ];
    // yanked records still block a too-low publish
    match would_accept_publish(&records, &v(1, 0, 5)) {
        Err(ApiError2::VersionTooLow { available, provided }) => {
            assert_eq!(available.to_text(), "1.2.0");
            assert_eq!(provided.to_text(), "1.0.5");
        }
        other => panic!("expected VersionTooLow, got {:?}", other),
    }
}
