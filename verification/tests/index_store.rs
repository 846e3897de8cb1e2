use valhall::errors::IndexError;
use valhall::index::{CommitAction, GitIndex, Index, SparseIndex};
use valhall::record::{CrateDependency, CrateDependencyKind, CrateVersion, FeatureEntry};
use valhall::requirement::Requirement;
use valhall::version::Version;

fn v(major: u64, minor: u64, patch: u64) -> Version {
    Version::release(major, minor, patch)
}

fn rec(name: &str, version: Version) -> CrateVersion {
    CrateVersion {
        name: name.to_string(),
        version,
        dependencies: Vec::new(),
        checksum: String::from("00ff"),
        features: Vec::new(),
        yanked: false,
        links: None,
    }
}

fn sparse() -> Index {
    Index::Sparse(SparseIndex::new())
}

#[test]
fn add_then_read_round_trip_keeps_every_field() {
    let mut idx = sparse();
    let mut record = rec("serde", v(1, 0, 3));
    record.checksum = String::from("deadbeefcafe");
    record.links = Some(String::from("zlib"));
    record.dependencies.push(CrateDependency {
        name: String::from("itoa"),
        req: Requirement::Caret(v(1, 0, 0)),
        features: vec![String::from("std")],
        optional: false,
        default_features: true,
        target: Some(String::from("cfg(windows)")),
        kind: CrateDependencyKind::Normal,
        registry: None,
        package: Some(String::from("itoa-real")),
    });
    record.features.push(FeatureEntry {
        name: String::from("derive"),
        enables: vec![String::from("serde_derive")],
    });
    idx.add_record(record).unwrap();

    let back = idx.all_records(&String::from("serde")).unwrap();
    assert_eq!(back.len(), 1);
    let r = &back[0];
    assert_eq!(r.name, "serde");
    assert_eq!(r.version.to_text(), "1.0.3");
    assert_eq!(r.checksum, "deadbeefcafe");
    assert_eq!(r.links.as_deref(), Some("zlib"));
    assert!(!r.yanked);
    assert_eq!(r.dependencies.len(), 1);
    let d = &r.dependencies[0];
    assert_eq!(d.name, "itoa");
    assert!(matches!(&d.req, Requirement::Caret(c) if c.to_text() == "1.0.0"));
    assert_eq!(d.features, vec![String::from("std")]);
    assert!(!d.optional);
    assert!(d.default_features);
    assert_eq!(d.target.as_deref(), Some("cfg(windows)"));
    assert!(matches!(d.kind, CrateDependencyKind::Normal));
    assert_eq!(d.package.as_deref(), Some("itoa-real"));
    assert_eq!(r.features.len(), 1);
    assert_eq!(r.features[0].name, "derive");
    assert_eq!(r.features[0].enables, vec![String::from("serde_derive")]);
}

#[test]
fn duplicate_version_is_rejected_and_changes_nothing() {
    let mut idx = sparse();
    idx.add_record(rec("demo", v(1, 0, 0))).unwrap();
    let e = idx.add_record(rec("demo", v(1, 0, 0)));
    assert!(matches!(e, Err(IndexError::DuplicateVersion)));
    assert_eq!(idx.all_records(&String::from("demo")).unwrap().len(), 1);
}

#[test]
fn missing_package_reads_as_not_found() {
    let idx = sparse();
    assert!(matches!(
        idx.all_records(&String::from("ghost")),
        Err(IndexError::PackageNotFound)
    ));
    assert!(matches!(
        idx.latest_record(&String::from("ghost")),
        Err(IndexError::PackageNotFound)
    ));
}

#[test]
fn yank_twice_equals_yank_once() {
    let mut idx = sparse();
    idx.add_record(rec("demo", v(1, 0, 0))).unwrap();
    idx.add_record(rec("demo", v(1, 1, 0))).unwrap();
    let name = String::from("demo");
    let target = v(1, 0, 0);

    idx.yank_record(&name, &target).unwrap();
    let once: Vec<(String, bool)> = idx
        .all_records(&name)
        .unwrap()
        .iter()
        .map(|r| (r.version.to_text(), r.yanked))
        .collect();

    idx.yank_record(&name, &target).unwrap();
    let twice: Vec<(String, bool)> = idx
        .all_records(&name)
        .unwrap()
        .iter()
        .map(|r| (r.version.to_text(), r.yanked))
        .collect();

    assert_eq!(once, twice);
    assert_eq!(
        once,
        vec![
            (String::from("1.0.0"), true),
            (String::from("1.1.0"), false)
        ]
    );
}

#[test]
fn unyank_twice_equals_unyank_once() {
    let mut idx = sparse();
    idx.add_record(rec("demo", v(1, 0, 0))).unwrap();
    let name = String::from("demo");
    let target = v(1, 0, 0);
    idx.yank_record(&name, &target).unwrap();
    idx.unyank_record(&name, &target).unwrap();
    let once: Vec<bool> = idx.all_records(&name).unwrap().iter().map(|r| r.yanked).collect();
    idx.unyank_record(&name, &target).unwrap();
    let twice: Vec<bool> = idx.all_records(&name).unwrap().iter().map(|r| r.yanked).collect();
    assert_eq!(once, twice);
    assert_eq!(once, vec![false]);
}

#[test]
fn yank_of_missing_version_fails_without_change() {
    let mut idx = sparse();
    idx.add_record(rec("demo", v(1, 0, 0))).unwrap();
    let e = idx.yank_record(&String::from("demo"), &v(9, 9, 9));
    assert!(matches!(e, Err(IndexError::VersionNotFound)));
    let back = idx.all_records(&String::from("demo")).unwrap();
    assert_eq!(back.len(), 1);
    assert!(!back[0].yanked);
}

#[test]
fn interleaved_adds_for_two_packages_never_corrupt_either() {
    let mut idx = sparse();
    let mut expect_a = 0u64;
    let mut expect_b = 0u64;
    for i in 0..30u64 {
        if i % 2 == 0 {
            idx.add_record(rec("alpha", v(1, i, 0))).unwrap();
            expect_a += 1;
        } else {
            idx.add_record(rec("beta", v(2, i, 0))).unwrap();
            expect_b += 1;
        }
    }
    let a = idx.all_records(&String::from("alpha")).unwrap();
    let b = idx.all_records(&String::from("beta")).unwrap();
    assert_eq!(a.len() as u64, expect_a);
    assert_eq!(b.len() as u64, expect_b);
    for r in &a {
        assert_eq!(r.name, "alpha");
    }
    for r in &b {
        assert_eq!(r.name, "beta");
    }
    // storage order is insertion order
    assert_eq!(a[0].version.to_text(), "1.0.0");
    assert_eq!(a[1].version.to_text(), "1.2.0");
    assert_eq!(b[0].version.to_text(), "2.1.0");
}

#[test]
fn git_backend_queues_one_commit_per_mutation() {
    let mut git = Index::Git(GitIndex::new(String::from("/tmp/index-repo")));
    git.add_record(rec("demo", v(1, 0, 0))).unwrap();
    git.yank_record(&String::from("demo"), &v(1, 0, 0)).unwrap();
    let (pending, first_msg, second_msg) = match &git {
        Index::Git(g) => {
            let p = g.pending_commits();
            (
                p.len(),
                p[0].message(),
                p[1].message(),
            )
        }
        _ => unreachable!(),
    };
    assert_eq!(pending, 2);
    assert_eq!(first_msg, "added crate demo (1.0.0)");
    assert_eq!(second_msg, "yanked crate demo (1.0.0)");
    match &git {
        Index::Git(g) => {
            assert!(matches!(g.pending_commits()[0].action, CommitAction::Publish));
            assert!(matches!(g.pending_commits()[1].action, CommitAction::Yank));
        }
        _ => unreachable!(),
    }
}

#[test]
fn rejected_push_keeps_local_commits_for_retry() {
    let mut g = GitIndex::new(String::from("/tmp/index-repo"));
    let mut idx = Index::Git(g);
    idx.add_record(rec("demo", v(1, 0, 0))).unwrap();
    g = match idx {
        Index::Git(inner) => inner,
        _ => unreachable!(),
    };
    let e = g.apply_push_outcome(false);
    assert!(matches!(e, Err(valhall::errors::VcsError::PushRejected)));
    assert_eq!(g.pending_commits().len(), 1);
    g.apply_push_outcome(true).unwrap();
    assert_eq!(g.pending_commits().len(), 0);
    // the record itself stays visible either way
    assert_eq!(g.tree.read_all(&String::from("demo")).unwrap().len(), 1);
}

#[test]
fn latest_and_match_compose_with_the_store() {
    let mut idx = sparse();
    idx.add_record(rec("demo", v(1, 0, 0))).unwrap();
    idx.add_record(rec("demo", v(1, 5, 0))).unwrap();
    idx.add_record(rec("demo", v(1, 2, 0))).unwrap();
    let name = String::from("demo");
    assert_eq!(idx.latest_record(&name).unwrap().version.to_text(), "1.5.0");
    idx.yank_record(&name, &v(1, 5, 0)).unwrap();
    // latest ignores yank state ...
    assert_eq!(idx.latest_record(&name).unwrap().version.to_text(), "1.5.0");
    // ... but match does not
    let hit = idx.match_record(&name, &Requirement::Caret(v(1, 0, 0))).unwrap();
    assert_eq!(hit.version.to_text(), "1.2.0");
}
