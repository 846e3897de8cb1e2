use valhall::version::Version;

fn v(major: u64, minor: u64, patch: u64) -> Version {
    Version::release(major, minor, patch)
}

fn vpre(major: u64, minor: u64, patch: u64, pre: &[&str]) -> Version {
    let mut out = Version::release(major, minor, patch);
    out.pre = pre.iter().map(|p| p.as_bytes().to_vec()).collect();
    out
}

#[test]
fn precedence_on_numeric_triple() {
    assert!(v(1, 0, 0).precedes(&v(2, 0, 0)));
    assert!(v(1, 9, 9).precedes(&v(2, 0, 0)));
    assert!(v(1, 2, 3).precedes(&v(1, 3, 0)));
    assert!(v(1, 2, 3).precedes(&v(1, 2, 4)));
    assert!(!v(1, 2, 3).precedes(&v(1, 2, 3)));
    assert!(!v(2, 0, 0).precedes(&v(1, 9, 9)));
}

#[test]
fn precedence_of_pre_releases() {
    // the ladder from the semantic-versioning specification
    let ladder = vec![
        vpre(1, 0, 0, &["alpha"]),
        vpre(1, 0, 0, &["alpha", "1"]),
        vpre(1, 0, 0, &["alpha", "beta"]),
        vpre(1, 0, 0, &["beta"]),
        vpre(1, 0, 0, &["beta", "2"]),
        vpre(1, 0, 0, &["beta", "11"]),
        vpre(1, 0, 0, &["rc", "1"]),
        v(1, 0, 0),
    ];
    for i in 0..ladder.len() {
        for j in 0..ladder.len() {
            assert_eq!(ladder[i].precedes(&ladder[j]), i < j, "at {} {}", i, j);
        }
    }
}

#[test]
fn build_metadata_is_ignored() {
    let mut a = v(1, 2, 3);
    a.build = b"build7".to_vec();
    let b = v(1, 2, 3);
    assert!(!a.precedes(&b));
    assert!(!b.precedes(&a));
    assert!(a.same_version(&b));
}

#[test]
fn version_text_is_canonical() {
    assert_eq!(v(1, 2, 3).to_text(), "1.2.3");
    assert_eq!(v(0, 0, 0).to_text(), "0.0.0");
    assert_eq!(v(10, 250, 4001).to_text(), "10.250.4001");
    let mut w = vpre(1, 2, 3, &["alpha", "1"]);
    assert_eq!(w.to_text(), "1.2.3-alpha.1");
    w.build = b"build5".to_vec();
    assert_eq!(w.to_text(), "1.2.3-alpha.1+build5");
    let mut only_build = v(2, 0, 1);
    only_build.build = b"nightly".to_vec();
    assert_eq!(only_build.to_text(), "2.0.1+nightly");
}

#[test]
fn duplicate_copies_every_field() {
    let mut a = vpre(4, 5, 6, &["rc", "2"]);
    a.build = b"meta".to_vec();
    let b = a.duplicate();
    assert_eq!(b.major, 4);
    assert_eq!(b.minor, 5);
    assert_eq!(b.patch, 6);
    assert_eq!(b.pre, vec![b"rc".to_vec(), b"2".to_vec()]);
    assert_eq!(b.build, b"meta".to_vec());
}
