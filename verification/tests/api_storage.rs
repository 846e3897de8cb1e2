use valhall::api::{
    authorize_owner_change, authorize_yank, check_owner_membership, check_owner_removal,
    plan_owner_additions, unyank, unyank_text, yank, yank_text,
};
use valhall::errors::{ApiError2, IndexError};
use valhall::index::{Index, SparseIndex};
use valhall::record::CrateVersion;
use valhall::scope::{Scope, Token};
use valhall::storage::Storage;
use valhall::version::Version;

fn v(major: u64, minor: u64, patch: u64) -> Version {
    Version::release(major, minor, patch)
}

fn rec(name: &str, version: Version) -> CrateVersion {
    CrateVersion {
        name: name.to_string(),
        version,
        dependencies: Vec::new(),
        checksum: String::from("00"),
        features: Vec::new(),
        yanked: false,
        links: None,
    }
}

fn token(bits: u32) -> Token {
    Token { user_id: 1, scope: Scope::from_bits(bits).unwrap() }
}

#[test]
fn yank_requires_the_yank_scope() {
    let mut idx = Index::Sparse(SparseIndex::new());
    idx.add_record(rec("demo", v(1, 0, 0))).unwrap();
    let no_scope = token(Scope::publish().bits());
    let e = yank(&mut idx, &no_scope, &String::from("demo"), &v(1, 0, 0));
    match e {
        Err(ApiError2::MissingTokenScope(sc)) => assert_eq!(sc, Scope::yank()),
        other => panic!("expected MissingTokenScope, got {:?}", other),
    }
    assert!(!idx.all_records(&String::from("demo")).unwrap()[0].yanked);

    let ok = yank(&mut idx, &token(Scope::yank().bits()), &String::from("demo"), &v(1, 0, 0));
    assert!(ok.unwrap().ok);
    assert!(idx.all_records(&String::from("demo")).unwrap()[0].yanked);
}

#[test]
fn unyank_restores_the_record() {
    let mut idx = Index::Sparse(SparseIndex::new());
    idx.add_record(rec("demo", v(1, 0, 0))).unwrap();
    let t = token(Scope::yank().bits());
    yank(&mut idx, &t, &String::from("demo"), &v(1, 0, 0)).unwrap();
    let r = unyank(&mut idx, &t, &String::from("demo"), &v(1, 0, 0)).unwrap();
    assert!(r.ok);
    assert!(!idx.all_records(&String::from("demo")).unwrap()[0].yanked);
}

#[test]
fn yank_of_unknown_crate_is_an_index_error() {
    let mut idx = Index::Sparse(SparseIndex::new());
    let t = token(Scope::yank().bits());
    let e = yank(&mut idx, &t, &String::from("ghost"), &v(1, 0, 0));
    assert!(matches!(e, Err(ApiError2::Index(IndexError::PackageNotFound))));
}

#[test]
fn authorize_checks_the_right_bits() {
    assert!(authorize_yank(&token(Scope::yank().bits())).is_ok());
    assert!(authorize_yank(&token(Scope::publish().bits())).is_err());
    assert!(authorize_owner_change(&token(Scope::change_owners().bits())).is_ok());
    assert!(authorize_owner_change(&token(Scope::yank().bits())).is_err());
}

#[test]
fn yank_text_parses_and_yanks() {
    let mut idx = Index::Sparse(SparseIndex::new());
    idx.add_record(rec("demo", v(1, 0, 0))).unwrap();
    let t = token(Scope::yank().bits());
    let name = String::from("demo");

    assert!(matches!(
        yank_text(&mut idx, &t, &name, b"one.two.three"),
        Err(ApiError2::VersionSyntax)
    ));
    assert!(!idx.all_records(&name).unwrap()[0].yanked);

    let no_scope = token(Scope::publish().bits());
    assert!(matches!(
        yank_text(&mut idx, &no_scope, &name, b"1.0.0"),
        Err(ApiError2::MissingTokenScope(_))
    ));

    assert!(yank_text(&mut idx, &t, &name, b"1.0.0").unwrap().ok);
    assert!(idx.all_records(&name).unwrap()[0].yanked);
    assert!(matches!(
        yank_text(&mut idx, &t, &name, b"9.9.9"),
        Err(ApiError2::Index(IndexError::VersionNotFound))
    ));

    assert!(unyank_text(&mut idx, &t, &name, b"1.0.0").unwrap().ok);
    assert!(!idx.all_records(&name).unwrap()[0].yanked);
    assert!(matches!(
        unyank_text(&mut idx, &t, &name, b""),
        Err(ApiError2::VersionSyntax)
    ));
}

#[test]
fn owner_membership_gates_mutations() {
    let owners = vec![3, 5, 8];
    assert!(check_owner_membership(&owners, 5).is_ok());
    assert!(matches!(
        check_owner_membership(&owners, 4),
        Err(ApiError2::CrateNotOwned)
    ));
    assert!(matches!(
        check_owner_membership(&Vec::new(), 1),
        Err(ApiError2::CrateNotOwned)
    ));
}

#[test]
fn owner_additions_filter_existing_owners() {
    let existing = vec![1, 2, 3];
    let requested = vec![2, 4, 1, 5, 4];
    assert_eq!(plan_owner_additions(&existing, &requested), vec![4, 5, 4]);
    assert_eq!(plan_owner_additions(&existing, &Vec::new()), Vec::<i64>::new());
    assert_eq!(plan_owner_additions(&Vec::new(), &requested), requested);
}

#[test]
fn sole_owner_cannot_be_removed() {
    assert!(matches!(
        check_owner_removal(1),
        Err(ApiError2::CannotRemoveOnlyOwner)
    ));
    assert!(check_owner_removal(2).is_ok());
    assert!(check_owner_removal(0).is_ok());
}

#[test]
fn storage_put_get_and_overwrite() {
    let mut st = Storage::new(String::from("/tmp/crates"));
    let name = String::from("demo");
    st.store_crate(&name, &v(1, 0, 0), &b"first".to_vec());
    assert_eq!(st.get_crate(&name, &v(1, 0, 0)).unwrap(), b"first".to_vec());
    assert!(st.get_crate(&name, &v(2, 0, 0)).is_none());
    // same key: overwrite, not a second entry
    st.store_crate(&name, &v(1, 0, 0), &b"second".to_vec());
    assert_eq!(st.get_crate(&name, &v(1, 0, 0)).unwrap(), b"second".to_vec());
    assert_eq!(st.get_all_crates().len(), 1);
}

#[test]
fn storage_listing_names_versions() {
    let mut st = Storage::new(String::from("/tmp/crates"));
    st.store_crate(&String::from("alpha"), &v(1, 2, 3), &b"a".to_vec());
    st.store_crate(&String::from("beta"), &v(0, 1, 0), &b"b".to_vec());
    let all = st.get_all_crates();
    assert_eq!(all.len(), 2);
    assert_eq!(all[0].name, "alpha");
    assert_eq!(all[0].version, "1.2.3");
    assert_eq!(all[1].name, "beta");
    assert_eq!(all[1].version, "0.1.0");
}

#[test]
fn api_error_details_are_reported() {
    let e = ApiError2::CrateNotOwned.to_api();
    assert_eq!(e.detail, "you are not an owner of this crate");
    let e = ApiError2::MalformedPayload.to_api();
    assert_eq!(e.detail, "the publish payload is malformed");
    let e = ApiError2::MissingTokenScope(Scope::yank()).to_api();
    assert_eq!(e.detail, "the api token does not contain the required scope");
}
