use valhall::errors::ApiError2;
use valhall::index::{Index, SparseIndex};
use valhall::publish::{checksum_hex, split_payload, CatalogOp, PublishCoordinator};
use valhall::record::CrateMetadata;
use valhall::scope::{Scope, Token};
use valhall::storage::Storage;
use valhall::version::Version;

fn v(major: u64, minor: u64, patch: u64) -> Version {
    Version::release(major, minor, patch)
}

fn meta(name: &str, version: Version) -> CrateMetadata {
    CrateMetadata {
        name: name.to_string(),
        version,
        dependencies: Vec::new(),
        features: Vec::new(),
        description: Some(String::from("a demo crate")),
        documentation: None,
        repository: Some(String::from("https://example.invalid/demo")),
        links: None,
    }
}

fn token(bits: u32, user_id: i64) -> Token {
    Token { user_id, scope: Scope::from_bits(bits).unwrap() }
}

fn coordinator() -> PublishCoordinator {
    PublishCoordinator::new(
        Index::Sparse(SparseIndex::new()),
        Storage::new(String::from("/tmp/crates")),
    )
}

fn frame(meta_bytes: &[u8], archive: &[u8]) -> Vec<u8> {
    let mut out = Vec::new();
    out.extend_from_slice(&(meta_bytes.len() as u32).to_le_bytes());
    out.extend_from_slice(meta_bytes);
    out.extend_from_slice(&(archive.len() as u32).to_le_bytes());
    out.extend_from_slice(archive);
    out
}

#[test]
fn split_payload_reads_both_parts() {
    let bytes = frame(b"{\"name\":\"demo\"}", b"tar-bytes");
    let payload = split_payload(&bytes).unwrap();
    assert_eq!(payload.metadata, b"{\"name\":\"demo\"}".to_vec());
    assert_eq!(payload.archive, b"tar-bytes".to_vec());
}

#[test]
fn split_payload_ignores_trailing_bytes() {
    let mut bytes = frame(b"m", b"a");
    bytes.extend_from_slice(b"garbage");
    let payload = split_payload(&bytes).unwrap();
    assert_eq!(payload.metadata, b"m".to_vec());
    assert_eq!(payload.archive, b"a".to_vec());
}

#[test]
fn oversized_metadata_length_is_a_framing_error() {
    // the prefix declares 1000 metadata bytes; only a few follow
    let mut bytes = 1000u32.to_le_bytes().to_vec();
    bytes.extend_from_slice(b"short");
    assert!(matches!(
        split_payload(&bytes),
        Err(ApiError2::MalformedPayload)
    ));
}

#[test]
fn truncated_prefixes_are_framing_errors() {
    assert!(matches!(split_payload(b""), Err(ApiError2::MalformedPayload)));
    assert!(matches!(split_payload(b"\x01\x00"), Err(ApiError2::MalformedPayload)));
    // metadata fits, second prefix missing
    let bytes = 2u32.to_le_bytes().iter().copied().chain(*b"ab").collect::<Vec<u8>>();
    assert!(matches!(split_payload(&bytes), Err(ApiError2::MalformedPayload)));
    // second prefix declares more than remains
    let mut bytes = frame(b"ab", b"");
    bytes.truncate(bytes.len() - 4);
    bytes.extend_from_slice(&9u32.to_le_bytes());
    assert!(matches!(split_payload(&bytes), Err(ApiError2::MalformedPayload)));
}

#[test]
fn checksum_matches_known_digests() {
    assert_eq!(
        checksum_hex(&Vec::new()),
        "e3b0c44298fc1c149afbf4c8996fb92427ae41e4649b934ca495991b7852b855"
    );
    assert_eq!(
        checksum_hex(&b"hello".to_vec()),
        "2cf24dba5fb0a30e26e83b2ac5b9e29e1b161e5c1fa7425e73043362938b9824"
    );
}

#[test]
fn publish_new_package_writes_archive_index_and_catalog_ops() {
    let mut c = coordinator();
    let t = token(Scope::publish().bits(), 7);
    let archive = b"hello".to_vec();
    let ops = c
        .publish(&t, &meta("demo", v(1, 0, 0)), &archive, false, &Vec::new())
        .unwrap();

    assert_eq!(ops.len(), 3);
    match &ops[0] {
        CatalogOp::InsertPackage { name, description, .. } => {
            assert_eq!(name, "demo");
            assert_eq!(description.as_deref(), Some("a demo crate"));
        }
        other => panic!("expected InsertPackage, got {:?}", other),
    }
    match &ops[1] {
        CatalogOp::InsertOwner { user_id } => assert_eq!(*user_id, 7),
        other => panic!("expected InsertOwner, got {:?}", other),
    }
    match &ops[2] {
        CatalogOp::InsertVersion { name, version } => {
            assert_eq!(name, "demo");
            assert_eq!(version.to_text(), "1.0.0");
        }
        other => panic!("expected InsertVersion, got {:?}", other),
    }

    let stored = c.storage.get_crate(&String::from("demo"), &v(1, 0, 0)).unwrap();
    assert_eq!(stored, archive);
    let records = c.index.all_records(&String::from("demo")).unwrap();
    assert_eq!(records.len(), 1);
    assert_eq!(
        records[0].checksum,
        "2cf24dba5fb0a30e26e83b2ac5b9e29e1b161e5c1fa7425e73043362938b9824"
    );
    assert!(!records[0].yanked);
}

#[test]
fn publish_update_inserts_only_the_version_row() {
    let mut c = coordinator();
    let t = token(Scope::publish().bits(), 7);
    c.publish(&t, &meta("demo", v(1, 1, 0)), &b"one".to_vec(), false, &Vec::new())
        .unwrap();
    let owners = vec![7];
    let ops = c
        .publish(&t, &meta("demo", v(1, 2, 0)), &b"two".to_vec(), true, &owners)
        .unwrap();
    assert_eq!(ops.len(), 1);
    assert!(matches!(&ops[0], CatalogOp::InsertVersion { .. }));
    assert_eq!(c.index.all_records(&String::from("demo")).unwrap().len(), 2);
}

#[test]
fn publish_not_newer_version_fails_with_version_too_low() {
    let mut c = coordinator();
    let t = token(Scope::publish().bits(), 7);
    let owners = vec![7];
    c.publish(&t, &meta("demo", v(1, 1, 0)), &b"one".to_vec(), false, &Vec::new())
        .unwrap();
    c.publish(&t, &meta("demo", v(1, 2, 0)), &b"two".to_vec(), true, &owners)
        .unwrap();
    let e = c.publish(&t, &meta("demo", v(1, 0, 5)), &b"bad".to_vec(), true, &owners);
    match e {
        Err(ApiError2::VersionTooLow { available, provided }) => {
            assert_eq!(available.to_text(), "1.2.0");
            assert_eq!(provided.to_text(), "1.0.5");
        }
        other => panic!("expected VersionTooLow, got {:?}", other),
    }
    // the rejected publish left no trace
    assert!(c.storage.get_crate(&String::from("demo"), &v(1, 0, 5)).is_none());
    assert_eq!(c.index.all_records(&String::from("demo")).unwrap().len(), 2);
}

#[test]
fn publish_new_without_new_scope_has_no_side_effects() {
    let mut c = coordinator();
    // the token may only update existing packages
    let t = token(Scope::publish_update().bits(), 7);
    let e = c.publish(&t, &meta("fresh", v(1, 0, 0)), &b"data".to_vec(), false, &Vec::new());
    match e {
        Err(ApiError2::MissingTokenScope(sc)) => assert_eq!(sc, Scope::publish_new()),
        other => panic!("expected MissingTokenScope, got {:?}", other),
    }
    assert!(c.storage.get_crate(&String::from("fresh"), &v(1, 0, 0)).is_none());
    assert!(c.index.all_records(&String::from("fresh")).is_err());
    assert_eq!(c.storage.get_all_crates().len(), 0);
}

#[test]
fn publish_without_any_publish_scope_is_rejected_first() {
    let mut c = coordinator();
    let t = token(Scope::yank().bits() | Scope::change_owners().bits(), 7);
    let e = c.publish(&t, &meta("demo", v(1, 0, 0)), &b"x".to_vec(), false, &Vec::new());
    match e {
        Err(ApiError2::MissingTokenScope(sc)) => assert_eq!(sc, Scope::publish()),
        other => panic!("expected MissingTokenScope, got {:?}", other),
    }
}

#[test]
fn publish_update_requires_ownership() {
    let mut c = coordinator();
    let t = token(Scope::publish().bits(), 7);
    c.publish(&t, &meta("demo", v(1, 0, 0)), &b"x".to_vec(), false, &Vec::new())
        .unwrap();
    let stranger = token(Scope::publish().bits(), 99);
    let owners = vec![7];
    let e = c.publish(&stranger, &meta("demo", v(1, 1, 0)), &b"y".to_vec(), true, &owners);
    assert!(matches!(e, Err(ApiError2::CrateNotOwned)));
    assert_eq!(c.index.all_records(&String::from("demo")).unwrap().len(), 1);
}

#[test]
fn publish_duplicate_version_on_new_path_is_rejected() {
    let mut c = coordinator();
    let t = token(Scope::publish().bits(), 7);
    c.publish(&t, &meta("demo", v(1, 0, 0)), &b"x".to_vec(), false, &Vec::new())
        .unwrap();
    // a second new-package publish of the same version: the index
    // refuses the duplicate record
    let e = c.publish(&t, &meta("demo", v(1, 0, 0)), &b"y".to_vec(), false, &Vec::new());
    match e {
        Err(ApiError2::VersionAlreadyExists(ver)) => assert_eq!(ver.to_text(), "1.0.0"),
        other => panic!("expected VersionAlreadyExists, got {:?}", other),
    }
    assert_eq!(c.index.all_records(&String::from("demo")).unwrap().len(), 1);
}

#[test]
fn conclude_reports_success_even_when_the_catalog_failed() {
    assert!(PublishCoordinator::conclude(true).is_ok());
    assert!(PublishCoordinator::conclude(false).is_ok());
}
