use valhall::scope::Scope;

#[test]
fn scope_intersect() {
    let scope = Scope::from_bits(Scope::yank().bits() | Scope::publish_new().bits()).unwrap();
    assert!(scope.intersects(Scope::publish()));

    let scope = Scope::from_bits(Scope::yank().bits() | Scope::publish_update().bits()).unwrap();
    assert!(scope.intersects(Scope::publish()));

    let scope =
        Scope::from_bits(Scope::publish_new().bits() | Scope::publish_update().bits()).unwrap();
    assert!(scope.intersects(Scope::publish()));

    let scope = Scope::from_bits(Scope::yank().bits() | Scope::change_owners().bits()).unwrap();
    assert!(!scope.intersects(Scope::publish()))
}

#[test]
fn scope_contains() {
    let scope = Scope::from_bits(Scope::yank().bits() | Scope::change_owners().bits()).unwrap();
    assert!(scope.contains(Scope::yank()));

    let scope = Scope::from_bits(Scope::yank().bits() | Scope::change_owners().bits()).unwrap();
    assert!(!scope.contains(Scope::publish_new()))
}

#[test]
fn scope_publish() {
    let scope =
        Scope::from_bits(Scope::publish_new().bits() | Scope::publish_update().bits()).unwrap();
    assert_eq!(scope, Scope::publish());
}

#[test]
fn scope_labels() {
    assert_eq!(Scope::change_owners().label(), "change-owners");
    assert_eq!(Scope::publish().label(), "publish-(new|update)");
    assert_eq!(Scope::publish_new().label(), "publish-new");
    assert_eq!(Scope::publish_update().label(), "publish-update");
    assert_eq!(Scope::yank().label(), "yank");
    assert_eq!(
        Scope::from_bits(Scope::yank().bits() | Scope::publish_new().bits())
            .unwrap()
            .label(),
        "unknown"
    );
}

#[test]
fn scope_rejects_unknown_bits() {
    assert!(Scope::from_bits(0b10000).is_none());
    assert!(Scope::from_bits(0b1111).is_some());
    assert_eq!(Scope::from_bits(0).unwrap().bits(), 0);
}
