use media_guard::{derive_identifier, AddressStore, MediaKind};

#[test]
fn first_registration_wins() {
    let mut store = AddressStore::new();
    let id = "b7502f40-1152-59f2-ba10-69aeed522cdf";
    assert!(store.register(id, "uploads/a.png", MediaKind::Image));
    assert!(!store.register(id, "uploads/b.mp4", MediaKind::Video));
    let rec = store.lookup(id).unwrap();
    assert_eq!(rec.path, "uploads/a.png");
    assert_eq!(rec.kind, MediaKind::Image);
    assert_eq!(rec.identifier, id);
}

#[test]
fn lookup_of_unregistered_identifier() {
    let mut store = AddressStore::new();
    assert!(store.lookup("e129f27c-5103-5c5c-844b-cdf0a15e160d").is_none());
    assert!(store.register("e129f27c-5103-5c5c-844b-cdf0a15e160d", "p", MediaKind::Video));
    assert!(store.lookup("E129F27C-5103-5C5C-844B-CDF0A15E160D").is_none());
    assert!(store.lookup("e129f27c-5103-5c5c-844b-cdf0a15e160").is_none());
    assert!(store.lookup("").is_none());
}

#[test]
fn many_identifiers_kept_apart() {
    let mut store = AddressStore::new();
    for i in 0..50u8 {
        let id = derive_identifier(&[i]);
        assert!(store.register(&id, &format!("f{}", i), if i % 2 == 0 { MediaKind::Image } else { MediaKind::Video }));
    }
    for i in 0..50u8 {
        let id = derive_identifier(&[i]);
        assert!(!store.register(&id, "other", MediaKind::Image));
        let rec = store.lookup(&id).unwrap();
        assert_eq!(rec.path, format!("f{}", i));
        assert_eq!(rec.kind, if i % 2 == 0 { MediaKind::Image } else { MediaKind::Video });
    }
}
