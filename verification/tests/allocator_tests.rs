use ws_gateway::database::Database;

#[test]
fn first_identity_is_one() {
    let mut db = Database::new();
    assert_eq!(db.next_client_id(), 1);
}

#[test]
fn identities_strictly_increase() {
    let mut db = Database::new();
    let mut issued = Vec::new();
    for _ in 0..100 {
        issued.push(db.next_client_id());
    }
    for i in 0..issued.len() {
        for j in (i + 1)..issued.len() {
            assert!(issued[i] < issued[j]);
            assert_ne!(issued[i], issued[j]);
        }
    }
}

#[test]
fn default_matches_new() {
    let mut a = Database::new();
    let mut b = Database::default();
    assert_eq!(a.next_client_id(), b.next_client_id());
}

#[test]
fn concurrent_peers_never_share_an_identity() {
    // Two handlers registering in either order: whichever races ahead, the
    // two issued identities always differ.
    let mut db = Database::new();
    let a = db.next_client_id();
    let b = db.next_client_id();
    assert_eq!(a, 1);
    assert_eq!(b, 2);
    assert_ne!(a, b);
}
