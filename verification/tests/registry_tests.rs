use ws_gateway::registry::{Registry, RegistryError};

#[test]
fn insert_then_get() {
    let mut reg: Registry<String> = Registry::new();
    assert!(reg.insert(1, String::from("alpha")).is_ok());
    assert_eq!(reg.get(1), Some(&String::from("alpha")));
    assert_eq!(reg.len(), 1);
}

#[test]
fn insert_duplicate_fails_and_changes_nothing() {
    let mut reg: Registry<String> = Registry::new();
    assert!(reg.insert(7, String::from("first")).is_ok());
    let r = reg.insert(7, String::from("second"));
    assert_eq!(r, Err(RegistryError::DuplicateIdentity));
    assert_eq!(reg.get(7), Some(&String::from("first")));
    assert_eq!(reg.len(), 1);
}

#[test]
fn removed_identity_is_absent() {
    let mut reg: Registry<String> = Registry::new();
    reg.insert(1, String::from("a")).unwrap();
    reg.insert(2, String::from("b")).unwrap();
    reg.remove(1);
    assert_eq!(reg.get(1), None);
    assert!(!reg.contains(1));
    assert_eq!(reg.get(2), Some(&String::from("b")));
    assert_eq!(reg.len(), 1);
}

#[test]
fn remove_is_idempotent() {
    let mut reg: Registry<String> = Registry::new();
    reg.insert(1, String::from("a")).unwrap();
    reg.insert(2, String::from("b")).unwrap();
    reg.remove(1);
    let len_after_once = reg.len();
    // A handler may remove again after an error without checking prior
    // state: no error, registry unchanged.
    reg.remove(1);
    assert_eq!(reg.len(), len_after_once);
    assert_eq!(reg.get(1), None);
    assert_eq!(reg.get(2), Some(&String::from("b")));
}

#[test]
fn remove_unknown_identity_is_a_noop() {
    let mut reg: Registry<String> = Registry::new();
    reg.insert(3, String::from("c")).unwrap();
    reg.remove(99);
    assert_eq!(reg.len(), 1);
    assert_eq!(reg.get(3), Some(&String::from("c")));
}

#[test]
fn broadcast_targets_exclude_the_sender() {
    let mut reg: Registry<String> = Registry::new();
    reg.insert(1, String::from("a")).unwrap();
    reg.insert(2, String::from("b")).unwrap();
    reg.insert(3, String::from("c")).unwrap();
    let mut targets = reg.broadcast_targets(Some(1));
    targets.sort();
    assert_eq!(targets, vec![2, 3]);
    let mut all = reg.broadcast_targets(None);
    all.sort();
    assert_eq!(all, vec![1, 2, 3]);
}

#[test]
fn broadcast_failure_evicts_only_the_failed_recipient() {
    // A sends to B and C; the send to B fails. C still got the frame (it
    // was in the same target list), and only B is evicted.
    let mut reg: Registry<String> = Registry::new();
    reg.insert(1, String::from("a")).unwrap();
    reg.insert(2, String::from("b")).unwrap();
    reg.insert(3, String::from("c")).unwrap();
    let targets = reg.broadcast_targets(Some(1));
    assert!(targets.contains(&2));
    assert!(targets.contains(&3));
    let failed = vec![2];
    reg.remove_all(&failed);
    assert_eq!(reg.get(2), None);
    assert_eq!(reg.get(3), Some(&String::from("c")));
    assert_eq!(reg.get(1), Some(&String::from("a")));
    // A's next broadcast reaches C alone, without error.
    let next = reg.broadcast_targets(Some(1));
    assert_eq!(next, vec![3]);
}

#[test]
fn empty_registry_has_no_targets() {
    let reg: Registry<String> = Registry::new();
    assert_eq!(reg.broadcast_targets(None), Vec::<u64>::new());
    assert_eq!(reg.len(), 0);
}
