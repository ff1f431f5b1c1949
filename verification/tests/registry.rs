use bank::Registry;

#[test]
fn new_registry_knows_no_bank() {
    let banks: Registry<u32> = Registry::new();
    for id in 0..=255u8 {
        assert!(!banks.contains(id));
        assert_eq!(banks.lookup(id), None);
    }
}

#[test]
fn registered_bank_is_found() {
    let mut banks: Registry<String> = Registry::new();
    assert_eq!(banks.register(1, String::from("first")), None);
    assert_eq!(banks.register(2, String::from("second")), None);
    assert!(banks.contains(1));
    assert!(banks.contains(2));
    assert!(!banks.contains(3));
    assert_eq!(banks.lookup(1), Some(&String::from("first")));
    assert_eq!(banks.lookup(2), Some(&String::from("second")));
    assert_eq!(banks.lookup(3), None);
}

#[test]
fn registering_again_replaces_the_handle() {
    let mut banks: Registry<u32> = Registry::new();
    assert_eq!(banks.register(7, 70), None);
    assert_eq!(banks.register(7, 71), Some(70));
    assert_eq!(banks.lookup(7), Some(&71));
}
