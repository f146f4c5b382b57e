use deet::session::BreakpointSet;

#[test]
fn addresses_kept_once_in_order() {
    let mut set = BreakpointSet::new();
    assert!(set.insert(0x401000));
    assert!(set.insert(0x401136));
    assert!(!set.insert(0x401000));
    assert_eq!(set.addresses(), &[0x401000, 0x401136]);
    assert_eq!(set.len(), 2);
    assert!(set.contains(0x401136));
    assert!(!set.contains(0x401137));
}

#[test]
fn break_argument_adds_its_address() {
    let mut set = BreakpointSet::new();
    assert_eq!(set.add_from_argument("*0x401136"), Some(0x401136));
    assert_eq!(set.add_from_argument("401136"), Some(0x401136));
    assert_eq!(set.add_from_argument("*main"), None);
    assert_eq!(set.addresses(), &[0x401136]);
}
