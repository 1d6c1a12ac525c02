use remit_registries::auth::CallAuths;

#[test]
fn call_auths_membership() {
    let mut a = CallAuths::new();
    assert!(!a.is_granted(1));
    a.grant(1);
    a.grant(7);
    assert!(a.is_granted(1));
    assert!(a.is_granted(7));
    assert!(!a.is_granted(2));
}
