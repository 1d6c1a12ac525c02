use remit_registries::auth::CallAuths;
use remit_registries::errors::Error;
use remit_registries::kyc::KycRegistry;

fn auth_for(p: u64) -> CallAuths {
    let mut a = CallAuths::new();
    a.grant(p);
    a
}

#[test]
fn kyc_flow() {
    let mut reg = KycRegistry::new();
    let admin: u64 = 1;
    let user: u64 = 2;
    let admin_auth = auth_for(admin);
    let user_auth = auth_for(user);

    reg.init(admin, &admin_auth).unwrap();
    reg.start(user, &user_auth).unwrap();
    assert_eq!(reg.get_status(user).unwrap(), "pending".to_string());
    reg.set_status(user, "approved".to_string(), &admin_auth).unwrap();
    assert_eq!(reg.get_status(user).unwrap(), "approved".to_string());
}

#[test]
fn kyc_init_twice_fails_and_keeps_admin() {
    let mut reg = KycRegistry::new();
    let admin_auth = auth_for(1);
    let other_auth = auth_for(5);

    assert_eq!(reg.init(1, &admin_auth), Ok(()));
    assert_eq!(reg.init(5, &other_auth), Err(Error::AlreadyInitialized));
    // The stored admin is still principal 1: 5 cannot act as admin, 1 can.
    assert_eq!(
        reg.set_status(2, "approved".to_string(), &other_auth),
        Err(Error::Unauthorized)
    );
    assert_eq!(reg.set_status(2, "approved".to_string(), &admin_auth), Ok(()));
}

#[test]
fn kyc_init_requires_authorization() {
    let mut reg = KycRegistry::new();
    let empty = CallAuths::new();
    assert_eq!(reg.init(1, &empty), Err(Error::Unauthorized));
    // The failed call left the admin slot empty.
    assert_eq!(
        reg.set_status(2, "approved".to_string(), &auth_for(1)),
        Err(Error::NotInitialized)
    );
}

#[test]
fn kyc_start_requires_the_user_own_authorization() {
    let mut reg = KycRegistry::new();
    let admin_auth = auth_for(1);
    reg.init(1, &admin_auth).unwrap();
    // Even the admin cannot start KYC on another's behalf.
    assert_eq!(reg.start(2, &admin_auth), Err(Error::Unauthorized));
    assert_eq!(reg.get_status(2), None);
}

#[test]
fn kyc_set_status_unauthorized_leaves_record_unchanged() {
    let mut reg = KycRegistry::new();
    let admin_auth = auth_for(1);
    let user_auth = auth_for(2);
    reg.init(1, &admin_auth).unwrap();
    reg.start(2, &user_auth).unwrap();
    assert_eq!(
        reg.set_status(2, "approved".to_string(), &user_auth),
        Err(Error::Unauthorized)
    );
    assert_eq!(reg.get_status(2).unwrap(), "pending".to_string());
}

#[test]
fn kyc_set_status_before_init_fails() {
    let mut reg = KycRegistry::new();
    assert_eq!(
        reg.set_status(2, "approved".to_string(), &auth_for(1)),
        Err(Error::NotInitialized)
    );
}

#[test]
fn kyc_start_resets_status_to_pending() {
    let mut reg = KycRegistry::new();
    let admin_auth = auth_for(1);
    let user_auth = auth_for(2);
    reg.init(1, &admin_auth).unwrap();
    reg.start(2, &user_auth).unwrap();
    reg.set_status(2, "approved".to_string(), &admin_auth).unwrap();
    assert_eq!(reg.get_status(2).unwrap(), "approved".to_string());
    // An explicit re-submission: start again resets even an approved status.
    reg.start(2, &user_auth).unwrap();
    assert_eq!(reg.get_status(2).unwrap(), "pending".to_string());
}

#[test]
fn kyc_get_status_absent_is_none_not_an_error() {
    let reg = KycRegistry::new();
    assert_eq!(reg.get_status(42), None);
}

#[test]
fn kyc_set_status_needs_no_prior_start() {
    let mut reg = KycRegistry::new();
    let admin_auth = auth_for(1);
    reg.init(1, &admin_auth).unwrap();
    reg.set_status(9, "rejected".to_string(), &admin_auth).unwrap();
    assert_eq!(reg.get_status(9).unwrap(), "rejected".to_string());
}
