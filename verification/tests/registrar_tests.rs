use vns::hashing::{blake2_256, make_commitment};
use vns::registrar::{InitRegistrar, RegistrarError, RegistrarEvent, RegistrarState};

fn actor(tag: u8) -> Vec<u8> {
    vec![tag; 32]
}

fn default_init() -> InitRegistrar {
    InitRegistrar {
        registry: actor(1),
        tld_node: vec![0u8; 32],
        controller: actor(7),
        base_price: 100,
        premium_price: 50,
        min_commit_age: 10,
        max_commit_age: 100,
        grace_period: 5,
    }
}

#[test]
fn blake2b_256_known_digests() {
    let empty = blake2_256(&vec![]);
    assert_eq!(
        empty,
        vec![
            14u8, 87, 81, 192, 38, 229, 67, 178, 232, 171, 46, 176, 96, 153, 218, 161, 209, 229,
            223, 71, 119, 143, 119, 135, 250, 171, 69, 205, 241, 47, 227, 168
        ]
    );
    let abc = blake2_256(&vec![b'a', b'b', b'c']);
    assert_eq!(
        abc,
        vec![
            189u8, 221, 129, 60, 99, 66, 57, 114, 49, 113, 239, 63, 238, 152, 87, 155, 148, 150,
            78, 59, 177, 203, 62, 66, 114, 98, 200, 192, 104, 213, 35, 25
        ]
    );
}

#[test]
fn commitment_is_hash_of_concatenated_preimage() {
    let name = vec![b'v', b'n', b's'];
    let owner = actor(2);
    let secret = actor(3);
    let salt = actor(4);
    let c = make_commitment(&name, &owner, &secret, &salt);
    assert_eq!(c.len(), 32);
    let mut preimage = Vec::new();
    preimage.extend_from_slice(&name);
    preimage.extend_from_slice(&owner);
    preimage.extend_from_slice(&secret);
    preimage.extend_from_slice(&salt);
    assert_eq!(c, blake2_256(&preimage));
    // The digest is not the preimage handed back: 100 bytes in, 32 out.
    assert_ne!(c, preimage);
}

#[test]
fn price_premium_for_short_names() {
    let s = RegistrarState::seed(default_init());
    assert_eq!(s.price(&vec![b'a'; 4], 10), 1500);
    assert_eq!(s.price(&vec![b'a'; 6], 10), 1000);
    assert_eq!(s.price(&vec![b'a'; 257], 10), 0);
}

#[test]
fn never_registered_names_are_available() {
    let s = RegistrarState::seed(default_init());
    let name = vec![b'f', b'r', b'e', b'e'];
    assert!(s.available(&name, 6));
    assert_eq!(s.expiry_of(&name), None);
}

#[test]
fn availability_waits_out_the_grace_period() {
    // grace_period is 5: at now == 5 the default expiry 0 still shields the
    // name; at 6 it is available.
    let s = RegistrarState::seed(default_init());
    let name = vec![b'f', b'r', b'e', b'e'];
    assert!(!s.available(&name, 5));
    assert!(s.available(&name, 6));
}

#[test]
fn commit_reveal_roundtrip() {
    let mut s = RegistrarState::seed(default_init());
    let name = vec![b'v', b'n', b's'];
    let owner = actor(2);
    let secret = actor(3);
    let salt = actor(4);
    let c = make_commitment(&name, &owner, &secret, &salt);
    let ev = s.commit(c.clone(), 100).unwrap();
    assert_eq!(ev, RegistrarEvent::CommitSubmitted { commitment: c, timestamp: 100 });

    // Reveal at exactly commit_time + min_commit_age.
    let ev = s
        .register(name.clone(), owner.clone(), 500, secret.clone(), salt.clone(), None, 110)
        .unwrap();
    assert_eq!(
        ev,
        RegistrarEvent::NameRegistered { name: name.clone(), owner: owner.clone(), expires: 610, cost: 75000 }
    );
    assert_eq!(s.expiry_of(&name), Some(610));

    // The commitment was consumed: the same reveal now finds none.
    let err = s.register(name, owner, 500, secret, salt, None, 111).unwrap_err();
    assert_eq!(err, RegistrarError::CommitmentNotFound);
}

#[test]
fn reveal_window_boundaries() {
    // min 10, max 100; commit at t = 100.
    let mut s = RegistrarState::seed(default_init());
    let name = vec![b'e', b'd', b'g', b'e'];
    let owner = actor(2);
    let secret = actor(3);
    let salt = actor(4);
    let c = make_commitment(&name, &owner, &secret, &salt);
    s.commit(c, 100).unwrap();

    let err = s
        .register(name.clone(), owner.clone(), 500, secret.clone(), salt.clone(), None, 109)
        .unwrap_err();
    assert_eq!(err, RegistrarError::CommitmentTooNew);

    let err = s
        .register(name.clone(), owner.clone(), 500, secret.clone(), salt.clone(), None, 201)
        .unwrap_err();
    assert_eq!(err, RegistrarError::CommitmentExpired);

    // The lower bound itself succeeds.
    s.register(name.clone(), owner.clone(), 500, secret.clone(), salt.clone(), None, 110)
        .unwrap();

    // The upper bound is inclusive: a fresh name revealed at exactly
    // commit_time + max_commit_age succeeds.
    let name2 = vec![b'l', b'a', b't', b'e'];
    let c2 = make_commitment(&name2, &owner, &secret, &salt);
    s.commit(c2, 100).unwrap();
    s.register(name2, owner, 500, secret, salt, None, 200).unwrap();
}

#[test]
fn register_rejects_reserved_and_overlong_names() {
    let mut s = RegistrarState::seed(default_init());
    let controller = actor(7);
    let reserved_name = vec![b'r', b's', b'v', b'd'];
    s.reserve_names(vec![reserved_name.clone()], &controller).unwrap();
    assert!(!s.available(&reserved_name, 1000));

    let owner = actor(2);
    let secret = actor(3);
    let salt = actor(4);
    let err = s
        .register(reserved_name, owner.clone(), 5, secret.clone(), salt.clone(), None, 50)
        .unwrap_err();
    assert_eq!(err, RegistrarError::NameReserved);

    let err = s
        .register(vec![b'x'; 257], owner, 5, secret, salt, None, 50)
        .unwrap_err();
    assert_eq!(err, RegistrarError::NameTooLong);
}

#[test]
fn registered_name_is_unavailable_until_grace_passes() {
    let mut s = RegistrarState::seed(default_init());
    let name = vec![b't', b'a', b'k', b'e', b'n'];
    let owner = actor(2);
    let secret = actor(3);
    let salt = actor(4);
    let c = make_commitment(&name, &owner, &secret, &salt);
    s.commit(c, 100).unwrap();
    s.register(name.clone(), owner.clone(), 500, secret.clone(), salt.clone(), None, 110)
        .unwrap();
    // Expires at 610, grace 5: unavailable through 615, available at 616.
    assert!(!s.available(&name, 615));
    assert!(s.available(&name, 616));

    // A second reveal of a fresh commitment while the name is active fails.
    let salt2 = actor(9);
    let c2 = make_commitment(&name, &owner, &secret, &salt2);
    s.commit(c2, 300).unwrap();
    let err = s
        .register(name, owner, 500, secret, salt2, None, 400)
        .unwrap_err();
    assert_eq!(err, RegistrarError::NameNotAvailable);
}

#[test]
fn renew_extends_from_stored_expiry_not_from_now() {
    // A name with expiry 1000 and grace 100, renewed at now = 1050 for 500,
    // expires at 1500, not 1550.
    let mut init = default_init();
    init.grace_period = 100;
    let mut s = RegistrarState::seed(init);
    let name = vec![b'k', b'e', b'e', b'p'];
    let owner = actor(2);
    let secret = actor(3);
    let salt = actor(4);
    let c = make_commitment(&name, &owner, &secret, &salt);
    s.commit(c, 490).unwrap();
    s.register(name.clone(), owner, 500, secret, salt, None, 500).unwrap();
    assert_eq!(s.expiry_of(&name), Some(1000));

    let ev = s.renew(name.clone(), 500, 1050).unwrap();
    assert_eq!(ev, RegistrarEvent::NameRenewed { name: name.clone(), expires: 1500, cost: 75000 });
    assert_eq!(s.expiry_of(&name), Some(1500));
}

#[test]
fn renew_rejects_names_past_their_grace_deadline() {
    let mut s = RegistrarState::seed(default_init());
    let name = vec![b'g', b'o', b'n', b'e'];
    // Never registered: expiry defaults to 0, grace 5, so at now = 6 the
    // grace deadline has passed.
    let err = s.renew(name, 10, 6).unwrap_err();
    assert_eq!(err, RegistrarError::NameNotRenewable);
}

#[test]
fn commit_rejects_duplicates() {
    let mut s = RegistrarState::seed(default_init());
    let c = vec![5u8; 32];
    s.commit(c.clone(), 10).unwrap();
    let err = s.commit(c, 20).unwrap_err();
    assert_eq!(err, RegistrarError::CommitmentExists);
}

#[test]
fn register_overflow_in_age_check_is_rejected() {
    let mut s = RegistrarState::seed(default_init());
    let name = vec![b'o', b'v', b'e', b'r'];
    let owner = actor(2);
    let secret = actor(3);
    let salt = actor(4);
    let c = make_commitment(&name, &owner, &secret, &salt);
    s.commit(c, u64::MAX - 5).unwrap();
    let err = s
        .register(name, owner, 5, secret, salt, None, u64::MAX)
        .unwrap_err();
    assert_eq!(err, RegistrarError::ArithmeticOverflow);
}

#[test]
fn reserve_names_batch_over_cap_fails_entirely() {
    let mut s = RegistrarState::seed(default_init());
    let controller = actor(7);
    let mut labels = Vec::new();
    for i in 0..101u8 {
        labels.push(vec![b'r', i]);
    }
    let probe = labels[0].clone();
    let err = s.reserve_names(labels, &controller).unwrap_err();
    assert_eq!(err, RegistrarError::TooManyLabels);
    // No partial insertion: the first of the batch is still unreserved.
    assert!(s.available(&probe, 100));

    // A batch of exactly 100 is accepted whole.
    let mut labels = Vec::new();
    for i in 0..100u8 {
        labels.push(vec![b'r', i]);
    }
    s.reserve_names(labels, &controller).unwrap();
    assert!(!s.available(&probe, 100));
}

#[test]
fn reserve_names_rejects_overlong_labels() {
    let mut s = RegistrarState::seed(default_init());
    let controller = actor(7);
    let labels = vec![vec![b'a'; 10], vec![b'b'; 257]];
    let err = s.reserve_names(labels, &controller).unwrap_err();
    assert_eq!(err, RegistrarError::LabelTooLong);
    assert!(s.available(&vec![b'a'; 10], 100));
}

#[test]
fn admin_mutators_reject_strangers() {
    let mut s = RegistrarState::seed(default_init());
    let stranger = actor(9);
    assert_eq!(s.set_prices(1, 2, &stranger).unwrap_err(), RegistrarError::NotController);
    assert_eq!(s.set_commit_ages(1, 2, &stranger).unwrap_err(), RegistrarError::NotController);
    assert_eq!(s.set_grace_period(1, &stranger).unwrap_err(), RegistrarError::NotController);
    assert_eq!(
        s.reserve_names(vec![vec![b'x']], &stranger).unwrap_err(),
        RegistrarError::NotController
    );
    assert_eq!(
        s.withdraw(actor(9), 0, &stranger).unwrap_err(),
        RegistrarError::NotController
    );
}

#[test]
fn admin_mutators_update_configuration() {
    let mut s = RegistrarState::seed(default_init());
    let controller = actor(7);
    let ev = s.set_prices(200, 80, &controller).unwrap();
    assert_eq!(ev, RegistrarEvent::PricesSet { base: 200, premium: 80 });
    assert_eq!(s.price(&vec![b'a'; 4], 10), 2800);

    let ev = s.set_commit_ages(3, 30, &controller).unwrap();
    assert_eq!(ev, RegistrarEvent::CommitAgesSet { min: 3, max: 30 });

    let ev = s.set_grace_period(50, &controller).unwrap();
    assert_eq!(ev, RegistrarEvent::GracePeriodSet { grace: 50 });
    // With grace 50, a never-registered name is shielded through 50.
    assert!(!s.available(&vec![b'z'], 50));
    assert!(s.available(&vec![b'z'], 51));
}

#[test]
fn withdraw_respects_balance() {
    let mut s = RegistrarState::seed(default_init());
    let controller = actor(7);
    let name = vec![b'p', b'a', b'i', b'd'];
    let owner = actor(2);
    let secret = actor(3);
    let salt = actor(4);
    let c = make_commitment(&name, &owner, &secret, &salt);
    s.commit(c, 100).unwrap();
    // Registration cost: (100 + 50) * 10 = 1500.
    s.register(name, owner, 10, secret, salt, None, 110).unwrap();

    let err = s.withdraw(actor(8), 2000, &controller).unwrap_err();
    assert_eq!(err, RegistrarError::InsufficientBalance);
    let ev = s.withdraw(actor(8), 1500, &controller).unwrap();
    assert_eq!(ev, RegistrarEvent::Withdrawn { to: actor(8), amount: 1500 });
    let err = s.withdraw(actor(8), 1, &controller).unwrap_err();
    assert_eq!(err, RegistrarError::InsufficientBalance);
}

#[test]
fn commit_cap_is_enforced() {
    let mut s = RegistrarState::seed(default_init());
    for i in 0..1000u32 {
        let mut c = vec![0u8; 32];
        c[0] = (i % 256) as u8;
        c[1] = (i / 256) as u8;
        s.commit(c, 10).unwrap();
    }
    let err = s.commit(vec![0xffu8; 32], 10).unwrap_err();
    assert_eq!(err, RegistrarError::TooManyCommitments);
}
