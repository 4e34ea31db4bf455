use vns::resolver::{ResolverError, ResolverEvent, ResolverState};

fn actor(tag: u8) -> Vec<u8> {
    vec![tag; 32]
}

fn node(tag: u8) -> Vec<u8> {
    vec![tag; 32]
}

#[test]
fn set_addr_requires_owner_or_operator() {
    // The registry reports `owner` for the node; a stranger's write fails
    // without mutating the store, an operator's write lands after the owner
    // delegates it.
    let mut s = ResolverState::seed(actor(1));
    let owner = actor(2);
    let stranger = actor(9);

    let err = s
        .set_addr(node(5), actor(3), &stranger, &owner)
        .unwrap_err();
    assert_eq!(err, ResolverError::NotAuthorized);
    assert_eq!(s.addr_of(&node(5)), None);

    s.set_operator(node(5), stranger.clone(), true, &owner, &owner).unwrap();
    let ev = s.set_addr(node(5), actor(3), &stranger, &owner).unwrap();
    assert_eq!(ev, ResolverEvent::AddrChanged(node(5), actor(3)));
    assert_eq!(s.addr_of(&node(5)), Some(actor(3)));
}

#[test]
fn owner_may_always_write() {
    let mut s = ResolverState::seed(actor(1));
    let owner = actor(2);
    s.set_addr(node(5), actor(3), &owner, &owner).unwrap();
    assert_eq!(s.addr_of(&node(5)), Some(actor(3)));
    // A later write overwrites.
    s.set_addr(node(5), actor(4), &owner, &owner).unwrap();
    assert_eq!(s.addr_of(&node(5)), Some(actor(4)));
}

#[test]
fn set_operator_is_for_the_owner_alone() {
    let mut s = ResolverState::seed(actor(1));
    let owner = actor(2);
    let operator = actor(3);
    // Even an existing operator may not grant others.
    s.set_operator(node(5), operator.clone(), true, &owner, &owner).unwrap();
    let err = s
        .set_operator(node(5), actor(4), true, &operator, &owner)
        .unwrap_err();
    assert_eq!(err, ResolverError::NotNodeOwner);
    assert!(s.is_operator(&node(5), &operator));
    assert!(!s.is_operator(&node(5), &actor(4)));
}

#[test]
fn operator_grant_and_revoke() {
    let mut s = ResolverState::seed(actor(1));
    let owner = actor(2);
    let operator = actor(3);
    assert!(!s.is_operator(&node(5), &operator));

    let ev = s.set_operator(node(5), operator.clone(), true, &owner, &owner).unwrap();
    assert_eq!(ev, ResolverEvent::OperatorSet(node(5), operator.clone(), true));
    assert!(s.is_operator(&node(5), &operator));

    // Granting again changes nothing.
    s.set_operator(node(5), operator.clone(), true, &owner, &owner).unwrap();
    assert!(s.is_operator(&node(5), &operator));

    // Revoking removes; revoking an absent operator is a no-op.
    s.set_operator(node(5), operator.clone(), false, &owner, &owner).unwrap();
    assert!(!s.is_operator(&node(5), &operator));
    s.set_operator(node(5), operator.clone(), false, &owner, &owner).unwrap();
    assert!(!s.is_operator(&node(5), &operator));
}

#[test]
fn operator_list_is_capped() {
    let mut s = ResolverState::seed(actor(1));
    let owner = actor(2);
    for i in 0..100u8 {
        let mut op = vec![0u8; 32];
        op[0] = i;
        op[1] = 0xee;
        s.set_operator(node(5), op, true, &owner, &owner).unwrap();
    }
    let err = s
        .set_operator(node(5), actor(0xdd), true, &owner, &owner)
        .unwrap_err();
    assert_eq!(err, ResolverError::TooManyOperators);
    // Revoking one frees a slot.
    let mut first = vec![0u8; 32];
    first[1] = 0xee;
    s.set_operator(node(5), first, false, &owner, &owner).unwrap();
    s.set_operator(node(5), actor(0xdd), true, &owner, &owner).unwrap();
}

#[test]
fn text_records_roundtrip() {
    let mut s = ResolverState::seed(actor(1));
    let owner = actor(2);
    let key = b"avatar".to_vec();
    let value = b"ipfs://example".to_vec();
    let ev = s
        .set_text(node(5), key.clone(), value.clone(), &owner, &owner)
        .unwrap();
    assert_eq!(ev, ResolverEvent::TextChanged(node(5), key.clone(), value.clone()));
    assert_eq!(s.text_of(&node(5), &key), Some(value));
    assert_eq!(s.text_of(&node(5), &b"other".to_vec()), None);
    assert_eq!(s.text_of(&node(6), &key), None);
}

#[test]
fn text_record_bounds() {
    let mut s = ResolverState::seed(actor(1));
    let owner = actor(2);
    let err = s
        .set_text(node(5), vec![b'k'; 257], vec![], &owner, &owner)
        .unwrap_err();
    assert_eq!(err, ResolverError::KeyTooLong);
    let err = s
        .set_text(node(5), vec![b'k'], vec![b'v'; 1025], &owner, &owner)
        .unwrap_err();
    assert_eq!(err, ResolverError::ValueTooLong);
    // An over-long key reads as absent.
    assert_eq!(s.text_of(&node(5), &vec![b'k'; 257]), None);

    let err = s
        .set_text(node(5), vec![b'k'], vec![b'v'], &actor(9), &owner)
        .unwrap_err();
    assert_eq!(err, ResolverError::NotAuthorized);
}

#[test]
fn contenthash_roundtrip_and_bounds() {
    let mut s = ResolverState::seed(actor(1));
    let owner = actor(2);
    assert_eq!(s.contenthash_of(&node(5)), None);

    let data = vec![0xabu8; 2048];
    let ev = s
        .set_contenthash(node(5), data.clone(), &owner, &owner)
        .unwrap();
    assert_eq!(ev, ResolverEvent::ContenthashChanged(node(5), data.clone()));
    assert_eq!(s.contenthash_of(&node(5)), Some(data));

    let err = s
        .set_contenthash(node(5), vec![0u8; 2049], &owner, &owner)
        .unwrap_err();
    assert_eq!(err, ResolverError::DataTooLong);

    let err = s
        .set_contenthash(node(5), vec![0u8; 4], &actor(9), &owner)
        .unwrap_err();
    assert_eq!(err, ResolverError::NotAuthorized);
}

#[test]
fn contenthash_store_is_capped() {
    let mut s = ResolverState::seed(actor(1));
    let owner = actor(2);
    for i in 0..1000u32 {
        let mut n = vec![0u8; 32];
        n[0] = (i % 256) as u8;
        n[1] = (i / 256) as u8;
        n[2] = 0xcc;
        s.set_contenthash(n, vec![1u8], &owner, &owner).unwrap();
    }
    let err = s
        .set_contenthash(node(0xdd), vec![1u8], &owner, &owner)
        .unwrap_err();
    assert_eq!(err, ResolverError::TooManyRecords);
    // Overwriting an existing entry is still allowed at the cap.
    let mut n = vec![0u8; 32];
    n[2] = 0xcc;
    s.set_contenthash(n.clone(), vec![2u8], &owner, &owner).unwrap();
    assert_eq!(s.contenthash_of(&n), Some(vec![2u8]));
}
