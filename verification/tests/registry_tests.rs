use vns::registry::{InitRegistry, RegistryError, RegistryEvent, RegistryState};

fn actor(tag: u8) -> Vec<u8> {
    vec![tag; 32]
}

fn node(tag: u8) -> Vec<u8> {
    vec![tag; 32]
}

fn seeded() -> RegistryState {
    RegistryState::seed(InitRegistry {
        admin: actor(1),
        root_node: node(0),
        root_owner: actor(2),
    })
}

#[test]
fn seed_records_the_root_owner() {
    let s = seeded();
    assert_eq!(s.owner_of(&node(0)), Some(actor(2)));
    assert_eq!(s.owner_of(&node(5)), None);
    assert_eq!(s.resolver_of(&node(0)), None);
    assert_eq!(s.ttl_of(&node(0)), None);
}

#[test]
fn set_owner_requires_owner_or_controller() {
    let mut s = seeded();
    let stranger = actor(9);
    let err = s.set_owner(node(0), actor(3), &stranger).unwrap_err();
    assert_eq!(err, RegistryError::NotAuthorized);
    assert_eq!(s.owner_of(&node(0)), Some(actor(2)));

    let ev = s.set_owner(node(0), actor(3), &actor(2)).unwrap();
    assert_eq!(ev, RegistryEvent::NewOwner { node: node(0), owner: actor(3) });
    assert_eq!(s.owner_of(&node(0)), Some(actor(3)));
    // The old owner lost its standing.
    let err = s.set_owner(node(0), actor(2), &actor(2)).unwrap_err();
    assert_eq!(err, RegistryError::NotAuthorized);
}

#[test]
fn controllers_may_act_on_any_node() {
    let mut s = seeded();
    let admin = actor(1);
    let controller = actor(5);
    let err = s.add_controller(controller.clone(), &actor(9)).unwrap_err();
    assert_eq!(err, RegistryError::NotAdmin);

    s.add_controller(controller.clone(), &admin).unwrap();
    s.set_owner(node(0), actor(3), &controller).unwrap();
    assert_eq!(s.owner_of(&node(0)), Some(actor(3)));

    s.remove_controller(controller.clone(), &admin).unwrap();
    let err = s.set_owner(node(0), actor(4), &controller).unwrap_err();
    assert_eq!(err, RegistryError::NotAuthorized);
}

#[test]
fn set_resolver_and_ttl() {
    let mut s = seeded();
    let owner = actor(2);
    let ev = s.set_resolver(node(0), actor(6), &owner).unwrap();
    assert_eq!(ev, RegistryEvent::NewResolver { node: node(0), resolver: actor(6) });
    assert_eq!(s.resolver_of(&node(0)), Some(actor(6)));

    let ev = s.set_ttl(node(0), 3600, &owner).unwrap();
    assert_eq!(ev, RegistryEvent::NewTTL { node: node(0), ttl: 3600 });
    assert_eq!(s.ttl_of(&node(0)), Some(3600));

    let err = s.set_resolver(node(0), actor(6), &actor(9)).unwrap_err();
    assert_eq!(err, RegistryError::NotAuthorized);
    let err = s.set_ttl(node(0), 60, &actor(9)).unwrap_err();
    assert_eq!(err, RegistryError::NotAuthorized);
}

#[test]
fn subnode_derivation_is_deterministic() {
    let mut s = seeded();
    let owner = actor(2);
    let label = node(0x2a);

    let ev1 = s.set_subnode_owner(node(0), label.clone(), actor(3), &owner).unwrap();
    let sub1 = match ev1 {
        RegistryEvent::NewSubnodeOwner { subnode, .. } => subnode,
        other => panic!("unexpected event {:?}", other),
    };
    assert_eq!(sub1.len(), 32);
    // The derivation hashes: the child is not the parent, nor the label.
    assert_ne!(sub1, node(0));
    assert_ne!(sub1, label);
    assert_eq!(s.owner_of(&sub1), Some(actor(3)));

    // Deriving again with identical inputs names the same subnode.
    let ev2 = s.set_subnode_owner(node(0), label.clone(), actor(4), &owner).unwrap();
    let sub2 = match ev2 {
        RegistryEvent::NewSubnodeOwner { subnode, .. } => subnode,
        other => panic!("unexpected event {:?}", other),
    };
    assert_eq!(sub1, sub2);
    assert_eq!(s.owner_of(&sub1), Some(actor(4)));

    // A different label names a different subnode.
    let ev3 = s.set_subnode_owner(node(0), node(0x2b), actor(5), &owner).unwrap();
    let sub3 = match ev3 {
        RegistryEvent::NewSubnodeOwner { subnode, .. } => subnode,
        other => panic!("unexpected event {:?}", other),
    };
    assert_ne!(sub1, sub3);
}

#[test]
fn subnode_owner_requires_parent_owner() {
    let mut s = seeded();
    let err = s
        .set_subnode_owner(node(0), node(0x2a), actor(3), &actor(9))
        .unwrap_err();
    assert_eq!(err, RegistryError::NotAuthorized);
}

#[test]
fn query_state_flattens_the_maps() {
    let mut s = seeded();
    let admin = actor(1);
    let owner = actor(2);
    s.add_controller(actor(5), &admin).unwrap();
    s.set_resolver(node(0), actor(6), &owner).unwrap();
    s.set_ttl(node(0), 60, &owner).unwrap();

    let io = s.query_state();
    assert_eq!(io.admin, actor(1));
    assert_eq!(io.controllers, vec![actor(5)]);
    assert_eq!(io.owners, vec![(node(0), actor(2))]);
    assert_eq!(io.resolvers, vec![(node(0), actor(6))]);
    assert_eq!(io.ttls, vec![(node(0), 60)]);
}
