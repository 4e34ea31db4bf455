//! The registry: the authoritative mapping from node identifiers to owner,
//! resolver pointer and TTL, with hierarchical subnode creation and an
//! admin-managed set of controllers empowered to act as owner on any node.

use vstd::prelude::*;
use crate::assoc::AssocMap;
use crate::bytes::{bytes_eq, bytes_clone, bytes_list_clone, bytes_list_contains, bytes_list_remove, is_b32};
use crate::hashing::{derive_subnode, subnode_of};

verus! {

broadcast use crate::bytes::lemma_deep_view_is_view;

/// Notification payloads the registry's mutators return.
#[derive(Debug, Clone, PartialEq, Eq)]
pub enum RegistryEvent {
    NewOwner { node: Vec<u8>, owner: Vec<u8> },
    NewResolver { node: Vec<u8>, resolver: Vec<u8> },
    NewTTL { node: Vec<u8>, ttl: u64 },
    NewSubnodeOwner { parent: Vec<u8>, label: Vec<u8>, subnode: Vec<u8>, owner: Vec<u8> },
    ControllerAdded(Vec<u8>),
    ControllerRemoved(Vec<u8>),
}

/// Why a registry mutation was rejected; a rejection leaves the state as it
/// was.
#[derive(Debug, Clone, Copy, PartialEq, Eq, Structural)]
pub enum RegistryError {
    /// The caller is neither the node's owner nor a controller.
    NotAuthorized,
    /// The caller is not the admin.
    NotAdmin,
}

/// One-time construction parameters: the admin and the root node's owner.
pub struct InitRegistry {
    pub admin: Vec<u8>,
    pub root_node: Vec<u8>,
    pub root_owner: Vec<u8>,
}

/// The registry's whole state.
pub struct RegistryState {
    pub admin: Vec<u8>,
    pub owners: AssocMap<Vec<u8>>,
    pub resolvers: AssocMap<Vec<u8>>,
    pub ttls: AssocMap<u64>,
    pub controllers: Vec<Vec<u8>>,
}

/// The registry's state flattened to plain rows for external observers.
pub struct IoRegistryState {
    pub admin: Vec<u8>,
    pub controllers: Vec<Vec<u8>>,
    pub owners: Vec<(Vec<u8>, Vec<u8>)>,
    pub resolvers: Vec<(Vec<u8>, Vec<u8>)>,
    pub ttls: Vec<(Vec<u8>, u64)>,
}

impl RegistryState {
    /// Maps are well formed and the controller set holds no duplicates.
    pub open spec fn wf(self) -> bool {
        &&& self.owners.wf()
        &&& self.resolvers.wf()
        &&& self.ttls.wf()
        &&& self.controllers.deep_view().no_duplicates()
    }

    /// Whether `actor` is in the controller allowlist.
    pub open spec fn spec_is_controller(self, actor: Seq<u8>) -> bool {
        self.controllers.deep_view().contains(actor)
    }

    /// Whether `actor` is the admin.
    pub open spec fn spec_is_admin(self, actor: Seq<u8>) -> bool {
        self.admin@ == actor
    }

    /// The authorization rule for mutating a node: current owner, or any
    /// controller.
    pub open spec fn spec_is_owner_or_controller(self, node: Seq<u8>, actor: Seq<u8>) -> bool {
        ||| (self.owners@.contains_key(node) && self.owners@[node] == actor)
        ||| self.spec_is_controller(actor)
    }

    /// All fields other than `owners` are those of `other`.
    pub open spec fn only_owners_changed(self, other: Self) -> bool {
        &&& self.admin == other.admin
        &&& self.resolvers == other.resolvers
        &&& self.ttls == other.ttls
        &&& self.controllers == other.controllers
    }

    /// Builds the one-time initial state: no controllers, no records but the
    /// root node owned by the configured root owner.
    pub fn seed(init: InitRegistry) -> (s: Self)
        ensures
            s.wf(),
            s.admin == init.admin,
            s.owners@ == Map::<Seq<u8>, Seq<u8>>::empty().insert(init.root_node@, init.root_owner@),
            s.resolvers@ == Map::<Seq<u8>, Seq<u8>>::empty(),
            s.ttls@ == Map::<Seq<u8>, u64>::empty(),
            s.controllers@.len() == 0,
    {
        let mut owners: AssocMap<Vec<u8>> = AssocMap::new();
        owners.insert(init.root_node, init.root_owner);
        RegistryState {
            admin: init.admin,
            owners,
            resolvers: AssocMap::new(),
            ttls: AssocMap::new(),
            controllers: Vec::new(),
        }
    }

    /// Whether `actor` may mutate `node`: its current owner or a controller.
    pub fn is_owner_or_controller(&self, node: &Vec<u8>, actor: &Vec<u8>) -> (r: bool)
        requires
            self.wf(),
        ensures
            r == self.spec_is_owner_or_controller(node@, actor@),
    {
        match self.owners.get(node) {
            Some(o) => {
                proof {
                    assert(o.deep_view() =~= o@);
                }
                if bytes_eq(o, actor) {
                    return true;
                }
            },
            None => {},
        }
        bytes_list_contains(&self.controllers, actor)
    }

    /// Whether `actor` is the admin.
    pub fn is_admin(&self, actor: &Vec<u8>) -> (r: bool)
        ensures
            r == self.spec_is_admin(actor@),
    {
        bytes_eq(&self.admin, actor)
    }

    /// Overwrites the owner of `node`; only its owner or a controller may.
    pub fn set_owner(&mut self, node: Vec<u8>, new_owner: Vec<u8>, caller: &Vec<u8>) -> (r: Result<
        RegistryEvent,
        RegistryError,
    >)
        requires
            old(self).wf(),
        ensures
            final(self).wf(),
            match r {
                Ok(ev) => {
                    &&& old(self).spec_is_owner_or_controller(node@, caller@)
                    &&& final(self).owners@ == old(self).owners@.insert(node@, new_owner@)
                    &&& final(self).only_owners_changed(*old(self))
                    &&& ev == (RegistryEvent::NewOwner { node, owner: new_owner })
                },
                Err(e) => {
                    &&& !old(self).spec_is_owner_or_controller(node@, caller@)
                    &&& e == RegistryError::NotAuthorized
                    &&& *final(self) == *old(self)
                },
            },
    {
        if !self.is_owner_or_controller(&node, caller) {
            return Err(RegistryError::NotAuthorized);
        }
        self.owners.insert(bytes_clone(&node), bytes_clone(&new_owner));
        Ok(RegistryEvent::NewOwner { node, owner: new_owner })
    }

    /// Overwrites the resolver of `node`; only its owner or a controller may.
    pub fn set_resolver(&mut self, node: Vec<u8>, resolver: Vec<u8>, caller: &Vec<u8>) -> (r:
        Result<RegistryEvent, RegistryError>)
        requires
            old(self).wf(),
        ensures
            final(self).wf(),
            match r {
                Ok(ev) => {
                    &&& old(self).spec_is_owner_or_controller(node@, caller@)
                    &&& final(self).resolvers@ == old(self).resolvers@.insert(node@, resolver@)
                    &&& final(self).admin == old(self).admin
                    &&& final(self).owners == old(self).owners
                    &&& final(self).ttls == old(self).ttls
                    &&& final(self).controllers == old(self).controllers
                    &&& ev == (RegistryEvent::NewResolver { node, resolver })
                },
                Err(e) => {
                    &&& !old(self).spec_is_owner_or_controller(node@, caller@)
                    &&& e == RegistryError::NotAuthorized
                    &&& *final(self) == *old(self)
                },
            },
    {
        if !self.is_owner_or_controller(&node, caller) {
            return Err(RegistryError::NotAuthorized);
        }
        self.resolvers.insert(bytes_clone(&node), bytes_clone(&resolver));
        Ok(RegistryEvent::NewResolver { node, resolver })
    }

    /// Overwrites the TTL of `node`; only its owner or a controller may.
    pub fn set_ttl(&mut self, node: Vec<u8>, ttl: u64, caller: &Vec<u8>) -> (r: Result<
        RegistryEvent,
        RegistryError,
    >)
        requires
            old(self).wf(),
        ensures
            final(self).wf(),
            match r {
                Ok(ev) => {
                    &&& old(self).spec_is_owner_or_controller(node@, caller@)
                    &&& final(self).ttls@ == old(self).ttls@.insert(node@, ttl)
                    &&& final(self).admin == old(self).admin
                    &&& final(self).owners == old(self).owners
                    &&& final(self).resolvers == old(self).resolvers
                    &&& final(self).controllers == old(self).controllers
                    &&& ev == (RegistryEvent::NewTTL { node, ttl })
                },
                Err(e) => {
                    &&& !old(self).spec_is_owner_or_controller(node@, caller@)
                    &&& e == RegistryError::NotAuthorized
                    &&& *final(self) == *old(self)
                },
            },
    {
        if !self.is_owner_or_controller(&node, caller) {
            return Err(RegistryError::NotAuthorized);
        }
        self.ttls.insert(bytes_clone(&node), ttl);
        Ok(RegistryEvent::NewTTL { node, ttl })
    }

    /// Creates or reassigns the child of `parent` named by the 256-bit
    /// `label`: the subnode identifier is derived by hashing
    /// `parent ‖ label`, and its owner is overwritten unconditionally. Only
    /// the parent's owner or a controller may.
    pub fn set_subnode_owner(
        &mut self,
        parent: Vec<u8>,
        label: Vec<u8>,
        new_owner: Vec<u8>,
        caller: &Vec<u8>,
    ) -> (r: Result<RegistryEvent, RegistryError>)
        requires
            old(self).wf(),
            is_b32(parent@),
            is_b32(label@),
        ensures
            final(self).wf(),
            match r {
                Ok(ev) => {
                    &&& old(self).spec_is_owner_or_controller(parent@, caller@)
                    &&& final(self).owners@ == old(self).owners@.insert(
                        subnode_of(parent@, label@),
                        new_owner@,
                    )
                    &&& final(self).only_owners_changed(*old(self))
                    &&& ev matches RegistryEvent::NewSubnodeOwner {
                        parent: p,
                        label: l,
                        subnode: s,
                        owner: o,
                    } && p == parent && l == label && o == new_owner && s@ == subnode_of(
                        parent@,
                        label@,
                    )
                },
                Err(e) => {
                    &&& !old(self).spec_is_owner_or_controller(parent@, caller@)
                    &&& e == RegistryError::NotAuthorized
                    &&& *final(self) == *old(self)
                },
            },
    {
        if !self.is_owner_or_controller(&parent, caller) {
            return Err(RegistryError::NotAuthorized);
        }
        let subnode = derive_subnode(&parent, &label);
        self.owners.insert(bytes_clone(&subnode), bytes_clone(&new_owner));
        Ok(RegistryEvent::NewSubnodeOwner { parent, label, subnode, owner: new_owner })
    }

    /// Adds `controller` to the allowlist; admin only. Adding one already
    /// listed changes nothing.
    pub fn add_controller(&mut self, controller: Vec<u8>, caller: &Vec<u8>) -> (r: Result<
        RegistryEvent,
        RegistryError,
    >)
        requires
            old(self).wf(),
        ensures
            final(self).wf(),
            match r {
                Ok(ev) => {
                    &&& old(self).spec_is_admin(caller@)
                    &&& final(self).controllers.deep_view() == if old(self).spec_is_controller(
                        controller@,
                    ) {
                        old(self).controllers.deep_view()
                    } else {
                        old(self).controllers.deep_view().push(controller@)
                    }
                    &&& final(self).admin == old(self).admin
                    &&& final(self).owners == old(self).owners
                    &&& final(self).resolvers == old(self).resolvers
                    &&& final(self).ttls == old(self).ttls
                    &&& ev == RegistryEvent::ControllerAdded(controller)
                },
                Err(e) => {
                    &&& !old(self).spec_is_admin(caller@)
                    &&& e == RegistryError::NotAdmin
                    &&& *final(self) == *old(self)
                },
            },
    {
        if !self.is_admin(caller) {
            return Err(RegistryError::NotAdmin);
        }
        if !bytes_list_contains(&self.controllers, &controller) {
            proof {
                crate::bytes::lemma_bytes_deep_view(&self.controllers);
            }
            let ghost old_cs = self.controllers.deep_view();
            self.controllers.push(bytes_clone(&controller));
            proof {
                crate::bytes::lemma_bytes_deep_view(&self.controllers);
                assert(self.controllers.deep_view() =~= old_cs.push(controller@));
            }
        }
        Ok(RegistryEvent::ControllerAdded(controller))
    }

    /// Removes `controller` from the allowlist; admin only. Removing one not
    /// listed changes nothing.
    pub fn remove_controller(&mut self, controller: Vec<u8>, caller: &Vec<u8>) -> (r: Result<
        RegistryEvent,
        RegistryError,
    >)
        requires
            old(self).wf(),
        ensures
            final(self).wf(),
            match r {
                Ok(ev) => {
                    &&& old(self).spec_is_admin(caller@)
                    &&& final(self).controllers.deep_view() == old(
                        self,
                    ).controllers.deep_view().remove_value(controller@)
                    &&& !final(self).spec_is_controller(controller@)
                    &&& final(self).admin == old(self).admin
                    &&& final(self).owners == old(self).owners
                    &&& final(self).resolvers == old(self).resolvers
                    &&& final(self).ttls == old(self).ttls
                    &&& ev == RegistryEvent::ControllerRemoved(controller)
                },
                Err(e) => {
                    &&& !old(self).spec_is_admin(caller@)
                    &&& e == RegistryError::NotAdmin
                    &&& *final(self) == *old(self)
                },
            },
    {
        if !self.is_admin(caller) {
            return Err(RegistryError::NotAdmin);
        }
        bytes_list_remove(&mut self.controllers, &controller);
        Ok(RegistryEvent::ControllerRemoved(controller))
    }

    /// The owner recorded for `node`, if any.
    pub fn owner_of(&self, node: &Vec<u8>) -> (r: Option<Vec<u8>>)
        requires
            self.wf(),
        ensures
            match r {
                Some(o) => self.owners@.contains_key(node@) && o@ == self.owners@[node@],
                None => !self.owners@.contains_key(node@),
            },
    {
        match self.owners.get(node) {
            Some(o) => {
                proof {
                    assert(o.deep_view() =~= o@);
                }
                Some(bytes_clone(o))
            },
            None => None,
        }
    }

    /// The resolver recorded for `node`, if any.
    pub fn resolver_of(&self, node: &Vec<u8>) -> (r: Option<Vec<u8>>)
        requires
            self.wf(),
        ensures
            match r {
                Some(o) => self.resolvers@.contains_key(node@) && o@ == self.resolvers@[node@],
                None => !self.resolvers@.contains_key(node@),
            },
    {
        match self.resolvers.get(node) {
            Some(o) => {
                proof {
                    assert(o.deep_view() =~= o@);
                }
                Some(bytes_clone(o))
            },
            None => None,
        }
    }

    /// The whole registry state, flattened to plain rows for observers.
    pub fn query_state(&self) -> (io: IoRegistryState)
        requires
            self.wf(),
        ensures
            io.admin@ == self.admin@,
            io.controllers.deep_view() == self.controllers.deep_view(),
            crate::assoc::is_entry_rows(io.owners@, self.owners),
            crate::assoc::is_entry_rows(io.resolvers@, self.resolvers),
            crate::assoc::is_entry_rows(io.ttls@, self.ttls),
    {
        IoRegistryState {
            admin: bytes_clone(&self.admin),
            controllers: bytes_list_clone(&self.controllers),
            owners: self.owners.pairs(),
            resolvers: self.resolvers.pairs(),
            ttls: self.ttls.pairs(),
        }
    }

    /// The TTL recorded for `node`, if any.
    pub fn ttl_of(&self, node: &Vec<u8>) -> (r: Option<u64>)
        requires
            self.wf(),
        ensures
            match r {
                Some(t) => self.ttls@.contains_key(node@) && t == self.ttls@[node@],
                None => !self.ttls@.contains_key(node@),
            },
    {
        match self.ttls.get(node) {
            Some(t) => Some(*t),
            None => None,
        }
    }
}

} // verus!
