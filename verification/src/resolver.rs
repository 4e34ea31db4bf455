//! The resolver: per-node resolution records (addresses, text records,
//! content hashes) and per-node operator delegation. Every mutation is gated
//! on the registry's answer to an ownership query for the node: the host
//! shell sends that query, awaits the reply, and hands the decoded owner to
//! the handler, which decides and mutates in one step.

use vstd::prelude::*;
use crate::assoc::AssocMap;
use crate::bytes::{
    bytes_eq,
    bytes_clone,
    bytes_list_clone,
    bytes_list_contains,
    bytes_list_remove,
    append_bytes,
    is_b32,
};

verus! {

broadcast use crate::bytes::lemma_deep_view_is_view;

/// A text record's key may hold at most this many bytes.
pub const MAX_TEXT_KEY: usize = 256;

/// A text record's value may hold at most this many bytes.
pub const MAX_TEXT_VALUE: usize = 1024;

/// A content hash may hold at most this many bytes.
pub const MAX_CONTENTHASH: usize = 2048;

/// The text and content-hash stores are each capped at this many entries.
pub const MAX_RECORDS: usize = 1000;

/// A node may have at most this many operators.
pub const MAX_OPERATORS: usize = 100;

/// Notification payloads the resolver's mutators return.
#[derive(Debug, Clone, PartialEq, Eq)]
pub enum ResolverEvent {
    AddrChanged(Vec<u8>, Vec<u8>),
    TextChanged(Vec<u8>, Vec<u8>, Vec<u8>),
    ContenthashChanged(Vec<u8>, Vec<u8>),
    OperatorSet(Vec<u8>, Vec<u8>, bool),
}

/// Why a resolver mutation was rejected; a rejection leaves the state as it
/// was.
#[derive(Debug, Clone, Copy, PartialEq, Eq, Structural)]
pub enum ResolverError {
    /// The text record's key exceeds the length bound.
    KeyTooLong,
    /// The text record's value exceeds the length bound.
    ValueTooLong,
    /// The content hash exceeds the length bound.
    DataTooLong,
    /// The caller is neither the node's owner nor one of its operators.
    NotAuthorized,
    /// Only the node's owner may set operators.
    NotNodeOwner,
    /// The node's operator list is full.
    TooManyOperators,
    /// The record store has reached its entry cap.
    TooManyRecords,
}

/// Arguments of the address query.
#[derive(Debug, Clone, PartialEq, Eq)]
pub struct AddrQueryArgs {
    pub node: Vec<u8>,
}

/// Arguments of the text query.
#[derive(Debug, Clone, PartialEq, Eq)]
pub struct TextQueryArgs {
    pub node: Vec<u8>,
    pub key: Vec<u8>,
}

/// Arguments of the content-hash query.
#[derive(Debug, Clone, PartialEq, Eq)]
pub struct ContenthashQueryArgs {
    pub node: Vec<u8>,
}

/// Arguments of the operator query.
#[derive(Debug, Clone, PartialEq, Eq)]
pub struct OperatorQueryArgs {
    pub node: Vec<u8>,
    pub operator: Vec<u8>,
}

/// The resolver's whole state.
pub struct ResolverState {
    /// Resolved address per node.
    pub addresses: AssocMap<Vec<u8>>,
    /// Text records, keyed by the node's bytes followed by the record key.
    pub texts: AssocMap<Vec<u8>>,
    /// Content hash per node.
    pub contenthashes: AssocMap<Vec<u8>>,
    /// Operators delegated per node, in insertion order, no duplicates.
    pub operators: AssocMap<Vec<Vec<u8>>>,
    /// Address of the registry consulted for authorization.
    pub registry: Vec<u8>,
}

/// The store key of a text record: the node's 32 bytes followed by the
/// record key. Node identifiers have one fixed length, so two distinct
/// (node, key) pairs never collide.
pub open spec fn text_key(node: Seq<u8>, key: Seq<u8>) -> Seq<u8> {
    node + key
}

/// Text-record store keys are collision-free: equal combined keys of
/// equal-length nodes mean equal nodes and equal record keys.
pub proof fn lemma_text_key_injective(n1: Seq<u8>, k1: Seq<u8>, n2: Seq<u8>, k2: Seq<u8>)
    requires
        n1.len() == n2.len(),
        text_key(n1, k1) == text_key(n2, k2),
    ensures
        n1 == n2,
        k1 == k2,
{
    assert(n1 =~= text_key(n1, k1).take(n1.len() as int));
    assert(k1 =~= text_key(n1, k1).skip(n1.len() as int));
    assert(n2 =~= text_key(n2, k2).take(n1.len() as int));
    assert(k2 =~= text_key(n2, k2).skip(n1.len() as int));
}

impl ResolverState {
    /// Maps are well formed, record caps hold, and each node's operator list
    /// is within its cap and free of duplicates.
    pub open spec fn wf(self) -> bool {
        &&& self.addresses.wf()
        &&& self.texts.wf()
        &&& self.texts.num() <= MAX_RECORDS
        &&& self.contenthashes.wf()
        &&& self.contenthashes.num() <= MAX_RECORDS
        &&& self.operators.wf()
        &&& forall|n: Seq<u8>|
            self.operators@.contains_key(n) ==> (#[trigger] self.operators@[n]).len()
                <= MAX_OPERATORS && self.operators@[n].no_duplicates()
    }

    /// The operators delegated for `node`, empty when none were ever set.
    pub open spec fn ops_of(self, node: Seq<u8>) -> Seq<Seq<u8>> {
        if self.operators@.contains_key(node) {
            self.operators@[node]
        } else {
            Seq::empty()
        }
    }

    /// Whether `actor` is an operator for `node`.
    pub open spec fn spec_is_operator(self, node: Seq<u8>, actor: Seq<u8>) -> bool {
        self.ops_of(node).contains(actor)
    }

    /// The record-mutation rule: the owner the registry reported, or a
    /// delegated operator of the node.
    pub open spec fn spec_can_modify(self, node: Seq<u8>, caller: Seq<u8>, owner: Seq<u8>) -> bool {
        owner == caller || self.spec_is_operator(node, caller)
    }

    /// Builds the one-time initial state: no records, no operators.
    pub fn seed(registry: Vec<u8>) -> (s: Self)
        ensures
            s.wf(),
            s.registry == registry,
            s.addresses@ == Map::<Seq<u8>, Seq<u8>>::empty(),
            s.texts@ == Map::<Seq<u8>, Seq<u8>>::empty(),
            s.contenthashes@ == Map::<Seq<u8>, Seq<u8>>::empty(),
            s.operators@ == Map::<Seq<u8>, Seq<Seq<u8>>>::empty(),
    {
        ResolverState {
            addresses: AssocMap::new(),
            texts: AssocMap::new(),
            contenthashes: AssocMap::new(),
            operators: AssocMap::new(),
            registry,
        }
    }

    /// Whether `caller` may modify `node`'s records, given the owner the
    /// registry reported for it: the owner itself, or a delegated operator.
    pub fn check_can_modify(&self, node: &Vec<u8>, caller: &Vec<u8>, owner: &Vec<u8>) -> (r: bool)
        requires
            self.wf(),
        ensures
            r == self.spec_can_modify(node@, caller@, owner@),
    {
        if bytes_eq(owner, caller) {
            return true;
        }
        self.is_operator(node, caller)
    }

    /// Whether `operator` is delegated for `node`.
    pub fn is_operator(&self, node: &Vec<u8>, operator: &Vec<u8>) -> (r: bool)
        requires
            self.wf(),
        ensures
            r == self.spec_is_operator(node@, operator@),
    {
        match self.operators.get(node) {
            Some(ops) => bytes_list_contains(ops, operator),
            None => false,
        }
    }

    /// Overwrites the resolved address of `node`; `owner` is the registry's
    /// reply to the ownership query for `node`.
    pub fn set_addr(&mut self, node: Vec<u8>, addr: Vec<u8>, caller: &Vec<u8>, owner: &Vec<u8>) -> (r:
        Result<ResolverEvent, ResolverError>)
        requires
            old(self).wf(),
            is_b32(node@),
        ensures
            final(self).wf(),
            match r {
                Ok(ev) => {
                    &&& old(self).spec_can_modify(node@, caller@, owner@)
                    &&& final(self).addresses@ == old(self).addresses@.insert(node@, addr@)
                    &&& final(self).texts == old(self).texts
                    &&& final(self).contenthashes == old(self).contenthashes
                    &&& final(self).operators == old(self).operators
                    &&& final(self).registry == old(self).registry
                    &&& ev == ResolverEvent::AddrChanged(node, addr)
                },
                Err(e) => {
                    &&& !old(self).spec_can_modify(node@, caller@, owner@)
                    &&& e == ResolverError::NotAuthorized
                    &&& *final(self) == *old(self)
                },
            },
    {
        if !self.check_can_modify(&node, caller, owner) {
            return Err(ResolverError::NotAuthorized);
        }
        self.addresses.insert(bytes_clone(&node), bytes_clone(&addr));
        Ok(ResolverEvent::AddrChanged(node, addr))
    }

    /// Every check a text-record write must pass, in order, with the error
    /// each failure raises.
    pub open spec fn text_check(
        self,
        node: Seq<u8>,
        key: Seq<u8>,
        value: Seq<u8>,
        caller: Seq<u8>,
        owner: Seq<u8>,
    ) -> Result<(), ResolverError> {
        if key.len() > MAX_TEXT_KEY {
            Err(ResolverError::KeyTooLong)
        } else if value.len() > MAX_TEXT_VALUE {
            Err(ResolverError::ValueTooLong)
        } else if !self.spec_can_modify(node, caller, owner) {
            Err(ResolverError::NotAuthorized)
        } else if !self.texts@.contains_key(text_key(node, key)) && self.texts.num()
            >= MAX_RECORDS {
            Err(ResolverError::TooManyRecords)
        } else {
            Ok(())
        }
    }

    /// Writes a text record for `node` under `key`; `owner` is the
    /// registry's reply to the ownership query for `node`.
    pub fn set_text(
        &mut self,
        node: Vec<u8>,
        key: Vec<u8>,
        value: Vec<u8>,
        caller: &Vec<u8>,
        owner: &Vec<u8>,
    ) -> (r: Result<ResolverEvent, ResolverError>)
        requires
            old(self).wf(),
            is_b32(node@),
        ensures
            final(self).wf(),
            match r {
                Ok(ev) => {
                    &&& old(self).text_check(node@, key@, value@, caller@, owner@) is Ok
                    &&& final(self).texts@ == old(self).texts@.insert(
                        text_key(node@, key@),
                        value@,
                    )
                    &&& final(self).addresses == old(self).addresses
                    &&& final(self).contenthashes == old(self).contenthashes
                    &&& final(self).operators == old(self).operators
                    &&& final(self).registry == old(self).registry
                    &&& ev == ResolverEvent::TextChanged(node, key, value)
                },
                Err(e) => {
                    &&& old(self).text_check(node@, key@, value@, caller@, owner@) == Err::<
                        (),
                        ResolverError,
                    >(e)
                    &&& *final(self) == *old(self)
                },
            },
    {
        if key.len() > MAX_TEXT_KEY {
            return Err(ResolverError::KeyTooLong);
        }
        if value.len() > MAX_TEXT_VALUE {
            return Err(ResolverError::ValueTooLong);
        }
        if !self.check_can_modify(&node, caller, owner) {
            return Err(ResolverError::NotAuthorized);
        }
        let mut store_key = bytes_clone(&node);
        append_bytes(&mut store_key, &key);
        if !self.texts.contains_key(&store_key) && self.texts.len() >= MAX_RECORDS {
            return Err(ResolverError::TooManyRecords);
        }
        self.texts.insert(store_key, bytes_clone(&value));
        Ok(ResolverEvent::TextChanged(node, key, value))
    }

    /// Every check a content-hash write must pass, in order, with the error
    /// each failure raises.
    pub open spec fn contenthash_check(
        self,
        node: Seq<u8>,
        data: Seq<u8>,
        caller: Seq<u8>,
        owner: Seq<u8>,
    ) -> Result<(), ResolverError> {
        if data.len() > MAX_CONTENTHASH {
            Err(ResolverError::DataTooLong)
        } else if !self.spec_can_modify(node, caller, owner) {
            Err(ResolverError::NotAuthorized)
        } else if !self.contenthashes@.contains_key(node) && self.contenthashes.num()
            >= MAX_RECORDS {
            Err(ResolverError::TooManyRecords)
        } else {
            Ok(())
        }
    }

    /// Writes the content hash of `node`; `owner` is the registry's reply to
    /// the ownership query for `node`.
    pub fn set_contenthash(
        &mut self,
        node: Vec<u8>,
        data: Vec<u8>,
        caller: &Vec<u8>,
        owner: &Vec<u8>,
    ) -> (r: Result<ResolverEvent, ResolverError>)
        requires
            old(self).wf(),
            is_b32(node@),
        ensures
            final(self).wf(),
            match r {
                Ok(ev) => {
                    &&& old(self).contenthash_check(node@, data@, caller@, owner@) is Ok
                    &&& final(self).contenthashes@ == old(self).contenthashes@.insert(node@, data@)
                    &&& final(self).addresses == old(self).addresses
                    &&& final(self).texts == old(self).texts
                    &&& final(self).operators == old(self).operators
                    &&& final(self).registry == old(self).registry
                    &&& ev == ResolverEvent::ContenthashChanged(node, data)
                },
                Err(e) => {
                    &&& old(self).contenthash_check(node@, data@, caller@, owner@) == Err::<
                        (),
                        ResolverError,
                    >(e)
                    &&& *final(self) == *old(self)
                },
            },
    {
        if data.len() > MAX_CONTENTHASH {
            return Err(ResolverError::DataTooLong);
        }
        if !self.check_can_modify(&node, caller, owner) {
            return Err(ResolverError::NotAuthorized);
        }
        if !self.contenthashes.contains_key(&node) && self.contenthashes.len() >= MAX_RECORDS {
            return Err(ResolverError::TooManyRecords);
        }
        self.contenthashes.insert(bytes_clone(&node), bytes_clone(&data));
        Ok(ResolverEvent::ContenthashChanged(node, data))
    }

    /// Every check an operator change must pass: only the owner the registry
    /// reported may change operators — operators and controllers are
    /// excluded — and a new operator needs room in the node's list.
    pub open spec fn operator_check(
        self,
        node: Seq<u8>,
        operator: Seq<u8>,
        enabled: bool,
        caller: Seq<u8>,
        owner: Seq<u8>,
    ) -> Result<(), ResolverError> {
        if caller != owner {
            Err(ResolverError::NotNodeOwner)
        } else if enabled && !self.ops_of(node).contains(operator) && self.ops_of(node).len()
            >= MAX_OPERATORS {
            Err(ResolverError::TooManyOperators)
        } else {
            Ok(())
        }
    }

    /// Grants or revokes `operator` for `node`; `owner` is the registry's
    /// reply to the ownership query for `node`, and only that owner may
    /// call. Granting one already listed, or revoking one absent, changes
    /// the list not at all.
    pub fn set_operator(
        &mut self,
        node: Vec<u8>,
        operator: Vec<u8>,
        enabled: bool,
        caller: &Vec<u8>,
        owner: &Vec<u8>,
    ) -> (r: Result<ResolverEvent, ResolverError>)
        requires
            old(self).wf(),
            is_b32(node@),
        ensures
            final(self).wf(),
            match r {
                Ok(ev) => {
                    let ops = old(self).ops_of(node@);
                    let new_ops = if enabled {
                        if ops.contains(operator@) {
                            ops
                        } else {
                            ops.push(operator@)
                        }
                    } else {
                        ops.remove_value(operator@)
                    };
                    &&& old(self).operator_check(node@, operator@, enabled, caller@, owner@) is Ok
                    &&& final(self).operators@ == old(self).operators@.insert(node@, new_ops)
                    &&& final(self).ops_of(node@) == new_ops
                    &&& final(self).addresses == old(self).addresses
                    &&& final(self).texts == old(self).texts
                    &&& final(self).contenthashes == old(self).contenthashes
                    &&& final(self).registry == old(self).registry
                    &&& ev == ResolverEvent::OperatorSet(node, operator, enabled)
                },
                Err(e) => {
                    &&& old(self).operator_check(node@, operator@, enabled, caller@, owner@)
                        == Err::<(), ResolverError>(e)
                    &&& *final(self) == *old(self)
                },
            },
    {
        if !bytes_eq(caller, owner) {
            return Err(ResolverError::NotNodeOwner);
        }
        let mut ops: Vec<Vec<u8>> = match self.operators.get(&node) {
            Some(l) => bytes_list_clone(l),
            None => Vec::new(),
        };
        proof {
            crate::bytes::lemma_bytes_deep_view(&ops);
            assert(ops.deep_view() =~= self.ops_of(node@));
            assert(ops.deep_view().no_duplicates());
            assert(ops.deep_view().len() <= MAX_OPERATORS);
        }
        if enabled {
            if !bytes_list_contains(&ops, &operator) {
                if ops.len() >= MAX_OPERATORS {
                    proof {
                        assert(ops@.len() == ops.deep_view().len());
                    }
                    return Err(ResolverError::TooManyOperators);
                }
                let ghost pre = ops.deep_view();
                ops.push(bytes_clone(&operator));
                proof {
                    crate::bytes::lemma_bytes_deep_view(&ops);
                    assert(ops.deep_view() =~= pre.push(operator@));
                    let s = ops.deep_view();
                    assert forall|p: int, q: int|
                        0 <= p < s.len() && 0 <= q < s.len() && p != q implies s[p] != s[q] by {
                        if p < s.len() - 1 && q < s.len() - 1 {
                            assert(s[p] == pre[p]);
                            assert(s[q] == pre[q]);
                        } else if q == s.len() - 1 {
                            assert(s[p] == pre[p]);
                            if s[p] == operator@ {
                                assert(pre.contains(operator@));
                            }
                        } else {
                            assert(s[q] == pre[q]);
                            if s[q] == operator@ {
                                assert(pre.contains(operator@));
                            }
                        }
                    }
                    assert(s.no_duplicates());
                }
            }
        } else {
            let ghost pre = ops.deep_view();
            bytes_list_remove(&mut ops, &operator);
            proof {
                pre.index_of_first_ensures(operator@);
                assert(ops.deep_view().len() <= pre.len());
            }
        }
        proof {
            assert(ops.deep_view().len() <= MAX_OPERATORS);
            assert(ops.deep_view().no_duplicates());
        }
        let ghost new_list = ops.deep_view();
        self.operators.insert(bytes_clone(&node), ops);
        proof {
            assert forall|n: Seq<u8>| self.operators@.contains_key(n) implies (
            #[trigger] self.operators@[n]).len() <= MAX_OPERATORS
                && self.operators@[n].no_duplicates() by {
                if n == node@ {
                    assert(self.operators@[n] == new_list);
                } else {
                    assert(self.operators@[n] == old(self).operators@[n]);
                }
            }
        }
        Ok(ResolverEvent::OperatorSet(node, operator, enabled))
    }

    /// The address recorded for `node`, if any.
    pub fn addr_of(&self, node: &Vec<u8>) -> (r: Option<Vec<u8>>)
        requires
            self.wf(),
        ensures
            match r {
                Some(a) => self.addresses@.contains_key(node@) && a@ == self.addresses@[node@],
                None => !self.addresses@.contains_key(node@),
            },
    {
        match self.addresses.get(node) {
            Some(a) => Some(bytes_clone(a)),
            None => None,
        }
    }

    /// The text record for `node` under `key`, if any; an over-long key
    /// reads as absent without touching state.
    pub fn text_of(&self, node: &Vec<u8>, key: &Vec<u8>) -> (r: Option<Vec<u8>>)
        requires
            self.wf(),
        ensures
            match r {
                Some(v) => key@.len() <= MAX_TEXT_KEY && self.texts@.contains_key(
                    text_key(node@, key@),
                ) && v@ == self.texts@[text_key(node@, key@)],
                None => key@.len() > MAX_TEXT_KEY || !self.texts@.contains_key(
                    text_key(node@, key@),
                ),
            },
    {
        if key.len() > MAX_TEXT_KEY {
            return None;
        }
        let mut store_key = bytes_clone(node);
        append_bytes(&mut store_key, key);
        match self.texts.get(&store_key) {
            Some(v) => Some(bytes_clone(v)),
            None => None,
        }
    }

    /// The content hash recorded for `node`, if any.
    pub fn contenthash_of(&self, node: &Vec<u8>) -> (r: Option<Vec<u8>>)
        requires
            self.wf(),
        ensures
            match r {
                Some(d) => self.contenthashes@.contains_key(node@) && d@
                    == self.contenthashes@[node@],
                None => !self.contenthashes@.contains_key(node@),
            },
    {
        match self.contenthashes.get(node) {
            Some(d) => Some(bytes_clone(d)),
            None => None,
        }
    }
}


} // verus!
