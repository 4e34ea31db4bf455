//! A three-part naming service: a registry holding a hierarchical ownership
//! tree of 256-bit node identifiers, a registrar allocating leaf names under
//! a root through a commit-reveal protocol, and a resolver storing resolution
//! records gated by the registry's ownership data.
//!
//! Each component is a plain state value mutated one message at a time. The
//! host environment (clock, caller identity, cross-component messaging) hands
//! every handler its inputs as arguments; the handlers themselves are pure
//! state transitions with exact contracts.

pub mod bytes;
pub mod assoc;
pub mod hashing;
pub mod registry;
pub mod registrar;
pub mod resolver;
