//! Verified core of a Git client: the smart-transport negotiation engine
//! (capability sets, feature selection, request-argument derivation and
//! validation) together with the object-store view used when peeling
//! objects to a requested kind.

pub mod capabilities;
pub mod ext;
pub mod fetch;
pub mod hash;
pub mod object;
pub mod strutil;
