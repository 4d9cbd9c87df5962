//! A content-addressed pet registry: pets are keyed by the hash of their name,
//! each owner has a bounded, ordered list of the pets it holds, and pets can be
//! priced, sold, handed over and bred.
pub mod pet;
pub mod pallet;
pub mod laws;
pub mod rpc;
