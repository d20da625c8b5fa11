//! Node-side runtime for a simulated cluster: the message model, message
//! identifiers, replicated data types with their merge laws, retry gossip,
//! and optimistic transactions over a compare-and-swap store.

pub mod counts;
pub mod crdt;
pub mod document;
pub mod gcounter;
pub mod gossip;
pub mod gset;
pub mod keyed;
pub mod message;
pub mod node;
pub mod occ;
pub mod pncounter;
pub mod replica;
pub mod txn;
pub mod value;
