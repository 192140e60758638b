//! Routing of calls to the management canister of a network of subnets.
//!
//! A call names a method and carries a payload. From the method, from what
//! the payload holds and from a snapshot of the network's topology, the
//! library finds the subnet or canister that has to serve the call, or says
//! why there is none. Every function is verified against a contract over
//! plain sequences and sets; `laws` holds what follows for every topology.
//!
//! - `order`, `seqs`, `text`, `sorted`: byte-wise order, first matches,
//!   string comparison and maps in ascending key order;
//! - `ids`, `keys`: principals, the identifiers that wrap them, and the
//!   identifiers of threshold ECDSA keys;
//! - `topology`: the snapshot of the network;
//! - `method`, `errors`, `routing`: the methods, the reasons for which a
//!   call finds no destination, and the rules that find one;
//! - `registry`: records and enumerations of the registry.

pub mod order;
pub mod seqs;
pub mod text;
pub mod sorted;
pub mod ids;
pub mod keys;
pub mod topology;
pub mod registry;
pub mod method;
pub mod errors;
pub mod routing;
pub mod laws;
