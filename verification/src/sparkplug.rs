//! The Sparkplug B protocol: topics, message types, the counts each client
//! keeps, and the client itself.

pub mod client;
pub mod datatype;
pub mod delivery;
pub mod eventloop;
pub mod payload_helpers;
pub mod publisher;
pub mod sequence;
pub mod topic;
pub mod types;
