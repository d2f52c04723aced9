//! Core of an agent daemon: a datagram protocol with request deduplication,
//! a bounded model/tool turn loop, a tool registry and a bounded memory journal.

pub mod agent;
pub mod brain;
pub mod dedup;
pub mod executor;
pub mod memory;
pub mod protocol;
pub mod text;
pub mod transport;
