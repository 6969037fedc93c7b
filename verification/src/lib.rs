//! A per-agent, hash-linked, append-only source chain.
//!
//! Every record ([`entry::Pair`]) binds an opaque application payload
//! ([`entry::Entry`]) to its position in the chain through a
//! [`entry::Header`] that carries the content hash of its predecessor.
//! The [`chain::SourceChain`] accepts a record only when the record is
//! internally consistent and its previous-reference matches the current
//! head, so a chain built through `push` is tamper-evident by
//! construction.

pub mod chain;
pub mod entry;
pub mod hash;
