//! Authorization-state reconciliation for a decentralized-storage
//! authenticator.
//!
//! The core joins two independently mutable collections — a versioned
//! registry of configured applications and a shared access container that
//! records what each application was actually granted — and computes the
//! authoritative state of every application: authenticated, revoked, or
//! unknown. On top of that classification it answers three queries (revoked
//! apps, registered apps with their container permissions, and permission
//! holders on an arbitrary data object) and executes revocation removals
//! under optimistic concurrency.
//!
//! Network transport, cryptographic primitives and serialization codecs are
//! external collaborators: callers hand their results to this crate as plain
//! values (derived lookup keys, fetched entry sets, decrypted entries), and
//! every decision taken on those values is verified here.

pub mod classify;
pub mod config;
pub mod queries;
pub mod revocation;
pub mod resolver;
pub mod types;
