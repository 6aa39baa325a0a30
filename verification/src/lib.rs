//! Block-import hook for a GRANDPA-style finality gadget.
//!
//! The crate models the data the import logic reads — headers, digests, the
//! authority set — as plain values, and verifies the decisions the hook makes
//! on every incoming block: detecting authority-set change signals, updating
//! the authority set with rollback on failure, and steering justification
//! processing.  The outside collaborators (block storage, the inner importer,
//! the justification verifier, the finalizer, the voter channel) perform I/O
//! and cryptography; an embedding runs them and feeds their outcomes back in
//! as events.

pub mod authorities;
pub mod chain;
pub mod digest;
pub mod import;
