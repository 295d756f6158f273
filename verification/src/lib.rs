//! Content identifiers for structured records, and the checks that bind a
//! record to what a ledger stores for it.
//!
//! A record is written in a canonical byte form, the bytes are fed to a
//! chunking hash tree, and the identifier of the tree's root is the record's
//! content identifier. A leaf check compares that identifier with the one a
//! ledger holds and yields a journal; an aggregate check accepts a set of leaf
//! proofs by comparing each one's journal with the journal it expects.

/// Byte strings: appending, comparing, and the laws of concatenation.
pub mod bytes;

/// Content identifiers of byte strings and of records.
pub mod cid;

/// The pieces of which canonical byte forms are made.
pub mod json;

/// The kinds of failure, and which of them may be tried again.
pub mod error;

/// The journals that proofs make public, and their wire form.
pub mod journal;

/// What holds of identifiers, of the leaf check and of the aggregate check.
pub mod laws;

/// The leaf check, which binds one record to what the ledger stores for it.
pub mod leaf;

/// Player records and their canonical byte form.
pub mod players;

/// The aggregate check, which accepts a set of leaf proofs as assumptions.
pub mod team;

/// That the pieces of a canonical form can be read back in one way only.
pub mod unique;
