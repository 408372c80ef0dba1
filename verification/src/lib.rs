//! Checking of GRANDPA finality proofs.
//!
//! A justification is an untrusted byte blob produced by a foreign chain. It
//! claims that a specific block was finalized by a weighted authority set.
//! [`verify::verify_justification`] decodes the blob, matches it against the
//! expected target block, checks that the commit carries supermajority weight,
//! verifies every vote's signature and proves that the ancestry headers
//! embedded in the proof are exactly the ones the votes need.

pub mod ancestry;
pub mod encoding;
pub mod laws;
pub mod sync;
pub mod types;
pub mod verify;
pub mod voters;
