//! Data model of a GRANDPA justification.
//!
//! Block hashes, authority identities and signatures are carried as plain byte
//! vectors of fixed length (32, 32 and 64 bytes), so the model is independent
//! of any particular chain's header or crypto types.

use vstd::prelude::*;

verus! {

/// Length in bytes of a block hash.
pub const HASH_LEN: usize = 32;
/// Length in bytes of an authority identity (an Ed25519 public key).
pub const ID_LEN: usize = 32;
/// Length in bytes of an Ed25519 signature.
pub const SIG_LEN: usize = 64;

/// Justification verification error.
#[derive(Clone, Copy, PartialEq, Eq, Structural, Debug)]
pub enum Error {
    /// Failed to decode justification.
    JustificationDecode,
    /// Justification is finalizing unexpected header.
    InvalidJustificationTarget,
    /// Invalid commit in justification.
    InvalidJustificationCommit,
    /// Justification has invalid authority signature.
    InvalidAuthoritySignature,
    /// The justification has precommit for the header that has no route from the target header.
    InvalidPrecommitAncestryProof,
    /// The justification has 'unused' headers in its precommit ancestries.
    InvalidPrecommitAncestries,
}

/// A block header, reduced to what ancestry checking reads: its own hash, its
/// parent's hash and its number.
#[derive(Clone, Debug)]
pub struct Header {
    pub hash: Vec<u8>,
    pub parent_hash: Vec<u8>,
    pub number: u64,
}

/// Mathematical model of a [`Header`].
pub struct SpecHeader {
    pub hash: Seq<u8>,
    pub parent_hash: Seq<u8>,
    pub number: u64,
}

impl View for Header {
    type V = SpecHeader;

    open spec fn view(&self) -> SpecHeader {
        SpecHeader { hash: self.hash@, parent_hash: self.parent_hash@, number: self.number }
    }
}

/// One authority's claim that a block can be finalized.
#[derive(Clone, Debug)]
pub struct Precommit {
    pub target_hash: Vec<u8>,
    pub target_number: u64,
}

/// Mathematical model of a [`Precommit`].
pub struct SpecPrecommit {
    pub target_hash: Seq<u8>,
    pub target_number: u64,
}

impl View for Precommit {
    type V = SpecPrecommit;

    open spec fn view(&self) -> SpecPrecommit {
        SpecPrecommit { target_hash: self.target_hash@, target_number: self.target_number }
    }
}

/// A precommit together with the identity of the authority that signed it and
/// its signature over the canonical message.
#[derive(Clone, Debug)]
pub struct SignedPrecommit {
    pub precommit: Precommit,
    pub signature: Vec<u8>,
    pub id: Vec<u8>,
}

/// Mathematical model of a [`SignedPrecommit`].
pub struct SpecSignedPrecommit {
    pub precommit: SpecPrecommit,
    pub signature: Seq<u8>,
    pub id: Seq<u8>,
}

impl View for SignedPrecommit {
    type V = SpecSignedPrecommit;

    open spec fn view(&self) -> SpecSignedPrecommit {
        SpecSignedPrecommit {
            precommit: self.precommit@,
            signature: self.signature@,
            id: self.id@,
        }
    }
}

/// The claimed finalized block plus the votes supporting it.
#[derive(Clone, Debug)]
pub struct Commit {
    pub target_hash: Vec<u8>,
    pub target_number: u64,
    pub precommits: Vec<SignedPrecommit>,
}

/// Mathematical model of a [`Commit`].
pub struct SpecCommit {
    pub target_hash: Seq<u8>,
    pub target_number: u64,
    pub precommits: Seq<SpecSignedPrecommit>,
}

impl View for Commit {
    type V = SpecCommit;

    open spec fn view(&self) -> SpecCommit {
        SpecCommit {
            target_hash: self.target_hash@,
            target_number: self.target_number,
            precommits: self.precommits@.map_values(|p: SignedPrecommit| p@),
        }
    }
}

/// A full GRANDPA justification: the voting round, the commit and every header
/// needed to connect each vote's target back to the commit's target.
#[derive(Clone, Debug)]
pub struct Justification {
    pub round: u64,
    pub commit: Commit,
    pub votes_ancestries: Vec<Header>,
}

/// Mathematical model of a [`Justification`].
pub struct SpecJustification {
    pub round: u64,
    pub commit: SpecCommit,
    pub votes_ancestries: Seq<SpecHeader>,
}

impl View for Justification {
    type V = SpecJustification;

    open spec fn view(&self) -> SpecJustification {
        SpecJustification {
            round: self.round,
            commit: self.commit@,
            votes_ancestries: self.votes_ancestries@.map_values(|h: Header| h@),
        }
    }
}

/// Copy of a byte vector.
pub fn copy_bytes(v: &Vec<u8>) -> (r: Vec<u8>)
    ensures
        r@ == v@,
{
    let mut out: Vec<u8> = Vec::new();
    let n = v.len();
    let mut i: usize = 0;
    while i < n
        invariant
            n == v@.len(),
            i <= n,
            out@.len() == i,
            forall|k: int| 0 <= k < i ==> out@[k] == v@[k],
        decreases n - i,
    {
        out.push(v[i]);
        i = i + 1;
    }
    proof {
        assert(out@ =~= v@);
    }
    out
}

/// Compare two byte vectors for equality of contents.
pub fn bytes_eq(a: &Vec<u8>, b: &Vec<u8>) -> (r: bool)
    ensures
        r == (a@ == b@),
{
    if a.len() != b.len() {
        return false;
    }
    let n = a.len();
    let mut i: usize = 0;
    while i < n
        invariant
            n == a@.len() == b@.len(),
            i <= n,
            forall|k: int| 0 <= k < i ==> a@[k] == b@[k],
        decreases n - i,
    {
        if a[i] != b[i] {
            return false;
        }
        i = i + 1;
    }
    proof {
        assert(a@ =~= b@);
    }
    true
}

} // verus!
