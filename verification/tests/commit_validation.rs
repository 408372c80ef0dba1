//! The verifier's commit handling against the reference implementation of
//! weighted commit validation, on the same chain and votes. The reference
//! additionally requires the claimed target to be the best candidate itself,
//! so the shared scenarios target that block.

use std::collections::BTreeMap;

use ed25519_dalek::{Signer, SigningKey};

use grandpa_justification::types::{Commit, Header, Justification, Precommit, SignedPrecommit};
use grandpa_justification::verify::{signing_payload, verify_justification};
use grandpa_justification::voters::{Authority, VoterSet};

const ROUND: u64 = 1;
const SET_ID: u64 = 1;

fn block_hash(index: u8) -> Vec<u8> {
    let mut h = vec![0u8; 32];
    h[0] = index;
    h[1] = 0xab;
    h
}

fn arr(h: &[u8]) -> [u8; 32] {
    let mut a = [0u8; 32];
    a.copy_from_slice(h);
    a
}

fn header(index: u8) -> Header {
    Header {
        hash: block_hash(index),
        parent_hash: if index == 0 { vec![0u8; 32] } else { block_hash(index - 1) },
        number: index as u64,
    }
}

fn header_id(index: u8) -> (Vec<u8>, u64) {
    (block_hash(index), index as u64)
}

fn keyring() -> Vec<SigningKey> {
    vec![
        SigningKey::from_bytes(&[1u8; 32]),
        SigningKey::from_bytes(&[2u8; 32]),
        SigningKey::from_bytes(&[3u8; 32]),
    ]
}

fn authorities_set() -> VoterSet {
    let authorities = keyring()
        .iter()
        .map(|key| Authority { id: key.verifying_key().to_bytes().to_vec(), weight: 1 })
        .collect();
    VoterSet::new(authorities).unwrap()
}

fn signed_precommit(signer: &SigningKey, target: (Vec<u8>, u64)) -> SignedPrecommit {
    let precommit = Precommit { target_hash: target.0, target_number: target.1 };
    let payload = signing_payload(&precommit, ROUND, SET_ID);
    let signature = signer.sign(&payload).to_bytes().to_vec();
    SignedPrecommit { precommit, signature, id: signer.verifying_key().to_bytes().to_vec() }
}

fn encode_u64(out: &mut Vec<u8>, x: u64) {
    out.extend_from_slice(&x.to_le_bytes());
}

fn encode_compact(out: &mut Vec<u8>, n: u64) {
    if n < 64 {
        out.push((n as u8) << 2);
    } else if n < 16384 {
        out.extend_from_slice(&((((n as u16) << 2) | 1).to_le_bytes()));
    } else if n < 1 << 30 {
        out.extend_from_slice(&((((n as u32) << 2) | 2).to_le_bytes()));
    } else {
        out.push(3);
        out.extend_from_slice(&((n as u32).to_le_bytes()));
    }
}

fn encode_justification(j: &Justification) -> Vec<u8> {
    let mut out = Vec::new();
    encode_u64(&mut out, j.round);
    out.extend_from_slice(&j.commit.target_hash);
    encode_u64(&mut out, j.commit.target_number);
    encode_compact(&mut out, j.commit.precommits.len() as u64);
    for signed in &j.commit.precommits {
        out.extend_from_slice(&signed.precommit.target_hash);
        encode_u64(&mut out, signed.precommit.target_number);
        out.extend_from_slice(&signed.signature);
        out.extend_from_slice(&signed.id);
    }
    encode_compact(&mut out, j.votes_ancestries.len() as u64);
    for h in &j.votes_ancestries {
        out.extend_from_slice(&h.hash);
        out.extend_from_slice(&h.parent_hash);
        encode_u64(&mut out, h.number);
    }
    out
}

struct TestChain(BTreeMap<[u8; 32], [u8; 32]>);

impl finality_grandpa::Chain<[u8; 32], u64> for TestChain {
    fn ancestry(
        &self,
        base: [u8; 32],
        block: [u8; 32],
    ) -> Result<Vec<[u8; 32]>, finality_grandpa::Error> {
        let mut route = Vec::new();
        let mut current = block;
        loop {
            if current == base {
                break;
            }
            match self.0.get(&current) {
                Some(parent) => {
                    current = *parent;
                    route.push(current);
                },
                None => return Err(finality_grandpa::Error::NotDescendent),
            }
        }
        route.pop();
        Ok(route)
    }
}

fn reference_commit_is_valid(justification: &Justification) -> bool {
    let chain = TestChain(
        justification
            .votes_ancestries
            .iter()
            .map(|h| (arr(&h.hash), arr(&h.parent_hash)))
            .collect(),
    );
    let voters = finality_grandpa::voter_set::VoterSet::new(
        keyring().iter().map(|key| (key.verifying_key().to_bytes(), 1u64)),
    )
    .unwrap();
    let commit = finality_grandpa::Commit::<[u8; 32], u64, Vec<u8>, [u8; 32]> {
        target_hash: arr(&justification.commit.target_hash),
        target_number: justification.commit.target_number,
        precommits: justification
            .commit
            .precommits
            .iter()
            .map(|signed| finality_grandpa::SignedPrecommit {
                precommit: finality_grandpa::Precommit {
                    target_hash: arr(&signed.precommit.target_hash),
                    target_number: signed.precommit.target_number,
                },
                signature: signed.signature.clone(),
                id: arr(&signed.id),
            })
            .collect(),
    };
    match finality_grandpa::validate_commit(&commit, &voters, &chain) {
        Ok(result) => result.is_valid(),
        Err(_) => false,
    }
}

#[test]
fn commit_verdict_agrees_with_reference_validation() {
    let keys = keyring();

    // a fully backed commit for the best candidate: accepted here, valid there
    let complete = Justification {
        round: ROUND,
        commit: Commit {
            target_hash: header_id(2).0,
            target_number: header_id(2).1,
            precommits: vec![
                signed_precommit(&keys[0], header_id(2)),
                signed_precommit(&keys[1], header_id(3)),
                signed_precommit(&keys[2], header_id(4)),
            ],
        },
        votes_ancestries: vec![header(3), header(4)],
    };
    assert!(reference_commit_is_valid(&complete));
    assert_eq!(
        verify_justification(
            header_id(2),
            SET_ID,
            authorities_set(),
            &encode_justification(&complete),
        ),
        Ok(()),
    );

    // an empty commit: rejected here, invalid there
    let mut empty = complete;
    empty.commit.precommits.clear();
    empty.votes_ancestries.clear();
    assert!(!reference_commit_is_valid(&empty));
    assert_eq!(
        verify_justification(
            header_id(2),
            SET_ID,
            authorities_set(),
            &encode_justification(&empty),
        ),
        Err(grandpa_justification::types::Error::InvalidJustificationCommit),
    );
}

#[test]
fn minority_commit_agrees_with_reference_validation() {
    let keys = keyring();
    let minority = Justification {
        round: ROUND,
        commit: Commit {
            target_hash: header_id(1).0,
            target_number: header_id(1).1,
            precommits: vec![signed_precommit(&keys[0], header_id(2))],
        },
        votes_ancestries: vec![header(2)],
    };
    assert!(!reference_commit_is_valid(&minority));
    assert_eq!(
        verify_justification(
            header_id(1),
            SET_ID,
            authorities_set(),
            &encode_justification(&minority),
        ),
        Err(grandpa_justification::types::Error::InvalidJustificationCommit),
    );
}
