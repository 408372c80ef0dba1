//! Justification verification on a small linear chain: blocks 0..=4, three
//! equally weighted authorities precommitting for blocks 2, 3 and 4.

use ed25519_dalek::{Signer, SigningKey};

use grandpa_justification::types::{Commit, Error, Header, Justification, Precommit, SignedPrecommit};
use grandpa_justification::verify::{signing_payload, verify_justification};
use grandpa_justification::voters::{Authority, VoterSet};

const TEST_GRANDPA_ROUND: u64 = 1;
const TEST_GRANDPA_SET_ID: u64 = 1;

fn block_hash(index: u8) -> Vec<u8> {
    let mut h = vec![0u8; 32];
    h[0] = index;
    h[1] = 0xab;
    h
}

fn header(index: u8) -> Header {
    Header {
        hash: block_hash(index),
        parent_hash: if index == 0 { vec![0u8; 32] } else { block_hash(index - 1) },
        number: index as u64,
    }
}

fn header_id(index: u8) -> (Vec<u8>, u64) {
    (block_hash(index), index as u64)
}

fn keyring() -> Vec<SigningKey> {
    vec![
        SigningKey::from_bytes(&[1u8; 32]),
        SigningKey::from_bytes(&[2u8; 32]),
        SigningKey::from_bytes(&[3u8; 32]),
    ]
}

fn authorities_set() -> VoterSet {
    let authorities = keyring()
        .iter()
        .map(|key| Authority { id: key.verifying_key().to_bytes().to_vec(), weight: 1 })
        .collect();
    VoterSet::new(authorities).unwrap()
}

fn signed_precommit(signer: &SigningKey, target: (Vec<u8>, u64)) -> SignedPrecommit {
    let precommit = Precommit { target_hash: target.0, target_number: target.1 };
    let payload = signing_payload(&precommit, TEST_GRANDPA_ROUND, TEST_GRANDPA_SET_ID);
    let signature = signer.sign(&payload).to_bytes().to_vec();
    SignedPrecommit { precommit, signature, id: signer.verifying_key().to_bytes().to_vec() }
}

fn make_justification_for_header_1() -> Justification {
    let keys = keyring();
    Justification {
        round: TEST_GRANDPA_ROUND,
        commit: Commit {
            target_hash: header_id(1).0,
            target_number: header_id(1).1,
            precommits: vec![
                signed_precommit(&keys[0], header_id(2)),
                signed_precommit(&keys[1], header_id(3)),
                signed_precommit(&keys[2], header_id(4)),
            ],
        },
        votes_ancestries: vec![header(2), header(3), header(4)],
    }
}

fn encode_u64(out: &mut Vec<u8>, x: u64) {
    out.extend_from_slice(&x.to_le_bytes());
}

fn encode_compact(out: &mut Vec<u8>, n: u64) {
    if n < 64 {
        out.push((n as u8) << 2);
    } else if n < 16384 {
        out.extend_from_slice(&((((n as u16) << 2) | 1).to_le_bytes()));
    } else if n < 1 << 30 {
        out.extend_from_slice(&((((n as u32) << 2) | 2).to_le_bytes()));
    } else {
        out.push(3);
        out.extend_from_slice(&((n as u32).to_le_bytes()));
    }
}

fn encode_justification(j: &Justification) -> Vec<u8> {
    let mut out = Vec::new();
    encode_u64(&mut out, j.round);
    out.extend_from_slice(&j.commit.target_hash);
    encode_u64(&mut out, j.commit.target_number);
    encode_compact(&mut out, j.commit.precommits.len() as u64);
    for signed in &j.commit.precommits {
        out.extend_from_slice(&signed.precommit.target_hash);
        encode_u64(&mut out, signed.precommit.target_number);
        out.extend_from_slice(&signed.signature);
        out.extend_from_slice(&signed.id);
    }
    encode_compact(&mut out, j.votes_ancestries.len() as u64);
    for h in &j.votes_ancestries {
        out.extend_from_slice(&h.hash);
        out.extend_from_slice(&h.parent_hash);
        encode_u64(&mut out, h.number);
    }
    out
}

#[test]
fn justification_with_invalid_encoding_rejected() {
    assert_eq!(
        verify_justification(header_id(1), TEST_GRANDPA_SET_ID, authorities_set(), &[]),
        Err(Error::JustificationDecode),
    );
}

#[test]
fn justification_with_invalid_target_rejected() {
    assert_eq!(
        verify_justification(
            header_id(2),
            TEST_GRANDPA_SET_ID,
            authorities_set(),
            &encode_justification(&make_justification_for_header_1()),
        ),
        Err(Error::InvalidJustificationTarget),
    );
}

#[test]
fn justification_with_invalid_commit_rejected() {
    let mut justification = make_justification_for_header_1();
    justification.commit.precommits.clear();

    assert_eq!(
        verify_justification(
            header_id(1),
            TEST_GRANDPA_SET_ID,
            authorities_set(),
            &encode_justification(&justification),
        ),
        Err(Error::InvalidJustificationCommit),
    );
}

#[test]
fn justification_with_invalid_authority_signature_rejected() {
    let mut justification = make_justification_for_header_1();
    justification.commit.precommits[0].signature = vec![0u8; 64];

    assert_eq!(
        verify_justification(
            header_id(1),
            TEST_GRANDPA_SET_ID,
            authorities_set(),
            &encode_justification(&justification),
        ),
        Err(Error::InvalidAuthoritySignature),
    );
}

#[test]
fn justification_with_invalid_precommit_ancestry() {
    let mut justification = make_justification_for_header_1();
    justification.votes_ancestries.push(header(10));

    assert_eq!(
        verify_justification(
            header_id(1),
            TEST_GRANDPA_SET_ID,
            authorities_set(),
            &encode_justification(&justification),
        ),
        Err(Error::InvalidPrecommitAncestries),
    );
}

#[test]
fn valid_justification_accepted() {
    assert_eq!(
        verify_justification(
            header_id(1),
            TEST_GRANDPA_SET_ID,
            authorities_set(),
            &encode_justification(&make_justification_for_header_1()),
        ),
        Ok(()),
    );
}
