//! Binary decoding of justifications.
//!
//! The wire format is a compact deterministic binary encoding: integers are
//! little-endian and fixed width, byte strings are raw, and sequences carry a
//! compact length prefix (1, 2, 4 or 5 bytes, minimally encoded) followed by
//! the concatenated element encodings. Decoding is all-or-nothing: trailing
//! bytes, truncation or a non-minimal length prefix fail the whole decode.

use vstd::prelude::*;

use crate::types::{
    Commit, Header, Justification, Precommit, SignedPrecommit, SpecCommit, SpecHeader,
    SpecJustification, SpecPrecommit, SpecSignedPrecommit, HASH_LEN, ID_LEN, SIG_LEN,
};

verus! {

/// Views of a sequence of signed precommits.
pub open spec fn views_of_precommits(v: Seq<SignedPrecommit>) -> Seq<SpecSignedPrecommit> {
    v.map_values(|p: SignedPrecommit| p@)
}

/// Views of a sequence of headers.
pub open spec fn views_of_headers(v: Seq<Header>) -> Seq<SpecHeader> {
    v.map_values(|h: Header| h@)
}

/// Little-endian value of the 8 bytes of `s` starting at `i`.
pub open spec fn le_u64_at(s: Seq<u8>, i: int) -> u64 {
    (s[i] as u64) | ((s[i + 1] as u64) << 8) | ((s[i + 2] as u64) << 16)
        | ((s[i + 3] as u64) << 24) | ((s[i + 4] as u64) << 32) | ((s[i + 5] as u64) << 40)
        | ((s[i + 6] as u64) << 48) | ((s[i + 7] as u64) << 56)
}

/// Reads a fixed-width little-endian 64-bit integer.
pub open spec fn spec_read_u64(s: Seq<u8>, pos: usize) -> Option<(u64, usize)> {
    if pos + 8 <= s.len() {
        Some((le_u64_at(s, pos as int), (pos + 8) as usize))
    } else {
        None
    }
}

/// Reads a fixed-width little-endian 64-bit integer starting at `pos`.
pub fn read_u64(s: &[u8], pos: usize) -> (r: Option<(u64, usize)>)
    ensures
        r == spec_read_u64(s@, pos),
{
    if 8 <= s.len() && pos <= s.len() - 8 {
        let v = (s[pos] as u64) | ((s[pos + 1] as u64) << 8) | ((s[pos + 2] as u64) << 16)
            | ((s[pos + 3] as u64) << 24) | ((s[pos + 4] as u64) << 32)
            | ((s[pos + 5] as u64) << 40) | ((s[pos + 6] as u64) << 48)
            | ((s[pos + 7] as u64) << 56);
        Some((v, pos + 8))
    } else {
        None
    }
}

/// Reads `n` raw bytes.
pub open spec fn spec_read_bytes(s: Seq<u8>, pos: usize, n: usize) -> Option<(Seq<u8>, usize)> {
    if pos + n <= s.len() {
        Some((s.subrange(pos as int, pos + n), (pos + n) as usize))
    } else {
        None
    }
}

/// Reads `n` raw bytes starting at `pos`.
pub fn read_bytes(s: &[u8], pos: usize, n: usize) -> (r: Option<(Vec<u8>, usize)>)
    ensures
        match (r, spec_read_bytes(s@, pos, n)) {
            (Some(rv), Some(sv)) => rv.0@ == sv.0 && rv.1 == sv.1,
            (None, None) => true,
            _ => false,
        },
{
    if n <= s.len() && pos <= s.len() - n {
        let mut v: Vec<u8> = Vec::new();
        let mut i: usize = 0;
        while i < n
            invariant
                pos + n <= s@.len(),
                s@.len() <= usize::MAX,
                i <= n,
                v@.len() == i,
                forall|k: int| 0 <= k < i ==> v@[k] == s@[pos + k],
            decreases n - i,
        {
            v.push(s[pos + i]);
            i = i + 1;
        }
        proof {
            assert(v@ =~= s@.subrange(pos as int, pos + n));
        }
        Some((v, pos + n))
    } else {
        None
    }
}

/// Reads a compact length prefix: the two low bits of the first byte select
/// the width, the remaining bits (little-endian) hold the value, and every
/// value must use the shortest form that can carry it.
pub open spec fn spec_read_compact(s: Seq<u8>, pos: usize) -> Option<(u64, usize)> {
    if pos < s.len() {
        let b = s[pos as int];
        if b & 3 == 0 {
            Some(((b >> 2) as u64, (pos + 1) as usize))
        } else if b & 3 == 1 {
            if pos + 2 <= s.len() {
                let x = ((b as u64) | ((s[pos + 1] as u64) << 8)) >> 2;
                if 64 <= x && x <= 0x3fff {
                    Some((x, (pos + 2) as usize))
                } else {
                    None
                }
            } else {
                None
            }
        } else if b & 3 == 2 {
            if pos + 4 <= s.len() {
                let x = ((b as u64) | ((s[pos + 1] as u64) << 8) | ((s[pos + 2] as u64) << 16)
                    | ((s[pos + 3] as u64) << 24)) >> 2;
                if 0x4000 <= x && x <= 0x3fff_ffff {
                    Some((x, (pos + 4) as usize))
                } else {
                    None
                }
            } else {
                None
            }
        } else {
            if b >> 2 == 0 {
                if pos + 5 <= s.len() {
                    let x = (s[pos + 1] as u64) | ((s[pos + 2] as u64) << 8)
                        | ((s[pos + 3] as u64) << 16) | ((s[pos + 4] as u64) << 24);
                    if 0x3fff_ffff < x {
                        Some((x, (pos + 5) as usize))
                    } else {
                        None
                    }
                } else {
                    None
                }
            } else {
                None
            }
        }
    } else {
        None
    }
}

/// Reads a compact length prefix starting at `pos`.
pub fn read_compact(s: &[u8], pos: usize) -> (r: Option<(u64, usize)>)
    ensures
        r == spec_read_compact(s@, pos),
{
    if pos < s.len() {
        let b = s[pos];
        if b & 3 == 0 {
            Some(((b >> 2) as u64, pos + 1))
        } else if b & 3 == 1 {
            if s.len() - pos >= 2 {
                let x = ((b as u64) | ((s[pos + 1] as u64) << 8)) >> 2;
                if 64 <= x && x <= 0x3fff {
                    Some((x, pos + 2))
                } else {
                    None
                }
            } else {
                None
            }
        } else if b & 3 == 2 {
            if s.len() - pos >= 4 {
                let x = ((b as u64) | ((s[pos + 1] as u64) << 8) | ((s[pos + 2] as u64) << 16)
                    | ((s[pos + 3] as u64) << 24)) >> 2;
                if 0x4000 <= x && x <= 0x3fff_ffff {
                    Some((x, pos + 4))
                } else {
                    None
                }
            } else {
                None
            }
        } else {
            if b >> 2 == 0 {
                if s.len() - pos >= 5 {
                    let x = (s[pos + 1] as u64) | ((s[pos + 2] as u64) << 8)
                        | ((s[pos + 3] as u64) << 16) | ((s[pos + 4] as u64) << 24);
                    if 0x3fff_ffff < x {
                        Some((x, pos + 5))
                    } else {
                        None
                    }
                } else {
                    None
                }
            } else {
                None
            }
        }
    } else {
        None
    }
}

/// Reads one precommit: target hash, then target number.
pub open spec fn spec_read_precommit(s: Seq<u8>, pos: usize) -> Option<(SpecPrecommit, usize)> {
    match spec_read_bytes(s, pos, HASH_LEN) {
        None => None,
        Some((h, p1)) => match spec_read_u64(s, p1) {
            None => None,
            Some((n, p2)) => Some((SpecPrecommit { target_hash: h, target_number: n }, p2)),
        },
    }
}

/// Reads one precommit starting at `pos`.
pub fn read_precommit(s: &[u8], pos: usize) -> (r: Option<(Precommit, usize)>)
    ensures
        match (r, spec_read_precommit(s@, pos)) {
            (Some(rv), Some(sv)) => rv.0@ == sv.0 && rv.1 == sv.1,
            (None, None) => true,
            _ => false,
        },
{
    match read_bytes(s, pos, HASH_LEN) {
        None => None,
        Some((h, p1)) => match read_u64(s, p1) {
            None => None,
            Some((n, p2)) => Some((Precommit { target_hash: h, target_number: n }, p2)),
        },
    }
}

/// Reads one signed precommit: the precommit, the signature, the authority.
pub open spec fn spec_read_signed(s: Seq<u8>, pos: usize) -> Option<(SpecSignedPrecommit, usize)> {
    match spec_read_precommit(s, pos) {
        None => None,
        Some((pc, p1)) => match spec_read_bytes(s, p1, SIG_LEN) {
            None => None,
            Some((sig, p2)) => match spec_read_bytes(s, p2, ID_LEN) {
                None => None,
                Some((id, p3)) => Some(
                    (SpecSignedPrecommit { precommit: pc, signature: sig, id: id }, p3),
                ),
            },
        },
    }
}

/// Reads one signed precommit starting at `pos`.
pub fn read_signed(s: &[u8], pos: usize) -> (r: Option<(SignedPrecommit, usize)>)
    ensures
        match (r, spec_read_signed(s@, pos)) {
            (Some(rv), Some(sv)) => rv.0@ == sv.0 && rv.1 == sv.1,
            (None, None) => true,
            _ => false,
        },
{
    match read_precommit(s, pos) {
        None => None,
        Some((pc, p1)) => match read_bytes(s, p1, SIG_LEN) {
            None => None,
            Some((sig, p2)) => match read_bytes(s, p2, ID_LEN) {
                None => None,
                Some((id, p3)) => Some(
                    (SignedPrecommit { precommit: pc, signature: sig, id: id }, p3),
                ),
            },
        },
    }
}

/// Reads `n` consecutive signed precommits.
pub open spec fn spec_read_precommit_seq(s: Seq<u8>, pos: usize, n: u64) -> Option<
    (Seq<SpecSignedPrecommit>, usize),
>
    decreases n,
{
    if n == 0 {
        Some((Seq::empty(), pos))
    } else {
        match spec_read_signed(s, pos) {
            None => None,
            Some((sp, p1)) => match spec_read_precommit_seq(s, p1, (n - 1) as u64) {
                None => None,
                Some((rest, p2)) => Some((seq![sp].add(rest), p2)),
            },
        }
    }
}

/// Reads `n` consecutive signed precommits starting at `pos`.
pub fn read_precommit_seq(s: &[u8], pos: usize, n: u64) -> (r: Option<(Vec<SignedPrecommit>, usize)>)
    ensures
        match (r, spec_read_precommit_seq(s@, pos, n)) {
            (Some(rv), Some(sv)) => views_of_precommits(rv.0@) == sv.0 && rv.1 == sv.1,
            (None, None) => true,
            _ => false,
        },
{
    let mut items: Vec<SignedPrecommit> = Vec::new();
    let mut p = pos;
    let mut i: u64 = 0;
    while i < n
        invariant
            i <= n,
            items@.len() == i,
            (match spec_read_precommit_seq(s@, p, (n - i) as u64) {
                None => spec_read_precommit_seq(s@, pos, n) is None,
                Some((rest, pend)) => spec_read_precommit_seq(s@, pos, n) == Some(
                    (views_of_precommits(items@).add(rest), pend),
                ),
            }),
        decreases n - i,
    {
        match read_signed(s, p) {
            None => {
                proof {
                    assert(spec_read_precommit_seq(s@, p, (n - i) as u64) is None);
                }
                return None;
            },
            Some((sp, p2)) => {
                proof {
                    let tail = spec_read_precommit_seq(s@, p2, (n - i - 1) as u64);
                    assert(spec_read_precommit_seq(s@, p, (n - i) as u64) == (match tail {
                        None => None::<(Seq<SpecSignedPrecommit>, usize)>,
                        Some((rest, pend)) => Some((seq![sp@].add(rest), pend)),
                    }));
                    if tail is Some {
                        let (rest, pend) = tail.unwrap();
                        assert(views_of_precommits(items@).add(seq![sp@].add(rest)) =~= views_of_precommits(
                            items@.push(sp),
                        ).add(rest));
                    }
                }
                items.push(sp);
                p = p2;
                i = i + 1;
            },
        }
    }
    Some((items, p))
}

/// Reads one header: its hash, its parent hash, its number.
pub open spec fn spec_read_header(s: Seq<u8>, pos: usize) -> Option<(SpecHeader, usize)> {
    match spec_read_bytes(s, pos, HASH_LEN) {
        None => None,
        Some((h, p1)) => match spec_read_bytes(s, p1, HASH_LEN) {
            None => None,
            Some((ph, p2)) => match spec_read_u64(s, p2) {
                None => None,
                Some((n, p3)) => Some(
                    (SpecHeader { hash: h, parent_hash: ph, number: n }, p3),
                ),
            },
        },
    }
}

/// Reads one header starting at `pos`.
pub fn read_header(s: &[u8], pos: usize) -> (r: Option<(Header, usize)>)
    ensures
        match (r, spec_read_header(s@, pos)) {
            (Some(rv), Some(sv)) => rv.0@ == sv.0 && rv.1 == sv.1,
            (None, None) => true,
            _ => false,
        },
{
    match read_bytes(s, pos, HASH_LEN) {
        None => None,
        Some((h, p1)) => match read_bytes(s, p1, HASH_LEN) {
            None => None,
            Some((ph, p2)) => match read_u64(s, p2) {
                None => None,
                Some((n, p3)) => Some(
                    (Header { hash: h, parent_hash: ph, number: n }, p3),
                ),
            },
        },
    }
}

/// Reads `n` consecutive headers.
pub open spec fn spec_read_header_seq(s: Seq<u8>, pos: usize, n: u64) -> Option<
    (Seq<SpecHeader>, usize),
>
    decreases n,
{
    if n == 0 {
        Some((Seq::empty(), pos))
    } else {
        match spec_read_header(s, pos) {
            None => None,
            Some((h, p1)) => match spec_read_header_seq(s, p1, (n - 1) as u64) {
                None => None,
                Some((rest, p2)) => Some((seq![h].add(rest), p2)),
            },
        }
    }
}

/// Reads `n` consecutive headers starting at `pos`.
pub fn read_header_seq(s: &[u8], pos: usize, n: u64) -> (r: Option<(Vec<Header>, usize)>)
    ensures
        match (r, spec_read_header_seq(s@, pos, n)) {
            (Some(rv), Some(sv)) => views_of_headers(rv.0@) == sv.0 && rv.1 == sv.1,
            (None, None) => true,
            _ => false,
        },
{
    let mut items: Vec<Header> = Vec::new();
    let mut p = pos;
    let mut i: u64 = 0;
    while i < n
        invariant
            i <= n,
            items@.len() == i,
            (match spec_read_header_seq(s@, p, (n - i) as u64) {
                None => spec_read_header_seq(s@, pos, n) is None,
                Some((rest, pend)) => spec_read_header_seq(s@, pos, n) == Some(
                    (views_of_headers(items@).add(rest), pend),
                ),
            }),
        decreases n - i,
    {
        match read_header(s, p) {
            None => {
                proof {
                    assert(spec_read_header_seq(s@, p, (n - i) as u64) is None);
                }
                return None;
            },
            Some((h, p2)) => {
                proof {
                    let tail = spec_read_header_seq(s@, p2, (n - i - 1) as u64);
                    assert(spec_read_header_seq(s@, p, (n - i) as u64) == (match tail {
                        None => None::<(Seq<SpecHeader>, usize)>,
                        Some((rest, pend)) => Some((seq![h@].add(rest), pend)),
                    }));
                    if tail is Some {
                        let (rest, pend) = tail.unwrap();
                        assert(views_of_headers(items@).add(seq![h@].add(rest)) =~= views_of_headers(
                            items@.push(h),
                        ).add(rest));
                    }
                }
                items.push(h);
                p = p2;
                i = i + 1;
            },
        }
    }
    Some((items, p))
}

/// Reads a commit: target hash, target number, then the vote list with its
/// compact length prefix.
pub open spec fn spec_read_commit(s: Seq<u8>, pos: usize) -> Option<(SpecCommit, usize)> {
    match spec_read_bytes(s, pos, HASH_LEN) {
        None => None,
        Some((h, p1)) => match spec_read_u64(s, p1) {
            None => None,
            Some((tn, p2)) => match spec_read_compact(s, p2) {
                None => None,
                Some((n, p3)) => match spec_read_precommit_seq(s, p3, n) {
                    None => None,
                    Some((pcs, p4)) => Some(
                        (SpecCommit { target_hash: h, target_number: tn, precommits: pcs }, p4),
                    ),
                },
            },
        },
    }
}

/// Reads a commit starting at `pos`.
pub fn read_commit(s: &[u8], pos: usize) -> (r: Option<(Commit, usize)>)
    ensures
        match (r, spec_read_commit(s@, pos)) {
            (Some(rv), Some(sv)) => rv.0@ == sv.0 && rv.1 == sv.1,
            (None, None) => true,
            _ => false,
        },
{
    match read_bytes(s, pos, HASH_LEN) {
        None => None,
        Some((h, p1)) => match read_u64(s, p1) {
            None => None,
            Some((tn, p2)) => match read_compact(s, p2) {
                None => None,
                Some((n, p3)) => match read_precommit_seq(s, p3, n) {
                    None => None,
                    Some((pcs, p4)) => Some(
                        (Commit { target_hash: h, target_number: tn, precommits: pcs }, p4),
                    ),
                },
            },
        },
    }
}

/// Decodes a whole justification. The decode succeeds only if every byte of
/// the input is consumed.
pub open spec fn spec_decode_justification(s: Seq<u8>) -> Option<SpecJustification> {
    match spec_read_u64(s, 0) {
        None => None,
        Some((round, p1)) => match spec_read_commit(s, p1) {
            None => None,
            Some((commit, p2)) => match spec_read_compact(s, p2) {
                None => None,
                Some((n, p3)) => match spec_read_header_seq(s, p3, n) {
                    None => None,
                    Some((hs, p4)) => if p4 == s.len() {
                        Some(SpecJustification { round, commit, votes_ancestries: hs })
                    } else {
                        None
                    },
                },
            },
        },
    }
}

/// Decodes a whole justification; `None` means the bytes are malformed.
pub fn decode_justification(s: &[u8]) -> (r: Option<Justification>)
    ensures
        match (r, spec_decode_justification(s@)) {
            (Some(j), Some(sj)) => j@ == sj,
            (None, None) => true,
            _ => false,
        },
{
    match read_u64(s, 0) {
        None => None,
        Some((round, p1)) => match read_commit(s, p1) {
            None => None,
            Some((commit, p2)) => match read_compact(s, p2) {
                None => None,
                Some((n, p3)) => match read_header_seq(s, p3, n) {
                    None => None,
                    Some((hs, p4)) => if p4 == s.len() {
                        Some(Justification { round, commit, votes_ancestries: hs })
                    } else {
                        None
                    },
                },
            },
        },
    }
}

} // verus!
