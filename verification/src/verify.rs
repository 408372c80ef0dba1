//! The justification verifier: decode, match the target, weigh the commit,
//! check every vote's signature, and prove the supplied ancestry exact.

use vstd::prelude::*;

use crate::ancestry::{spec_entries_of, spec_route, views_of_hashes, AncestryChain};
use crate::encoding::{decode_justification, spec_decode_justification};
use crate::types::{
    bytes_eq, copy_bytes, Error, Precommit, SpecCommit, SpecHeader, SpecPrecommit,
};
use crate::voters::{
    approving_weight_from, spec_threshold, spec_voter_set_wf, SpecAuthority, VoterSet,
};

verus! {

/// Message-kind tag of a precommit vote in the canonical signing payload.
pub const PRECOMMIT_TAG: u8 = 1;

/// The eight little-endian bytes of `x`.
pub open spec fn le_bytes_u64(x: u64) -> Seq<u8> {
    seq![
        x as u8,
        (x >> 8) as u8,
        (x >> 16) as u8,
        (x >> 24) as u8,
        (x >> 32) as u8,
        (x >> 40) as u8,
        (x >> 48) as u8,
        (x >> 56) as u8,
    ]
}

/// The canonical bytes an authority signs for a precommit: the tagged vote,
/// then the round, then the authority-set id.
pub open spec fn spec_signing_payload(pc: SpecPrecommit, round: u64, set_id: u64) -> Seq<u8> {
    seq![PRECOMMIT_TAG].add(pc.target_hash).add(le_bytes_u64(pc.target_number)).add(
        le_bytes_u64(round),
    ).add(le_bytes_u64(set_id))
}

/// Appends the eight little-endian bytes of `x`.
fn push_le_u64(v: &mut Vec<u8>, x: u64)
    ensures
        final(v)@ == old(v)@.add(le_bytes_u64(x)),
{
    v.push(#[verifier::truncate] (x as u8));
    v.push(#[verifier::truncate] ((x >> 8) as u8));
    v.push(#[verifier::truncate] ((x >> 16) as u8));
    v.push(#[verifier::truncate] ((x >> 24) as u8));
    v.push(#[verifier::truncate] ((x >> 32) as u8));
    v.push(#[verifier::truncate] ((x >> 40) as u8));
    v.push(#[verifier::truncate] ((x >> 48) as u8));
    v.push(#[verifier::truncate] ((x >> 56) as u8));
    proof {
        assert(v@ =~= old(v)@.add(le_bytes_u64(x)));
    }
}

/// Builds the canonical signing payload of one precommit vote.
pub fn signing_payload(pc: &Precommit, round: u64, set_id: u64) -> (r: Vec<u8>)
    ensures
        r@ == spec_signing_payload(pc@, round, set_id),
{
    let mut v: Vec<u8> = Vec::new();
    v.push(PRECOMMIT_TAG);
    let n = pc.target_hash.len();
    let mut i: usize = 0;
    while i < n
        invariant
            n == pc.target_hash@.len(),
            i <= n,
            v@ == seq![PRECOMMIT_TAG].add(pc.target_hash@.take(i as int)),
        decreases n - i,
    {
        v.push(pc.target_hash[i]);
        proof {
            assert(v@ =~= seq![PRECOMMIT_TAG].add(pc.target_hash@.take(i + 1)));
        }
        i = i + 1;
    }
    proof {
        assert(pc.target_hash@.take(n as int) =~= pc.target_hash@);
    }
    push_le_u64(&mut v, pc.target_number);
    push_le_u64(&mut v, round);
    push_le_u64(&mut v, set_id);
    v
}

/// Whether Ed25519 verification accepts `signature` by the public key `id`
/// over `message`. The verdict is a function of the three byte strings alone.
pub uninterp spec fn ed25519_accepts(id: Seq<u8>, signature: Seq<u8>, message: Seq<u8>) -> bool;

/// Relies on `ed25519_dalek::VerifyingKey::verify_strict`: whether a
/// signature is accepted depends only on the key bytes, the signature bytes
/// and the message; byte strings that parse as no key or signature are
/// accepted nowhere.
#[verifier::external_body]
fn ed25519_verify(id: &Vec<u8>, signature: &Vec<u8>, message: &Vec<u8>) -> (r: bool)
    ensures
        r == ed25519_accepts(id@, signature@, message@),
{
    match (
        <&[u8; 32]>::try_from(id.as_slice()),
        <&[u8; 64]>::try_from(signature.as_slice()),
    ) {
        (Ok(pk), Ok(sg)) => match ed25519_dalek::VerifyingKey::from_bytes(pk) {
            Ok(key) => key.verify_strict(
                message.as_slice(),
                &ed25519_dalek::Signature::from_bytes(sg),
            ).is_ok(),
            Err(_) => false,
        },
        _ => false,
    }
}

/// The set of byte strings occurring in `s`.
pub open spec fn set_of_hashes(s: Seq<Seq<u8>>) -> Set<Seq<u8>> {
    Set::new(|x: Seq<u8>| exists|k: int| 0 <= k < s.len() && s[k] == x)
}

/// The set of hashes of the headers in `headers`.
pub open spec fn spec_ancestry_hash_set(headers: Seq<SpecHeader>) -> Set<Seq<u8>> {
    set_of_hashes(headers.map_values(|h: SpecHeader| h.hash))
}

/// Whether vote `k` of `commit` carries a signature that verifies for the
/// given round and set id.
pub open spec fn spec_vote_sig_ok(commit: SpecCommit, round: u64, set_id: u64, k: int) -> bool {
    ed25519_accepts(
        commit.precommits[k].id,
        commit.precommits[k].signature,
        spec_signing_payload(commit.precommits[k].precommit, round, set_id),
    )
}

/// Whether vote `k` targets a block other than the commit's target, and so
/// needs an ancestry route.
pub open spec fn spec_vote_needs_route(commit: SpecCommit, k: int) -> bool {
    commit.precommits[k].precommit.target_hash != commit.target_hash
}

/// The ancestry route of vote `k` back to the commit's target.
pub open spec fn spec_vote_route(
    entries: Seq<(Seq<u8>, Seq<u8>)>,
    commit: SpecCommit,
    k: int,
) -> Option<Seq<Seq<u8>>> {
    spec_route(entries, commit.target_hash, commit.precommits[k].precommit.target_hash)
}

/// The walk over the votes from index `i` on: each vote's signature is
/// checked in order, then its route back to the target is resolved and the
/// hashes the route uses are accumulated into `visited`. The first failure
/// decides the error.
pub open spec fn spec_scan(
    commit: SpecCommit,
    round: u64,
    set_id: u64,
    entries: Seq<(Seq<u8>, Seq<u8>)>,
    i: int,
    visited: Set<Seq<u8>>,
) -> Result<Set<Seq<u8>>, Error>
    decreases commit.precommits.len() - i,
{
    if i < 0 || i >= commit.precommits.len() {
        Ok(visited)
    } else if !spec_vote_sig_ok(commit, round, set_id, i) {
        Err(Error::InvalidAuthoritySignature)
    } else if !spec_vote_needs_route(commit, i) {
        spec_scan(commit, round, set_id, entries, i + 1, visited)
    } else {
        match spec_vote_route(entries, commit, i) {
            None => Err(Error::InvalidPrecommitAncestryProof),
            Some(route) => spec_scan(
                commit,
                round,
                set_id,
                entries,
                i + 1,
                visited.insert(commit.precommits[i].precommit.target_hash).union(
                    set_of_hashes(route),
                ),
            ),
        }
    }
}

/// Whether `commit` carries supermajority weight from `voters`: the combined
/// weight of the distinct authorities of the set that signed one of its votes
/// reaches the threshold.
pub open spec fn spec_commit_backed(commit: SpecCommit, voters: Seq<SpecAuthority>) -> bool {
    approving_weight_from(voters, commit.precommits, 0) >= spec_threshold(voters)
}

/// The verdict of verification: the decoded proof must finalize the expected
/// block, its commit must carry supermajority weight, every vote's signature
/// must verify, every vote must connect back to the target through the
/// embedded headers, and those headers must all be used.
pub open spec fn spec_verify_justification(
    target_hash: Seq<u8>,
    target_number: u64,
    set_id: u64,
    voters: Seq<SpecAuthority>,
    raw: Seq<u8>,
) -> Result<(), Error> {
    match spec_decode_justification(raw) {
        None => Err(Error::JustificationDecode),
        Some(j) => if !(j.commit.target_hash == target_hash && j.commit.target_number
            == target_number) {
            Err(Error::InvalidJustificationTarget)
        } else if !spec_commit_backed(j.commit, voters) {
            Err(Error::InvalidJustificationCommit)
        } else {
            match spec_scan(
                j.commit,
                j.round,
                set_id,
                spec_entries_of(j.votes_ancestries),
                0,
                Set::empty(),
            ) {
                Err(e) => Err(e),
                Ok(visited) => if visited == spec_ancestry_hash_set(j.votes_ancestries) {
                    Ok(())
                } else {
                    Err(Error::InvalidPrecommitAncestries)
                },
            }
        },
    }
}

/// Mapping to views commutes with appending one element.
proof fn lemma_views_push(v: Seq<Vec<u8>>, c: Vec<u8>)
    ensures
        views_of_hashes(v.push(c)) == views_of_hashes(v).push(c@),
{
    assert forall|j: int| 0 <= j < v.len() + 1 implies #[trigger] views_of_hashes(v.push(c))[j]
        == views_of_hashes(v).push(c@)[j] by {
        if j < v.len() {
            assert(v.push(c)[j] == v[j]);
        } else {
            assert(v.push(c)[j] == c);
        }
    }
    assert(views_of_hashes(v.push(c)) =~= views_of_hashes(v).push(c@));
}

/// Occurrence in a concatenation `a + [t] + b` is occurrence in `a`, being
/// `t`, or occurrence in `b`.
proof fn lemma_set_of_concat(a: Seq<Seq<u8>>, t: Seq<u8>, b: Seq<Seq<u8>>)
    ensures
        set_of_hashes(a.add(seq![t]).add(b)) == set_of_hashes(a).insert(t).union(set_of_hashes(b)),
{
    let c = a.add(seq![t]).add(b);
    assert forall|x: Seq<u8>|
        #[trigger] set_of_hashes(c).contains(x) == set_of_hashes(a).insert(t).union(
            set_of_hashes(b),
        ).contains(x) by {
        if set_of_hashes(c).contains(x) {
            let k = choose|k: int| 0 <= k < c.len() && c[k] == x;
            if k < a.len() {
                assert(a[k] == x);
            } else if k == a.len() {
                assert(x == t);
            } else {
                assert(b[k - a.len() - 1] == x);
            }
        }
        if set_of_hashes(a).contains(x) {
            let k = choose|k: int| 0 <= k < a.len() && a[k] == x;
            assert(c[k] == x);
        }
        if x == t {
            assert(c[a.len() as int] == x);
        }
        if set_of_hashes(b).contains(x) {
            let k = choose|k: int| 0 <= k < b.len() && b[k] == x;
            assert(c[a.len() + 1 + k] == x);
        }
    }
    assert(set_of_hashes(c) =~= set_of_hashes(a).insert(t).union(set_of_hashes(b)));
}

/// Whether the hash `x` occurs in `v`.
fn contains_hash(v: &Vec<Vec<u8>>, x: &Vec<u8>) -> (r: bool)
    ensures
        r == set_of_hashes(views_of_hashes(v@)).contains(x@),
{
    let n = v.len();
    let mut i: usize = 0;
    while i < n
        invariant
            n == v@.len(),
            i <= n,
            forall|k: int| 0 <= k < i ==> #[trigger] views_of_hashes(v@)[k] != x@,
        decreases n - i,
    {
        if bytes_eq(&v[i], x) {
            proof {
                assert(views_of_hashes(v@)[i as int] == x@);
            }
            return true;
        }
        i = i + 1;
    }
    false
}

/// Whether `a` and `b` hold the same set of hashes.
fn sets_equal(a: &Vec<Vec<u8>>, b: &Vec<Vec<u8>>) -> (r: bool)
    ensures
        r == (set_of_hashes(views_of_hashes(a@)) == set_of_hashes(views_of_hashes(b@))),
{
    let ghost sa = views_of_hashes(a@);
    let ghost sb = views_of_hashes(b@);
    let na = a.len();
    let mut i: usize = 0;
    while i < na
        invariant
            na == a@.len(),
            i <= na,
            sa == views_of_hashes(a@),
            sb == views_of_hashes(b@),
            forall|k: int| 0 <= k < i ==> set_of_hashes(sb).contains(#[trigger] sa[k]),
        decreases na - i,
    {
        if !contains_hash(b, &a[i]) {
            proof {
                assert(sa[i as int] == a@[i as int]@);
                assert(set_of_hashes(sa).contains(sa[i as int]));
                assert(!set_of_hashes(sb).contains(sa[i as int]));
            }
            return false;
        }
        i = i + 1;
    }
    let nb = b.len();
    let mut j: usize = 0;
    while j < nb
        invariant
            nb == b@.len(),
            j <= nb,
            sa == views_of_hashes(a@),
            sb == views_of_hashes(b@),
            forall|k: int| 0 <= k < sa.len() ==> set_of_hashes(sb).contains(#[trigger] sa[k]),
            forall|k: int| 0 <= k < j ==> set_of_hashes(sa).contains(#[trigger] sb[k]),
        decreases nb - j,
    {
        if !contains_hash(a, &b[j]) {
            proof {
                assert(sb[j as int] == b@[j as int]@);
                assert(set_of_hashes(sb).contains(sb[j as int]));
                assert(!set_of_hashes(sa).contains(sb[j as int]));
            }
            return false;
        }
        j = j + 1;
    }
    proof {
        assert forall|x: Seq<u8>|
            #[trigger] set_of_hashes(sa).contains(x) == set_of_hashes(sb).contains(x) by {
            if set_of_hashes(sa).contains(x) {
                let k = choose|k: int| 0 <= k < sa.len() && sa[k] == x;
                assert(set_of_hashes(sb).contains(sa[k]));
            }
            if set_of_hashes(sb).contains(x) {
                let k = choose|k: int| 0 <= k < sb.len() && sb[k] == x;
                assert(set_of_hashes(sa).contains(sb[k]));
            }
        }
        assert(set_of_hashes(sa) =~= set_of_hashes(sb));
    }
    true
}

/// Verify that a justification, generated by the given authority set,
/// finalizes the given header. The verdict equals
/// [`spec_verify_justification`] on the views of the arguments.
pub fn verify_justification(
    finalized_target: (Vec<u8>, u64),
    authorities_set_id: u64,
    authorities_set: VoterSet,
    raw_justification: &[u8],
) -> (r: Result<(), Error>)
    requires
        spec_voter_set_wf(authorities_set@),
    ensures
        r == spec_verify_justification(
            finalized_target.0@,
            finalized_target.1,
            authorities_set_id,
            authorities_set@,
            raw_justification@,
        ),
{
    let justification = match decode_justification(raw_justification) {
        None => {
            return Err(Error::JustificationDecode);
        },
        Some(j) => j,
    };
    let ghost sj = justification@;

    if !(bytes_eq(&justification.commit.target_hash, &finalized_target.0)
        && justification.commit.target_number == finalized_target.1) {
        return Err(Error::InvalidJustificationTarget);
    }

    let weight = authorities_set.approving_weight(&justification.commit.precommits);
    let threshold = authorities_set.threshold();
    if weight < threshold {
        return Err(Error::InvalidJustificationCommit);
    }

    let chain = AncestryChain::new(&justification.votes_ancestries);
    let ghost entries = chain@;

    let mut visited: Vec<Vec<u8>> = Vec::new();
    let n = justification.commit.precommits.len();
    let mut i: usize = 0;
    proof {
        assert(set_of_hashes(views_of_hashes(visited@)) =~= Set::<Seq<u8>>::empty());
    }
    while i < n
        invariant
            n == justification.commit.precommits@.len(),
            i <= n,
            sj == justification@,
            entries == chain@,
            entries == spec_entries_of(sj.votes_ancestries),
            spec_decode_justification(raw_justification@) == Some(sj),
            sj.commit.target_hash == finalized_target.0@,
            sj.commit.target_number == finalized_target.1,
            spec_commit_backed(sj.commit, authorities_set@),
            spec_scan(sj.commit, sj.round, authorities_set_id, entries, 0, Set::empty())
                == spec_scan(
                sj.commit,
                sj.round,
                authorities_set_id,
                entries,
                i as int,
                set_of_hashes(views_of_hashes(visited@)),
            ),
        decreases n - i,
    {
        let signed = &justification.commit.precommits[i];
        proof {
            assert(sj.commit.precommits[i as int] == justification.commit.precommits@[i as int]@);
        }
        let payload = signing_payload(&signed.precommit, justification.round, authorities_set_id);
        if !ed25519_verify(&signed.id, &signed.signature, &payload) {
            proof {
                assert(!spec_vote_sig_ok(sj.commit, sj.round, authorities_set_id, i as int));
            }
            return Err(Error::InvalidAuthoritySignature);
        }
        if bytes_eq(&signed.precommit.target_hash, &justification.commit.target_hash) {
            proof {
                assert(!spec_vote_needs_route(sj.commit, i as int));
            }
        } else {
            match chain.ancestry(&justification.commit.target_hash, &signed.precommit.target_hash) {
                None => {
                    proof {
                        assert(spec_vote_route(entries, sj.commit, i as int) is None);
                    }
                    return Err(Error::InvalidPrecommitAncestryProof);
                },
                Some(route) => {
                    let ghost old_views = views_of_hashes(visited@);
                    let ghost rv = views_of_hashes(route@);
                    let ghost th = sj.commit.precommits[i as int].precommit.target_hash;
                    proof {
                        assert(spec_vote_route(entries, sj.commit, i as int) == Some(rv));
                    }
                    let elem = copy_bytes(&signed.precommit.target_hash);
                    proof {
                        assert(elem@ == th);
                        lemma_views_push(visited@, elem);
                        assert(views_of_hashes(visited@).push(th) =~= old_views.add(seq![th]));
                    }
                    visited.push(elem);
                    let m = route.len();
                    let mut k: usize = 0;
                    while k < m
                        invariant
                            m == route@.len(),
                            k <= m,
                            rv == views_of_hashes(route@),
                            views_of_hashes(visited@) == old_views.add(seq![th]).add(
                                rv.take(k as int),
                            ),
                        decreases m - k,
                    {
                        let elem = copy_bytes(&route[k]);
                        proof {
                            assert(route@[k as int]@ == rv[k as int]);
                            assert(elem@ == rv[k as int]);
                            lemma_views_push(visited@, elem);
                            assert(rv.take(k as int).push(rv[k as int]) =~= rv.take(k + 1));
                            assert(views_of_hashes(visited@).push(elem@) =~= old_views.add(
                                seq![th],
                            ).add(rv.take(k + 1)));
                        }
                        visited.push(elem);
                        k = k + 1;
                    }
                    proof {
                        assert(rv.take(m as int) =~= rv);
                        lemma_set_of_concat(old_views, th, rv);
                    }
                },
            }
        }
        i = i + 1;
    }

    let mut header_hashes: Vec<Vec<u8>> = Vec::new();
    let hn = justification.votes_ancestries.len();
    let mut h: usize = 0;
    while h < hn
        invariant
            hn == justification.votes_ancestries@.len(),
            h <= hn,
            sj == justification@,
            views_of_hashes(header_hashes@) == sj.votes_ancestries.map_values(
                |x: SpecHeader| x.hash,
            ).take(h as int),
        decreases hn - h,
    {
        let elem = copy_bytes(&justification.votes_ancestries[h].hash);
        proof {
            let hashes = sj.votes_ancestries.map_values(|x: SpecHeader| x.hash);
            assert(sj.votes_ancestries[h as int] == justification.votes_ancestries@[h as int]@);
            assert(elem@ == hashes[h as int]);
            lemma_views_push(header_hashes@, elem);
            assert(hashes.take(h as int).push(hashes[h as int]) =~= hashes.take(h + 1));
        }
        header_hashes.push(elem);
        h = h + 1;
    }
    proof {
        assert(sj.votes_ancestries.map_values(|x: SpecHeader| x.hash).take(hn as int)
            =~= sj.votes_ancestries.map_values(|x: SpecHeader| x.hash));
    }

    if sets_equal(&visited, &header_hashes) {
        Ok(())
    } else {
        Err(Error::InvalidPrecommitAncestries)
    }
}

} // verus!
