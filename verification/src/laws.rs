//! Laws of the verifier, stated over the same spec functions its contract
//! uses and proved once for all inputs.

use vstd::prelude::*;

use crate::ancestry::{spec_entries_of, spec_lookup, spec_route, spec_walk};
use crate::encoding::spec_decode_justification;
use crate::types::{Error, SpecHeader, SpecJustification};
use crate::verify::{
    spec_ancestry_hash_set, spec_commit_backed, spec_scan, spec_verify_justification,
    spec_vote_needs_route, spec_vote_route, spec_vote_sig_ok,
};
use crate::voters::{
    approving_weight_from, lemma_sum_weights_nonneg, spec_threshold, spec_voter_set_wf,
    sum_weights_from, SpecAuthority,
};

verus! {

/// Malformed bytes — anything the decoder rejects — always yield a decode
/// error, whatever the expected target and voter set.
pub proof fn lemma_malformed_input_rejected(
    target_hash: Seq<u8>,
    target_number: u64,
    set_id: u64,
    voters: Seq<SpecAuthority>,
    raw: Seq<u8>,
)
    requires
        spec_decode_justification(raw) is None,
    ensures
        spec_verify_justification(target_hash, target_number, set_id, voters, raw) == Err::<
            (),
            Error,
        >(Error::JustificationDecode),
{
}

/// The empty byte string is malformed.
pub proof fn lemma_empty_input_malformed()
    ensures
        spec_decode_justification(Seq::empty()) is None,
{
}

/// A proof whose commit finalizes another block than the expected one is
/// rejected as such, whatever the votes, signatures and headers it carries.
pub proof fn lemma_wrong_target_rejected(
    target_hash: Seq<u8>,
    target_number: u64,
    set_id: u64,
    voters: Seq<SpecAuthority>,
    raw: Seq<u8>,
    j: SpecJustification,
)
    requires
        spec_decode_justification(raw) == Some(j),
        j.commit.target_hash != target_hash || j.commit.target_number != target_number,
    ensures
        spec_verify_justification(target_hash, target_number, set_id, voters, raw) == Err::<
            (),
            Error,
        >(Error::InvalidJustificationTarget),
{
}

/// With no votes, no weight approves the commit.
proof fn lemma_no_votes_no_weight(
    voters: Seq<SpecAuthority>,
    votes: Seq<crate::types::SpecSignedPrecommit>,
    i: int,
)
    requires
        votes.len() == 0,
    ensures
        approving_weight_from(voters, votes, i) == 0,
    decreases voters.len() - i,
{
    if 0 <= i < voters.len() {
        lemma_no_votes_no_weight(voters, votes, i + 1);
    }
}

/// A commit with an empty vote list never has supermajority support: a well
/// formed voter set has positive total weight, so its threshold is positive.
pub proof fn lemma_empty_commit_rejected(
    target_hash: Seq<u8>,
    target_number: u64,
    set_id: u64,
    voters: Seq<SpecAuthority>,
    raw: Seq<u8>,
    j: SpecJustification,
)
    requires
        spec_decode_justification(raw) == Some(j),
        j.commit.target_hash == target_hash,
        j.commit.target_number == target_number,
        j.commit.precommits.len() == 0,
        spec_voter_set_wf(voters),
    ensures
        spec_verify_justification(target_hash, target_number, set_id, voters, raw) == Err::<
            (),
            Error,
        >(Error::InvalidJustificationCommit),
{
    lemma_no_votes_no_weight(voters, j.commit.precommits, 0);
    let t = sum_weights_from(voters, 0);
    assert(t == voters[0].weight + sum_weights_from(voters, 1));
    lemma_sum_weights_nonneg(voters, 1);
    assert(voters[0].weight >= 1);
    assert((t - 1) / 3 <= t - 1);
    assert(spec_threshold(voters) >= 1);
    assert(!spec_commit_backed(j.commit, voters));
}

/// If the votes before index `i` all pass their signature and ancestry
/// checks, the vote walk from any point at or before `i` stops at `i` with
/// the error that vote `i` provokes: a bad signature, or a missing route.
proof fn lemma_scan_stops_at(
    commit: crate::types::SpecCommit,
    round: u64,
    set_id: u64,
    entries: Seq<(Seq<u8>, Seq<u8>)>,
    a: int,
    visited: Set<Seq<u8>>,
    i: int,
    e: Error,
)
    requires
        0 <= a <= i < commit.precommits.len(),
        forall|k: int| a <= k < i ==> spec_vote_sig_ok(commit, round, set_id, k),
        forall|k: int|
            a <= k < i && spec_vote_needs_route(commit, k) ==> spec_vote_route(
                entries,
                commit,
                k,
            ) is Some,
        if e == Error::InvalidAuthoritySignature {
            !spec_vote_sig_ok(commit, round, set_id, i)
        } else {
            e == Error::InvalidPrecommitAncestryProof && spec_vote_sig_ok(
                commit,
                round,
                set_id,
                i,
            ) && spec_vote_needs_route(commit, i) && spec_vote_route(entries, commit, i) is None
        },
    ensures
        spec_scan(commit, round, set_id, entries, a, visited) == Err::<Set<Seq<u8>>, Error>(e),
    decreases i - a,
{
    if a < i {
        if !spec_vote_needs_route(commit, a) {
            lemma_scan_stops_at(commit, round, set_id, entries, a + 1, visited, i, e);
        } else {
            let route = spec_vote_route(entries, commit, a).unwrap();
            lemma_scan_stops_at(
                commit,
                round,
                set_id,
                entries,
                a + 1,
                visited.insert(commit.precommits[a].precommit.target_hash).union(
                    crate::verify::set_of_hashes(route),
                ),
                i,
                e,
            );
        }
    }
}

/// Corrupting one vote's signature in an otherwise acceptable proof — the
/// target matches, the commit carries supermajority weight, and every earlier
/// vote passes its signature and ancestry checks — is reported as an invalid
/// signature, whatever the later votes hold.
pub proof fn lemma_bad_signature_rejected(
    target_hash: Seq<u8>,
    target_number: u64,
    set_id: u64,
    voters: Seq<SpecAuthority>,
    raw: Seq<u8>,
    j: SpecJustification,
    i: int,
)
    requires
        spec_decode_justification(raw) == Some(j),
        j.commit.target_hash == target_hash,
        j.commit.target_number == target_number,
        spec_commit_backed(j.commit, voters),
        0 <= i < j.commit.precommits.len(),
        !spec_vote_sig_ok(j.commit, j.round, set_id, i),
        forall|k: int| 0 <= k < i ==> spec_vote_sig_ok(j.commit, j.round, set_id, k),
        forall|k: int|
            0 <= k < i && spec_vote_needs_route(j.commit, k) ==> spec_vote_route(
                spec_entries_of(j.votes_ancestries),
                j.commit,
                k,
            ) is Some,
    ensures
        spec_verify_justification(target_hash, target_number, set_id, voters, raw) == Err::<
            (),
            Error,
        >(Error::InvalidAuthoritySignature),
{
    lemma_scan_stops_at(
        j.commit,
        j.round,
        set_id,
        spec_entries_of(j.votes_ancestries),
        0,
        Set::empty(),
        i,
        Error::InvalidAuthoritySignature,
    );
}

/// A vote whose target cannot be routed back to the commit's target — while
/// every earlier vote passes and every signature up to it is valid — is
/// reported as an invalid ancestry proof.
pub proof fn lemma_broken_route_rejected(
    target_hash: Seq<u8>,
    target_number: u64,
    set_id: u64,
    voters: Seq<SpecAuthority>,
    raw: Seq<u8>,
    j: SpecJustification,
    i: int,
)
    requires
        spec_decode_justification(raw) == Some(j),
        j.commit.target_hash == target_hash,
        j.commit.target_number == target_number,
        spec_commit_backed(j.commit, voters),
        0 <= i < j.commit.precommits.len(),
        spec_vote_sig_ok(j.commit, j.round, set_id, i),
        spec_vote_needs_route(j.commit, i),
        spec_vote_route(spec_entries_of(j.votes_ancestries), j.commit, i) is None,
        forall|k: int| 0 <= k < i ==> spec_vote_sig_ok(j.commit, j.round, set_id, k),
        forall|k: int|
            0 <= k < i && spec_vote_needs_route(j.commit, k) ==> spec_vote_route(
                spec_entries_of(j.votes_ancestries),
                j.commit,
                k,
            ) is Some,
    ensures
        spec_verify_justification(target_hash, target_number, set_id, voters, raw) == Err::<
            (),
            Error,
        >(Error::InvalidPrecommitAncestryProof),
{
    lemma_scan_stops_at(
        j.commit,
        j.round,
        set_id,
        spec_entries_of(j.votes_ancestries),
        0,
        Set::empty(),
        i,
        Error::InvalidPrecommitAncestryProof,
    );
}

/// When every vote passes its signature and ancestry checks, the vote walk
/// succeeds.
pub proof fn lemma_scan_ok(
    commit: crate::types::SpecCommit,
    round: u64,
    set_id: u64,
    entries: Seq<(Seq<u8>, Seq<u8>)>,
    a: int,
    visited: Set<Seq<u8>>,
)
    requires
        forall|k: int|
            0 <= k < commit.precommits.len() ==> spec_vote_sig_ok(commit, round, set_id, k),
        forall|k: int|
            0 <= k < commit.precommits.len() && spec_vote_needs_route(commit, k)
                ==> spec_vote_route(entries, commit, k) is Some,
    ensures
        spec_scan(commit, round, set_id, entries, a, visited) is Ok,
    decreases commit.precommits.len() - a,
{
    if 0 <= a < commit.precommits.len() {
        if !spec_vote_needs_route(commit, a) {
            lemma_scan_ok(commit, round, set_id, entries, a + 1, visited);
        } else {
            let route = spec_vote_route(entries, commit, a).unwrap();
            lemma_scan_ok(
                commit,
                round,
                set_id,
                entries,
                a + 1,
                visited.insert(commit.precommits[a].precommit.target_hash).union(
                    crate::verify::set_of_hashes(route),
                ),
            );
        }
    }
}

/// A well-formed proof is accepted: the target matches, the commit carries
/// supermajority weight, every vote's signature verifies, every vote routes
/// back to the target, and the hashes those routes use are exactly the hashes
/// of the supplied headers.
pub proof fn lemma_well_formed_proof_accepted(
    target_hash: Seq<u8>,
    target_number: u64,
    set_id: u64,
    voters: Seq<SpecAuthority>,
    raw: Seq<u8>,
    j: SpecJustification,
)
    requires
        spec_decode_justification(raw) == Some(j),
        j.commit.target_hash == target_hash,
        j.commit.target_number == target_number,
        spec_commit_backed(j.commit, voters),
        forall|k: int|
            0 <= k < j.commit.precommits.len() ==> spec_vote_sig_ok(j.commit, j.round, set_id, k),
        forall|k: int|
            0 <= k < j.commit.precommits.len() && spec_vote_needs_route(j.commit, k)
                ==> spec_vote_route(spec_entries_of(j.votes_ancestries), j.commit, k) is Some,
        spec_scan(
            j.commit,
            j.round,
            set_id,
            spec_entries_of(j.votes_ancestries),
            0,
            Set::empty(),
        ) == Ok::<Set<Seq<u8>>, Error>(spec_ancestry_hash_set(j.votes_ancestries)),
    ensures
        spec_verify_justification(target_hash, target_number, set_id, voters, raw) == Ok::<
            (),
            Error,
        >(()),
{
}

/// A proof that passes every per-vote check but whose accumulated route
/// hashes differ from the supplied header hashes — an unused header, or a
/// used hash with no backing header — is rejected for its ancestries.
pub proof fn lemma_unused_headers_rejected(
    target_hash: Seq<u8>,
    target_number: u64,
    set_id: u64,
    voters: Seq<SpecAuthority>,
    raw: Seq<u8>,
    j: SpecJustification,
    visited: Set<Seq<u8>>,
)
    requires
        spec_decode_justification(raw) == Some(j),
        j.commit.target_hash == target_hash,
        j.commit.target_number == target_number,
        spec_commit_backed(j.commit, voters),
        spec_scan(
            j.commit,
            j.round,
            set_id,
            spec_entries_of(j.votes_ancestries),
            0,
            Set::empty(),
        ) == Ok::<Set<Seq<u8>>, Error>(visited),
        visited != spec_ancestry_hash_set(j.votes_ancestries),
    ensures
        spec_verify_justification(target_hash, target_number, set_id, voters, raw) == Err::<
            (),
            Error,
        >(Error::InvalidPrecommitAncestries),
{
}

/// Looking up any other hash is unchanged by recording one more entry.
proof fn lemma_lookup_extended(
    entries: Seq<(Seq<u8>, Seq<u8>)>,
    e: (Seq<u8>, Seq<u8>),
    h: Seq<u8>,
)
    requires
        h != e.0,
    ensures
        spec_lookup(entries.push(e), h) == spec_lookup(entries, h),
{
    assert(entries.push(e).last() == e);
    assert(entries.push(e).drop_last() =~= entries);
}

/// A successful walk is unchanged by a larger step budget.
proof fn lemma_walk_fuel_monotone(
    entries: Seq<(Seq<u8>, Seq<u8>)>,
    base: Seq<u8>,
    cur: Seq<u8>,
    fuel: nat,
    more: nat,
)
    requires
        spec_walk(entries, base, cur, fuel) is Some,
        fuel <= more,
    ensures
        spec_walk(entries, base, cur, more) == spec_walk(entries, base, cur, fuel),
    decreases fuel,
{
    if cur != base {
        let p = spec_lookup(entries, cur).unwrap();
        lemma_walk_fuel_monotone(entries, base, p, (fuel - 1) as nat, (more - 1) as nat);
    }
}

/// A non-empty successful walk ends at the base.
proof fn lemma_walk_ends_at_base(
    entries: Seq<(Seq<u8>, Seq<u8>)>,
    base: Seq<u8>,
    cur: Seq<u8>,
    fuel: nat,
)
    requires
        spec_walk(entries, base, cur, fuel) is Some,
        spec_walk(entries, base, cur, fuel).unwrap().len() > 0,
    ensures
        spec_walk(entries, base, cur, fuel).unwrap().last() == base,
    decreases fuel,
{
    if cur != base {
        let p = spec_lookup(entries, cur).unwrap();
        let rest = spec_walk(entries, base, p, (fuel - 1) as nat).unwrap();
        if rest.len() == 0 {
            assert(p == base);
            assert(spec_walk(entries, base, cur, fuel).unwrap() =~= seq![p]);
        } else {
            lemma_walk_ends_at_base(entries, base, p, (fuel - 1) as nat);
            assert(spec_walk(entries, base, cur, fuel).unwrap().last() == rest.last());
        }
    }
}

/// A successful walk that never looks the new entry's hash up is unchanged by
/// recording that entry.
proof fn lemma_walk_extended(
    entries: Seq<(Seq<u8>, Seq<u8>)>,
    e: (Seq<u8>, Seq<u8>),
    base: Seq<u8>,
    cur: Seq<u8>,
    fuel: nat,
)
    requires
        spec_walk(entries, base, cur, fuel) is Some,
        cur != e.0,
        forall|i: int|
            0 <= i < spec_walk(entries, base, cur, fuel).unwrap().len() ==> #[trigger] spec_walk(
                entries,
                base,
                cur,
                fuel,
            ).unwrap()[i] != e.0,
    ensures
        spec_walk(entries.push(e), base, cur, fuel) == spec_walk(entries, base, cur, fuel),
    decreases fuel,
{
    if cur != base {
        let p = spec_lookup(entries, cur).unwrap();
        lemma_lookup_extended(entries, e, cur);
        let r = spec_walk(entries, base, cur, fuel).unwrap();
        let rest = spec_walk(entries, base, p, (fuel - 1) as nat).unwrap();
        assert(r == seq![p].add(rest));
        assert(r[0] == p);
        assert(p != e.0);
        assert forall|i: int| 0 <= i < rest.len() implies #[trigger] rest[i] != e.0 by {
            assert(r[i + 1] == rest[i]);
        }
        lemma_walk_extended(entries, e, base, p, (fuel - 1) as nat);
    }
}

/// A route that does not pass through the new entry's hash — and neither of
/// whose endpoints is it — is unchanged by recording that entry.
proof fn lemma_route_extended(
    entries: Seq<(Seq<u8>, Seq<u8>)>,
    e: (Seq<u8>, Seq<u8>),
    base: Seq<u8>,
    block: Seq<u8>,
)
    requires
        spec_route(entries, base, block) is Some,
        block != e.0,
        base != e.0,
        forall|i: int|
            0 <= i < spec_route(entries, base, block).unwrap().len() ==> #[trigger] spec_route(
                entries,
                base,
                block,
            ).unwrap()[i] != e.0,
    ensures
        spec_route(entries.push(e), base, block) == spec_route(entries, base, block),
{
    let fuel = entries.len() as nat;
    let r = spec_walk(entries, base, block, fuel).unwrap();
    let route = spec_route(entries, base, block).unwrap();
    if r.len() > 0 {
        lemma_walk_ends_at_base(entries, base, block, fuel);
        assert(route =~= r.drop_last());
        assert forall|i: int| 0 <= i < r.len() implies #[trigger] r[i] != e.0 by {
            if i < r.len() - 1 {
                assert(route[i] == r[i]);
            } else {
                assert(r[i] == base);
            }
        }
    }
    lemma_walk_extended(entries, e, base, block, fuel);
    lemma_walk_fuel_monotone(entries.push(e), base, block, fuel, (fuel + 1) as nat);
    assert(entries.push(e).len() == fuel + 1);
}

/// A vote walk that succeeds, over votes none of which targets or routes
/// through the new entry's hash, is unchanged by recording that entry.
proof fn lemma_scan_extended(
    commit: crate::types::SpecCommit,
    round: u64,
    set_id: u64,
    entries: Seq<(Seq<u8>, Seq<u8>)>,
    e: (Seq<u8>, Seq<u8>),
    i: int,
    visited: Set<Seq<u8>>,
)
    requires
        spec_scan(commit, round, set_id, entries, i, visited) is Ok,
        commit.target_hash != e.0,
        forall|k: int|
            0 <= k < commit.precommits.len() ==> (#[trigger] commit.precommits[k]).precommit
                .target_hash != e.0,
        forall|k: int, x: int|
            0 <= k < commit.precommits.len() && spec_vote_needs_route(commit, k)
                && spec_vote_route(entries, commit, k) is Some && 0 <= x < spec_vote_route(
                entries,
                commit,
                k,
            ).unwrap().len() ==> #[trigger] spec_vote_route(entries, commit, k).unwrap()[x] != e.0,
    ensures
        spec_scan(commit, round, set_id, entries.push(e), i, visited) == spec_scan(
            commit,
            round,
            set_id,
            entries,
            i,
            visited,
        ),
    decreases commit.precommits.len() - i,
{
    if 0 <= i < commit.precommits.len() {
        if !spec_vote_needs_route(commit, i) {
            lemma_scan_extended(commit, round, set_id, entries, e, i + 1, visited);
        } else {
            let base = commit.target_hash;
            let block = commit.precommits[i].precommit.target_hash;
            let route = spec_vote_route(entries, commit, i).unwrap();
            assert(spec_vote_route(entries, commit, i) == spec_route(entries, base, block));
            assert forall|x: int|
                0 <= x < spec_route(entries, base, block).unwrap().len() implies #[trigger] spec_route(
                entries,
                base,
                block,
            ).unwrap()[x] != e.0 by {
                assert(spec_vote_route(entries, commit, i).unwrap()[x] != e.0);
            }
            lemma_route_extended(entries, e, base, block);
            lemma_scan_extended(
                commit,
                round,
                set_id,
                entries,
                e,
                i + 1,
                visited.insert(block).union(crate::verify::set_of_hashes(route)),
            );
        }
    }
}

/// Adding one header that no vote needs — its hash is not the commit's
/// target, no vote's target, on no vote's route, and not already supplied —
/// to an otherwise accepted proof is rejected for its ancestries.
pub proof fn lemma_extra_header_rejected(
    target_hash: Seq<u8>,
    target_number: u64,
    set_id: u64,
    voters: Seq<SpecAuthority>,
    raw: Seq<u8>,
    raw2: Seq<u8>,
    j: SpecJustification,
    extra: SpecHeader,
)
    requires
        spec_decode_justification(raw) == Some(j),
        spec_verify_justification(target_hash, target_number, set_id, voters, raw) == Ok::<
            (),
            Error,
        >(()),
        spec_decode_justification(raw2) == Some(
            SpecJustification {
                round: j.round,
                commit: j.commit,
                votes_ancestries: j.votes_ancestries.push(extra),
            },
        ),
        extra.hash != j.commit.target_hash,
        forall|k: int|
            0 <= k < j.commit.precommits.len() ==> (#[trigger] j.commit.precommits[k]).precommit
                .target_hash != extra.hash,
        forall|k: int, x: int|
            0 <= k < j.commit.precommits.len() && spec_vote_needs_route(j.commit, k)
                && spec_vote_route(spec_entries_of(j.votes_ancestries), j.commit, k) is Some && 0
                <= x < spec_vote_route(
                spec_entries_of(j.votes_ancestries),
                j.commit,
                k,
            ).unwrap().len() ==> #[trigger] spec_vote_route(
                spec_entries_of(j.votes_ancestries),
                j.commit,
                k,
            ).unwrap()[x] != extra.hash,
        !spec_ancestry_hash_set(j.votes_ancestries).contains(extra.hash),
    ensures
        spec_verify_justification(target_hash, target_number, set_id, voters, raw2) == Err::<
            (),
            Error,
        >(Error::InvalidPrecommitAncestries),
{
    let entries = spec_entries_of(j.votes_ancestries);
    let e = (extra.hash, extra.parent_hash);
    let extended = j.votes_ancestries.push(extra);
    assert forall|x: int|
        0 <= x < extended.len() implies #[trigger] spec_entries_of(extended)[x] == entries.push(
        e,
    )[x] by {
        if x < j.votes_ancestries.len() {
            assert(extended[x] == j.votes_ancestries[x]);
        } else {
            assert(extended[x] == extra);
        }
    }
    assert(spec_entries_of(extended) =~= entries.push(e));

    let scanr = spec_scan(j.commit, j.round, set_id, entries, 0, Set::empty());
    assert(scanr is Ok);
    let visited = scanr.unwrap();
    assert(visited == spec_ancestry_hash_set(j.votes_ancestries));
    lemma_scan_extended(j.commit, j.round, set_id, entries, e, 0, Set::empty());

    let old_hashes = j.votes_ancestries.map_values(|h: SpecHeader| h.hash);
    let new_hashes = extended.map_values(|h: SpecHeader| h.hash);
    assert(new_hashes[j.votes_ancestries.len() as int] == extra.hash);
    assert(spec_ancestry_hash_set(extended).contains(extra.hash));
    assert(visited != spec_ancestry_hash_set(extended));
}

/// Verification is deterministic: the verdict is a function of the expected
/// target, the set id, the voter set and the proof bytes, so equal inputs
/// always yield equal verdicts.
pub proof fn lemma_verdict_deterministic(
    target_hash1: Seq<u8>,
    target_number1: u64,
    set_id1: u64,
    voters1: Seq<SpecAuthority>,
    raw1: Seq<u8>,
    target_hash2: Seq<u8>,
    target_number2: u64,
    set_id2: u64,
    voters2: Seq<SpecAuthority>,
    raw2: Seq<u8>,
)
    requires
        target_hash1 == target_hash2,
        target_number1 == target_number2,
        set_id1 == set_id2,
        voters1 == voters2,
        raw1 == raw2,
    ensures
        spec_verify_justification(target_hash1, target_number1, set_id1, voters1, raw1)
            == spec_verify_justification(target_hash2, target_number2, set_id2, voters2, raw2),
{
}

} // verus!
