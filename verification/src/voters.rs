//! Weighted authority sets.

use vstd::prelude::*;

use crate::encoding::views_of_precommits;
use crate::types::{bytes_eq, SignedPrecommit, SpecSignedPrecommit, ID_LEN};

verus! {

/// One authority and its voting weight.
#[derive(Clone, Debug)]
pub struct Authority {
    pub id: Vec<u8>,
    pub weight: u64,
}

/// Mathematical model of an [`Authority`].
pub struct SpecAuthority {
    pub id: Seq<u8>,
    pub weight: u64,
}

impl View for Authority {
    type V = SpecAuthority;

    open spec fn view(&self) -> SpecAuthority {
        SpecAuthority { id: self.id@, weight: self.weight }
    }
}

/// Views of a sequence of authorities.
pub open spec fn views_of_authorities(v: Seq<Authority>) -> Seq<SpecAuthority> {
    v.map_values(|a: Authority| a@)
}

/// Total weight of the authorities from index `i` on.
pub open spec fn sum_weights_from(voters: Seq<SpecAuthority>, i: int) -> int
    decreases voters.len() - i,
{
    if 0 <= i < voters.len() {
        voters[i].weight + sum_weights_from(voters, i + 1)
    } else {
        0
    }
}

/// A weighted authority set is well formed when it is non-empty, every
/// identity is a 32-byte key carrying a non-zero weight, identities are
/// pairwise distinct, and the total weight fits in a 64-bit integer.
pub open spec fn spec_voter_set_wf(voters: Seq<SpecAuthority>) -> bool {
    &&& voters.len() >= 1
    &&& forall|k: int| 0 <= k < voters.len() ==> (#[trigger] voters[k].weight) >= 1
    &&& forall|k: int| 0 <= k < voters.len() ==> (#[trigger] voters[k].id).len() == ID_LEN
    &&& forall|j: int, k: int|
        0 <= j < k < voters.len() ==> (#[trigger] voters[j].id) != (#[trigger] voters[k].id)
    &&& sum_weights_from(voters, 0) <= u64::MAX
}

/// The supermajority threshold for a set of total weight `total`: everything
/// but the largest faulty weight a BFT protocol tolerates, `(total - 1) / 3`.
pub open spec fn spec_threshold(voters: Seq<SpecAuthority>) -> int {
    sum_weights_from(voters, 0) - (sum_weights_from(voters, 0) - 1) / 3
}

/// Whether any of `votes` was cast by the authority `id`.
pub open spec fn spec_votes_contain_id(votes: Seq<SpecSignedPrecommit>, id: Seq<u8>) -> bool {
    exists|k: int| 0 <= k < votes.len() && #[trigger] votes[k].id == id
}

/// Weight of the authorities from index `i` on that cast one of `votes`.
/// Each authority counts once, however many of the votes it signed.
pub open spec fn approving_weight_from(
    voters: Seq<SpecAuthority>,
    votes: Seq<SpecSignedPrecommit>,
    i: int,
) -> int
    decreases voters.len() - i,
{
    if 0 <= i < voters.len() {
        (if spec_votes_contain_id(votes, voters[i].id) {
            voters[i].weight as int
        } else {
            0
        }) + approving_weight_from(voters, votes, i + 1)
    } else {
        0
    }
}

pub proof fn lemma_sum_weights_nonneg(voters: Seq<SpecAuthority>, i: int)
    ensures
        sum_weights_from(voters, i) >= 0,
    decreases voters.len() - i,
{
    if 0 <= i < voters.len() {
        lemma_sum_weights_nonneg(voters, i + 1);
    }
}

pub proof fn lemma_approving_weight_bounds(
    voters: Seq<SpecAuthority>,
    votes: Seq<SpecSignedPrecommit>,
    i: int,
)
    ensures
        0 <= approving_weight_from(voters, votes, i) <= sum_weights_from(voters, i),
    decreases voters.len() - i,
{
    if 0 <= i < voters.len() {
        lemma_approving_weight_bounds(voters, votes, i + 1);
    }
}

/// The weighted set of authorities entitled to vote in one epoch.
#[derive(Clone, Debug)]
pub struct VoterSet {
    pub authorities: Vec<Authority>,
}

impl View for VoterSet {
    type V = Seq<SpecAuthority>;

    open spec fn view(&self) -> Seq<SpecAuthority> {
        views_of_authorities(self.authorities@)
    }
}

impl VoterSet {
    /// Builds a voter set, returning `None` exactly when the given list is not
    /// well formed.
    pub fn new(authorities: Vec<Authority>) -> (r: Option<VoterSet>)
        ensures
            r is Some <==> spec_voter_set_wf(views_of_authorities(authorities@)),
            r is Some ==> r.unwrap()@ == views_of_authorities(authorities@),
    {
        let ghost voters = views_of_authorities(authorities@);
        if authorities.len() == 0 {
            return None;
        }
        let n = authorities.len();
        let mut total: u64 = 0;
        let mut i: usize = 0;
        while i < n
            invariant
                n == authorities@.len(),
                i <= n,
                voters == views_of_authorities(authorities@),
                forall|k: int| 0 <= k < i ==> (#[trigger] voters[k].weight) >= 1,
                forall|k: int| 0 <= k < i ==> (#[trigger] voters[k].id).len() == ID_LEN,
                forall|j: int, k: int|
                    0 <= j < k < i ==> (#[trigger] voters[j].id) != (#[trigger] voters[k].id),
                total + sum_weights_from(voters, i as int) == sum_weights_from(voters, 0),
            decreases n - i,
        {
            if authorities[i].id.len() != ID_LEN || authorities[i].weight == 0 {
                proof {
                    assert(voters[i as int] == authorities@[i as int]@);
                    if authorities@[i as int].id@.len() != ID_LEN {
                        assert(voters[i as int].id.len() != ID_LEN);
                    } else {
                        assert(voters[i as int].weight == 0);
                    }
                    assert(!spec_voter_set_wf(voters));
                }
                return None;
            }
            let mut j: usize = 0;
            while j < i
                invariant
                    i < n == authorities@.len(),
                    j <= i,
                    voters == views_of_authorities(authorities@),
                    forall|k: int| 0 <= k < j ==> #[trigger] voters[k].id != voters[i as int].id,
                decreases i - j,
            {
                if bytes_eq(&authorities[j].id, &authorities[i].id) {
                    proof {
                        assert(voters[j as int] == authorities@[j as int]@);
                        assert(voters[i as int] == authorities@[i as int]@);
                        assert(voters[j as int].id == voters[i as int].id);
                        assert(!spec_voter_set_wf(voters));
                    }
                    return None;
                }
                j = j + 1;
            }
            proof {
                lemma_sum_weights_nonneg(voters, i + 1);
            }
            if total > u64::MAX - authorities[i].weight {
                proof {
                    assert(voters[i as int] == authorities@[i as int]@);
                    assert(sum_weights_from(voters, i as int) == voters[i as int].weight
                        + sum_weights_from(voters, i + 1));
                    assert(sum_weights_from(voters, 0) > u64::MAX);
                }
                return None;
            }
            total = total + authorities[i].weight;
            i = i + 1;
        }
        Some(VoterSet { authorities })
    }

    /// Total weight of the set.
    pub fn total_weight(&self) -> (r: u64)
        requires
            spec_voter_set_wf(self@),
        ensures
            r == sum_weights_from(self@, 0),
    {
        let ghost voters = self@;
        let n = self.authorities.len();
        let mut total: u64 = 0;
        let mut i: usize = 0;
        while i < n
            invariant
                n == self.authorities@.len(),
                i <= n,
                voters == self@,
                sum_weights_from(voters, 0) <= u64::MAX,
                total + sum_weights_from(voters, i as int) == sum_weights_from(voters, 0),
            decreases n - i,
        {
            proof {
                lemma_sum_weights_nonneg(voters, i + 1);
            }
            total = total + self.authorities[i].weight;
            i = i + 1;
        }
        total
    }

    /// The supermajority threshold of the set.
    pub fn threshold(&self) -> (r: u64)
        requires
            spec_voter_set_wf(self@),
        ensures
            r == spec_threshold(self@),
    {
        let total = self.total_weight();
        proof {
            assert(sum_weights_from(self@, 0) == self@[0].weight + sum_weights_from(self@, 1));
            lemma_sum_weights_nonneg(self@, 1);
            assert(self@[0].weight >= 1);
            assert(total >= 1);
        }
        total - (total - 1) / 3
    }

    /// Combined weight of the distinct authorities of this set that signed one
    /// of `votes`.
    pub fn approving_weight(&self, votes: &Vec<SignedPrecommit>) -> (r: u64)
        requires
            spec_voter_set_wf(self@),
        ensures
            r == approving_weight_from(self@, views_of_precommits(votes@), 0),
    {
        let ghost voters = self@;
        let ghost svotes = views_of_precommits(votes@);
        let n = self.authorities.len();
        let mut acc: u64 = 0;
        let mut i: usize = 0;
        while i < n
            invariant
                n == self.authorities@.len(),
                i <= n,
                voters == self@,
                svotes == views_of_precommits(votes@),
                sum_weights_from(voters, 0) <= u64::MAX,
                acc + approving_weight_from(voters, svotes, i as int) == approving_weight_from(
                    voters,
                    svotes,
                    0,
                ),
                acc <= sum_weights_from(voters, 0) - sum_weights_from(voters, i as int),
            decreases n - i,
        {
            proof {
                lemma_approving_weight_bounds(voters, svotes, i + 1);
                lemma_sum_weights_nonneg(voters, i + 1);
            }
            if votes_contain_id(votes, &self.authorities[i].id) {
                acc = acc + self.authorities[i].weight;
            }
            i = i + 1;
        }
        acc
    }
}

/// Whether any of `votes` carries the authority identity `id`.
pub fn votes_contain_id(votes: &Vec<SignedPrecommit>, id: &Vec<u8>) -> (r: bool)
    ensures
        r == spec_votes_contain_id(views_of_precommits(votes@), id@),
{
    let ghost svotes = views_of_precommits(votes@);
    let n = votes.len();
    let mut i: usize = 0;
    while i < n
        invariant
            n == votes@.len(),
            svotes == views_of_precommits(votes@),
            i <= n,
            forall|k: int| 0 <= k < i ==> #[trigger] svotes[k].id != id@,
        decreases n - i,
    {
        if bytes_eq(&votes[i].id, id) {
            proof {
                assert(svotes[i as int].id == id@);
            }
            return true;
        }
        i = i + 1;
    }
    false
}

} // verus!
