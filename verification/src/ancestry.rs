//! The hash→parent-hash relation reconstructed from the headers embedded in a
//! proof, and the ancestry routes it answers.

use vstd::prelude::*;

use crate::encoding::views_of_headers;
use crate::types::{bytes_eq, copy_bytes, Header, SpecHeader};

verus! {

/// The (hash, parent hash) pairs taken from a header list, in list order.
pub open spec fn spec_entries_of(headers: Seq<SpecHeader>) -> Seq<(Seq<u8>, Seq<u8>)> {
    headers.map_values(|h: SpecHeader| (h.hash, h.parent_hash))
}

/// Last-write-wins lookup: the parent recorded for `h`, and when two entries
/// share a hash, the later one in the list.
pub open spec fn spec_lookup(entries: Seq<(Seq<u8>, Seq<u8>)>, h: Seq<u8>) -> Option<Seq<u8>>
    decreases entries.len(),
{
    if entries.len() == 0 {
        None
    } else if entries.last().0 == h {
        Some(entries.last().1)
    } else {
        spec_lookup(entries.drop_last(), h)
    }
}

/// The chain of parents found by walking from `cur` toward `base`, each
/// visited parent pushed in order, `base` itself included as the last element
/// when the walk reaches it. `None` when a hash has no entry before `base` is
/// reached, or when the step budget `fuel` runs out.
pub open spec fn spec_walk(
    entries: Seq<(Seq<u8>, Seq<u8>)>,
    base: Seq<u8>,
    cur: Seq<u8>,
    fuel: nat,
) -> Option<Seq<Seq<u8>>>
    decreases fuel,
{
    if cur == base {
        Some(Seq::empty())
    } else if fuel == 0 {
        None
    } else {
        match spec_lookup(entries, cur) {
            None => None,
            Some(p) => match spec_walk(entries, base, p, (fuel - 1) as nat) {
                None => None,
                Some(r) => Some(seq![p].add(r)),
            },
        }
    }
}

/// The hashes strictly between `base` (excluded) and `block` (excluded) on the
/// walk from `block` back to `base`: the walk with its final `base` element
/// dropped. The step budget is one lookup per entry; a longer walk would have
/// looked some entry up twice and then repeats forever without reaching
/// `base`, so the budget loses no route.
pub open spec fn spec_route(
    entries: Seq<(Seq<u8>, Seq<u8>)>,
    base: Seq<u8>,
    block: Seq<u8>,
) -> Option<Seq<Seq<u8>>> {
    match spec_walk(entries, base, block, entries.len() as nat) {
        None => None,
        Some(r) => Some(
            if r.len() > 0 {
                r.drop_last()
            } else {
                r
            },
        ),
    }
}

/// Views of a sequence of byte vectors.
pub open spec fn views_of_hashes(v: Seq<Vec<u8>>) -> Seq<Seq<u8>> {
    v.map_values(|x: Vec<u8>| x@)
}

/// An index from block hash to parent hash, built once per verification from
/// the headers embedded in the proof. It answers only ancestry queries;
/// checking a justification never asks which chain would be voted for, so no
/// best-candidate capability is offered.
pub struct AncestryChain {
    pub entries: Vec<(Vec<u8>, Vec<u8>)>,
}

impl View for AncestryChain {
    type V = Seq<(Seq<u8>, Seq<u8>)>;

    open spec fn view(&self) -> Seq<(Seq<u8>, Seq<u8>)> {
        self.entries@.map_values(|e: (Vec<u8>, Vec<u8>)| (e.0@, e.1@))
    }
}

impl AncestryChain {
    /// Records each header's own hash against its declared parent hash.
    pub fn new(headers: &Vec<Header>) -> (r: AncestryChain)
        ensures
            r@ == spec_entries_of(views_of_headers(headers@)),
    {
        let mut entries: Vec<(Vec<u8>, Vec<u8>)> = Vec::new();
        let n = headers.len();
        let mut i: usize = 0;
        while i < n
            invariant
                n == headers@.len(),
                i <= n,
                entries@.len() == i,
                forall|k: int|
                    0 <= k < i ==> (#[trigger] entries@[k]).0@ == headers@[k]@.hash
                        && entries@[k].1@ == headers@[k]@.parent_hash,
            decreases n - i,
        {
            entries.push((copy_bytes(&headers[i].hash), copy_bytes(&headers[i].parent_hash)));
            i = i + 1;
        }
        let r = AncestryChain { entries };
        proof {
            assert(r@ =~= spec_entries_of(views_of_headers(headers@)));
        }
        r
    }

    /// The parent recorded for `h`, if any.
    fn lookup(&self, h: &Vec<u8>) -> (r: Option<Vec<u8>>)
        ensures
            match (r, spec_lookup(self@, h@)) {
                (Some(v), Some(sv)) => v@ == sv,
                (None, None) => true,
                _ => false,
            },
    {
        let mut i: usize = self.entries.len();
        proof {
            assert(self@.take(i as int) =~= self@);
        }
        while i > 0
            invariant
                i <= self.entries@.len(),
                spec_lookup(self@, h@) == spec_lookup(self@.take(i as int), h@),
            decreases i,
        {
            i = i - 1;
            if bytes_eq(&self.entries[i].0, h) {
                proof {
                    assert(self@.take(i + 1).last() == self@[i as int]);
                    assert(self@[i as int].0 == h@);
                }
                return Some(copy_bytes(&self.entries[i].1));
            }
            proof {
                assert(self@.take(i + 1).last() == self@[i as int]);
                assert(self@.take(i + 1).drop_last() =~= self@.take(i as int));
            }
        }
        proof {
            assert(self@.take(0) =~= Seq::<(Seq<u8>, Seq<u8>)>::empty());
        }
        None
    }

    /// The route from `block` back to `base`, ordered nearest-to-`block`
    /// first, with both endpoints excluded; `None` when `block` cannot be
    /// connected to `base` with the recorded entries.
    pub fn ancestry(&self, base: &Vec<u8>, block: &Vec<u8>) -> (r: Option<Vec<Vec<u8>>>)
        ensures
            match (r, spec_route(self@, base@, block@)) {
                (Some(v), Some(sv)) => views_of_hashes(v@) == sv,
                (None, None) => true,
                _ => false,
            },
    {
        let fuel = self.entries.len();
        let ghost full = spec_walk(self@, base@, block@, fuel as nat);
        let mut current: Vec<u8> = copy_bytes(block);
        let mut route: Vec<Vec<u8>> = Vec::new();
        let mut steps: usize = 0;
        loop
            invariant_except_break
                fuel == self@.len(),
                steps <= fuel,
                full == spec_walk(self@, base@, block@, fuel as nat),
                (match spec_walk(self@, base@, current@, (fuel - steps) as nat) {
                    None => full is None,
                    Some(rest) => full == Some(views_of_hashes(route@).add(rest)),
                }),
            ensures
                full == Some(views_of_hashes(route@)),
            decreases fuel - steps,
        {
            if bytes_eq(&current, base) {
                proof {
                    assert(spec_walk(self@, base@, current@, (fuel - steps) as nat) == Some(
                        Seq::<Seq<u8>>::empty(),
                    ));
                    assert(views_of_hashes(route@).add(Seq::empty()) =~= views_of_hashes(route@));
                }
                break;
            }
            if steps == fuel {
                proof {
                    assert(spec_walk(self@, base@, current@, 0nat) is None);
                }
                return None;
            }
            match self.lookup(&current) {
                None => {
                    proof {
                        assert(spec_walk(self@, base@, current@, (fuel - steps) as nat) is None);
                    }
                    return None;
                },
                Some(p) => {
                    proof {
                        let tail = spec_walk(self@, base@, p@, (fuel - steps - 1) as nat);
                        assert(spec_walk(self@, base@, current@, (fuel - steps) as nat) == (
                        match tail {
                            None => None::<Seq<Seq<u8>>>,
                            Some(r2) => Some(seq![p@].add(r2)),
                        }));
                        if tail is Some {
                            let r2 = tail.unwrap();
                            assert(views_of_hashes(route@).add(seq![p@].add(r2))
                                =~= views_of_hashes(route@.push(p)).add(r2));
                        }
                    }
                    current = copy_bytes(&p);
                    route.push(p);
                    steps = steps + 1;
                },
            }
        }
        proof {
            assert(spec_route(self@, base@, block@) is Some);
        }
        if route.len() > 0 {
            let ghost before = route@;
            route.pop();
            proof {
                assert(route@ =~= before.drop_last());
                assert(views_of_hashes(route@) =~= views_of_hashes(before).drop_last());
            }
        }
        Some(route)
    }
}

} // verus!
