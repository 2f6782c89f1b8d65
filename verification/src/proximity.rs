//! Finding the agents near a point.

use vstd::prelude::*;
use crate::agent::Agent;
use crate::geometry::{in_range, within, Point};

verus! {

/// The positions of all agents at one moment, by agent index.
pub struct ProximityIndex {
    pub positions: Vec<Point>,
}

impl ProximityIndex {
    /// Whether agent `i` is a neighbour of `center`: it exists, it is not
    /// the excluded agent, and it is within `radius` of `center`.
    pub open spec fn near(self, i: int, center: Point, radius: int, exclude: int) -> bool {
        0 <= i < self.positions@.len() && i != exclude && within(center, self.positions@[i], radius)
    }

    /// Whether the index holds exactly the positions of `agents`.
    pub open spec fn snapshot_of(self, agents: Seq<Agent>) -> bool {
        self.positions@.len() == agents.len() && forall|i: int|
            0 <= i < agents.len() ==> self.positions@[i] == (#[trigger] agents[i]).position
    }

    /// Records where every agent is.
    pub fn build(agents: &Vec<Agent>) -> (index: ProximityIndex)
        ensures
            index.snapshot_of(agents@),
    {
        let mut positions: Vec<Point> = Vec::new();
        let mut i: usize = 0;
        while i < agents.len()
            invariant
                i <= agents.len(),
                positions@.len() == i,
                forall|j: int| 0 <= j < i ==> positions@[j] == (#[trigger] agents@[j]).position,
            decreases agents.len() - i,
        {
            positions.push(agents[i].position);
            i += 1;
        }
        ProximityIndex { positions }
    }

    /// The neighbours of `center`, in rising order of index: every agent
    /// within `radius` of it but the one at `exclude`.
    pub fn query(&self, center: Point, radius: u32, exclude: usize) -> (found: Vec<usize>)
        ensures
            forall|j: int, k: int| 0 <= j < k < found@.len() ==> found@[j] < found@[k],
            forall|j: int| 0 <= j < found@.len() ==> self.near(#[trigger] found@[j] as int, center, radius as int, exclude as int),
            forall|i: int| self.near(i, center, radius as int, exclude as int) ==> exists|j: int| 0 <= j < found@.len() && #[trigger] found@[j] == i,
    {
        let mut found: Vec<usize> = Vec::new();
        let mut i: usize = 0;
        while i < self.positions.len()
            invariant
                i <= self.positions@.len(),
                forall|j: int, k: int| 0 <= j < k < found@.len() ==> found@[j] < found@[k],
                forall|j: int| 0 <= j < found@.len() ==> found@[j] < i && self.near(#[trigger] found@[j] as int, center, radius as int, exclude as int),
                forall|n: int| 0 <= n < i && self.near(n, center, radius as int, exclude as int) ==> exists|j: int| 0 <= j < found@.len() && #[trigger] found@[j] == n,
            decreases self.positions@.len() - i,
        {
            if i != exclude && in_range(center, self.positions[i], radius) {
                let ghost before = found@;
                found.push(i);
                proof {
                    assert(found@[before.len() as int] == i);
                    assert forall|n: int| 0 <= n < i + 1 && self.near(n, center, radius as int, exclude as int) implies exists|j: int| 0 <= j < found@.len() && #[trigger] found@[j] == n by {
                        if n < i {
                            let j = choose|j: int| 0 <= j < before.len() && #[trigger] before[j] == n;
                            assert(found@[j] == n);
                        }
                    }
                }
            }
            i += 1;
        }
        found
    }
}

} // verus!
