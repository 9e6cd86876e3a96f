//! The index entry of one species: its name, the substrate it moves onto,
//! and either the list of its particles or the bare number of its occupants.

use crate::types::Coordinate;
use crate::types::ParticleID;
use crate::types::Species;
use crate::types::SpeciesID;
use vstd::prelude::*;

verus! {

/// How a species entry keeps its occupants.
#[derive(PartialEq, Debug)]
pub enum TrackingType {
    /// One pair per live particle, in the order the particles were added.
    Tracking(Vec<(ParticleID, Coordinate)>),
    /// Only the number of voxels assigned to the species.
    Count(usize),
}

/// Index entry of one species.
#[derive(PartialEq, Debug)]
pub struct SpeciesCache {
    /// The species this entry belongs to.
    pub species: Species,
    /// The species that must occupy a voxel for a particle of this species
    /// to move onto it; `None` means the voxel must be unoccupied.
    pub location: Option<SpeciesID>,
    /// The occupants of this species.
    pub cache: TrackingType,
}

/// Mathematical model of [`TrackingType`].
pub enum TrackingView {
    Tracking(Seq<(ParticleID, Coordinate)>),
    Count(nat),
}

/// Mathematical model of [`SpeciesCache`].
pub struct SpeciesCacheView {
    pub species: Seq<char>,
    pub location: Option<SpeciesID>,
    pub cache: TrackingView,
}

impl View for TrackingType {
    type V = TrackingView;

    open spec fn view(&self) -> TrackingView {
        match *self {
            TrackingType::Tracking(list) => TrackingView::Tracking(list@),
            TrackingType::Count(n) => TrackingView::Count(n as nat),
        }
    }
}

impl View for SpeciesCache {
    type V = SpeciesCacheView;

    open spec fn view(&self) -> SpeciesCacheView {
        SpeciesCacheView { species: self.species@, location: self.location, cache: self.cache@ }
    }
}

impl Clone for TrackingType {
    fn clone(&self) -> (r: TrackingType)
        ensures
            r@ == self@,
    {
        match self {
            TrackingType::Tracking(list) => {
                let mut copy: Vec<(ParticleID, Coordinate)> = Vec::new();
                let mut i: usize = 0;
                while i < list.len()
                    invariant
                        i <= list@.len(),
                        copy@ == list@.take(i as int),
                    decreases list@.len() - i,
                {
                    copy.push(list[i]);
                    i += 1;
                    assert(copy@ =~= list@.take(i as int));
                }
                assert(copy@ =~= list@);
                TrackingType::Tracking(copy)
            },
            TrackingType::Count(n) => TrackingType::Count(*n),
        }
    }
}

impl Clone for SpeciesCache {
    fn clone(&self) -> (r: SpeciesCache)
        ensures
            r@ == self@,
    {
        SpeciesCache {
            species: self.species.clone(),
            location: self.location,
            cache: self.cache.clone(),
        }
    }
}

/// The identity given to a particle that the index itself records. Minting
/// real identities is left to the caller's allocator.
pub open spec fn placeholder_id() -> ParticleID {
    ParticleID(0, 0)
}

/// Whether some pair of the list sits at the coordinate.
pub open spec fn tracks(list: Seq<(ParticleID, Coordinate)>, c: Coordinate) -> bool {
    exists|i: int| 0 <= i < list.len() && (#[trigger] list[i]).1 == c
}

/// Whether the list holds exactly one pair that sits at the coordinate.
pub open spec fn tracks_once(list: Seq<(ParticleID, Coordinate)>, c: Coordinate) -> bool {
    exists|i: int|
        {
            &&& 0 <= i < list.len()
            &&& (#[trigger] list[i]).1 == c
            &&& forall|j: int| 0 <= j < list.len() && (#[trigger] list[j]).1 == c ==> j == i
        }
}

/// Whether `i` is the position of the first pair of the list that sits at
/// the coordinate.
pub open spec fn is_first_at(list: Seq<(ParticleID, Coordinate)>, c: Coordinate, i: int) -> bool {
    &&& 0 <= i < list.len()
    &&& list[i].1 == c
    &&& forall|j: int| 0 <= j < i ==> (#[trigger] list[j]).1 != c
}

/// Position of the first pair of the list that sits at the coordinate.
/// Meaningful only where the list tracks the coordinate.
pub open spec fn first_at(list: Seq<(ParticleID, Coordinate)>, c: Coordinate) -> int {
    choose|i: int| is_first_at(list, c, i)
}

/// A list that tracks a coordinate has a first pair there, and only one
/// position is the first.
pub proof fn lemma_first_at(list: Seq<(ParticleID, Coordinate)>, c: Coordinate)
    requires
        tracks(list, c),
    ensures
        is_first_at(list, c, first_at(list, c)),
        forall|i: int| is_first_at(list, c, i) ==> i == first_at(list, c),
{
    let w = choose|i: int| 0 <= i < list.len() && (#[trigger] list[i]).1 == c;
    lemma_first_before(list, c, w);
    let f = first_at(list, c);
    assert forall|i: int| is_first_at(list, c, i) implies i == f by {
        if i < f {
            assert(list[i].1 != c);
        } else if f < i {
            assert(list[f].1 != c);
        }
    }
}

/// A pair at the coordinate has a first such pair at or before it.
proof fn lemma_first_before(list: Seq<(ParticleID, Coordinate)>, c: Coordinate, w: int)
    requires
        0 <= w < list.len(),
        list[w].1 == c,
    ensures
        exists|i: int| is_first_at(list, c, i),
    decreases w,
{
    if exists|j: int| 0 <= j < w && (#[trigger] list[j]).1 == c {
        let j = choose|j: int| 0 <= j < w && (#[trigger] list[j]).1 == c;
        lemma_first_before(list, c, j);
    } else {
        assert(is_first_at(list, c, w));
    }
}

impl SpeciesCacheView {
    /// An entry without occupants: an empty list where `tracking` is set, a
    /// count of zero where it is not.
    pub open spec fn fresh(
        species: Seq<char>,
        location: Option<SpeciesID>,
        tracking: bool,
    ) -> SpeciesCacheView {
        SpeciesCacheView {
            species,
            location,
            cache: if tracking {
                TrackingView::Tracking(Seq::empty())
            } else {
                TrackingView::Count(0)
            },
        }
    }

    /// Whether the entry tracks individual particles.
    pub open spec fn is_tracking(self) -> bool {
        self.cache is Tracking
    }

    /// Number of occupants that the entry records.
    pub open spec fn occupants(self) -> nat {
        match self.cache {
            TrackingView::Tracking(list) => list.len(),
            TrackingView::Count(n) => n,
        }
    }

    /// The entry after one more occupant at the coordinate: a new pair with
    /// the placeholder identity at the end of the list, or a count raised by
    /// one.
    pub open spec fn add(self, c: Coordinate) -> SpeciesCacheView {
        SpeciesCacheView {
            cache: match self.cache {
                TrackingView::Tracking(list) => TrackingView::Tracking(
                    list.push((placeholder_id(), c)),
                ),
                TrackingView::Count(n) => TrackingView::Count(n + 1),
            },
            ..self
        }
    }

    /// Whether the entry records an occupant that can be taken away at the
    /// coordinate: a pair there, or a positive count.
    pub open spec fn can_remove(self, c: Coordinate) -> bool {
        match self.cache {
            TrackingView::Tracking(list) => tracks(list, c),
            TrackingView::Count(n) => n > 0,
        }
    }

    /// The entry after the occupant at the coordinate has left: the list
    /// without its first pair there, or a count lowered by one.
    pub open spec fn remove(self, c: Coordinate) -> SpeciesCacheView
        recommends
            self.can_remove(c),
    {
        SpeciesCacheView {
            cache: match self.cache {
                TrackingView::Tracking(list) => TrackingView::Tracking(
                    list.remove(first_at(list, c)),
                ),
                TrackingView::Count(n) => TrackingView::Count((n - 1) as nat),
            },
            ..self
        }
    }

    /// The entry after its particle at `from` has gone to `to`: the first
    /// pair at `from` keeps its identity and its place in the list and now
    /// sits at `to`. An entry that tracks nothing at `from`, and one that
    /// only counts, stays as it is.
    pub open spec fn move_to(self, from: Coordinate, to: Coordinate) -> SpeciesCacheView {
        match self.cache {
            TrackingView::Tracking(list) if tracks(list, from) => {
                let i = first_at(list, from);
                SpeciesCacheView {
                    cache: TrackingView::Tracking(list.update(i, (list[i].0, to))),
                    ..self
                }
            },
            _ => self,
        }
    }
}

impl SpeciesCache {
    /// An entry without occupants: an empty list where `tracking` is set, a
    /// count of zero where it is not.
    pub fn new(species: Species, location: Option<SpeciesID>, tracking: bool) -> (r: SpeciesCache)
        ensures
            r@ == SpeciesCacheView::fresh(species@, location, tracking),
    {
        let cache = if tracking {
            TrackingType::Tracking(Vec::new())
        } else {
            TrackingType::Count(0)
        };
        SpeciesCache { species, location, cache }
    }

    /// Takes the occupant at the coordinate out of the entry. The entry must
    /// record one: a pair at the coordinate, or a positive count.
    #[verifier::loop_isolation(false)]
    pub fn remove(&mut self, coordinate: Coordinate)
        requires
            old(self)@.can_remove(coordinate),
        ensures
            final(self)@ == old(self)@.remove(coordinate),
    {
        match &mut self.cache {
            TrackingType::Tracking(cache) => {
                let ghost list = cache@;
                proof {
                    lemma_first_at(list, coordinate);
                }
                let mut i: usize = 0;
                while i < cache.len()
                    invariant
                        cache@ == list,
                        i <= first_at(list, coordinate) < list.len(),
                    decreases list.len() - i,
                {
                    if cache[i].1 == coordinate {
                        cache.remove(i);
                        return ;
                    }
                    i += 1;
                }
            },
            TrackingType::Count(count) => {
                *count -= 1;
            },
        }
    }

    /// Records one more occupant at the coordinate. A count must leave room
    /// for it.
    pub fn add(&mut self, coordinate: Coordinate)
        requires
            old(self)@.cache matches TrackingView::Count(n) ==> n < usize::MAX,
        ensures
            final(self)@ == old(self)@.add(coordinate),
    {
        match &mut self.cache {
            TrackingType::Tracking(cache) => {
                cache.push((ParticleID(0, 0), coordinate));
            },
            TrackingType::Count(count) => {
                *count += 1;
            },
        }
    }

    /// Re-points the particle at `from` to `to`.
    #[verifier::loop_isolation(false)]
    pub fn move_to(&mut self, from: Coordinate, to: Coordinate)
        ensures
            final(self)@ == old(self)@.move_to(from, to),
    {
        if let TrackingType::Tracking(cache) = &mut self.cache {
            let ghost list = cache@;
            let mut i: usize = 0;
            while i < cache.len()
                invariant
                    cache@ == list,
                    forall|j: int| 0 <= j < i ==> (#[trigger] list[j]).1 != from,
                decreases list.len() - i,
            {
                if cache[i].1 == from {
                    proof {
                        assert(is_first_at(list, from, i as int));
                        lemma_first_at(list, from);
                    }
                    cache[i].1 = to;
                    return ;
                }
                i += 1;
            }
            assert(!tracks(list, from));
        }
    }
}

} // verus!
