//! Mathematical model of the lattice store: the voxel array as a sequence,
//! the species index as a sequence of entries, the consistency between the
//! two, and what each operation makes of them.

use crate::species::tracks;
use crate::species::SpeciesCacheView;
use crate::species::TrackingView;
use crate::types::Coordinate;
use crate::types::Error;
use crate::types::HCPLatticeSize;
use crate::types::ParticleID;
use crate::types::SpeciesID;
use vstd::prelude::*;

verus! {

/// Occupant of the voxel at a coordinate of a voxel array.
pub open spec fn occupant_at(voxels: Seq<Option<SpeciesID>>, c: Coordinate) -> Option<SpeciesID> {
    voxels[c.0 as int]
}

/// Number of voxels of a voxel array that are assigned to a species.
pub open spec fn assigned(voxels: Seq<Option<SpeciesID>>, id: SpeciesID) -> nat {
    voxels.to_multiset().count(Some(id))
}

/// Whether an entry, taken as that of species `id`, agrees with a voxel
/// array. A tracking entry holds exactly one pair for each voxel assigned to
/// the species and no other pair: every pair sits on a voxel assigned to the
/// species, no two pairs sit on the same voxel, and every voxel assigned to
/// the species has its pair. A counting entry holds the number of voxels
/// assigned to the species.
pub open spec fn agrees(
    entry: SpeciesCacheView,
    voxels: Seq<Option<SpeciesID>>,
    id: SpeciesID,
) -> bool {
    match entry.cache {
        TrackingView::Tracking(list) => {
            &&& forall|i: int|
                0 <= i < list.len() ==> (#[trigger] list[i]).1.0 < voxels.len() && occupant_at(
                    voxels,
                    list[i].1,
                ) == Some(id)
            &&& forall|i: int, j: int|
                0 <= i < j < list.len() ==> (#[trigger] list[i]).1 != (#[trigger] list[j]).1
            &&& forall|c: Coordinate|
                c.0 < voxels.len() && #[trigger] occupant_at(voxels, c) == Some(id) ==> tracks(
                    list,
                    c,
                )
        },
        TrackingView::Count(n) => n == assigned(voxels, id),
    }
}

/// One request to the lattice store.
pub enum Step {
    /// Register a species.
    AddSpecies { name: Seq<char>, location: Option<SpeciesID>, tracking: bool },
    /// Place a particle of a species on a voxel.
    AddParticle { id: SpeciesID, at: Coordinate },
    /// Take the particle off a voxel.
    RemoveParticle { at: Coordinate },
    /// Move the particle of one voxel onto another.
    MoveParticle { from: Coordinate, to: Coordinate },
}

/// Mathematical model of the lattice store.
pub struct LatticeView {
    /// Bit pattern of the voxel radius.
    pub voxel_radius: u64,
    /// Extents of the lattice.
    pub size: HCPLatticeSize,
    /// Occupant of each voxel, by linear coordinate.
    pub voxels: Seq<Option<SpeciesID>>,
    /// Species entries, by species identifier.
    pub species: Seq<SpeciesCacheView>,
}

impl LatticeView {
    /// Whether the coordinate names a voxel of the lattice.
    pub open spec fn in_range(self, c: Coordinate) -> bool {
        c.0 < self.voxels.len()
    }

    /// The species occupying the voxel at the coordinate, if any.
    pub open spec fn occupant(self, c: Coordinate) -> Option<SpeciesID> {
        occupant_at(self.voxels, c)
    }

    /// Whether the identifier names an entry of the species index.
    pub open spec fn registered(self, id: SpeciesID) -> bool {
        id.0 < self.species.len()
    }

    /// The entry of a registered species.
    pub open spec fn entry(self, id: SpeciesID) -> SpeciesCacheView {
        self.species[id.0 as int]
    }

    /// Number of occupied voxels.
    pub open spec fn occupied(self) -> nat {
        (self.voxels.len() - self.voxels.to_multiset().count(None)) as nat
    }

    /// The invariant of the store: the voxel array has one slot per voxel of
    /// the lattice, every occupant is a registered species, and every entry
    /// of the species index agrees with the voxel array.
    pub open spec fn wf(self) -> bool {
        &&& self.size.wf()
        &&& self.voxels.len() == self.size.volume()
        &&& forall|c: Coordinate|
            self.in_range(c) ==> (#[trigger] self.occupant(c) matches Some(id)
                ==> self.registered(id))
        &&& forall|id: SpeciesID|
            self.registered(id) ==> agrees(#[trigger] self.entry(id), self.voxels, id)
    }

    /// The lattice as it is made: every voxel unoccupied, no species.
    pub open spec fn empty(voxel_radius: u64, size: HCPLatticeSize) -> LatticeView {
        LatticeView {
            voxel_radius,
            size,
            voxels: Seq::new(size.volume(), |i: int| None),
            species: Seq::empty(),
        }
    }

    /// What reading the voxel at the coordinate gives.
    pub open spec fn species_at(self, c: Coordinate) -> Result<Option<SpeciesID>, Error> {
        if self.in_range(c) {
            Ok(self.occupant(c))
        } else {
            Err(Error::OutOfRange(c))
        }
    }

    /// The lattice with one more species entry, which has no occupants yet.
    pub open spec fn with_species(
        self,
        name: Seq<char>,
        location: Option<SpeciesID>,
        tracking: bool,
    ) -> LatticeView {
        LatticeView {
            species: self.species.push(SpeciesCacheView::fresh(name, location, tracking)),
            ..self
        }
    }

    /// Outcome of placing a particle of the species on the voxel at the
    /// coordinate. The voxel must lie in the lattice and be unoccupied, and
    /// the species must be registered.
    pub open spec fn add_result(self, id: SpeciesID, c: Coordinate) -> Result<(), Error> {
        if !self.in_range(c) {
            Err(Error::OutOfRange(c))
        } else if self.occupant(c) is Some || !self.registered(id) {
            Err(Error::InvalidLocation(c, c))
        } else {
            Ok(())
        }
    }

    /// The lattice after placing a particle of the species on the voxel at
    /// the coordinate; unchanged where that is refused.
    pub open spec fn added(self, id: SpeciesID, c: Coordinate) -> LatticeView {
        if self.add_result(id, c) is Ok {
            LatticeView {
                voxels: self.voxels.update(c.0 as int, Some(id)),
                species: self.species.update(id.0 as int, self.entry(id).add(c)),
                ..self
            }
        } else {
            self
        }
    }

    /// Outcome of taking the particle off the voxel at the coordinate. The
    /// voxel must lie in the lattice and be occupied.
    pub open spec fn remove_result(self, c: Coordinate) -> Result<(), Error> {
        if !self.in_range(c) {
            Err(Error::OutOfRange(c))
        } else if self.occupant(c) is None {
            Err(Error::ParticleNotFound(c))
        } else {
            Ok(())
        }
    }

    /// The lattice after taking the particle off the voxel at the
    /// coordinate; unchanged where that is refused.
    pub open spec fn removed(self, c: Coordinate) -> LatticeView {
        if self.remove_result(c) is Ok {
            let id = self.occupant(c)->0;
            LatticeView {
                voxels: self.voxels.update(c.0 as int, None),
                species: self.species.update(id.0 as int, self.entry(id).remove(c)),
                ..self
            }
        } else {
            self
        }
    }

    /// Outcome of moving the particle at `from` onto the voxel at `to`.
    /// Both coordinates must lie in the lattice, `from` must be occupied, and
    /// the occupant of `to` must be exactly the substrate that the species
    /// at `from` requires, where no occupant matches a requirement of none.
    pub open spec fn move_result(self, from: Coordinate, to: Coordinate) -> Result<(), Error> {
        if !self.in_range(from) {
            Err(Error::OutOfRange(from))
        } else if !self.in_range(to) {
            Err(Error::OutOfRange(to))
        } else {
            match self.occupant(from) {
                None => Err(Error::ParticleNotFound(from)),
                Some(mover) => if self.entry(mover).location != self.occupant(to) {
                    Err(Error::InvalidLocation(from, to))
                } else {
                    Ok(())
                },
            }
        }
    }

    /// Whether the voxel at the coordinate holds a particle of a species
    /// that is its own substrate.
    pub open spec fn holds_own_substrate(self, c: Coordinate) -> bool {
        &&& self.in_range(c)
        &&& self.occupant(c) matches Some(id)
        &&& self.entry(id).location == Some(id)
    }

    /// Whether the voxel at the coordinate holds a tracked particle.
    pub open spec fn holds_tracked(self, c: Coordinate) -> bool {
        &&& self.in_range(c)
        &&& self.occupant(c) matches Some(id)
        &&& self.entry(id).is_tracking()
    }

    /// The species index of an accepted move once the mover's entry has
    /// followed its particle from `from` to `to`.
    pub open spec fn followed(self, from: Coordinate, to: Coordinate) -> Seq<SpeciesCacheView> {
        let mover = self.occupant(from)->0;
        self.species.update(mover.0 as int, self.entry(mover).move_to(from, to))
    }

    /// The lattice after moving the particle at `from` onto the voxel at
    /// `to`; unchanged where the move is refused. The two voxels trade
    /// occupants, the mover's entry follows its particle, and the entry of a
    /// displaced substrate gives up its occupant at `to` and takes one at
    /// `from`.
    pub open spec fn moved(self, from: Coordinate, to: Coordinate) -> LatticeView {
        if self.move_result(from, to) is Ok {
            let followed = self.followed(from, to);
            LatticeView {
                voxels: self.voxels.update(from.0 as int, self.occupant(to)).update(
                    to.0 as int,
                    self.occupant(from),
                ),
                species: match self.occupant(to) {
                    Some(substrate) => followed.update(
                        substrate.0 as int,
                        followed[substrate.0 as int].remove(to).add(from),
                    ),
                    None => followed,
                },
                ..self
            }
        } else {
            self
        }
    }

    /// The lattice after one request, whether it was accepted or refused.
    pub open spec fn after(self, step: Step) -> LatticeView {
        match step {
            Step::AddSpecies { name, location, tracking } => self.with_species(
                name,
                location,
                tracking,
            ),
            Step::AddParticle { id, at } => self.added(id, at),
            Step::RemoveParticle { at } => self.removed(at),
            Step::MoveParticle { from, to } => self.moved(from, to),
        }
    }

    /// The lattice after a sequence of requests, taken in order.
    pub open spec fn after_all(self, steps: Seq<Step>) -> LatticeView
        decreases steps.len(),
    {
        if steps.len() == 0 {
            self
        } else {
            self.after_all(steps.drop_last()).after(steps.last())
        }
    }

    /// Whether pair `i` of the entry of species `s` carries the given
    /// identity. Only tracking entries have pairs.
    pub open spec fn carries(self, s: int, i: int, pid: ParticleID) -> bool {
        &&& 0 <= s < self.species.len()
        &&& self.species[s].cache matches TrackingView::Tracking(list)
        &&& 0 <= i < list.len()
        &&& list[i].0 == pid
    }

    /// Whether pair `i` of species `s` is the first to carry the given
    /// identity, going through the species in the order of their
    /// identifiers and through each list from its start.
    pub open spec fn first_carrier(self, s: int, i: int, pid: ParticleID) -> bool {
        &&& self.carries(s, i, pid)
        &&& forall|t: int, j: int| #[trigger]
            self.carries(t, j, pid) ==> s < t || (s == t && i <= j)
    }
}

} // verus!
