//! The lattice store: the voxel array together with the species index, and
//! the operations that keep the two consistent.

use crate::laws::lemma_added_wf;
use crate::laws::lemma_empty_wf;
use crate::laws::lemma_moved_occupied;
use crate::laws::lemma_moved_wf;
use crate::laws::lemma_removed_wf;
use crate::laws::lemma_with_species_wf;
use crate::model::LatticeView;
use crate::species::SpeciesCache;
use crate::species::TrackingType;
use crate::species::TrackingView;
use crate::types::Coordinate;
use crate::types::Error;
use crate::types::HCPLatticeSize;
use crate::types::ParticleID;
use crate::types::Species;
use crate::types::SpeciesID;
use vstd::prelude::*;

verus! {

/// Whether two voxels would hold the same: both nothing, or both the same
/// species.
fn same_occupant(a: Option<SpeciesID>, b: Option<SpeciesID>) -> (r: bool)
    ensures
        r == (a == b),
{
    match (a, b) {
        (None, None) => true,
        (Some(x), Some(y)) => x.0 == y.0,
        _ => false,
    }
}

/// A lattice of voxels, each holding at most one occupant, with the index of
/// the species that occupy it.
pub struct HCPLatticeSpace {
    voxel_radius: u64,
    size: HCPLatticeSize,
    voxels: Vec<Option<SpeciesID>>,
    species_cache: Vec<SpeciesCache>,
}

impl View for HCPLatticeSpace {
    type V = LatticeView;

    closed spec fn view(&self) -> LatticeView {
        LatticeView {
            voxel_radius: self.voxel_radius,
            size: self.size,
            voxels: self.voxels@,
            species: Seq::new(self.species_cache@.len(), |i: int| self.species_cache@[i]@),
        }
    }
}

impl HCPLatticeSpace {
    /// The invariant of the store, which every operation keeps.
    pub open spec fn wf(&self) -> bool {
        self@.wf()
    }

    /// A lattice of the given extents with every voxel unoccupied and no
    /// species. The radius is carried as the bit pattern of a
    /// double-precision number and plays no part in the occupancy logic.
    pub fn new(voxel_radius: u64, size: HCPLatticeSize) -> (r: HCPLatticeSpace)
        ensures
            r.wf(),
            r@ == LatticeView::empty(voxel_radius, size),
    {
        proof {
            use_type_invariant(&size);
            lemma_empty_wf(voxel_radius, size);
        }
        let num_voxels: usize = size.num_voxels();
        let r = HCPLatticeSpace {
            voxel_radius,
            size,
            voxels: vec![None; num_voxels],
            species_cache: Vec::new(),
        };
        assert(r@.voxels =~= LatticeView::empty(voxel_radius, size).voxels);
        assert(r@.species =~= LatticeView::empty(voxel_radius, size).species);
        r
    }

    /// The bit pattern of the voxel radius the lattice was made with.
    pub fn get_voxel_radius(&self) -> (r: u64)
        ensures
            r == self@.voxel_radius,
    {
        self.voxel_radius
    }

    /// Looks a particle up by its identity. Only tracking species are
    /// searched, in the order of their identifiers, each list from its
    /// start; the first match gives the species and the coordinate.
    pub fn find_particle(&self, pid: ParticleID) -> (r: Option<(&Species, Coordinate)>)
        ensures
            match r {
                Some((species, coordinate)) => exists|s: int, i: int|
                    {
                        &&& #[trigger] self@.first_carrier(s, i, pid)
                        &&& species@ == self@.species[s].species
                        &&& self@.species[s].cache matches TrackingView::Tracking(list)
                        &&& coordinate == list[i].1
                    },
                None => forall|s: int, i: int| !#[trigger] self@.carries(s, i, pid),
            },
    {
        let mut s: usize = 0;
        while s < self.species_cache.len()
            invariant
                s <= self.species_cache@.len(),
                forall|t: int, j: int| #[trigger] self@.carries(t, j, pid) ==> s <= t,
            decreases self.species_cache@.len() - s,
        {
            let entry = &self.species_cache[s];
            if let TrackingType::Tracking(cache) = &entry.cache {
                let mut i: usize = 0;
                while i < cache.len()
                    invariant
                        s < self.species_cache@.len(),
                        *entry == self.species_cache@[s as int],
                        entry.cache == TrackingType::Tracking(*cache),
                        i <= cache@.len(),
                        forall|t: int, j: int| #[trigger]
                            self@.carries(t, j, pid) ==> s < t || (s == t && i <= j),
                    decreases cache@.len() - i,
                {
                    if cache[i].0 == pid {
                        assert(self@.first_carrier(s as int, i as int, pid));
                        return Some((&entry.species, cache[i].1));
                    }
                    i += 1;
                }
            }
            s += 1;
        }
        None
    }

    /// Reads the voxel at the coordinate.
    pub fn get_species_id_at(&self, coordinate: Coordinate) -> (r: Result<
        Option<SpeciesID>,
        Error,
    >)
        ensures
            r == self@.species_at(coordinate),
    {
        if coordinate.0 < self.voxels.len() {
            Ok(self.voxels[coordinate.0])
        } else {
            Err(Error::OutOfRange(coordinate))
        }
    }

    /// The entry of a species, or `None` for an identifier that was never
    /// handed out.
    pub fn get_species_cache(&self, id: SpeciesID) -> (r: Option<&SpeciesCache>)
        ensures
            r is Some <==> self@.registered(id),
            r matches Some(entry) ==> entry@ == self@.entry(id),
    {
        if id.0 < self.species_cache.len() {
            Some(&self.species_cache[id.0])
        } else {
            None
        }
    }

    fn get_species_cache_mut(&mut self, id: SpeciesID) -> (r: &mut SpeciesCache)
        requires
            id.0 < old(self).species_cache@.len(),
        ensures
            *r == old(self).species_cache@[id.0 as int],
            final(self).species_cache@ == old(self).species_cache@.update(id.0 as int, *final(r)),
            final(self).voxels == old(self).voxels,
            final(self).size == old(self).size,
            final(self).voxel_radius == old(self).voxel_radius,
    {
        &mut self.species_cache[id.0]
    }

    /// Registers a species and hands out its identifier, the next free index
    /// of the species index. The new entry has no occupants; it tracks its
    /// particles where `tracking` is set and counts them where it is not.
    pub fn add_species(
        &mut self,
        species: Species,
        location: Option<SpeciesID>,
        tracking: bool,
    ) -> (id: SpeciesID)
        requires
            old(self).wf(),
        ensures
            final(self).wf(),
            id.0 == old(self)@.species.len(),
            final(self)@ == old(self)@.with_species(species@, location, tracking),
    {
        proof {
            lemma_with_species_wf(self@, species@, location, tracking);
        }
        let id = SpeciesID(self.species_cache.len());
        self.species_cache.push(SpeciesCache::new(species, location, tracking));
        assert(self@.species =~= old(self)@.with_species(species@, location, tracking).species);
        id
    }

    /// Places a particle of the species on the voxel at the coordinate. The
    /// voxel must be unoccupied and the species registered; where either
    /// fails, the coordinate is no valid location for the particle. The
    /// particle gets the placeholder identity.
    pub fn add_particle(&mut self, id: SpeciesID, coordinate: Coordinate) -> (r: Result<(), Error>)
        requires
            old(self).wf(),
        ensures
            final(self).wf(),
            r == old(self)@.add_result(id, coordinate),
            final(self)@ == old(self)@.added(id, coordinate),
            r is Err ==> final(self)@ == old(self)@,
    {
        if coordinate.0 >= self.voxels.len() {
            return Err(Error::OutOfRange(coordinate));
        }
        if self.voxels[coordinate.0].is_some() || id.0 >= self.species_cache.len() {
            return Err(Error::InvalidLocation(coordinate, coordinate));
        }
        proof {
            lemma_added_wf(self@, id, coordinate);
        }
        self.get_species_cache_mut(id).add(coordinate);
        self.voxels.set(coordinate.0, Some(id));
        assert(self@.species =~= old(self)@.added(id, coordinate).species);
        Ok(())
    }

    /// Takes the particle off the voxel at the coordinate, which becomes
    /// unoccupied. Nothing takes its place, whatever substrate its species
    /// requires.
    pub fn remove_particle(&mut self, coordinate: Coordinate) -> (r: Result<(), Error>)
        requires
            old(self).wf(),
        ensures
            final(self).wf(),
            r == old(self)@.remove_result(coordinate),
            final(self)@ == old(self)@.removed(coordinate),
            r is Err ==> final(self)@ == old(self)@,
    {
        if coordinate.0 >= self.voxels.len() {
            return Err(Error::OutOfRange(coordinate));
        }
        let id = match self.voxels[coordinate.0] {
            Some(id) => id,
            None => {
                return Err(Error::ParticleNotFound(coordinate));
            },
        };
        proof {
            lemma_removed_wf(self@, coordinate);
        }
        self.get_species_cache_mut(id).remove(coordinate);
        self.voxels.set(coordinate.0, None);
        assert(self@.species =~= old(self)@.removed(coordinate).species);
        Ok(())
    }

    /// Moves the particle at `from` onto the voxel at `to`. The occupant of
    /// `to` must be exactly the substrate that the moving species requires;
    /// it is displaced into the voxel the mover leaves. A refused move
    /// changes nothing.
    pub fn move_particle(&mut self, from: Coordinate, to: Coordinate) -> (r: Result<(), Error>)
        requires
            old(self).wf(),
        ensures
            final(self).wf(),
            r == old(self)@.move_result(from, to),
            final(self)@ == old(self)@.moved(from, to),
            r is Err ==> final(self)@ == old(self)@,
            final(self)@.occupied() == old(self)@.occupied(),
    {
        let from_species = self.get_species_id_at(from)?;
        let to_species_id = self.get_species_id_at(to)?;
        let from_species_id = match from_species {
            Some(id) => id,
            None => {
                return Err(Error::ParticleNotFound(from));
            },
        };
        if !same_occupant(self.species_cache[from_species_id.0].location, to_species_id) {
            return Err(Error::InvalidLocation(from, to));
        }
        proof {
            lemma_moved_wf(self@, from, to);
            lemma_moved_occupied(self@, from, to);
        }
        self.get_species_cache_mut(from_species_id).move_to(from, to);
        if let Some(to_species_id) = to_species_id {
            let to_species_cache = self.get_species_cache_mut(to_species_id);
            to_species_cache.remove(to);
            to_species_cache.add(from);
        }
        self.voxels.set(from.0, to_species_id);
        self.voxels.set(to.0, Some(from_species_id));
        assert(self@.species =~= old(self)@.moved(from, to).species);
        Ok(())
    }
}

} // verus!
