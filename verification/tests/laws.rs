use hcp_lattice::Coordinate;
use hcp_lattice::Error;
use hcp_lattice::HCPLatticeSize;
use hcp_lattice::HCPLatticeSpace;
use hcp_lattice::ParticleID;
use hcp_lattice::Species;
use hcp_lattice::SpeciesCache;
use hcp_lattice::SpeciesID;
use hcp_lattice::TrackingType;

fn lattice(row: usize, col: usize, layer: usize) -> HCPLatticeSpace {
    HCPLatticeSpace::new(1.0f64.to_bits(), HCPLatticeSize::new(row, col, layer).unwrap())
}

fn species(name: &str) -> Species {
    Species(name.to_string())
}

fn state(
    space: &HCPLatticeSpace,
    n: usize,
    k: usize,
) -> (Vec<Option<SpeciesID>>, Vec<SpeciesCache>) {
    (
        (0..n).map(|v| space.get_species_id_at(Coordinate(v)).unwrap()).collect(),
        (0..k).map(|i| space.get_species_cache(SpeciesID(i)).unwrap().clone()).collect(),
    )
}

fn occupied(space: &HCPLatticeSpace, n: usize) -> usize {
    state(space, n, 0).0.iter().filter(|v| v.is_some()).count()
}

/// Holds the voxel array against every entry of the species index.
fn assert_consistent(space: &HCPLatticeSpace, n: usize, k: usize) {
    let (voxels, entries) = state(space, n, k);
    assert!(space.get_species_cache(SpeciesID(k)).is_none());
    assert!(space.get_species_id_at(Coordinate(n)).is_err());
    for occupant in voxels.iter().flatten() {
        assert!(occupant.0 < k);
    }
    for (i, entry) in entries.iter().enumerate() {
        let assigned: Vec<usize> =
            (0..n).filter(|v| voxels[*v] == Some(SpeciesID(i))).collect();
        match &entry.cache {
            TrackingType::Tracking(list) => {
                let mut listed: Vec<usize> = list.iter().map(|pair| pair.1 .0).collect();
                listed.sort();
                assert_eq!(listed, assigned);
            }
            TrackingType::Count(count) => assert_eq!(*count, assigned.len()),
        }
    }
}

/// Six voxels, four species: "Vacant" counts and needs no substrate, "A"
/// tracks and moves onto "Vacant", "S" tracks and is its own substrate, "B"
/// tracks and moves onto "S".
fn mixed() -> (HCPLatticeSpace, SpeciesID, SpeciesID, SpeciesID, SpeciesID) {
    let mut space = lattice(3, 2, 1);
    let vacant = space.add_species(species("Vacant"), None, false);
    let a = space.add_species(species("A"), Some(vacant), true);
    let s = space.add_species(species("S"), Some(SpeciesID(2)), true);
    let b = space.add_species(species("B"), Some(s), true);
    assert_eq!(space.add_particle(vacant, Coordinate(0)), Ok(()));
    assert_eq!(space.add_particle(a, Coordinate(1)), Ok(()));
    assert_eq!(space.add_particle(s, Coordinate(2)), Ok(()));
    assert_eq!(space.add_particle(s, Coordinate(3)), Ok(()));
    assert_eq!(space.add_particle(b, Coordinate(4)), Ok(()));
    (space, vacant, a, s, b)
}

#[test]
fn every_operation_keeps_voxels_and_entries_consistent() {
    let mut space = lattice(3, 2, 1);
    assert_consistent(&space, 6, 0);
    let vacant = space.add_species(species("Vacant"), None, false);
    assert_consistent(&space, 6, 1);
    let a = space.add_species(species("A"), Some(vacant), true);
    let s = space.add_species(species("S"), Some(SpeciesID(2)), true);
    let b = space.add_species(species("B"), Some(s), true);
    assert_consistent(&space, 6, 4);
    let steps: Vec<Box<dyn Fn(&mut HCPLatticeSpace) -> Result<(), Error>>> = vec![
        Box::new(move |l| l.add_particle(vacant, Coordinate(0))),
        Box::new(move |l| l.add_particle(a, Coordinate(1))),
        Box::new(move |l| l.add_particle(s, Coordinate(2))),
        Box::new(move |l| l.add_particle(s, Coordinate(3))),
        Box::new(move |l| l.add_particle(b, Coordinate(4))),
        Box::new(move |l| l.move_particle(Coordinate(1), Coordinate(0))),
        Box::new(move |l| l.move_particle(Coordinate(4), Coordinate(2))),
        Box::new(move |l| l.move_particle(Coordinate(3), Coordinate(4))),
        Box::new(move |l| l.move_particle(Coordinate(4), Coordinate(4))),
        Box::new(move |l| l.remove_particle(Coordinate(1))),
        Box::new(move |l| l.add_particle(vacant, Coordinate(5))),
        Box::new(move |l| l.move_particle(Coordinate(0), Coordinate(5))),
        Box::new(move |l| l.remove_particle(Coordinate(2))),
        Box::new(move |l| l.remove_particle(Coordinate(0))),
        Box::new(move |l| l.add_particle(b, Coordinate(0))),
        Box::new(move |l| l.move_particle(Coordinate(0), Coordinate(3))),
    ];
    for step in steps.iter() {
        assert_eq!(step(&mut space), Ok(()));
        assert_consistent(&space, 6, 4);
    }
    assert_eq!(
        state(&space, 6, 0).0,
        vec![Some(s), None, None, Some(b), Some(s), Some(a)]
    );
}

#[test]
fn refused_operations_keep_voxels_and_entries_consistent() {
    let (mut space, vacant, a, _, _) = mixed();
    let before = state(&space, 6, 4);
    assert!(space.move_particle(Coordinate(5), Coordinate(0)).is_err());
    assert!(space.move_particle(Coordinate(1), Coordinate(2)).is_err());
    assert!(space.move_particle(Coordinate(0), Coordinate(6)).is_err());
    assert!(space.add_particle(a, Coordinate(0)).is_err());
    assert!(space.add_particle(vacant, Coordinate(6)).is_err());
    assert!(space.remove_particle(Coordinate(5)).is_err());
    assert!(space.remove_particle(Coordinate(6)).is_err());
    assert_eq!(state(&space, 6, 4), before);
    assert_consistent(&space, 6, 4);
}

#[test]
fn move_keeps_the_number_of_occupied_voxels() {
    let (mut space, _, _, _, _) = mixed();
    assert_eq!(occupied(&space, 6), 5);
    assert_eq!(space.move_particle(Coordinate(1), Coordinate(0)), Ok(()));
    assert_eq!(occupied(&space, 6), 5);
    assert_eq!(space.move_particle(Coordinate(4), Coordinate(3)), Ok(()));
    assert_eq!(occupied(&space, 6), 5);
    assert_eq!(space.move_particle(Coordinate(2), Coordinate(4)), Ok(()));
    assert_eq!(occupied(&space, 6), 5);
    assert_eq!(space.move_particle(Coordinate(1), Coordinate(5)), Ok(()));
    assert_eq!(occupied(&space, 6), 5);
    assert!(space.move_particle(Coordinate(0), Coordinate(1)).is_err());
    assert_eq!(occupied(&space, 6), 5);
}

#[test]
fn move_onto_the_wrong_substrate_is_refused() {
    let (mut space, _, _, _, _) = mixed();
    let before = state(&space, 6, 4);
    // "A" needs "Vacant" and finds "S", "B" and another "A".
    assert_eq!(
        space.move_particle(Coordinate(1), Coordinate(2)),
        Err(Error::InvalidLocation(Coordinate(1), Coordinate(2)))
    );
    assert_eq!(
        space.move_particle(Coordinate(1), Coordinate(4)),
        Err(Error::InvalidLocation(Coordinate(1), Coordinate(4)))
    );
    // "B" needs "S" and finds "Vacant" and "A".
    assert_eq!(
        space.move_particle(Coordinate(4), Coordinate(0)),
        Err(Error::InvalidLocation(Coordinate(4), Coordinate(0)))
    );
    assert_eq!(
        space.move_particle(Coordinate(4), Coordinate(1)),
        Err(Error::InvalidLocation(Coordinate(4), Coordinate(1)))
    );
    // "S" needs "S" and finds "B".
    assert_eq!(
        space.move_particle(Coordinate(2), Coordinate(4)),
        Err(Error::InvalidLocation(Coordinate(2), Coordinate(4)))
    );
    assert_eq!(state(&space, 6, 4), before);
}

#[test]
fn move_in_place_is_refused_unless_the_species_is_its_own_substrate() {
    let (mut space, _, _, _, _) = mixed();
    let before = state(&space, 6, 4);
    assert_eq!(
        space.move_particle(Coordinate(0), Coordinate(0)),
        Err(Error::InvalidLocation(Coordinate(0), Coordinate(0)))
    );
    assert_eq!(
        space.move_particle(Coordinate(1), Coordinate(1)),
        Err(Error::InvalidLocation(Coordinate(1), Coordinate(1)))
    );
    assert_eq!(
        space.move_particle(Coordinate(4), Coordinate(4)),
        Err(Error::InvalidLocation(Coordinate(4), Coordinate(4)))
    );
    assert_eq!(
        space.move_particle(Coordinate(5), Coordinate(5)),
        Err(Error::ParticleNotFound(Coordinate(5)))
    );
    assert_eq!(
        space.move_particle(Coordinate(6), Coordinate(6)),
        Err(Error::OutOfRange(Coordinate(6)))
    );
    assert_eq!(state(&space, 6, 4), before);
}

#[test]
fn move_in_place_of_a_counted_species_changes_nothing() {
    let mut space = lattice(2, 1, 1);
    let c = space.add_species(species("C"), Some(SpeciesID(0)), false);
    assert_eq!(space.add_particle(c, Coordinate(0)), Ok(()));
    assert_eq!(space.add_particle(c, Coordinate(1)), Ok(()));
    let before = state(&space, 2, 1);
    assert_eq!(space.move_particle(Coordinate(0), Coordinate(0)), Ok(()));
    assert_eq!(space.move_particle(Coordinate(1), Coordinate(1)), Ok(()));
    assert_eq!(state(&space, 2, 1), before);
    assert_eq!(space.move_particle(Coordinate(0), Coordinate(1)), Ok(()));
    assert_eq!(state(&space, 2, 1), before);
}

#[test]
fn move_in_place_of_a_tracked_species_renews_its_pair() {
    let (mut space, _, _, s, _) = mixed();
    let before = state(&space, 6, 4);
    assert_eq!(space.move_particle(Coordinate(2), Coordinate(2)), Ok(()));
    let after = state(&space, 6, 4);
    assert_eq!(after.0, before.0);
    assert_eq!(after.1[0], before.1[0]);
    assert_eq!(after.1[1], before.1[1]);
    assert_eq!(after.1[3], before.1[3]);
    assert_eq!(
        space.get_species_cache(s).unwrap().cache,
        TrackingType::Tracking(vec![
            (ParticleID(0, 0), Coordinate(3)),
            (ParticleID(0, 0), Coordinate(2)),
        ])
    );
}

#[test]
fn tracked_particles_of_one_species_trade_places() {
    let (mut space, _, _, s, _) = mixed();
    let before = state(&space, 6, 4);
    assert_eq!(space.move_particle(Coordinate(3), Coordinate(2)), Ok(()));
    assert_eq!(state(&space, 6, 4).0, before.0);
    assert_eq!(
        space.get_species_cache(s).unwrap().cache,
        TrackingType::Tracking(vec![
            (ParticleID(0, 0), Coordinate(2)),
            (ParticleID(0, 0), Coordinate(3)),
        ])
    );
    assert_consistent(&space, 6, 4);
}

#[test]
fn move_there_and_back_restores_the_lattice() {
    let (mut space, _, _, _, _) = mixed();
    let before = state(&space, 6, 4);
    // Onto a counted substrate.
    assert_eq!(space.move_particle(Coordinate(1), Coordinate(0)), Ok(()));
    assert_ne!(state(&space, 6, 4), before);
    assert_eq!(space.move_particle(Coordinate(0), Coordinate(1)), Ok(()));
    assert_eq!(state(&space, 6, 4), before);
    // Onto an unoccupied voxel.
    assert_eq!(space.move_particle(Coordinate(0), Coordinate(5)), Ok(()));
    assert_ne!(state(&space, 6, 4), before);
    assert_eq!(space.move_particle(Coordinate(5), Coordinate(0)), Ok(()));
    assert_eq!(state(&space, 6, 4), before);
}

#[test]
fn move_there_and_back_over_a_tracked_substrate_restores_the_coordinates() {
    let (mut space, _, _, s, _) = mixed();
    let before = state(&space, 6, 4);
    assert_eq!(space.move_particle(Coordinate(4), Coordinate(2)), Ok(()));
    assert_eq!(space.move_particle(Coordinate(2), Coordinate(4)), Ok(()));
    let after = state(&space, 6, 4);
    assert_eq!(after.0, before.0);
    assert_eq!(after.1[0], before.1[0]);
    assert_eq!(after.1[1], before.1[1]);
    assert_eq!(after.1[3], before.1[3]);
    // The displaced pair has gone to the end of its list.
    assert_eq!(
        before.1[2].cache,
        TrackingType::Tracking(vec![
            (ParticleID(0, 0), Coordinate(2)),
            (ParticleID(0, 0), Coordinate(3)),
        ])
    );
    assert_eq!(
        space.get_species_cache(s).unwrap().cache,
        TrackingType::Tracking(vec![
            (ParticleID(0, 0), Coordinate(3)),
            (ParticleID(0, 0), Coordinate(2)),
        ])
    );
    assert_consistent(&space, 6, 4);
}

#[test]
fn coordinates_outside_the_lattice_are_refused() {
    let (mut space, vacant, _, _, _) = mixed();
    let before = state(&space, 6, 4);
    for c in [6, 7, 100, usize::MAX] {
        let out = Coordinate(c);
        assert_eq!(space.get_species_id_at(out), Err(Error::OutOfRange(out)));
        assert_eq!(space.add_particle(vacant, out), Err(Error::OutOfRange(out)));
        assert_eq!(space.add_particle(SpeciesID(9), out), Err(Error::OutOfRange(out)));
        assert_eq!(space.remove_particle(out), Err(Error::OutOfRange(out)));
        assert_eq!(space.move_particle(out, Coordinate(0)), Err(Error::OutOfRange(out)));
        assert_eq!(space.move_particle(out, out), Err(Error::OutOfRange(out)));
        // From an occupied voxel, and from an unoccupied one.
        assert_eq!(space.move_particle(Coordinate(1), out), Err(Error::OutOfRange(out)));
        assert_eq!(space.move_particle(Coordinate(5), out), Err(Error::OutOfRange(out)));
    }
    // Of two such coordinates the error names the first.
    assert_eq!(
        space.move_particle(Coordinate(8), Coordinate(7)),
        Err(Error::OutOfRange(Coordinate(8)))
    );
    assert_eq!(state(&space, 6, 4), before);
    assert_eq!(space.get_species_id_at(Coordinate(5)), Ok(None));
}
