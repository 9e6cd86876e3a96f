use hcp_lattice::Coordinate;
use hcp_lattice::ParticleID;
use hcp_lattice::Species;
use hcp_lattice::SpeciesCache;
use hcp_lattice::SpeciesID;
use hcp_lattice::TrackingType;

fn tracking(pairs: Vec<(ParticleID, Coordinate)>) -> SpeciesCache {
    SpeciesCache {
        species: Species("A".to_string()),
        location: Some(SpeciesID(3)),
        cache: TrackingType::Tracking(pairs),
    }
}

fn counting(count: usize) -> SpeciesCache {
    SpeciesCache {
        species: Species("Vacant".to_string()),
        location: None,
        cache: TrackingType::Count(count),
    }
}

#[test]
fn new_tracking_entry_is_empty() {
    let entry = SpeciesCache::new(Species("A".to_string()), Some(SpeciesID(3)), true);
    assert_eq!(entry, tracking(vec![]));
}

#[test]
fn new_counting_entry_is_zero() {
    let entry = SpeciesCache::new(Species("Vacant".to_string()), None, false);
    assert_eq!(entry, counting(0));
}

#[test]
fn add_appends_a_pair_with_the_placeholder_identity() {
    let mut entry = tracking(vec![(ParticleID(4, 5), Coordinate(9))]);
    entry.add(Coordinate(2));
    assert_eq!(
        entry,
        tracking(vec![(ParticleID(4, 5), Coordinate(9)), (ParticleID(0, 0), Coordinate(2))])
    );
    entry.add(Coordinate(7));
    assert_eq!(
        entry,
        tracking(vec![
            (ParticleID(4, 5), Coordinate(9)),
            (ParticleID(0, 0), Coordinate(2)),
            (ParticleID(0, 0), Coordinate(7)),
        ])
    );
}

#[test]
fn add_raises_the_count_by_one() {
    let mut entry = counting(0);
    entry.add(Coordinate(2));
    assert_eq!(entry, counting(1));
    entry.add(Coordinate(2));
    assert_eq!(entry, counting(2));
    let mut entry = counting(usize::MAX - 1);
    entry.add(Coordinate(0));
    assert_eq!(entry, counting(usize::MAX));
}

#[test]
fn remove_takes_out_the_pair_at_the_coordinate() {
    let mut entry = tracking(vec![
        (ParticleID(1, 1), Coordinate(5)),
        (ParticleID(2, 2), Coordinate(6)),
        (ParticleID(3, 3), Coordinate(7)),
    ]);
    entry.remove(Coordinate(6));
    assert_eq!(
        entry,
        tracking(vec![(ParticleID(1, 1), Coordinate(5)), (ParticleID(3, 3), Coordinate(7))])
    );
    entry.remove(Coordinate(7));
    assert_eq!(entry, tracking(vec![(ParticleID(1, 1), Coordinate(5))]));
    entry.remove(Coordinate(5));
    assert_eq!(entry, tracking(vec![]));
}

#[test]
fn remove_takes_out_only_the_first_of_two_pairs() {
    let mut entry = tracking(vec![
        (ParticleID(1, 1), Coordinate(5)),
        (ParticleID(2, 2), Coordinate(6)),
        (ParticleID(3, 3), Coordinate(6)),
    ]);
    entry.remove(Coordinate(6));
    assert_eq!(
        entry,
        tracking(vec![(ParticleID(1, 1), Coordinate(5)), (ParticleID(3, 3), Coordinate(6))])
    );
}

#[test]
fn remove_lowers_the_count_by_one() {
    let mut entry = counting(3);
    entry.remove(Coordinate(100));
    assert_eq!(entry, counting(2));
    entry.remove(Coordinate(0));
    entry.remove(Coordinate(0));
    assert_eq!(entry, counting(0));
}

#[test]
fn move_to_rewrites_the_coordinate_in_place() {
    let mut entry = tracking(vec![
        (ParticleID(1, 1), Coordinate(5)),
        (ParticleID(2, 2), Coordinate(6)),
        (ParticleID(3, 3), Coordinate(7)),
    ]);
    entry.move_to(Coordinate(6), Coordinate(0));
    assert_eq!(
        entry,
        tracking(vec![
            (ParticleID(1, 1), Coordinate(5)),
            (ParticleID(2, 2), Coordinate(0)),
            (ParticleID(3, 3), Coordinate(7)),
        ])
    );
}

#[test]
fn move_to_rewrites_only_the_first_of_two_pairs() {
    let mut entry = tracking(vec![
        (ParticleID(1, 1), Coordinate(6)),
        (ParticleID(2, 2), Coordinate(6)),
    ]);
    entry.move_to(Coordinate(6), Coordinate(1));
    assert_eq!(
        entry,
        tracking(vec![(ParticleID(1, 1), Coordinate(1)), (ParticleID(2, 2), Coordinate(6))])
    );
}

#[test]
fn move_to_from_an_untracked_coordinate_changes_nothing() {
    let mut entry = tracking(vec![(ParticleID(1, 1), Coordinate(5))]);
    entry.move_to(Coordinate(4), Coordinate(0));
    assert_eq!(entry, tracking(vec![(ParticleID(1, 1), Coordinate(5))]));
    let mut entry = tracking(vec![]);
    entry.move_to(Coordinate(4), Coordinate(0));
    assert_eq!(entry, tracking(vec![]));
}

#[test]
fn move_to_leaves_a_count_alone() {
    let mut entry = counting(3);
    entry.move_to(Coordinate(1), Coordinate(2));
    assert_eq!(entry, counting(3));
}

#[test]
fn move_to_keeps_name_and_substrate() {
    let mut entry = tracking(vec![(ParticleID(1, 1), Coordinate(5))]);
    entry.move_to(Coordinate(5), Coordinate(6));
    assert_eq!(entry.species, Species("A".to_string()));
    assert_eq!(entry.location, Some(SpeciesID(3)));
}

#[test]
fn clone_copies_the_whole_entry() {
    let entry = tracking(vec![
        (ParticleID(1, 1), Coordinate(5)),
        (ParticleID(2, 2), Coordinate(6)),
    ]);
    let copy = entry.clone();
    assert_eq!(copy, entry);
    let count = counting(17);
    assert_eq!(count.clone(), count);
    assert_ne!(count.clone(), counting(16));
}
