//! What holds of the lattice store whatever its state: each operation keeps
//! the store consistent, and moves leave the occupancy as it was.

use crate::consistency::lemma_agrees_add;
use crate::consistency::lemma_agrees_elsewhere;
use crate::consistency::lemma_agrees_move;
use crate::consistency::lemma_agrees_remove;
use crate::consistency::lemma_agrees_trade;
use crate::consistency::lemma_assigned_update;
use crate::model::agrees;
use crate::model::assigned;
use crate::model::LatticeView;
use crate::model::Step;
use crate::species::first_at;
use crate::species::lemma_first_at;
use crate::species::placeholder_id;
use crate::species::tracks;
use crate::species::tracks_once;
use crate::species::SpeciesCacheView;
use crate::species::TrackingView;
use crate::types::Coordinate;
use crate::types::Error;
use crate::types::HCPLatticeSize;
use crate::types::SpeciesID;
use vstd::prelude::*;

verus! {

/// In a consistent lattice the voxel array and the species index say the
/// same. A voxel is assigned to a tracking species exactly when the list of
/// the species holds exactly one pair at the voxel's coordinate, and no
/// coordinate occurs twice in a list. A counting species holds the number of
/// voxels assigned to it. Every occupant is a registered species.
pub proof fn lemma_voxels_match_entries(s: LatticeView, id: SpeciesID, c: Coordinate)
    requires
        s.wf(),
        s.registered(id),
    ensures
        match s.entry(id).cache {
            TrackingView::Tracking(list) => {
                &&& s.in_range(c) && s.occupant(c) == Some(id) <==> tracks_once(list, c)
                &&& tracks(list, c) ==> tracks_once(list, c)
            },
            TrackingView::Count(n) => n == assigned(s.voxels, id),
        },
        s.in_range(c) ==> (s.occupant(c) matches Some(o) ==> s.registered(o)),
{
    assert(agrees(s.entry(id), s.voxels, id));
    match s.entry(id).cache {
        TrackingView::Tracking(list) => {
            if tracks(list, c) {
                let i = choose|i: int| 0 <= i < list.len() && (#[trigger] list[i]).1 == c;
                assert forall|j: int| 0 <= j < list.len() && (#[trigger] list[j]).1 == c implies j
                    == i by {
                    if j < i {
                        assert(list[j].1 != list[i].1);
                    } else if i < j {
                        assert(list[i].1 != list[j].1);
                    }
                }
                assert(tracks_once(list, c));
            }
            if s.in_range(c) && s.occupant(c) == Some(id) {
                assert(tracks(list, c));
            }
        },
        TrackingView::Count(n) => {},
    }
}

/// In a consistent lattice no voxel is claimed by two species: a coordinate
/// that occurs in the list of one tracking species occurs in no other list.
pub proof fn lemma_no_voxel_claimed_twice(
    s: LatticeView,
    first: SpeciesID,
    second: SpeciesID,
    c: Coordinate,
)
    requires
        s.wf(),
        s.registered(first),
        s.registered(second),
        s.entry(first).cache matches TrackingView::Tracking(list) && tracks(list, c),
        s.entry(second).cache matches TrackingView::Tracking(list) && tracks(list, c),
    ensures
        first == second,
        s.in_range(c),
        s.occupant(c) == Some(first),
{
    assert(agrees(s.entry(first), s.voxels, first));
    assert(agrees(s.entry(second), s.voxels, second));
}

/// A new lattice is consistent.
pub proof fn lemma_empty_wf(voxel_radius: u64, size: HCPLatticeSize)
    requires
        size.wf(),
    ensures
        LatticeView::empty(voxel_radius, size).wf(),
{
}

/// Registering a species keeps the lattice consistent.
pub proof fn lemma_with_species_wf(
    s: LatticeView,
    name: Seq<char>,
    location: Option<SpeciesID>,
    tracking: bool,
)
    requires
        s.wf(),
    ensures
        s.with_species(name, location, tracking).wf(),
{
    broadcast use vstd::seq_lib::to_multiset_contains;

    s.size.lemma_extents();
    let after = s.with_species(name, location, tracking);
    assert forall|d: Coordinate| after.in_range(d) implies (#[trigger] after.occupant(d)
        matches Some(o) ==> after.registered(o)) by {
        assert(after.occupant(d) == s.occupant(d));
    }
    assert forall|id: SpeciesID| after.registered(id) implies agrees(
        #[trigger] after.entry(id),
        after.voxels,
        id,
    ) by {
        if s.registered(id) {
            assert(after.entry(id) == s.entry(id));
        } else {
            assert forall|c: Coordinate| c.0 < s.voxels.len() implies #[trigger] s.occupant(c)
                != Some(id) by {}
            if s.voxels.contains(Some(id)) {
                let v = choose|v: int| 0 <= v < s.voxels.len() && s.voxels[v] == Some(id);
                assert(s.occupant(Coordinate(v as usize)) == Some(id));
            }
        }
    }
}

/// Placing a particle keeps the lattice consistent. Where it is accepted, a
/// counting entry of the species is below the number of voxels.
pub proof fn lemma_added_wf(s: LatticeView, id: SpeciesID, c: Coordinate)
    requires
        s.wf(),
    ensures
        s.added(id, c).wf(),
        s.add_result(id, c) is Ok ==> (s.entry(id).cache matches TrackingView::Count(n)
            ==> n < s.voxels.len()),
{
    if s.add_result(id, c) is Ok {
        let after = s.added(id, c);
        assert(s.occupant(c) is None);
        lemma_agrees_add(s.entry(id), s.voxels, id, c);
        assert forall|other: SpeciesID| after.registered(other) implies agrees(
            #[trigger] after.entry(other),
            after.voxels,
            other,
        ) by {
            if other != id {
                assert(after.entry(other) == s.entry(other));
                lemma_agrees_elsewhere(s.entry(other), s.voxels, other, c, Some(id));
            }
        }
        assert forall|d: Coordinate| after.in_range(d) implies (#[trigger] after.occupant(d)
            matches Some(o) ==> after.registered(o)) by {
            if d != c {
                assert(after.occupant(d) == s.occupant(d));
            }
        }
    }
}

/// Taking a particle away keeps the lattice consistent. Where it is
/// accepted, the entry of the occupant records the particle.
pub proof fn lemma_removed_wf(s: LatticeView, c: Coordinate)
    requires
        s.wf(),
    ensures
        s.removed(c).wf(),
        s.remove_result(c) is Ok ==> s.entry(s.occupant(c)->0).can_remove(c),
{
    if s.remove_result(c) is Ok {
        let after = s.removed(c);
        let id = s.occupant(c)->0;
        assert(s.registered(id));
        lemma_agrees_remove(s.entry(id), s.voxels, id, c, None);
        assert forall|other: SpeciesID| after.registered(other) implies agrees(
            #[trigger] after.entry(other),
            after.voxels,
            other,
        ) by {
            if other != id {
                assert(after.entry(other) == s.entry(other));
                lemma_agrees_elsewhere(s.entry(other), s.voxels, other, c, None);
            }
        }
        assert forall|d: Coordinate| after.in_range(d) implies (#[trigger] after.occupant(d)
            matches Some(o) ==> after.registered(o)) by {
            if d != c {
                assert(after.occupant(d) == s.occupant(d));
            }
        }
    }
}

/// Moving a particle keeps the lattice consistent. Where the move is
/// accepted and displaces a substrate, the entry of the substrate records
/// its occupant at the destination, also after the mover's entry has
/// followed its particle.
pub proof fn lemma_moved_wf(s: LatticeView, from: Coordinate, to: Coordinate)
    requires
        s.wf(),
    ensures
        s.moved(from, to).wf(),
        s.move_result(from, to) is Ok ==> (s.occupant(to) matches Some(substrate) ==> s.followed(
            from,
            to,
        )[substrate.0 as int].can_remove(to)),
{
    if s.move_result(from, to) is Ok {
        let after = s.moved(from, to);
        let mover = s.occupant(from)->0;
        let target = s.occupant(to);
        assert(s.registered(mover));
        let left = s.voxels.update(from.0 as int, target);
        assert(after.voxels == left.update(to.0 as int, Some(mover)));
        assert forall|d: Coordinate| after.in_range(d) implies (#[trigger] after.occupant(d)
            matches Some(o) ==> after.registered(o)) by {
            if d != from && d != to {
                assert(after.occupant(d) == s.occupant(d));
            }
            assert(target matches Some(o) ==> s.registered(o));
        }
        if target == Some(mover) {
            assert(after.voxels =~= s.voxels);
            lemma_agrees_trade(s.entry(mover), s.voxels, mover, from, to);
            assert forall|other: SpeciesID| after.registered(other) implies agrees(
                #[trigger] after.entry(other),
                after.voxels,
                other,
            ) by {
                if other != mover {
                    assert(after.entry(other) == s.entry(other));
                }
            }
        } else {
            lemma_agrees_move(s.entry(mover), s.voxels, mover, from, to, target);
            match target {
                Some(substrate) => {
                    assert(s.registered(substrate));
                    let taken = s.voxels.update(to.0 as int, Some(mover));
                    lemma_agrees_remove(s.entry(substrate), s.voxels, substrate, to, Some(mover));
                    lemma_agrees_add(s.entry(substrate).remove(to), taken, substrate, from);
                    assert(taken.update(from.0 as int, target) =~= after.voxels);
                },
                None => {},
            }
            assert forall|other: SpeciesID| after.registered(other) implies agrees(
                #[trigger] after.entry(other),
                after.voxels,
                other,
            ) by {
                if other != mover && target != Some(other) {
                    assert(after.entry(other) == s.entry(other));
                    lemma_agrees_elsewhere(s.entry(other), s.voxels, other, from, target);
                    lemma_agrees_elsewhere(s.entry(other), left, other, to, Some(mover));
                }
            }
        }
    }
}

/// Whatever requests a new lattice is given, and in whatever order, it is
/// consistent after them.
pub proof fn lemma_always_consistent(voxel_radius: u64, size: HCPLatticeSize, steps: Seq<Step>)
    requires
        size.wf(),
    ensures
        LatticeView::empty(voxel_radius, size).after_all(steps).wf(),
    decreases steps.len(),
{
    let start = LatticeView::empty(voxel_radius, size);
    if steps.len() == 0 {
        lemma_empty_wf(voxel_radius, size);
    } else {
        lemma_always_consistent(voxel_radius, size, steps.drop_last());
        let s = start.after_all(steps.drop_last());
        match steps.last() {
            Step::AddSpecies { name, location, tracking } => {
                lemma_with_species_wf(s, name, location, tracking);
            },
            Step::AddParticle { id, at } => {
                lemma_added_wf(s, id, at);
            },
            Step::RemoveParticle { at } => {
                lemma_removed_wf(s, at);
            },
            Step::MoveParticle { from, to } => {
                lemma_moved_wf(s, from, to);
            },
        }
    }
}

/// Moving a particle leaves the number of occupied voxels as it was.
pub proof fn lemma_moved_occupied(s: LatticeView, from: Coordinate, to: Coordinate)
    ensures
        s.moved(from, to).occupied() == s.occupied(),
{
    broadcast use {
        vstd::multiset::group_multiset_axioms,
        vstd::seq_lib::to_multiset_update,
        vstd::seq_lib::to_multiset_contains,
    };

    if s.move_result(from, to) is Ok {
        let a = s.voxels[from.0 as int];
        let b = s.voxels[to.0 as int];
        let left = s.voxels.update(from.0 as int, b);
        assert(s.voxels.contains(a));
        assert(left.contains(left[to.0 as int]));
        assert(left.to_multiset() == s.voxels.to_multiset().insert(b).remove(a));
        assert(s.moved(from, to).voxels.to_multiset() == left.to_multiset().insert(a).remove(
            left[to.0 as int],
        ));
        assert(s.moved(from, to).voxels.to_multiset() =~= s.voxels.to_multiset());
    }
}

/// A move onto a voxel whose occupant is not the substrate that the moving
/// species requires is refused and changes nothing.
pub proof fn lemma_wrong_substrate_rejected(s: LatticeView, from: Coordinate, to: Coordinate)
    requires
        s.in_range(from),
        s.in_range(to),
        s.occupant(from) matches Some(mover) && s.entry(mover).location != s.occupant(to),
    ensures
        s.move_result(from, to) == Err::<(), Error>(Error::InvalidLocation(from, to)),
        s.moved(from, to) == s,
{
}

/// A move from a voxel onto itself changes nothing, whether it is accepted
/// or refused. It is accepted exactly where the occupant is its own
/// substrate. Left out is the one case in which the bookkeeping shows: a
/// tracked particle of a species that is its own substrate.
pub proof fn lemma_move_in_place(s: LatticeView, c: Coordinate)
    requires
        s.wf(),
        !(s.holds_own_substrate(c) && s.holds_tracked(c)),
    ensures
        s.move_result(c, c) is Ok <==> s.holds_own_substrate(c),
        s.moved(c, c) == s,
{
    if s.move_result(c, c) is Ok {
        let id = s.occupant(c)->0;
        assert(s.registered(id));
        assert(agrees(s.entry(id), s.voxels, id));
        lemma_assigned_update(s.voxels, c, Some(id), id);
        assert(s.moved(c, c).voxels =~= s.voxels);
        assert(s.moved(c, c).species =~= s.species);
    }
}

/// A move from a voxel onto itself by a tracked particle of a species that
/// is its own substrate is accepted. It leaves the voxel array and every
/// other entry as they were; in the entry of the species, the pair of the
/// particle gives way to a new pair with the placeholder identity at the end
/// of the list.
pub proof fn lemma_move_in_place_tracked(s: LatticeView, c: Coordinate)
    requires
        s.wf(),
        s.holds_own_substrate(c),
        s.holds_tracked(c),
    ensures
        s.move_result(c, c) is Ok,
        s.moved(c, c).voxels == s.voxels,
        ({
            let id = s.occupant(c)->0;
            let list = s.entry(id).cache->Tracking_0;
            s.moved(c, c).species == s.species.update(
                id.0 as int,
                SpeciesCacheView {
                    cache: TrackingView::Tracking(
                        list.remove(first_at(list, c)).push((placeholder_id(), c)),
                    ),
                    ..s.entry(id)
                },
            )
        }),
{
    let id = s.occupant(c)->0;
    let list = s.entry(id).cache->Tracking_0;
    assert(s.registered(id));
    assert(agrees(s.entry(id), s.voxels, id));
    assert(tracks(list, c));
    lemma_first_at(list, c);
    let f = first_at(list, c);
    assert(list.update(f, (list[f].0, c)) =~= list);
    assert(s.moved(c, c).voxels =~= s.voxels);
}

/// A move that is at once followed by the move back is accepted both times
/// and restores the lattice. The voxel array is as before. Every entry
/// tracks the same coordinates and records as many occupants as before. Every
/// entry is even exactly as before, identities and order included, except
/// the entry of a displaced substrate that tracks its particles: its pair at
/// the destination has given way to a new pair at the end of the list.
pub proof fn lemma_move_round_trip(s: LatticeView, a: Coordinate, b: Coordinate)
    requires
        s.wf(),
        s.move_result(a, b) is Ok,
    ensures
        s.moved(a, b).move_result(b, a) is Ok,
        ({
            let back = s.moved(a, b).moved(b, a);
            &&& back.wf()
            &&& back.voxels == s.voxels
            &&& back.voxel_radius == s.voxel_radius
            &&& back.size == s.size
            &&& back.species.len() == s.species.len()
            &&& forall|id: SpeciesID| #[trigger]
                s.registered(id) ==> {
                    &&& back.entry(id).species == s.entry(id).species
                    &&& back.entry(id).location == s.entry(id).location
                    &&& back.entry(id).is_tracking() == s.entry(id).is_tracking()
                    &&& back.entry(id).occupants() == s.entry(id).occupants()
                    &&& !(s.entry(id).is_tracking() && s.occupant(b) == Some(id)) ==> back.entry(id)
                        == s.entry(id)
                }
            &&& forall|id: SpeciesID, c: Coordinate|
                s.registered(id) && s.entry(id).is_tracking() ==> (#[trigger] tracks(
                    back.entry(id).cache->Tracking_0,
                    c,
                ) <==> tracks(s.entry(id).cache->Tracking_0, c))
        }),
{
    let there = s.moved(a, b);
    let back = there.moved(b, a);
    let mover = s.occupant(a)->0;
    let target = s.occupant(b);
    lemma_moved_wf(s, a, b);
    lemma_moved_wf(there, b, a);
    assert(s.registered(mover));
    assert(there.occupant(b) == Some(mover));
    assert(there.occupant(a) == target);
    assert(back.voxels =~= s.voxels);
    assert forall|id: SpeciesID| #[trigger] s.registered(id) implies {
        &&& back.entry(id).species == s.entry(id).species
        &&& back.entry(id).location == s.entry(id).location
        &&& back.entry(id).is_tracking() == s.entry(id).is_tracking()
        &&& back.entry(id).occupants() == s.entry(id).occupants()
        &&& !(s.entry(id).is_tracking() && s.occupant(b) == Some(id)) ==> back.entry(id) == s.entry(
            id,
        )
    } by {
        lemma_round_trip_entry(s, a, b, id);
    }
    assert forall|id: SpeciesID, c: Coordinate|
        s.registered(id) && s.entry(id).is_tracking() implies (#[trigger] tracks(
        back.entry(id).cache->Tracking_0,
        c,
    ) <==> tracks(s.entry(id).cache->Tracking_0, c)) by {
        assert(back.registered(id));
        assert(back.entry(id).is_tracking());
        lemma_voxels_match_entries(s, id, c);
        lemma_voxels_match_entries(back, id, c);
    }
}

/// What the round trip makes of one entry.
proof fn lemma_round_trip_entry(s: LatticeView, a: Coordinate, b: Coordinate, id: SpeciesID)
    requires
        s.wf(),
        s.move_result(a, b) is Ok,
        s.moved(a, b).move_result(b, a) is Ok,
        s.registered(id),
    ensures
        ({
            let back = s.moved(a, b).moved(b, a);
            &&& back.entry(id).species == s.entry(id).species
            &&& back.entry(id).location == s.entry(id).location
            &&& back.entry(id).is_tracking() == s.entry(id).is_tracking()
            &&& back.entry(id).occupants() == s.entry(id).occupants()
            &&& !(s.entry(id).is_tracking() && s.occupant(b) == Some(id)) ==> back.entry(id)
                == s.entry(id)
        }),
{
    let there = s.moved(a, b);
    let back = there.moved(b, a);
    let mover = s.occupant(a)->0;
    let target = s.occupant(b);
    lemma_moved_wf(s, a, b);
    lemma_moved_wf(there, b, a);
    assert(s.registered(mover));
    assert(target matches Some(o) ==> s.registered(o));
    assert(there.occupant(b) == Some(mover));
    assert(there.occupant(a) == target);
    assert(agrees(s.entry(id), s.voxels, id));
    assert(agrees(s.entry(mover), s.voxels, mover));
    if id == mover && target != Some(mover) {
        match s.entry(mover).cache {
            TrackingView::Tracking(list) => {
                assert(tracks(list, a));
                lemma_first_at(list, a);
                let f = first_at(list, a);
                let turned = list.update(f, (list[f].0, b));
                assert(there.entry(mover).cache == TrackingView::Tracking(turned));
                assert(turned[f].1 == b);
                assert(tracks(turned, b));
                lemma_first_at(turned, b);
                assert(first_at(turned, b) == f) by {
                    let g = first_at(turned, b);
                    if g != f {
                        assert(list[g].1 == b);
                    }
                }
                assert(turned.update(f, (turned[f].0, a)) =~= list);
            },
            TrackingView::Count(n) => {},
        }
    } else if target == Some(id) {
        match s.entry(id).cache {
            TrackingView::Tracking(list) => {
                // The entry follows the mover where it is the mover's own,
                // gives up a pair at the destination and takes one at the
                // source; then the same the other way round.
                let turned = s.followed(a, b)[id.0 as int].cache->Tracking_0;
                assert(turned.len() == list.len()) by {
                    if id == mover {
                        assert(tracks(list, a));
                        lemma_first_at(list, a);
                    }
                }
                assert(tracks(turned, b));
                lemma_first_at(turned, b);
                let mid = there.entry(id).cache->Tracking_0;
                assert(mid == turned.remove(first_at(turned, b)).push((placeholder_id(), a)));
                assert(mid.len() == list.len());
                let again = there.followed(b, a)[id.0 as int].cache->Tracking_0;
                assert(again.len() == mid.len()) by {
                    if id == mover {
                        assert(agrees(there.entry(id), there.voxels, id));
                        assert(tracks(mid, b));
                        lemma_first_at(mid, b);
                    }
                }
                assert(tracks(again, a));
                lemma_first_at(again, a);
                let last = back.entry(id).cache->Tracking_0;
                assert(last == again.remove(first_at(again, a)).push((placeholder_id(), b)));
            },
            TrackingView::Count(n) => {
                lemma_assigned_update(s.voxels, b, Some(id), id);
                lemma_assigned_update(there.voxels, a, Some(id), id);
                assert(agrees(there.entry(id), there.voxels, id));
            },
        }
    } else {
        assert(there.entry(id) == s.entry(id));
        assert(back.entry(id) == there.entry(id));
    }
}

/// A coordinate outside the lattice is refused by every operation that
/// takes one, with the error that names it, and nothing changes. Where a
/// move is given two such coordinates, the error names the first.
pub proof fn lemma_out_of_range_rejected(
    s: LatticeView,
    c: Coordinate,
    other: Coordinate,
    id: SpeciesID,
)
    requires
        s.wf(),
        c.0 >= s.size.volume(),
    ensures
        s.species_at(c) == Err::<Option<SpeciesID>, Error>(Error::OutOfRange(c)),
        s.add_result(id, c) == Err::<(), Error>(Error::OutOfRange(c)),
        s.added(id, c) == s,
        s.remove_result(c) == Err::<(), Error>(Error::OutOfRange(c)),
        s.removed(c) == s,
        s.move_result(c, other) == Err::<(), Error>(Error::OutOfRange(c)),
        s.moved(c, other) == s,
        s.move_result(other, c) == Err::<(), Error>(
            Error::OutOfRange(
                if s.in_range(other) {
                    c
                } else {
                    other
                },
            ),
        ),
        s.moved(other, c) == s,
{
}

} // verus!
