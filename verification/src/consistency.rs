//! How the agreement between one species entry and the voxel array fares
//! under the steps that the store's operations are made of.

use crate::model::agrees;
use crate::model::assigned;
use crate::model::occupant_at;
use crate::species::first_at;
use crate::species::lemma_first_at;
use crate::species::placeholder_id;
use crate::species::tracks;
use crate::species::SpeciesCacheView;
use crate::species::TrackingView;
use crate::types::Coordinate;
use crate::types::SpeciesID;
use vstd::prelude::*;

verus! {

/// Writing `x` into one slot changes the number of voxels assigned to a
/// species by what leaves the slot and what enters it.
pub proof fn lemma_assigned_update(
    voxels: Seq<Option<SpeciesID>>,
    c: Coordinate,
    x: Option<SpeciesID>,
    id: SpeciesID,
)
    requires
        c.0 < voxels.len(),
    ensures
        assigned(voxels, id) >= (if occupant_at(voxels, c) == Some(id) {
            1nat
        } else {
            0nat
        }),
        assigned(voxels.update(c.0 as int, x), id) == assigned(voxels, id) - (if occupant_at(
            voxels,
            c,
        ) == Some(id) {
            1nat
        } else {
            0nat
        }) + (if x == Some(id) {
            1nat
        } else {
            0nat
        }),
        assigned(voxels, id) <= voxels.len(),
{
    broadcast use {
        vstd::multiset::group_multiset_axioms,
        vstd::seq_lib::to_multiset_update,
        vstd::seq_lib::to_multiset_contains,
        vstd::seq_lib::to_multiset_len,
    };

    assert(voxels.contains(voxels[c.0 as int]));
    assert(voxels.to_multiset().len() == voxels.len());
    assert(voxels.update(c.0 as int, x).to_multiset() == voxels.to_multiset().insert(x).remove(
        voxels[c.0 as int],
    ));
}

/// An entry still agrees after a slot that does not belong to its species
/// has been overwritten with something that is not its species either.
pub proof fn lemma_agrees_elsewhere(
    entry: SpeciesCacheView,
    voxels: Seq<Option<SpeciesID>>,
    id: SpeciesID,
    c: Coordinate,
    x: Option<SpeciesID>,
)
    requires
        agrees(entry, voxels, id),
        c.0 < voxels.len(),
        occupant_at(voxels, c) != Some(id),
        x != Some(id),
    ensures
        agrees(entry, voxels.update(c.0 as int, x), id),
{
    let after = voxels.update(c.0 as int, x);
    match entry.cache {
        TrackingView::Tracking(list) => {
            assert forall|d: Coordinate|
                d.0 < after.len() && #[trigger] occupant_at(after, d) == Some(id) implies tracks(
                list,
                d,
            ) by {
                assert(occupant_at(voxels, d) == Some(id));
            }
        },
        TrackingView::Count(n) => {
            lemma_assigned_update(voxels, c, x, id);
        },
    }
}

/// Placing a particle of the entry's species on a voxel that did not belong
/// to it, and recording it in the entry, keeps the two in agreement. A
/// counting entry stays below the number of voxels until then.
pub proof fn lemma_agrees_add(
    entry: SpeciesCacheView,
    voxels: Seq<Option<SpeciesID>>,
    id: SpeciesID,
    c: Coordinate,
)
    requires
        agrees(entry, voxels, id),
        c.0 < voxels.len(),
        occupant_at(voxels, c) != Some(id),
    ensures
        agrees(entry.add(c), voxels.update(c.0 as int, Some(id)), id),
        entry.cache matches TrackingView::Count(n) ==> n < voxels.len(),
{
    let after = voxels.update(c.0 as int, Some(id));
    match entry.cache {
        TrackingView::Tracking(list) => {
            let grown = list.push((placeholder_id(), c));
            assert forall|d: Coordinate|
                d.0 < after.len() && #[trigger] occupant_at(after, d) == Some(id) implies tracks(
                grown,
                d,
            ) by {
                if d == c {
                    assert(grown[list.len() as int].1 == d);
                } else {
                    assert(occupant_at(voxels, d) == Some(id));
                    let j = choose|j: int| 0 <= j < list.len() && (#[trigger] list[j]).1 == d;
                    assert(grown[j].1 == d);
                }
            }
        },
        TrackingView::Count(n) => {
            lemma_assigned_update(voxels, c, Some(id), id);
            lemma_assigned_update(after, c, Some(id), id);
        },
    }
}

/// A voxel that belongs to the entry's species is recorded in the entry; and
/// once it is handed to something else and taken out of the entry, the two
/// still agree.
pub proof fn lemma_agrees_remove(
    entry: SpeciesCacheView,
    voxels: Seq<Option<SpeciesID>>,
    id: SpeciesID,
    c: Coordinate,
    x: Option<SpeciesID>,
)
    requires
        agrees(entry, voxels, id),
        c.0 < voxels.len(),
        occupant_at(voxels, c) == Some(id),
        x != Some(id),
    ensures
        entry.can_remove(c),
        agrees(entry.remove(c), voxels.update(c.0 as int, x), id),
{
    let after = voxels.update(c.0 as int, x);
    match entry.cache {
        TrackingView::Tracking(list) => {
            lemma_first_at(list, c);
            let f = first_at(list, c);
            let rest = list.remove(f);
            assert forall|k: int| 0 <= k < rest.len() implies (#[trigger] rest[k]).1 != c
                && exists|j: int| 0 <= j < list.len() && j != f && list[j] == rest[k] by {
                let j = if k < f {
                    k
                } else {
                    k + 1
                };
                assert(list[j] == rest[k]);
            }
            assert forall|d: Coordinate|
                d.0 < after.len() && #[trigger] occupant_at(after, d) == Some(id) implies tracks(
                rest,
                d,
            ) by {
                assert(occupant_at(voxels, d) == Some(id));
                let j = choose|j: int| 0 <= j < list.len() && (#[trigger] list[j]).1 == d;
                let k = if j < f {
                    j
                } else {
                    j - 1
                };
                assert(rest[k].1 == d);
            }
        },
        TrackingView::Count(n) => {
            lemma_assigned_update(voxels, c, x, id);
        },
    }
}

/// Moving a particle of the entry's species onto a voxel that did not belong
/// to it, while the voxel it leaves goes to something else, keeps the entry
/// in agreement once it has followed the particle.
pub proof fn lemma_agrees_move(
    entry: SpeciesCacheView,
    voxels: Seq<Option<SpeciesID>>,
    id: SpeciesID,
    from: Coordinate,
    to: Coordinate,
    x: Option<SpeciesID>,
)
    requires
        agrees(entry, voxels, id),
        from.0 < voxels.len(),
        to.0 < voxels.len(),
        occupant_at(voxels, from) == Some(id),
        occupant_at(voxels, to) != Some(id),
        x != Some(id),
    ensures
        agrees(
            entry.move_to(from, to),
            voxels.update(from.0 as int, x).update(to.0 as int, Some(id)),
            id,
        ),
{
    let left = voxels.update(from.0 as int, x);
    let after = left.update(to.0 as int, Some(id));
    match entry.cache {
        TrackingView::Tracking(list) => {
            lemma_first_at(list, from);
            let f = first_at(list, from);
            let turned = list.update(f, (list[f].0, to));
            assert forall|d: Coordinate|
                d.0 < after.len() && #[trigger] occupant_at(after, d) == Some(id) implies tracks(
                turned,
                d,
            ) by {
                if d == to {
                    assert(turned[f].1 == d);
                } else {
                    assert(occupant_at(voxels, d) == Some(id));
                    let j = choose|j: int| 0 <= j < list.len() && (#[trigger] list[j]).1 == d;
                    assert(turned[j].1 == d);
                }
            }
        },
        TrackingView::Count(n) => {
            lemma_assigned_update(voxels, from, x, id);
            lemma_assigned_update(left, to, Some(id), id);
        },
    }
}

/// A species that is its own substrate: when one of its particles moves
/// onto a voxel of the same species, the entry follows the mover, gives up
/// its first pair at the destination and records a new occupant at the
/// source. The voxel array is as before, and the entry still agrees with it.
pub proof fn lemma_agrees_trade(
    entry: SpeciesCacheView,
    voxels: Seq<Option<SpeciesID>>,
    id: SpeciesID,
    from: Coordinate,
    to: Coordinate,
)
    requires
        agrees(entry, voxels, id),
        from.0 < voxels.len(),
        to.0 < voxels.len(),
        occupant_at(voxels, from) == Some(id),
        occupant_at(voxels, to) == Some(id),
    ensures
        entry.move_to(from, to).can_remove(to),
        agrees(entry.move_to(from, to).remove(to).add(from), voxels, id),
{
    match entry.cache {
        TrackingView::Tracking(list) => {
            lemma_first_at(list, from);
            lemma_first_at(list, to);
            let f = first_at(list, from);
            let t = first_at(list, to);
            let turned = list.update(f, (list[f].0, to));
            assert(turned[f].1 == to);
            lemma_first_at(turned, to);
            let g = first_at(turned, to);
            assert(g == f || g == t) by {
                if g != f {
                    assert(list[g].1 == to);
                }
            }
            let rest = turned.remove(g);
            let grown = rest.push((placeholder_id(), from));
            // Every pair that is left comes from the old list and sits
            // neither at the source nor, but for one, at the destination.
            assert forall|k: int| 0 <= k < rest.len() implies (#[trigger] rest[k]).1 != from || from
                == to by {
                let j = if k < g {
                    k
                } else {
                    k + 1
                };
                assert(turned[j] == rest[k]);
                if j != f {
                    assert(list[j] == turned[j]);
                }
            }
            assert forall|i: int| 0 <= i < grown.len() implies (#[trigger] grown[i]).1.0
                < voxels.len() && occupant_at(voxels, grown[i].1) == Some(id) by {
                if i < rest.len() {
                    let j = if i < g {
                        i
                    } else {
                        i + 1
                    };
                    assert(turned[j] == rest[i]);
                    if j != f {
                        assert(list[j] == turned[j]);
                    }
                }
            }
            assert forall|i: int, k: int| 0 <= i < k < grown.len() implies (#[trigger] grown[i]).1
                != (#[trigger] grown[k]).1 by {
                let a = if i < g {
                    i
                } else {
                    i + 1
                };
                assert(turned[a] == rest[i]);
                if k < rest.len() {
                    let b = if k < g {
                        k
                    } else {
                        k + 1
                    };
                    assert(turned[b] == rest[k]);
                    if a != f {
                        assert(list[a] == turned[a]);
                    }
                    if b != f {
                        assert(list[b] == turned[b]);
                    }
                    if a == f {
                        assert(list[b].1 != to) by {
                            if list[b].1 == to {
                                assert(b == t);
                            }
                        }
                    }
                    if b == f {
                        assert(list[a].1 != to) by {
                            if list[a].1 == to {
                                assert(a == t);
                            }
                        }
                    }
                } else {
                    if a != f {
                        assert(list[a] == turned[a]);
                        assert(list[a].1 != from);
                    } else {
                        // The mover's pair survived, so the pair taken out
                        // was another one at the destination.
                        assert(g == t && t != f);
                    }
                }
            }
            assert forall|d: Coordinate|
                d.0 < voxels.len() && #[trigger] occupant_at(voxels, d) == Some(id) implies tracks(
                grown,
                d,
            ) by {
                if d == from {
                    assert(grown[rest.len() as int].1 == d);
                } else {
                    let j = if d == to {
                        if g == f {
                            t
                        } else {
                            f
                        }
                    } else {
                        choose|j: int| 0 <= j < list.len() && (#[trigger] list[j]).1 == d
                    };
                    assert(turned[j].1 == d);
                    assert(j != g);
                    let k = if j < g {
                        j
                    } else {
                        j - 1
                    };
                    assert(rest[k] == turned[j]);
                    assert(grown[k].1 == d);
                }
            }
        },
        TrackingView::Count(n) => {
            lemma_assigned_update(voxels, to, Some(id), id);
        },
    }
}

} // verus!
