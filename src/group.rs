use vstd::prelude::*;

use crate::model::{Component, Rig, RigComponent, RigWithComponents};

verus! {

/// The components of the rows that belong to `rig_id`, in the order of the rows.
pub open spec fn grouped_for(rows: Seq<(RigComponent, Component)>, rig_id: u128) -> Seq<Component>
    decreases rows.len(),
{
    if rows.len() == 0 {
        Seq::empty()
    } else {
        let rest = grouped_for(rows.drop_last(), rig_id);
        if rows.last().0.rig_id == rig_id {
            rest.push(rows.last().1)
        } else {
            rest
        }
    }
}

/// How many rows belong to `rig_id`.
pub open spec fn rows_for_count(rows: Seq<(RigComponent, Component)>, rig_id: u128) -> nat
    decreases rows.len(),
{
    if rows.len() == 0 {
        0
    } else {
        rows_for_count(rows.drop_last(), rig_id) + if rows.last().0.rig_id == rig_id {
            1nat
        } else {
            0nat
        }
    }
}

/// Whether `r` is `rigs`, each with the components of its rows attached.
pub open spec fn is_grouping(
    r: Seq<RigWithComponents>,
    rigs: Seq<Rig>,
    rows: Seq<(RigComponent, Component)>,
) -> bool {
    &&& r.len() == rigs.len()
    &&& forall|i: int|
        0 <= i < rigs.len() ==> {
            &&& (#[trigger] r[i]).id == rigs[i].id
            &&& r[i].name == rigs[i].name
            &&& r[i].components@ == grouped_for(rows, rigs[i].id)
        }
}

/// The components of the rows that belong to `rig_id`, in the order of the rows.
pub fn components_for(rows: &Vec<(RigComponent, Component)>, rig_id: u128) -> (r: Vec<Component>)
    ensures
        r@ == grouped_for(rows@, rig_id),
{
    let mut r: Vec<Component> = Vec::new();
    let mut i: usize = 0;
    while i < rows.len()
        invariant
            0 <= i <= rows.len(),
            r@ == grouped_for(rows@.take(i as int), rig_id),
        decreases rows.len() - i,
    {
        assert(rows@.take(i as int + 1).drop_last() =~= rows@.take(i as int));
        if rows[i].0.rig_id == rig_id {
            r.push(rows[i].1.clone());
        }
        i = i + 1;
    }
    assert(rows@.take(i as int) =~= rows@);
    r
}

/// Each rig with the components of the joined rows that belong to it, in the
/// order of `rigs`; a rig that no row names gets an empty list.
pub fn group_by_rig(rigs: Vec<Rig>, rows: &Vec<(RigComponent, Component)>) -> (r: Vec<RigWithComponents>)
    ensures
        is_grouping(r@, rigs@, rows@),
{
    let mut r: Vec<RigWithComponents> = Vec::new();
    let mut i: usize = 0;
    while i < rigs.len()
        invariant
            0 <= i <= rigs.len(),
            is_grouping(r@, rigs@.take(i as int), rows@),
        decreases rigs.len() - i,
    {
        let rig = rigs[i].clone();
        let components = components_for(rows, rig.id);
        r.push(rig.with_components(components));
        i = i + 1;
        assert(is_grouping(r@, rigs@.take(i as int), rows@));
    }
    assert(rigs@.take(i as int) =~= rigs@);
    r
}

/// A rig has as many components as rows that name it.
pub proof fn lemma_grouped_len(rows: Seq<(RigComponent, Component)>, rig_id: u128)
    ensures
        grouped_for(rows, rig_id).len() == rows_for_count(rows, rig_id),
    decreases rows.len(),
{
    if rows.len() > 0 {
        lemma_grouped_len(rows.drop_last(), rig_id);
    }
}

/// A rig that no row names has no components.
pub proof fn lemma_grouped_empty(rows: Seq<(RigComponent, Component)>, rig_id: u128)
    requires
        forall|i: int| 0 <= i < rows.len() ==> (#[trigger] rows[i]).0.rig_id != rig_id,
    ensures
        grouped_for(rows, rig_id) == Seq::<Component>::empty(),
    decreases rows.len(),
{
    if rows.len() > 0 {
        assert(rows.last() == rows[rows.len() - 1]);
        lemma_grouped_empty(rows.drop_last(), rig_id);
    }
}

} // verus!
