use vstd::prelude::*;

use crate::group::is_grouping;
use crate::model::{CreateRigData, Rig, RigComponent, RigWithComponents};
use crate::store::{
    batch_error, has_rig, joined, lemma_new_rig_batch, request_error, select_by_ids, Catalog,
    StoreError,
};

verus! {

/// The component ids of a sequence of association rows, in order.
pub open spec fn component_ids_of(rows: Seq<RigComponent>) -> Seq<u128> {
    rows.map_values(|l: RigComponent| l.component_id)
}

/// Every stored rig with its components.
pub fn list(catalog: &Catalog) -> (r: Vec<RigWithComponents>)
    requires
        catalog.wf(),
    ensures
        is_grouping(r@, catalog.rigs_spec(), joined(catalog.links_spec(), catalog.components_spec())),
{
    catalog.list_rigs()
}

/// The component ids of `rows`, in order.
pub fn component_ids(rows: &Vec<RigComponent>) -> (r: Vec<u128>)
    ensures
        r@ == component_ids_of(rows@),
{
    let mut r: Vec<u128> = Vec::new();
    let mut i: usize = 0;
    while i < rows.len()
        invariant
            0 <= i <= rows.len(),
            r@ == component_ids_of(rows@.take(i as int)),
        decreases rows.len() - i,
    {
        r.push(rows[i].component_id);
        i = i + 1;
        assert(r@ =~= component_ids_of(rows@.take(i as int)));
    }
    assert(rows@.take(i as int) =~= rows@);
    r
}

/// Stores `rig`, then its association rows `rows` as a second, separate
/// write, and returns the rig with the stored components that the rows name.
/// The two writes share no transaction: where the second fails, the rig
/// stays stored without components and the error is returned.
pub fn store_rig(rig: Rig, rows: &Vec<RigComponent>, catalog: &mut Catalog) -> (r: Result<RigWithComponents, StoreError>)
    requires
        old(catalog).wf(),
    ensures
        final(catalog).wf(),
        final(catalog).components_spec() == old(catalog).components_spec(),
        has_rig(old(catalog).rigs_spec(), rig.id) ==> r == Err::<RigWithComponents, StoreError>(
            StoreError::UniqueViolation,
        ) && *final(catalog) == *old(catalog),
        !has_rig(old(catalog).rigs_spec(), rig.id) ==> {
            let rigs = old(catalog).rigs_spec().push(rig);
            let err = batch_error(old(catalog).links_spec(), rigs, old(catalog).components_spec(), rows@);
            &&& final(catalog).rigs_spec() == rigs
            &&& err matches Some(e) ==> r == Err::<RigWithComponents, StoreError>(e)
                && final(catalog).links_spec() == old(catalog).links_spec()
            &&& err is None ==> r is Ok && final(catalog).links_spec() == old(catalog).links_spec()
                + rows@
            &&& r matches Ok(v) ==> v.id == rig.id && v.name == rig.name && v.components@
                == select_by_ids(old(catalog).components_spec(), component_ids_of(rows@))
        },
{
    match catalog.create_rig(&rig) {
        Err(e) => { return Err(e); },
        Ok(_) => {},
    }
    match catalog.create_rig_components(rows) {
        Err(e) => { return Err(e); },
        Ok(_) => {},
    }
    let ids = component_ids(rows);
    let components = catalog.list_components_by_id(&ids);
    Ok(rig.with_components(components))
}

/// Stores a rig named after `data` under a newly generated id, with one
/// association row to each requested component, and returns it with the
/// stored components among those requested. On failure the catalog holds
/// either nothing new or, where only the associations were refused, the new
/// rig alone.
pub fn create(data: CreateRigData, catalog: &mut Catalog) -> (r: Result<RigWithComponents, StoreError>)
    requires
        old(catalog).wf(),
    ensures
        final(catalog).wf(),
        final(catalog).components_spec() == old(catalog).components_spec(),
        r matches Ok(v) ==> {
            let rigs = old(catalog).rigs_spec().push(Rig { id: v.id, name: data.name });
            &&& v.name == data.name
            &&& !has_rig(old(catalog).rigs_spec(), v.id)
            &&& final(catalog).rigs_spec() == rigs
            &&& final(catalog).links_spec() == old(catalog).links_spec() + crate::model::links_of(
                v.id,
                data.components@,
            )
            &&& v.components@ == select_by_ids(old(catalog).components_spec(), data.components@)
        },
        r is Ok ==> request_error(old(catalog).components_spec(), data.components@) is None,
        old(catalog).rigs_spec().len() == 0 && request_error(
            old(catalog).components_spec(),
            data.components@,
        ) is None ==> r is Ok,
        r is Err ==> final(catalog).links_spec() == old(catalog).links_spec(),
        r is Err ==> (r == Err::<RigWithComponents, StoreError>(StoreError::UniqueViolation)
            && *final(catalog) == *old(catalog) && old(catalog).rigs_spec().len() > 0) || (exists|
            id: u128,
        |
            !has_rig(old(catalog).rigs_spec(), id) && final(catalog).rigs_spec() == old(
                catalog,
            ).rigs_spec().push(Rig { id, name: data.name }))
            && Some(r->Err_0) == request_error(old(catalog).components_spec(), data.components@),
{
    let ghost name = data.name;
    let ghost ids = data.components@;
    let (rig, rows) = data.into_rig();
    proof {
        assert(component_ids_of(rows@) =~= ids);
    }
    let ghost made = rig;
    proof {
        if !has_rig(old(catalog).rigs_spec(), made.id) {
            lemma_new_rig_batch(
                old(catalog).links_spec(),
                old(catalog).rigs_spec(),
                old(catalog).components_spec(),
                made,
                ids,
            );
        }
    }
    let r = store_rig(rig, &rows, catalog);
    proof {
        if has_rig(old(catalog).rigs_spec(), made.id) {
            let k = choose|k: int| 0 <= k < old(catalog).rigs_spec().len() && (#[trigger] old(
                catalog,
            ).rigs_spec()[k]).id == made.id;
        }
    }
    r
}

} // verus!
