use vstd::prelude::*;

use crate::id::fresh_uuid;
use crate::slot::Slot;

verus! {

/// A part that a rig can be built from.
#[derive(Debug)]
pub struct Component {
    pub id: u128,
    pub manufacturer: String,
    pub model: String,
    pub slot: Slot,
    pub price: i32,
}

impl Clone for Component {
    fn clone(&self) -> (r: Self)
        ensures
            r == *self,
    {
        Component {
            id: self.id,
            manufacturer: self.manufacturer.clone(),
            model: self.model.clone(),
            slot: self.slot,
            price: self.price,
        }
    }
}

/// The fields a caller gives to create a component; the id is not among them.
#[derive(Debug)]
pub struct CreateComponentData {
    pub manufacturer: String,
    pub model: String,
    pub slot: Slot,
    pub price: i32,
}

/// A named build, without its components.
#[derive(Debug)]
pub struct Rig {
    pub id: u128,
    pub name: String,
}

impl Clone for Rig {
    fn clone(&self) -> (r: Self)
        ensures
            r == *self,
    {
        Rig { id: self.id, name: self.name.clone() }
    }
}

/// One association row: the rig `rig_id` includes the component `component_id`.
#[derive(Clone, Copy, Debug, PartialEq, Eq, Structural)]
pub struct RigComponent {
    pub rig_id: u128,
    pub component_id: u128,
}

/// What a caller gives to create a rig: its name and the ids of its components.
#[derive(Debug)]
pub struct CreateRigData {
    pub name: String,
    pub components: Vec<u128>,
}

/// A rig together with the components associated with it.
#[derive(Debug)]
pub struct RigWithComponents {
    pub id: u128,
    pub name: String,
    pub components: Vec<Component>,
}

/// The sum of the prices of a sequence of components.
pub open spec fn price_sum(cs: Seq<Component>) -> int
    decreases cs.len(),
{
    if cs.len() == 0 {
        0
    } else {
        price_sum(cs.drop_last()) + cs.last().price
    }
}

/// The association rows that link `rig_id` to each of `ids`, in order.
pub open spec fn links_of(rig_id: u128, ids: Seq<u128>) -> Seq<RigComponent> {
    ids.map_values(|c: u128| RigComponent { rig_id, component_id: c })
}

impl Component {
    /// A component with the given fields and a newly generated id.
    pub fn new(manufacturer: String, model: String, slot: Slot, price: i32) -> (r: Component)
        ensures
            r.manufacturer == manufacturer,
            r.model == model,
            r.slot == slot,
            r.price == price,
    {
        Component { id: fresh_uuid(), manufacturer, model, slot, price }
    }
}

impl CreateComponentData {
    /// The component these fields describe, under a newly generated id.
    pub fn into_component(self) -> (r: Component)
        ensures
            r.manufacturer == self.manufacturer,
            r.model == self.model,
            r.slot == self.slot,
            r.price == self.price,
    {
        Component::new(self.manufacturer, self.model, self.slot, self.price)
    }
}

impl Rig {
    /// A rig with the given name and a newly generated id.
    pub fn new(name: String) -> (r: Rig)
        ensures
            r.name == name,
    {
        Rig { id: fresh_uuid(), name }
    }

    /// This rig with the given components attached.
    pub fn with_components(self, components: Vec<Component>) -> (r: RigWithComponents)
        ensures
            r.id == self.id,
            r.name == self.name,
            r.components == components,
    {
        RigWithComponents { id: self.id, name: self.name, components }
    }
}

impl CreateRigData {
    /// A new rig of this name, and one association row from it to each
    /// requested component, in the order requested.
    pub fn into_rig(self) -> (r: (Rig, Vec<RigComponent>))
        ensures
            r.0.name == self.name,
            r.1@ == links_of(r.0.id, self.components@),
    {
        let rig = Rig::new(self.name);
        let mut links: Vec<RigComponent> = Vec::new();
        let mut i: usize = 0;
        while i < self.components.len()
            invariant
                0 <= i <= self.components.len(),
                links@ == links_of(rig.id, self.components@.take(i as int)),
            decreases self.components.len() - i,
        {
            links.push(RigComponent { rig_id: rig.id, component_id: self.components[i] });
            i = i + 1;
            assert(links@ =~= links_of(rig.id, self.components@.take(i as int)));
        }
        assert(self.components@.take(i as int) =~= self.components@);
        (rig, links)
    }
}

impl RigWithComponents {
    /// The rig and its components, apart.
    pub fn into_parts(self) -> (r: (Rig, Vec<Component>))
        ensures
            r.0.id == self.id,
            r.0.name == self.name,
            r.1 == self.components,
    {
        (Rig { id: self.id, name: self.name }, self.components)
    }

    /// The sum of the prices of the rig's components; 0 for none.
    pub fn total_price(&self) -> (r: i128)
        ensures
            r == price_sum(self.components@),
    {
        total_of(&self.components)
    }
}

/// The sum of the prices of `cs`; 0 for none.
pub fn total_of(cs: &Vec<Component>) -> (r: i128)
    ensures
        r == price_sum(cs@),
{
    let mut sum: i128 = 0;
    let mut i: usize = 0;
    while i < cs.len()
        invariant
            0 <= i <= cs.len(),
            sum == price_sum(cs@.take(i as int)),
            -0x8000_0000 * i <= sum <= 0x7fff_ffff * i,
        decreases cs.len() - i,
    {
        assert(cs@.take(i as int + 1).drop_last() =~= cs@.take(i as int));
        proof {
            let k = i as int;
            assert(0x7fff_ffff * (k + 1) <= 0x7fff_ffff * 0x1_0000_0000_0000_0000) by (nonlinear_arith)
                requires
                    k < 0x1_0000_0000_0000_0000,
            ;
            assert(-0x8000_0000 * (k + 1) >= -0x8000_0000 * 0x1_0000_0000_0000_0000) by (nonlinear_arith)
                requires
                    k < 0x1_0000_0000_0000_0000,
            ;
        }
        sum = sum + cs[i].price as i128;
        i = i + 1;
    }
    assert(cs@.take(i as int) =~= cs@);
    sum
}

} // verus!
