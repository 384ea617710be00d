//! What the browser side decides: the rig summaries it shows, and the rules
//! of the forms that create components and rigs.
use vstd::prelude::*;

use crate::model::{total_of, price_sum, Component, CreateRigData, RigWithComponents};
use crate::slot::{all_slots, slot_index, Slot};

verus! {

/// A component as the client receives it.
pub type ComponentData = Component;

/// A rig with its components as the client receives it.
pub type RigData = RigWithComponents;

/// A rig as the client shows it: with the total price of its components.
#[derive(Debug)]
pub struct Rig {
    pub id: u128,
    pub name: String,
    pub components: Vec<Component>,
    pub total_price: i128,
}

impl Rig {
    /// The rig of `data`, with the sum of its components' prices.
    pub fn from_data(data: RigData) -> (r: Rig)
        ensures
            r.id == data.id,
            r.name == data.name,
            r.components == data.components,
            r.total_price == price_sum(data.components@),
    {
        let total_price = total_of(&data.components);
        Rig { id: data.id, name: data.name, components: data.components, total_price }
    }
}

/// The rigs of `data`, in order, each with its total price.
pub fn rigs_from_data(data: Vec<RigData>) -> (r: Vec<Rig>)
    ensures
        r@.len() == data@.len(),
        forall|i: int|
            0 <= i < r@.len() ==> {
                &&& (#[trigger] r@[i]).id == data@[i].id
                &&& r@[i].name == data@[i].name
                &&& r@[i].components == data@[i].components
                &&& r@[i].total_price == price_sum(data@[i].components@)
            },
{
    let mut data = data;
    let ghost d0 = data@;
    let mut rev: Vec<Rig> = Vec::new();
    while data.len() > 0
        invariant
            data@ == d0.take(data@.len() as int),
            data@.len() + rev@.len() == d0.len(),
            forall|i: int|
                0 <= i < rev@.len() ==> {
                    let j = d0.len() - 1 - i;
                    &&& (#[trigger] rev@[i]).id == d0[j].id
                    &&& rev@[i].name == d0[j].name
                    &&& rev@[i].components == d0[j].components
                    &&& rev@[i].total_price == price_sum(d0[j].components@)
                },
        decreases data@.len(),
    {
        let ghost n = data@.len();
        let last = data.pop().unwrap();
        assert(last == d0[n - 1]);
        rev.push(Rig::from_data(last));
        assert(data@ =~= d0.take(data@.len() as int));
    }
    let mut r: Vec<Rig> = Vec::new();
    while rev.len() > 0
        invariant
            r@.len() + rev@.len() == d0.len(),
            forall|i: int|
                0 <= i < rev@.len() ==> {
                    let j = d0.len() - 1 - i;
                    &&& (#[trigger] rev@[i]).id == d0[j].id
                    &&& rev@[i].name == d0[j].name
                    &&& rev@[i].components == d0[j].components
                    &&& rev@[i].total_price == price_sum(d0[j].components@)
                },
            forall|i: int|
                0 <= i < r@.len() ==> {
                    &&& (#[trigger] r@[i]).id == d0[i].id
                    &&& r@[i].name == d0[i].name
                    &&& r@[i].components == d0[i].components
                    &&& r@[i].total_price == price_sum(d0[i].components@)
                },
        decreases rev@.len(),
    {
        let ghost before = rev@;
        let x = rev.pop().unwrap();
        assert(x == before[before.len() - 1]);
        assert(forall|i: int| 0 <= i < rev@.len() ==> rev@[i] == before[i]);
        r.push(x);
    }
    r
}

/// Where a form stands: whether it is shown, and whether a submission is
/// under way.
#[derive(Clone, Copy, Debug, PartialEq, Eq, Structural)]
pub struct FormStatus {
    pub open: bool,
    pub submitting: bool,
}

impl FormStatus {
    /// A form that is shown and idle.
    pub fn opened() -> (r: FormStatus)
        ensures
            r.open,
            !r.submitting,
    {
        FormStatus { open: true, submitting: false }
    }

    /// The form once a submission starts: still shown, now submitting.
    pub fn start(self) -> (r: FormStatus)
        ensures
            r.open == self.open,
            r.submitting,
    {
        FormStatus { open: self.open, submitting: true }
    }

    /// The form once the submission has answered: idle again; closed after
    /// a success, left open for a retry after a failure.
    pub fn finish(self, succeeded: bool) -> (r: FormStatus)
        ensures
            !r.submitting,
            r.open == (self.open && !succeeded),
    {
        FormStatus { open: self.open && !succeeded, submitting: false }
    }
}

/// Whether the form that creates a component may be submitted: nothing is
/// being submitted, manufacturer and model are not empty and a slot is chosen.
pub fn component_form_ready(manufacturer: &str, model: &str, slot: Option<Slot>, submitting: bool) -> (r: bool)
    ensures
        r == (!submitting && manufacturer@.len() > 0 && model@.len() > 0 && slot is Some),
{
    !submitting && manufacturer.unicode_len() > 0 && model.unicode_len() > 0 && slot.is_some()
}

/// The components of `cs` in the slot `s`, in order.
pub open spec fn in_slot(cs: Seq<Component>, s: Slot) -> Seq<Component>
    decreases cs.len(),
{
    if cs.len() == 0 {
        Seq::empty()
    } else if cs.last().slot == s {
        in_slot(cs.drop_last(), s).push(cs.last())
    } else {
        in_slot(cs.drop_last(), s)
    }
}

/// The price of the first component of `cs` with the id `id`; 0 where none has it.
pub open spec fn first_price(cs: Seq<Component>, id: u128) -> int
    decreases cs.len(),
{
    if cs.len() == 0 {
        0
    } else if cs[0].id == id {
        cs[0].price as int
    } else {
        first_price(cs.drop_first(), id)
    }
}

/// The price a selection adds: that of the selected component, 0 for none.
pub open spec fn chosen_price(cs: Seq<Component>, sel: Option<u128>) -> int {
    match sel {
        Some(id) => first_price(cs, id),
        None => 0,
    }
}

/// The total of the selections of the first `n` slots.
pub open spec fn selection_total(options: Seq<Seq<Component>>, selected: Seq<Option<u128>>, n: int) -> int
    decreases n,
{
    if n <= 0 {
        0
    } else {
        selection_total(options, selected, n - 1) + chosen_price(options[n - 1], selected[n - 1])
    }
}

/// Whether every slot has a selection.
pub open spec fn all_selected(selected: Seq<Option<u128>>) -> bool {
    forall|k: int| 0 <= k < selected.len() ==> (#[trigger] selected[k]) is Some
}

/// The selected ids, in slot order.
pub open spec fn selected_ids(selected: Seq<Option<u128>>) -> Seq<u128> {
    selected.map_values(|o: Option<u128>| o->Some_0)
}

/// The form that assembles a rig from one component per slot.
pub struct RigForm {
    name: String,
    options: Vec<Vec<Component>>,
    selected: Vec<Option<u128>>,
}

impl RigForm {
    /// The name typed so far.
    pub closed spec fn name_spec(&self) -> Seq<char> {
        self.name@
    }

    /// For each slot, in slot order, the components that may be chosen for it.
    pub closed spec fn options_spec(&self) -> Seq<Seq<Component>> {
        self.options@.map_values(|v: Vec<Component>| v@)
    }

    /// For each slot, in slot order, the id chosen for it, if any.
    pub closed spec fn selected_spec(&self) -> Seq<Option<u128>> {
        self.selected@
    }

    /// One list of options and one selection for each of the four slots.
    pub open spec fn wf(&self) -> bool {
        &&& self.options_spec().len() == 4
        &&& self.selected_spec().len() == 4
    }

    /// An empty form whose options are `components`, each under its slot.
    pub fn new(components: &Vec<Component>) -> (r: RigForm)
        ensures
            r.wf(),
            r.name_spec() == Seq::<char>::empty(),
            forall|k: int| 0 <= k < 4 ==> #[trigger] r.options_spec()[k] == in_slot(components@, all_slots()[k]),
            forall|k: int| 0 <= k < 4 ==> (#[trigger] r.selected_spec()[k]) is None,
    {
        let slots = Slot::variants();
        let mut options: Vec<Vec<Component>> = Vec::new();
        let mut selected: Vec<Option<u128>> = Vec::new();
        let mut k: usize = 0;
        while k < 4
            invariant
                slots@ == all_slots(),
                0 <= k <= 4,
                options@.len() == k,
                selected@.len() == k,
                forall|j: int| 0 <= j < k ==> (#[trigger] options@[j])@ == in_slot(components@, all_slots()[j]),
                forall|j: int| 0 <= j < k ==> (#[trigger] selected@[j]) is None,
            decreases 4 - k,
        {
            options.push(components_in_slot(components, slots[k]));
            selected.push(None);
            k = k + 1;
        }
        let r = RigForm { name: String::new(), options, selected };
        assert(r.name@ =~= Seq::<char>::empty());
        r
    }

    /// Sets the name.
    pub fn set_name(&mut self, name: String)
        ensures
            final(self).name_spec() == name@,
            final(self).options_spec() == old(self).options_spec(),
            final(self).selected_spec() == old(self).selected_spec(),
    {
        self.name = name;
    }

    /// Chooses `id` (or nothing) for the slot `slot`.
    pub fn select(&mut self, slot: Slot, id: Option<u128>)
        requires
            old(self).wf(),
        ensures
            final(self).wf(),
            final(self).selected_spec() == old(self).selected_spec().update(slot_index(slot), id),
            final(self).name_spec() == old(self).name_spec(),
            final(self).options_spec() == old(self).options_spec(),
    {
        let k = slot.index();
        self.selected.set(k, id);
    }

    /// The sum of the prices of the selected components; a selection that
    /// matches no option adds nothing.
    pub fn total_price(&self) -> (r: i64)
        requires
            self.wf(),
        ensures
            r == selection_total(self.options_spec(), self.selected_spec(), 4),
    {
        let mut sum: i64 = 0;
        let mut k: usize = 0;
        while k < 4
            invariant
                self.wf(),
                0 <= k <= 4,
                sum == selection_total(self.options_spec(), self.selected_spec(), k as int),
                -0x8000_0000 * k <= sum <= 0x7fff_ffff * k,
            decreases 4 - k,
        {
            assert(self.options_spec()[k as int] == self.options@[k as int]@);
            let p = match self.selected[k] {
                Some(id) => price_of_first(&self.options[k], id),
                None => 0,
            };
            sum = sum + p as i64;
            k = k + 1;
        }
        sum
    }

    /// Whether the form may be submitted: nothing is being submitted, the
    /// name is not empty and every slot has a selection.
    pub fn can_submit(&self, submitting: bool) -> (r: bool)
        ensures
            r == (!submitting && self.name_spec().len() > 0 && all_selected(self.selected_spec())),
    {
        !submitting && self.name.unicode_len() > 0 && self.is_complete()
    }

    /// Whether every slot has a selection.
    pub fn is_complete(&self) -> (r: bool)
        ensures
            r == all_selected(self.selected_spec()),
    {
        let mut k: usize = 0;
        while k < self.selected.len()
            invariant
                0 <= k <= self.selected.len(),
                forall|j: int| 0 <= j < k ==> (#[trigger] self.selected@[j]) is Some,
            decreases self.selected.len() - k,
        {
            if self.selected[k].is_none() {
                return false;
            }
            k = k + 1;
        }
        true
    }

    /// The request that creates the rig of this form: its name and the
    /// selected ids in slot order; nothing while a slot has no selection.
    pub fn to_request(&self) -> (r: Option<CreateRigData>)
        ensures
            r is Some <==> all_selected(self.selected_spec()),
            r matches Some(d) ==> d.name@ == self.name_spec() && d.components@ == selected_ids(
                self.selected_spec(),
            ),
    {
        let mut ids: Vec<u128> = Vec::new();
        let mut k: usize = 0;
        while k < self.selected.len()
            invariant
                0 <= k <= self.selected.len(),
                forall|j: int| 0 <= j < k ==> (#[trigger] self.selected@[j]) is Some,
                ids@ == selected_ids(self.selected@.take(k as int)),
            decreases self.selected.len() - k,
        {
            match self.selected[k] {
                Some(id) => ids.push(id),
                None => { return None; },
            }
            k = k + 1;
            assert(ids@ =~= selected_ids(self.selected@.take(k as int)));
        }
        assert(self.selected@.take(k as int) =~= self.selected@);
        Some(CreateRigData { name: self.name.clone(), components: ids })
    }

    /// Empties the name and every selection, keeping the options.
    pub fn reset(&mut self)
        requires
            old(self).wf(),
        ensures
            final(self).wf(),
            final(self).name_spec() == Seq::<char>::empty(),
            forall|k: int| 0 <= k < 4 ==> (#[trigger] final(self).selected_spec()[k]) is None,
            final(self).options_spec() == old(self).options_spec(),
    {
        self.name = String::new();
        let mut k: usize = 0;
        while k < 4
            invariant
                0 <= k <= 4,
                self.selected@.len() == 4,
                self.options == old(self).options,
                self.name@ == Seq::<char>::empty(),
                forall|j: int| 0 <= j < k ==> (#[trigger] self.selected@[j]) is None,
            decreases 4 - k,
        {
            self.selected.set(k, None);
            k = k + 1;
        }
    }
}

/// The components of `cs` in the slot `s`, in order.
pub fn components_in_slot(cs: &Vec<Component>, s: Slot) -> (r: Vec<Component>)
    ensures
        r@ == in_slot(cs@, s),
{
    let mut r: Vec<Component> = Vec::new();
    let mut i: usize = 0;
    while i < cs.len()
        invariant
            0 <= i <= cs.len(),
            r@ == in_slot(cs@.take(i as int), s),
        decreases cs.len() - i,
    {
        assert(cs@.take(i as int + 1).drop_last() =~= cs@.take(i as int));
        if cs[i].slot == s {
            r.push(cs[i].clone());
        }
        i = i + 1;
    }
    assert(cs@.take(i as int) =~= cs@);
    r
}

/// The price of the first component of `cs` with the id `id`; 0 where none has it.
pub fn price_of_first(cs: &Vec<Component>, id: u128) -> (r: i32)
    ensures
        r == first_price(cs@, id),
{
    let mut i: usize = 0;
    assert(cs@.subrange(0, cs@.len() as int) =~= cs@);
    while i < cs.len()
        invariant
            0 <= i <= cs.len(),
            first_price(cs@, id) == first_price(cs@.subrange(i as int, cs@.len() as int), id),
        decreases cs.len() - i,
    {
        let ghost rest = cs@.subrange(i as int, cs@.len() as int);
        assert(rest[0] == cs@[i as int]);
        if cs[i].id == id {
            return cs[i].price;
        }
        assert(rest.drop_first() =~= cs@.subrange(i as int + 1, cs@.len() as int));
        i = i + 1;
    }
    0
}

} // verus!
