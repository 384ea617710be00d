use vstd::prelude::*;

use crate::group::{group_by_rig, grouped_for, is_grouping, lemma_grouped_empty};
use crate::model::{links_of, Component, Rig, RigComponent, RigWithComponents};

verus! {

/// Why the store refused a read or a write.
#[derive(Clone, Copy, Debug, PartialEq, Eq, Structural)]
pub enum StoreError {
    /// No row has the requested key.
    NotFound,
    /// A row with the same key is already stored, or is written twice.
    UniqueViolation,
    /// A row refers to a rig or a component that is not stored.
    ForeignKeyViolation,
}

impl StoreError {
    /// A short text that names the error.
    pub fn describe(&self) -> (r: String)
        ensures
            r@.len() > 0,
    {
        match self {
            StoreError::NotFound => {
                proof { reveal_strlit("row not found"); }
                String::from_str("row not found")
            },
            StoreError::UniqueViolation => {
                proof { reveal_strlit("duplicate key value violates unique constraint"); }
                String::from_str("duplicate key value violates unique constraint")
            },
            StoreError::ForeignKeyViolation => {
                proof { reveal_strlit("insert violates foreign key constraint"); }
                String::from_str("insert violates foreign key constraint")
            },
        }
    }
}

/// Whether some component in `cs` has the id `id`.
pub open spec fn has_component(cs: Seq<Component>, id: u128) -> bool {
    exists|i: int| 0 <= i < cs.len() && (#[trigger] cs[i]).id == id
}

/// Whether some rig in `rs` has the id `id`.
pub open spec fn has_rig(rs: Seq<Rig>, id: u128) -> bool {
    exists|i: int| 0 <= i < rs.len() && (#[trigger] rs[i]).id == id
}

/// The component of `cs` with the id `id` (one is chosen where ids repeat).
pub open spec fn component_by_id(cs: Seq<Component>, id: u128) -> Component {
    cs[choose|i: int| 0 <= i < cs.len() && (#[trigger] cs[i]).id == id]
}

/// No two components share an id.
pub open spec fn component_ids_unique(cs: Seq<Component>) -> bool {
    forall|i: int, j: int| 0 <= i < j < cs.len() ==> (#[trigger] cs[i]).id != (#[trigger] cs[j]).id
}

/// No two rigs share an id.
pub open spec fn rig_ids_unique(rs: Seq<Rig>) -> bool {
    forall|i: int, j: int| 0 <= i < j < rs.len() ==> (#[trigger] rs[i]).id != (#[trigger] rs[j]).id
}

/// No association row is stored twice.
pub open spec fn links_unique(ls: Seq<RigComponent>) -> bool {
    forall|i: int, j: int| 0 <= i < j < ls.len() ==> ls[i] != ls[j]
}

/// Every association row refers to a stored rig and a stored component.
pub open spec fn links_resolve(ls: Seq<RigComponent>, rs: Seq<Rig>, cs: Seq<Component>) -> bool {
    forall|i: int|
        0 <= i < ls.len() ==> has_rig(rs, (#[trigger] ls[i]).rig_id) && has_component(
            cs,
            ls[i].component_id,
        )
}

/// The association rows joined with the components they name, in row order.
pub open spec fn joined(ls: Seq<RigComponent>, cs: Seq<Component>) -> Seq<(RigComponent, Component)> {
    ls.map_values(|l: RigComponent| (l, component_by_id(cs, l.component_id)))
}

/// The components associated with the rig `rig_id`, in the order the
/// association rows were written.
pub open spec fn components_of_rig(ls: Seq<RigComponent>, cs: Seq<Component>, rig_id: u128) -> Seq<Component> {
    grouped_for(joined(ls, cs), rig_id)
}

/// The components of `cs` whose ids are among `ids`, in the order of `cs`.
pub open spec fn select_by_ids(cs: Seq<Component>, ids: Seq<u128>) -> Seq<Component>
    decreases cs.len(),
{
    if cs.len() == 0 {
        Seq::empty()
    } else {
        let rest = select_by_ids(cs.drop_last(), ids);
        if ids.contains(cs.last().id) {
            rest.push(cs.last())
        } else {
            rest
        }
    }
}

/// Whether the row `rows[i]` is already stored or is written earlier in the batch.
pub open spec fn duplicate_row(ls: Seq<RigComponent>, rows: Seq<RigComponent>, i: int) -> bool {
    ls.contains(rows[i]) || exists|j: int| 0 <= j < i && rows[j] == rows[i]
}

/// Whether the row `row` refers to a rig or a component that is not stored.
pub open spec fn dangling_row(rs: Seq<Rig>, cs: Seq<Component>, row: RigComponent) -> bool {
    !has_rig(rs, row.rig_id) || !has_component(cs, row.component_id)
}

/// The outcome of writing the batch `rows`: a unique violation where one row
/// repeats a stored row or an earlier row of the batch; else a foreign key
/// violation where one row refers to something missing; else success.
pub open spec fn batch_error(
    ls: Seq<RigComponent>,
    rs: Seq<Rig>,
    cs: Seq<Component>,
    rows: Seq<RigComponent>,
) -> Option<StoreError> {
    if exists|i: int| 0 <= i < rows.len() && #[trigger] duplicate_row(ls, rows, i) {
        Some(StoreError::UniqueViolation)
    } else if exists|i: int| 0 <= i < rows.len() && dangling_row(rs, cs, #[trigger] rows[i]) {
        Some(StoreError::ForeignKeyViolation)
    } else {
        None
    }
}

/// Why a new rig that asks for the components `ids` is refused, whatever id
/// the rig has: a unique violation where an id repeats, else a foreign key
/// violation where an id names no stored component, else nothing.
pub open spec fn request_error(cs: Seq<Component>, ids: Seq<u128>) -> Option<StoreError> {
    if exists|i: int, j: int| 0 <= i < j < ids.len() && #[trigger] ids[i] == #[trigger] ids[j] {
        Some(StoreError::UniqueViolation)
    } else if exists|i: int| 0 <= i < ids.len() && !has_component(cs, #[trigger] ids[i]) {
        Some(StoreError::ForeignKeyViolation)
    } else {
        None
    }
}

/// Writing the association rows of a rig whose id no stored rig had, just
/// after that rig, fails exactly when the requested ids repeat or name a
/// missing component: no stored row can clash with the new rig's rows.
pub proof fn lemma_new_rig_batch(
    ls: Seq<RigComponent>,
    rs: Seq<Rig>,
    cs: Seq<Component>,
    rig: Rig,
    ids: Seq<u128>,
)
    requires
        links_resolve(ls, rs, cs),
        !has_rig(rs, rig.id),
    ensures
        batch_error(ls, rs.push(rig), cs, links_of(rig.id, ids)) == request_error(cs, ids),
{
    let rows = links_of(rig.id, ids);
    let rs2 = rs.push(rig);
    assert(rs2[rs.len() as int].id == rig.id);
    assert(has_rig(rs2, rig.id));
    assert forall|i: int| 0 <= i < rows.len() implies (#[trigger] duplicate_row(ls, rows, i)) <==> exists|
        j: int,
    | 0 <= j < i && ids[j] == ids[i] by {
        if ls.contains(rows[i]) {
            let k = choose|k: int| 0 <= k < ls.len() && ls[k] == rows[i];
            assert(has_rig(rs, ls[k].rig_id));
        }
        if exists|j: int| 0 <= j < i && rows[j] == rows[i] {
            let j = choose|j: int| 0 <= j < i && rows[j] == rows[i];
            assert(ids[j] == rows[j].component_id);
        }
        if exists|j: int| 0 <= j < i && ids[j] == ids[i] {
            let j = choose|j: int| 0 <= j < i && ids[j] == ids[i];
            assert(rows[j] == rows[i]);
        }
    }
    assert forall|i: int| 0 <= i < rows.len() implies dangling_row(rs2, cs, #[trigger] rows[i]) <==> !has_component(
        cs,
        ids[i],
    ) by {
        assert(rows[i].rig_id == rig.id);
    }
    if exists|i: int, j: int| 0 <= i < j < ids.len() && #[trigger] ids[i] == #[trigger] ids[j] {
        let (i, j) = choose|i: int, j: int| 0 <= i < j < ids.len() && #[trigger] ids[i] == #[trigger] ids[j];
        assert(duplicate_row(ls, rows, j));
    } else {
        assert forall|i: int| 0 <= i < rows.len() implies !#[trigger] duplicate_row(ls, rows, i) by {
            if exists|j: int| 0 <= j < i && ids[j] == ids[i] {
                let j = choose|j: int| 0 <= j < i && ids[j] == ids[i];
                assert(ids[j] == ids[i]);
            }
        }
        if exists|i: int| 0 <= i < ids.len() && !has_component(cs, #[trigger] ids[i]) {
            let i = choose|i: int| 0 <= i < ids.len() && !has_component(cs, #[trigger] ids[i]);
            assert(dangling_row(rs2, cs, rows[i]));
        } else {
            assert forall|i: int| 0 <= i < rows.len() implies !dangling_row(rs2, cs, #[trigger] rows[i]) by {
                assert(has_component(cs, ids[i]));
            }
        }
    }
}

/// The stored components, rigs and associations between them.
pub struct Catalog {
    components: Vec<Component>,
    rigs: Vec<Rig>,
    links: Vec<RigComponent>,
}

impl Catalog {
    /// The stored components, in the order they were written.
    pub closed spec fn components_spec(&self) -> Seq<Component> {
        self.components@
    }

    /// The stored rigs, in the order they were written.
    pub closed spec fn rigs_spec(&self) -> Seq<Rig> {
        self.rigs@
    }

    /// The stored association rows, in the order they were written.
    pub closed spec fn links_spec(&self) -> Seq<RigComponent> {
        self.links@
    }

    /// Keys are unique and every association row resolves.
    pub open spec fn wf(&self) -> bool {
        &&& component_ids_unique(self.components_spec())
        &&& rig_ids_unique(self.rigs_spec())
        &&& links_unique(self.links_spec())
        &&& links_resolve(self.links_spec(), self.rigs_spec(), self.components_spec())
    }

    /// An empty catalog.
    pub fn new() -> (r: Catalog)
        ensures
            r.wf(),
            r.components_spec() == Seq::<Component>::empty(),
            r.rigs_spec() == Seq::<Rig>::empty(),
            r.links_spec() == Seq::<RigComponent>::empty(),
    {
        let r = Catalog { components: Vec::new(), rigs: Vec::new(), links: Vec::new() };
        assert(r.components@ =~= Seq::<Component>::empty());
        r
    }

    /// The index of the component with the id `id`, if one is stored.
    fn find_component(&self, id: u128) -> (r: Option<usize>)
        ensures
            r matches Some(i) ==> i < self.components@.len() && self.components@[i as int].id == id,
            r is None ==> !has_component(self.components@, id),
    {
        let mut i: usize = 0;
        while i < self.components.len()
            invariant
                0 <= i <= self.components.len(),
                forall|j: int| 0 <= j < i ==> (#[trigger] self.components@[j]).id != id,
            decreases self.components.len() - i,
        {
            if self.components[i].id == id {
                return Some(i);
            }
            i = i + 1;
        }
        None
    }

    /// Whether a rig with the id `id` is stored.
    fn contains_rig(&self, id: u128) -> (r: bool)
        ensures
            r == has_rig(self.rigs@, id),
    {
        let mut i: usize = 0;
        while i < self.rigs.len()
            invariant
                0 <= i <= self.rigs.len(),
                forall|j: int| 0 <= j < i ==> (#[trigger] self.rigs@[j]).id != id,
            decreases self.rigs.len() - i,
        {
            if self.rigs[i].id == id {
                return true;
            }
            i = i + 1;
        }
        false
    }

    /// The component with the id `id`; `NotFound` where none is stored.
    pub fn get_component(&self, id: u128) -> (r: Result<Component, StoreError>)
        requires
            self.wf(),
        ensures
            has_component(self.components_spec(), id) <==> r is Ok,
            r matches Ok(c) ==> c == component_by_id(self.components_spec(), id) && c.id == id,
            r matches Err(e) ==> e == StoreError::NotFound,
    {
        match self.find_component(id) {
            Some(i) => {
                let c = self.components[i].clone();
                proof { self.lemma_component_at(i as int); }
                Ok(c)
            },
            None => Err(StoreError::NotFound),
        }
    }

    /// With unique ids, the component at `i` is the one chosen for its id.
    proof fn lemma_component_at(&self, i: int)
        requires
            self.wf(),
            0 <= i < self.components@.len(),
        ensures
            component_by_id(self.components@, self.components@[i].id) == self.components@[i],
    {
        let cs = self.components@;
        assert(cs[i].id == cs[i].id);
        let k = choose|k: int| 0 <= k < cs.len() && (#[trigger] cs[k]).id == cs[i].id;
        assert(k == i) by {
            if k < i {
                assert(cs[k].id != cs[i].id);
            } else if i < k {
                assert(cs[i].id != cs[k].id);
            }
        }
    }

    /// Stores `component` and returns the stored row; a `UniqueViolation`,
    /// with nothing written, where its id is already taken.
    pub fn create_component(&mut self, component: Component) -> (r: Result<Component, StoreError>)
        requires
            old(self).wf(),
        ensures
            final(self).wf(),
            r is Ok <==> !has_component(old(self).components_spec(), component.id),
            r matches Ok(c) ==> c == component && final(self).components_spec()
                == old(self).components_spec().push(component),
            r matches Err(e) ==> e == StoreError::UniqueViolation && *final(self) == *old(self),
            final(self).rigs_spec() == old(self).rigs_spec(),
            final(self).links_spec() == old(self).links_spec(),
    {
        if self.find_component(component.id).is_some() {
            return Err(StoreError::UniqueViolation);
        }
        let stored = component.clone();
        let ghost old_cs = self.components@;
        self.components.push(component);
        proof {
            let cs = self.components@;
            assert forall|i: int, j: int| 0 <= i < j < cs.len() implies (#[trigger] cs[i]).id
                != (#[trigger] cs[j]).id by {
                if j == cs.len() - 1 {
                    assert(old_cs[i] == cs[i]);
                }
                else {
                    assert(old_cs[i] == cs[i] && old_cs[j] == cs[j]);
                }
            }
            assert forall|i: int| 0 <= i < self.links@.len() implies has_component(
                cs,
                (#[trigger] self.links@[i]).component_id,
            ) by {
                let k = choose|k: int| 0 <= k < old_cs.len() && (#[trigger] old_cs[k]).id
                    == self.links@[i].component_id;
                assert(cs[k] == old_cs[k]);
            }
        }
        Ok(stored)
    }

    /// Stores `rig` and returns the number of rows written (one); a
    /// `UniqueViolation`, with nothing written, where its id is already taken.
    pub fn create_rig(&mut self, rig: &Rig) -> (r: Result<usize, StoreError>)
        requires
            old(self).wf(),
        ensures
            final(self).wf(),
            r is Ok <==> !has_rig(old(self).rigs_spec(), rig.id),
            r matches Ok(n) ==> n == 1 && final(self).rigs_spec() == old(self).rigs_spec().push(*rig),
            r matches Err(e) ==> e == StoreError::UniqueViolation && *final(self) == *old(self),
            final(self).components_spec() == old(self).components_spec(),
            final(self).links_spec() == old(self).links_spec(),
    {
        if self.contains_rig(rig.id) {
            return Err(StoreError::UniqueViolation);
        }
        let ghost old_rs = self.rigs@;
        self.rigs.push(rig.clone());
        proof {
            let rs = self.rigs@;
            assert forall|i: int, j: int| 0 <= i < j < rs.len() implies (#[trigger] rs[i]).id
                != (#[trigger] rs[j]).id by {
                if j == rs.len() - 1 {
                    assert(old_rs[i] == rs[i]);
                }
                else {
                    assert(old_rs[i] == rs[i] && old_rs[j] == rs[j]);
                }
            }
            assert forall|i: int| 0 <= i < self.links@.len() implies has_rig(
                rs,
                (#[trigger] self.links@[i]).rig_id,
            ) by {
                let k = choose|k: int| 0 <= k < old_rs.len() && (#[trigger] old_rs[k]).id
                    == self.links@[i].rig_id;
                assert(rs[k] == old_rs[k]);
            }
        }
        Ok(1)
    }

    /// Stores the association rows `rows` as one batch and returns how many
    /// were written. The batch is written whole or not at all: a
    /// `UniqueViolation` where a row is already stored or repeats an earlier
    /// row of the batch, else a `ForeignKeyViolation` where a row names a rig
    /// or a component that is not stored.
    pub fn create_rig_components(&mut self, rows: &Vec<RigComponent>) -> (r: Result<usize, StoreError>)
        requires
            old(self).wf(),
        ensures
            final(self).wf(),
            r is Ok <==> batch_error(
                old(self).links_spec(),
                old(self).rigs_spec(),
                old(self).components_spec(),
                rows@,
            ) is None,
            r matches Ok(n) ==> n == rows@.len() && final(self).links_spec() == old(self).links_spec()
                + rows@,
            r matches Err(e) ==> Some(e) == batch_error(
                old(self).links_spec(),
                old(self).rigs_spec(),
                old(self).components_spec(),
                rows@,
            ) && *final(self) == *old(self),
            final(self).components_spec() == old(self).components_spec(),
            final(self).rigs_spec() == old(self).rigs_spec(),
    {
        let ghost ls = self.links@;
        let mut i: usize = 0;
        while i < rows.len()
            invariant
                0 <= i <= rows.len(),
                ls == self.links@,
                *self == *old(self),
                self.wf(),
                forall|k: int| 0 <= k < i ==> !#[trigger] duplicate_row(ls, rows@, k),
            decreases rows.len() - i,
        {
            let row = rows[i];
            if occurs_in(&self.links, row, self.links.len()) || occurs_in(rows, row, i) {
                assert(duplicate_row(ls, rows@, i as int));
                return Err(StoreError::UniqueViolation);
            }
            i = i + 1;
        }
        let mut i: usize = 0;
        while i < rows.len()
            invariant
                0 <= i <= rows.len(),
                ls == self.links@,
                *self == *old(self),
                self.wf(),
                forall|k: int| 0 <= k < rows@.len() ==> !#[trigger] duplicate_row(ls, rows@, k),
                forall|k: int| 0 <= k < i ==> !dangling_row(self.rigs@, self.components@, #[trigger] rows@[k]),
            decreases rows.len() - i,
        {
            let row = rows[i];
            if !self.contains_rig(row.rig_id) || self.find_component(row.component_id).is_none() {
                assert(dangling_row(self.rigs@, self.components@, rows@[i as int]));
                return Err(StoreError::ForeignKeyViolation);
            }
            i = i + 1;
        }
        let mut i: usize = 0;
        while i < rows.len()
            invariant
                0 <= i <= rows.len(),
                self.links@ == ls + rows@.take(i as int),
                forall|k: int| 0 <= k < rows@.len() ==> !#[trigger] duplicate_row(ls, rows@, k),
                forall|k: int| 0 <= k < rows@.len() ==> !dangling_row(self.rigs@, self.components@, #[trigger] rows@[k]),
                old(self).wf(),
                ls == old(self).links@,
                self.components@ == old(self).components@,
                self.rigs@ == old(self).rigs@,
            decreases rows.len() - i,
        {
            self.links.push(rows[i]);
            i = i + 1;
            assert(self.links@ =~= ls + rows@.take(i as int));
        }
        assert(rows@.take(i as int) =~= rows@);
        proof {
            let nl = self.links@;
            assert forall|a: int, b: int| 0 <= a < b < nl.len() implies nl[a] != nl[b] by {
                if b >= ls.len() {
                    let kb = b - ls.len();
                    assert(!duplicate_row(ls, rows@, kb));
                    if a < ls.len() {
                        assert(ls[a] == nl[a]);
                    } else {
                        assert(nl[a] == rows@[a - ls.len()]);
                    }
                }
            }
            assert forall|a: int| 0 <= a < nl.len() implies has_rig(self.rigs@, (#[trigger] nl[a]).rig_id)
                && has_component(self.components@, nl[a].component_id) by {
                if a >= ls.len() {
                    assert(!dangling_row(self.rigs@, self.components@, rows@[a - ls.len()]));
                } else {
                    assert(nl[a] == ls[a]);
                }
            }
        }
        Ok(rows.len())
    }

    /// Every stored rig, in the order they were written, each with the
    /// components associated with it; a rig without associations gets an
    /// empty list.
    pub fn list_rigs(&self) -> (r: Vec<RigWithComponents>)
        requires
            self.wf(),
        ensures
            is_grouping(r@, self.rigs_spec(), joined(self.links_spec(), self.components_spec())),
            forall|i: int|
                0 <= i < r@.len() ==> (#[trigger] r@[i]).components@ == components_of_rig(
                    self.links_spec(),
                    self.components_spec(),
                    self.rigs_spec()[i].id,
                ),
    {
        let mut rows: Vec<(RigComponent, Component)> = Vec::new();
        let mut i: usize = 0;
        while i < self.links.len()
            invariant
                self.wf(),
                0 <= i <= self.links.len(),
                rows@ == joined(self.links@.take(i as int), self.components@),
            decreases self.links.len() - i,
        {
            let link = self.links[i];
            assert(has_component(self.components@, self.links@[i as int].component_id));
            let k = match self.find_component(link.component_id) {
                Some(k) => k,
                None => { return Vec::new(); },
            };
            proof { self.lemma_component_at(k as int); }
            rows.push((link, self.components[k].clone()));
            i = i + 1;
            assert(rows@ =~= joined(self.links@.take(i as int), self.components@));
        }
        assert(self.links@.take(i as int) =~= self.links@);
        let r = group_by_rig(self.rigs.clone(), &rows);
        r
    }

    /// Every stored component, in the order they were written.
    pub fn list_components(&self) -> (r: Vec<Component>)
        ensures
            r@ == self.components_spec(),
    {
        let r = self.components.clone();
        assert(r@ =~= self.components@);
        r
    }

    /// The stored components whose ids are among `ids`; ids that match no
    /// component are passed over.
    pub fn list_components_by_id(&self, ids: &Vec<u128>) -> (r: Vec<Component>)
        ensures
            r@ == select_by_ids(self.components_spec(), ids@),
    {
        let mut r: Vec<Component> = Vec::new();
        let mut i: usize = 0;
        while i < self.components.len()
            invariant
                0 <= i <= self.components.len(),
                r@ == select_by_ids(self.components@.take(i as int), ids@),
            decreases self.components.len() - i,
        {
            assert(self.components@.take(i as int + 1).drop_last() =~= self.components@.take(i as int));
            if contains_id(ids, self.components[i].id) {
                r.push(self.components[i].clone());
            }
            i = i + 1;
        }
        assert(self.components@.take(i as int) =~= self.components@);
        r
    }
}

/// How many association rows name the rig `rig_id`.
pub open spec fn link_count(ls: Seq<RigComponent>, rig_id: u128) -> nat
    decreases ls.len(),
{
    if ls.len() == 0 {
        0
    } else {
        link_count(ls.drop_last(), rig_id) + if ls.last().rig_id == rig_id {
            1nat
        } else {
            0nat
        }
    }
}

/// Selecting components by a set of ids yields exactly the stored components
/// whose ids are in the set, ids that match nothing are passed over, and no
/// component comes back twice.
pub proof fn lemma_select_by_ids(cs: Seq<Component>, ids: Seq<u128>)
    ensures
        forall|c: Component|
            #[trigger] select_by_ids(cs, ids).contains(c) <==> (cs.contains(c) && ids.contains(c.id)),
        component_ids_unique(cs) ==> component_ids_unique(select_by_ids(cs, ids)),
    decreases cs.len(),
{
    if cs.len() > 0 {
        let init = cs.drop_last();
        lemma_select_by_ids(init, ids);
        let rest = select_by_ids(init, ids);
        assert forall|c: Component| cs.contains(c) <==> (init.contains(c) || c == cs.last()) by {
            if cs.contains(c) {
                let k = choose|k: int| 0 <= k < cs.len() && cs[k] == c;
                if k < cs.len() - 1 {
                    assert(init[k] == c);
                }
            }
            if init.contains(c) {
                let k = choose|k: int| 0 <= k < init.len() && init[k] == c;
                assert(cs[k] == c);
            }
            if c == cs.last() {
                assert(cs[cs.len() - 1] == c);
            }
        }
        if ids.contains(cs.last().id) {
            let r = rest.push(cs.last());
            assert forall|c: Component| r.contains(c) <==> (rest.contains(c) || c == cs.last()) by {
                if r.contains(c) {
                    let k = choose|k: int| 0 <= k < r.len() && r[k] == c;
                    if k < rest.len() {
                        assert(rest[k] == c);
                    }
                }
                if rest.contains(c) {
                    let k = choose|k: int| 0 <= k < rest.len() && rest[k] == c;
                    assert(r[k] == c);
                }
                if c == cs.last() {
                    assert(r[rest.len() as int] == c);
                }
            }
            if component_ids_unique(cs) {
                assert(component_ids_unique(init)) by {
                    assert forall|i: int, j: int| 0 <= i < j < init.len() implies (#[trigger] init[i]).id
                        != (#[trigger] init[j]).id by {
                        assert(init[i] == cs[i] && init[j] == cs[j]);
                    }
                }
                assert forall|i: int, j: int| 0 <= i < j < r.len() implies (#[trigger] r[i]).id
                    != (#[trigger] r[j]).id by {
                    if j == r.len() - 1 {
                        assert(rest.contains(r[i]));
                        assert(init.contains(r[i]));
                        let k = choose|k: int| 0 <= k < init.len() && init[k] == r[i];
                        assert(cs[k] == init[k]);
                        assert(cs[k].id != cs[cs.len() - 1].id);
                    } else {
                        assert(r[i] == rest[i] && r[j] == rest[j]);
                    }
                }
            }
        } else {
            if component_ids_unique(cs) {
                assert forall|i: int, j: int| 0 <= i < j < init.len() implies (#[trigger] init[i]).id
                    != (#[trigger] init[j]).id by {
                    assert(init[i] == cs[i] && init[j] == cs[j]);
                }
            }
        }
    }
}

/// Where some requested id matches no stored component, selecting by ids
/// yields fewer components than there are distinct requested ids.
pub proof fn lemma_select_by_ids_count(cs: Seq<Component>, ids: Seq<u128>, missing: u128)
    requires
        component_ids_unique(cs),
        ids.contains(missing),
        !has_component(cs, missing),
    ensures
        select_by_ids(cs, ids).len() < ids.to_set().len(),
{
    broadcast use vstd::seq_lib::seq_to_set_is_finite;

    let r = select_by_ids(cs, ids);
    lemma_select_by_ids(cs, ids);
    let rid = r.map_values(|c: Component| c.id);
    assert(rid.no_duplicates()) by {
        assert forall|i: int, j: int| 0 <= i < rid.len() && 0 <= j < rid.len() && i != j implies rid[i]
            != rid[j] by {
            if i < j {
                assert(r[i].id != r[j].id);
            } else {
                assert(r[j].id != r[i].id);
            }
        }
    }
    rid.unique_seq_to_set();
    assert(rid.to_set().subset_of(ids.to_set())) by {
        assert forall|x: u128| rid.to_set().contains(x) implies ids.to_set().contains(x) by {
            let k = choose|k: int| 0 <= k < rid.len() && rid[k] == x;
            assert(r.contains(r[k]));
        }
    }
    assert(!rid.to_set().contains(missing)) by {
        if rid.to_set().contains(missing) {
            let k = choose|k: int| 0 <= k < rid.len() && rid[k] == missing;
            assert(r.contains(r[k]));
            assert(cs.contains(r[k]));
            let m = choose|m: int| 0 <= m < cs.len() && cs[m] == r[k];
            assert(cs[m].id == missing);
        }
    }
    assert(ids.to_set().contains(missing));
    rid.to_set().lemma_subset_not_in_lt(ids.to_set(), missing);
}

/// A rig is listed with exactly as many components as association rows name it.
pub proof fn lemma_rig_component_count(ls: Seq<RigComponent>, cs: Seq<Component>, rig_id: u128)
    ensures
        components_of_rig(ls, cs, rig_id).len() == link_count(ls, rig_id),
    decreases ls.len(),
{
    if ls.len() > 0 {
        lemma_rig_component_count(ls.drop_last(), cs, rig_id);
        assert(joined(ls, cs).drop_last() =~= joined(ls.drop_last(), cs));
    }
}

/// The components a rig is listed with are, in order, the components named
/// by the association rows of that rig.
pub proof fn lemma_rig_components_named(ls: Seq<RigComponent>, cs: Seq<Component>, rig_id: u128)
    ensures
        forall|c: Component|
            #[trigger] components_of_rig(ls, cs, rig_id).contains(c) <==> exists|i: int|
                0 <= i < ls.len() && (#[trigger] ls[i]).rig_id == rig_id && c == component_by_id(
                    cs,
                    ls[i].component_id,
                ),
    decreases ls.len(),
{
    if ls.len() > 0 {
        let init = ls.drop_last();
        lemma_rig_components_named(init, cs, rig_id);
        assert(joined(ls, cs).drop_last() =~= joined(init, cs));
        let rest = components_of_rig(init, cs, rig_id);
        let r = components_of_rig(ls, cs, rig_id);
        let last = ls.last();
        let lc = component_by_id(cs, last.component_id);
        assert forall|c: Component| r.contains(c) <==> exists|i: int|
            0 <= i < ls.len() && (#[trigger] ls[i]).rig_id == rig_id && c == component_by_id(
                cs,
                ls[i].component_id,
            ) by {
            if last.rig_id == rig_id {
                assert(r == rest.push(lc));
                if r.contains(c) {
                    let k = choose|k: int| 0 <= k < r.len() && r[k] == c;
                    if k < rest.len() {
                        assert(rest[k] == c);
                        assert(rest.contains(c));
                        let i = choose|i: int| 0 <= i < init.len() && (#[trigger] init[i]).rig_id == rig_id
                            && c == component_by_id(cs, init[i].component_id);
                        assert(ls[i] == init[i]);
                    } else {
                        assert(ls[ls.len() - 1] == last);
                    }
                }
                if exists|i: int|
                    0 <= i < ls.len() && (#[trigger] ls[i]).rig_id == rig_id && c == component_by_id(
                        cs,
                        ls[i].component_id,
                    ) {
                    let i = choose|i: int|
                        0 <= i < ls.len() && (#[trigger] ls[i]).rig_id == rig_id && c == component_by_id(
                            cs,
                            ls[i].component_id,
                        );
                    if i < init.len() {
                        assert(init[i] == ls[i]);
                        assert(rest.contains(c));
                        let k = choose|k: int| 0 <= k < rest.len() && rest[k] == c;
                        assert(r[k] == c);
                    } else {
                        assert(r[rest.len() as int] == c);
                    }
                }
            } else {
                assert(r == rest);
                if r.contains(c) {
                    let i = choose|i: int| 0 <= i < init.len() && (#[trigger] init[i]).rig_id == rig_id
                        && c == component_by_id(cs, init[i].component_id);
                    assert(ls[i] == init[i]);
                }
                if exists|i: int|
                    0 <= i < ls.len() && (#[trigger] ls[i]).rig_id == rig_id && c == component_by_id(
                        cs,
                        ls[i].component_id,
                    ) {
                    let i = choose|i: int|
                        0 <= i < ls.len() && (#[trigger] ls[i]).rig_id == rig_id && c == component_by_id(
                            cs,
                            ls[i].component_id,
                        );
                    assert(i < init.len());
                    assert(init[i] == ls[i]);
                }
            }
        }
    }
}

/// The ids of the components a rig is listed with are distinct and are
/// exactly the component ids that its association rows name; so the rig is
/// listed with as many components as there are such ids.
pub proof fn lemma_rig_component_ids(ls: Seq<RigComponent>, cs: Seq<Component>, rig_id: u128)
    requires
        links_unique(ls),
        forall|i: int| 0 <= i < ls.len() ==> has_component(cs, (#[trigger] ls[i]).component_id),
    ensures
        components_of_rig(ls, cs, rig_id).map_values(|c: Component| c.id).no_duplicates(),
        components_of_rig(ls, cs, rig_id).map_values(|c: Component| c.id).to_set() == Set::new(
            |c: u128| ls.contains(RigComponent { rig_id, component_id: c }),
        ),
        components_of_rig(ls, cs, rig_id).len() == Set::new(
            |c: u128| ls.contains(RigComponent { rig_id, component_id: c }),
        ).len(),
    decreases ls.len(),
{
    let f = |c: Component| c.id;
    let ids = components_of_rig(ls, cs, rig_id).map_values(f);
    let target = Set::new(|c: u128| ls.contains(RigComponent { rig_id, component_id: c }));
    if ls.len() == 0 {
        assert(ids.to_set() =~= target);
    } else {
        let init = ls.drop_last();
        let last = ls.last();
        assert(links_unique(init)) by {
            assert forall|i: int, j: int| 0 <= i < j < init.len() implies init[i] != init[j] by {
                assert(init[i] == ls[i] && init[j] == ls[j]);
            }
        }
        assert forall|i: int| 0 <= i < init.len() implies has_component(cs, (#[trigger] init[i]).component_id) by {
            assert(init[i] == ls[i]);
        }
        lemma_rig_component_ids(init, cs, rig_id);
        assert(joined(ls, cs).drop_last() =~= joined(init, cs));
        let rest = components_of_rig(init, cs, rig_id);
        let rest_ids = rest.map_values(f);
        let init_target = Set::new(|c: u128| init.contains(RigComponent { rig_id, component_id: c }));
        assert forall|x: RigComponent| ls.contains(x) <==> (init.contains(x) || x == last) by {
            if ls.contains(x) {
                let k = choose|k: int| 0 <= k < ls.len() && ls[k] == x;
                if k < ls.len() - 1 {
                    assert(init[k] == x);
                }
            }
            if init.contains(x) {
                let k = choose|k: int| 0 <= k < init.len() && init[k] == x;
                assert(ls[k] == x);
            }
            if x == last {
                assert(ls[ls.len() - 1] == x);
            }
        }
        assert(!init.contains(last)) by {
            if init.contains(last) {
                let k = choose|k: int| 0 <= k < init.len() && init[k] == last;
                assert(ls[k] == init[k]);
                assert(ls[k] != ls[ls.len() - 1]);
            }
        }
        if last.rig_id == rig_id {
            let cid = last.component_id;
            assert(ls[ls.len() - 1] == last);
            assert(has_component(cs, cid));
            let k = choose|k: int| 0 <= k < cs.len() && (#[trigger] cs[k]).id == cid;
            assert(component_by_id(cs, cid).id == cid);
            assert(ids =~= rest_ids.push(cid));
            assert(!rest_ids.to_set().contains(cid));
            assert(ids.no_duplicates()) by {
                assert forall|i: int, j: int| 0 <= i < ids.len() && 0 <= j < ids.len() && i != j implies ids[i]
                    != ids[j] by {
                    if i < rest_ids.len() && j < rest_ids.len() {
                        assert(ids[i] == rest_ids[i] && ids[j] == rest_ids[j]);
                    } else if i < rest_ids.len() {
                        assert(ids[i] == rest_ids[i]);
                        assert(rest_ids.to_set().contains(rest_ids[i]));
                    } else {
                        assert(ids[j] == rest_ids[j]);
                        assert(rest_ids.to_set().contains(rest_ids[j]));
                    }
                }
            }
            assert forall|c: u128| ids.to_set().contains(c) <==> target.contains(c) by {
                if ids.to_set().contains(c) {
                    let i = choose|i: int| 0 <= i < ids.len() && ids[i] == c;
                    if i < rest_ids.len() {
                        assert(rest_ids[i] == c);
                        assert(rest_ids.to_set().contains(c));
                        assert(init_target.contains(c));
                    }
                }
                if target.contains(c) {
                    if c == cid {
                        assert(ids[rest_ids.len() as int] == c);
                    } else {
                        assert(init_target.contains(c));
                        assert(rest_ids.to_set().contains(c));
                        let i = choose|i: int| 0 <= i < rest_ids.len() && rest_ids[i] == c;
                        assert(ids[i] == c);
                    }
                }
            }
            assert(ids.to_set() =~= target);
        } else {
            assert(ids =~= rest_ids);
            assert(target =~= init_target);
        }
    }
    ids.unique_seq_to_set();
}

/// A rig that no association row names is listed with no components.
pub proof fn lemma_rig_without_links(ls: Seq<RigComponent>, cs: Seq<Component>, rig_id: u128)
    requires
        forall|i: int| 0 <= i < ls.len() ==> (#[trigger] ls[i]).rig_id != rig_id,
    ensures
        components_of_rig(ls, cs, rig_id) == Seq::<Component>::empty(),
{
    let rows = joined(ls, cs);
    assert forall|i: int| 0 <= i < rows.len() implies (#[trigger] rows[i]).0.rig_id != rig_id by {
        assert(rows[i].0 == ls[i]);
    }
    lemma_grouped_empty(rows, rig_id);
}

/// Whether `row` is among the first `end` rows of `v`.
fn occurs_in(v: &Vec<RigComponent>, row: RigComponent, end: usize) -> (r: bool)
    requires
        end <= v@.len(),
    ensures
        r == exists|j: int| 0 <= j < end && v@[j] == row,
        end == v@.len() ==> r == v@.contains(row),
{
    let mut i: usize = 0;
    while i < end
        invariant
            0 <= i <= end <= v@.len(),
            forall|j: int| 0 <= j < i ==> v@[j] != row,
        decreases end - i,
    {
        if v[i] == row {
            return true;
        }
        i = i + 1;
    }
    false
}

/// Whether `id` is among `ids`.
pub fn contains_id(ids: &Vec<u128>, id: u128) -> (r: bool)
    ensures
        r == ids@.contains(id),
{
    let mut i: usize = 0;
    while i < ids.len()
        invariant
            0 <= i <= ids.len(),
            forall|j: int| 0 <= j < i ==> ids@[j] != id,
        decreases ids.len() - i,
    {
        if ids[i] == id {
            assert(ids@[i as int] == id);
            return true;
        }
        i = i + 1;
    }
    false
}

} // verus!
