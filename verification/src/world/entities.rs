use crate::errors::{EcsErrors, ErasedVecErrors};
use crate::storage::{live, views, zeros, ColumnView, ErasedVec, TypeInfo, TypeMap};
use crate::storage::{lookup, type_map_entries};
use vstd::prelude::*;

verus! {

/// An entity: the number of its slot in every column.
pub type Entity = usize;

/// How many component types a table can tell apart: one bit of a mask each.
pub const MAX_COMPONENTS: usize = 128;

/// The mask that has the bit at `position` set and no other.
pub open spec fn bit_at(position: usize) -> u128 {
    1u128 << position
}

/// Whether the bit at `position` of `mask` is set.
pub open spec fn has_bit(mask: u128, position: usize) -> bool {
    mask & bit_at(position) != 0
}

/// Setting a bit sets that bit and leaves the others.
pub proof fn lemma_set_bit(mask: u128, position: usize, other: usize)
    requires
        position < 128,
        other < 128,
    ensures
        has_bit(mask | bit_at(position), other) == (has_bit(mask, other) || other == position),
{
    let p = position as u128;
    let o = other as u128;
    assert(((mask | (1u128 << p)) & (1u128 << o) != 0) == ((mask & (1u128 << o) != 0) || o == p))
        by (bit_vector)
        requires
            p < 128,
            o < 128,
    ;
}

/// Clearing a bit clears that bit and leaves the others.
pub proof fn lemma_clear_bit(mask: u128, position: usize, other: usize)
    requires
        position < 128,
        other < 128,
    ensures
        has_bit(mask & !bit_at(position), other) == (has_bit(mask, other) && other != position),
{
    let p = position as u128;
    let o = other as u128;
    assert(((mask & !(1u128 << p)) & (1u128 << o) != 0) == ((mask & (1u128 << o) != 0) && o != p))
        by (bit_vector)
        requires
            p < 128,
            o < 128,
    ;
}

/// The empty mask has no bit set.
pub proof fn lemma_no_bit(position: usize)
    requires
        position < 128,
    ensures
        !has_bit(0, position),
{
    let p = position as u128;
    assert(0u128 & (1u128 << p) == 0) by (bit_vector);
}

/// The first number below `n` of which `p` holds; `n` where there is none.
pub open spec fn first_where(n: int, p: spec_fn(int) -> bool) -> int
    decreases n,
{
    if n <= 0 {
        0
    } else {
        let before = first_where(n - 1, p);
        if before < n - 1 {
            before
        } else if p(n - 1) {
            n - 1
        } else {
            n
        }
    }
}

/// `first_where` is the one number up to `n` below which `p` never holds and
/// at which it holds, unless the number is `n`.
pub proof fn lemma_first_where(n: int, p: spec_fn(int) -> bool, i: int)
    requires
        0 <= i <= n,
        forall|j: int| 0 <= j < i ==> !#[trigger] p(j),
        i < n ==> p(i),
    ensures
        first_where(n, p) == i,
    decreases n,
{
    if n > 0 {
        if i < n {
            lemma_first_where(n - 1, p, if i < n - 1 {
                i
            } else {
                n - 1
            });
        } else {
            lemma_first_where(n - 1, p, n - 1);
        }
    }
}

/// What a table is to its users.
pub struct TableView {
    /// The columns, in the order in which their types were registered.
    pub columns: Seq<ColumnView>,
    /// For the identity of each registered type, the place of its column,
    /// which is also the place of its bit.
    pub positions: Map<u128, usize>,
    /// The mask of each entity slot.
    pub masks: Seq<u128>,
    /// The slot that `with_component` writes to.
    pub cursor: usize,
}

impl TableView {
    /// Whether `ty` was registered.
    pub open spec fn registered(self, ty: TypeInfo) -> bool {
        self.positions.contains_key(ty.spec_id())
    }

    /// The place of the column and of the bit of `ty`.
    pub open spec fn position(self, ty: TypeInfo) -> usize
        recommends
            self.registered(ty),
    {
        self.positions[ty.spec_id()]
    }

    /// The mask of `ty`, if it was registered.
    pub open spec fn bitmask(self, ty: TypeInfo) -> Option<u128> {
        if self.registered(ty) {
            Some(bit_at(self.position(ty)))
        } else {
            None
        }
    }

    /// The column of `ty`.
    pub open spec fn column(self, ty: TypeInfo) -> ColumnView
        recommends
            self.registered(ty),
    {
        self.columns[self.position(ty) as int]
    }

    /// Whether `entity` names a slot.
    pub open spec fn exists_entity(self, entity: usize) -> bool {
        entity < self.masks.len()
    }

    /// Whether the slot of `entity` holds a live component of `ty`.
    pub open spec fn has(self, entity: usize, ty: TypeInfo) -> bool
        recommends
            self.registered(ty),
            self.exists_entity(entity),
    {
        has_bit(self.masks[entity as int], self.position(ty))
    }

    /// Whether `value` can be a component of `ty` in this table: where `ty`
    /// is registered, it has the size of the values of its column.
    pub open spec fn fits(self, ty: TypeInfo, value: Seq<u8>) -> bool {
        self.registered(ty) ==> value.len() == self.column(ty).ty.spec_size()
    }

    /// The types and their columns belong together one to one, there are at
    /// most 128 of them, every column has one slot for each entity, a slot
    /// whose bit is set in the mask of its entity is filled, and no mask has
    /// a bit that belongs to no type.
    pub open spec fn wf(self) -> bool {
        &&& self.columns.len() <= MAX_COMPONENTS
        &&& forall|id: u128| #[trigger]
            self.positions.contains_key(id) ==> self.positions[id] < self.columns.len()
                && self.columns[self.positions[id] as int].ty.spec_id() == id
        &&& forall|k: int|
            0 <= k < self.columns.len() ==> self.positions.contains_key(
                (#[trigger] self.columns[k]).ty.spec_id(),
            ) && self.positions[self.columns[k].ty.spec_id()] == k
        &&& forall|k: int|
            0 <= k < self.columns.len() ==> (#[trigger] self.columns[k]).values.len()
                == self.masks.len() && self.columns[k].fills.len() == self.masks.len()
        &&& forall|k: int, e: int|
            0 <= k < self.columns.len() && 0 <= e < self.masks.len() && has_bit(
                self.masks[e],
                k as usize,
            ) ==> #[trigger] self.columns[k].fills[e]
        &&& forall|e: int, k: usize|
            0 <= e < self.masks.len() && self.columns.len() <= k < MAX_COMPONENTS ==> !#[trigger] has_bit(
                self.masks[e],
                k,
            )
    }

    /// The table with `ty` registered: its column comes last, with a slot of
    /// zero bytes for each entity, none filled.
    pub open spec fn register(self, ty: TypeInfo) -> TableView {
        TableView {
            columns: self.columns.push(
                ColumnView {
                    ty,
                    values: Seq::new(self.masks.len(), |i: int| zeros(ty.spec_size() as nat)),
                    fills: Seq::new(self.masks.len(), |i: int| false),
                    cap: if ty.spec_size() == 0 {
                        usize::MAX
                    } else {
                        self.masks.len() as usize
                    },
                },
            ),
            positions: self.positions.insert(ty.spec_id(), self.columns.len() as usize),
            masks: self.masks,
            cursor: self.cursor,
        }
    }

    /// The first slot whose mask is empty; the number of slots where there
    /// is none.
    pub open spec fn first_free(self) -> int {
        first_where(self.masks.len() as int, self.free_at())
    }

    /// Whether the mask of a slot is empty.
    pub open spec fn free_at(self) -> spec_fn(int) -> bool {
        |e: int| self.masks[e] == 0
    }

    /// Whether a column has no room for one more slot and cannot make it.
    pub open spec fn full_at(self) -> spec_fn(int) -> bool {
        |k: int| self.columns[k].room_error() is Some
    }

    /// The first column that has no room for one more slot and cannot make
    /// it; the number of columns where there is none.
    pub open spec fn first_full(self) -> int {
        first_where(self.columns.len() as int, self.full_at())
    }

    /// The table with one more slot: of zero bytes and not filled in every
    /// column, with an empty mask.
    pub open spec fn extend(self) -> TableView {
        TableView {
            columns: Seq::new(self.columns.len(), |k: int| self.columns[k].pad()),
            positions: self.positions,
            masks: self.masks.push(0),
            cursor: self.masks.len() as usize,
        }
    }

    /// The table after an entity was created: a free slot is taken where
    /// there is one, the first of them; else the table is extended by one
    /// slot, unless a column cannot take it: then nothing changes.
    pub open spec fn create_entity(self) -> TableView {
        if self.first_free() < self.masks.len() {
            TableView { cursor: self.first_free() as usize, ..self }
        } else if self.first_full() < self.columns.len() {
            self
        } else {
            self.extend()
        }
    }

    /// The table with `value` written as the component of `ty` of `entity`
    /// and the bit of `ty` set in the mask of `entity`.
    pub open spec fn set_component(self, entity: usize, ty: TypeInfo, value: Seq<u8>) -> TableView
        recommends
            self.registered(ty),
            self.exists_entity(entity),
    {
        TableView {
            columns: self.columns.update(
                self.position(ty) as int,
                self.column(ty).set(entity as int, value, true),
            ),
            masks: self.masks.update(
                entity as int,
                self.masks[entity as int] | bit_at(self.position(ty)),
            ),
            ..self
        }
    }

    /// The table with `value` as the bytes of `entity` in the column at
    /// `position`. Flags and masks are left as they are.
    pub open spec fn poke_at(self, position: int, entity: int, value: Seq<u8>) -> TableView {
        TableView {
            columns: self.columns.update(
                position,
                self.columns[position].set(entity, value, self.columns[position].fills[entity]),
            ),
            ..self
        }
    }

    /// The table with `value` as the bytes of the component of `ty` of
    /// `entity`. Flags and masks are left as they are.
    pub open spec fn poke(self, entity: usize, ty: TypeInfo, value: Seq<u8>) -> TableView
        recommends
            self.registered(ty),
            self.exists_entity(entity),
    {
        self.poke_at(self.position(ty) as int, entity as int, value)
    }

    /// The table with the first `n` of `values` written, in their order, as
    /// components of `entity`, of the types at their places in `tys`.
    pub open spec fn set_components(
        self,
        entity: usize,
        tys: Seq<TypeInfo>,
        values: Seq<Seq<u8>>,
        n: int,
    ) -> TableView
        decreases n,
    {
        if n <= 0 {
            self
        } else {
            self.set_components(entity, tys, values, n - 1).set_component(
                entity,
                tys[n - 1],
                values[n - 1],
            )
        }
    }

    /// The values that writing the first `n` of `values` as components of
    /// `entity` puts out of their slots: for each component that was live
    /// when its turn came, what its slot held, in the order of the writes.
    pub open spec fn displaced(
        self,
        entity: usize,
        tys: Seq<TypeInfo>,
        values: Seq<Seq<u8>>,
        n: int,
    ) -> Seq<Seq<u8>>
        decreases n,
    {
        if n <= 0 {
            Seq::empty()
        } else {
            let before = self.set_components(entity, tys, values, n - 1);
            let rest = self.displaced(entity, tys, values, n - 1);
            if before.has(entity, tys[n - 1]) {
                rest.push(before.column(tys[n - 1]).values[entity as int])
            } else {
                rest
            }
        }
    }

    /// Whether a type of `tys` is not registered.
    pub open spec fn unregistered_at(self, tys: Seq<TypeInfo>) -> spec_fn(int) -> bool {
        |i: int| !self.registered(tys[i])
    }

    /// How many of `tys`, from the first on, can be written for `entity`:
    /// none where `entity` names no slot, else those before the first type
    /// that is not registered.
    pub open spec fn writable(self, entity: usize, tys: Seq<TypeInfo>) -> int {
        if tys.len() > 0 && self.registered(tys[0]) && !self.exists_entity(entity) {
            0
        } else {
            first_where(tys.len() as int, self.unregistered_at(tys))
        }
    }

    /// Whether each of `values` can be a component of the type at its place
    /// in `tys`.
    pub open spec fn fits_all(self, tys: Seq<TypeInfo>, values: Seq<Seq<u8>>) -> bool {
        &&& tys.len() == values.len()
        &&& forall|i: int| 0 <= i < tys.len() ==> self.fits(#[trigger] tys[i], values[i])
    }

    /// Whether `other` has the types of this table at the same places, and
    /// as many entities.
    pub open spec fn same_shape(self, other: TableView) -> bool {
        &&& self.positions == other.positions
        &&& self.masks.len() == other.masks.len()
        &&& self.columns.len() == other.columns.len()
        &&& forall|k: int|
            0 <= k < self.columns.len() ==> (#[trigger] self.columns[k]).ty == other.columns[k].ty
    }

    /// The table with the bit of `ty` cleared in the mask of `entity`. The
    /// column is left as it is.
    pub open spec fn delete_component(self, entity: usize, ty: TypeInfo) -> TableView
        recommends
            self.registered(ty),
            self.exists_entity(entity),
    {
        TableView {
            masks: self.masks.update(
                entity as int,
                self.masks[entity as int] & !bit_at(self.position(ty)),
            ),
            ..self
        }
    }

    /// The table with the mask of `entity` emptied. The columns are left as
    /// they are.
    pub open spec fn delete_entity(self, entity: usize) -> TableView
        recommends
            self.exists_entity(entity),
    {
        TableView { masks: self.masks.update(entity as int, 0), ..self }
    }
}

/// Types get their bits in the order in which they are registered: a type
/// registered when the table has `n` types gets the bit at `n`, and the
/// types registered before keep theirs.
pub proof fn lemma_register_bit(table: TableView, ty: TypeInfo)
    requires
        table.wf(),
        !table.registered(ty),
    ensures
        table.register(ty).bitmask(ty) == Some(bit_at(table.columns.len() as usize)),
        forall|other: TypeInfo|
            table.registered(other) ==> #[trigger] table.register(ty).bitmask(other)
                == table.bitmask(other),
{
    assert forall|other: TypeInfo| table.registered(other) implies #[trigger] table.register(
        ty,
    ).bitmask(other) == table.bitmask(other) by {
        assert(other.spec_id() != ty.spec_id());
    }
}

/// A deleted entity is the next to be created, unless a slot before it is
/// free: no column grows, and the slot is taken as it stands.
pub proof fn lemma_slot_reuse(table: TableView, entity: usize)
    requires
        table.exists_entity(entity),
        forall|e: int| 0 <= e < entity ==> table.masks[e] != 0,
    ensures
        table.delete_entity(entity).create_entity().cursor == entity,
        table.delete_entity(entity).create_entity().masks == table.delete_entity(entity).masks,
        table.delete_entity(entity).create_entity().columns == table.columns,
{
    let deleted = table.delete_entity(entity);
    lemma_first_where(deleted.masks.len() as int, deleted.free_at(), entity as int);
}

/// The entity table: one column for each registered component type, and for
/// each entity a mask that says which columns hold a live component of it.
pub struct EntitiesInner {
    /// The columns, in the order in which their types were registered.
    components: Vec<ErasedVec>,
    /// For each registered type the place of its column, which is the place
    /// of its bit in the masks.
    bitmasks: TypeMap,
    /// Vector of entity bitmasks.
    map: Vec<u128>,
    inserting_into_index: Entity,
}

impl View for EntitiesInner {
    type V = TableView;

    closed spec fn view(&self) -> TableView {
        table_of(
            self.components@,
            type_map_entries(self.bitmasks),
            self.map@,
            self.inserting_into_index,
        )
    }
}

/// The table that the columns `components` make with the places
/// `positions`, the masks `masks` and the cursor `cursor`.
pub open spec fn table_of(
    components: Seq<ErasedVec>,
    positions: Map<u128, usize>,
    masks: Seq<u128>,
    cursor: usize,
) -> TableView {
    TableView {
        columns: Seq::new(components.len(), |k: int| components[k]@),
        positions,
        masks,
        cursor,
    }
}

/// Whether every column of `components` is well formed.
pub open spec fn all_wf(components: Seq<ErasedVec>) -> bool {
    forall|k: int| 0 <= k < components.len() ==> (#[trigger] components[k]).wf()
}

/// A table of which one column changed in one slot, in the bytes alone, is
/// the table with those bytes written, and is well formed as it was.
pub proof fn lemma_poked(
    components: Seq<ErasedVec>,
    positions: Map<u128, usize>,
    masks: Seq<u128>,
    cursor: usize,
    position: int,
    entity: int,
)
    requires
        table_of(components, positions, masks, cursor).wf(),
        all_wf(components),
        0 <= position < components.len(),
        0 <= entity < masks.len(),
    ensures
        forall|column: ErasedVec|
            column.replaced(
                &components[position],
                entity,
                column@.values[entity],
                components[position]@.fills[entity],
            ) ==> {
                &&& all_wf(#[trigger] components.update(position, column))
                &&& table_of(components.update(position, column), positions, masks, cursor).wf()
                &&& table_of(components.update(position, column), positions, masks, cursor)
                    == table_of(components, positions, masks, cursor).poke_at(
                    position,
                    entity,
                    column@.values[entity],
                )
            },
{
    let before = table_of(components, positions, masks, cursor);
    assert forall|column: ErasedVec|
        column.replaced(
            &components[position],
            entity,
            column@.values[entity],
            components[position]@.fills[entity],
        ) implies {
        &&& all_wf(#[trigger] components.update(position, column))
        &&& table_of(components.update(position, column), positions, masks, cursor).wf()
        &&& table_of(components.update(position, column), positions, masks, cursor)
            == before.poke_at(position, entity, column@.values[entity])
    } by {
        let changed = components.update(position, column);
        let after = table_of(changed, positions, masks, cursor);
        let expected = before.poke_at(position, entity, column@.values[entity]);
        assert(before.columns[position] == components[position]@);
        assert(column@.fills =~= before.columns[position].fills);
        assert(after.columns =~= expected.columns) by {
            assert forall|k: int| 0 <= k < components.len() implies after.columns[k]
                == expected.columns[k] by {
                assert(before.columns[k] == components[k]@);
            }
        }
        assert(after == expected);
        assert forall|k: int, e: int|
            0 <= k < after.columns.len() && 0 <= e < after.masks.len() && has_bit(
                after.masks[e],
                k as usize,
            ) implies #[trigger] after.columns[k].fills[e] by {
            assert(before.columns[k] == components[k]@);
            assert(before.columns[k].fills[e]);
        }
        assert forall|k: int| 0 <= k < after.columns.len() implies after.positions.contains_key(
            (#[trigger] after.columns[k]).ty.spec_id(),
        ) && after.positions[after.columns[k].ty.spec_id()] == k by {
            assert(before.columns[k] == components[k]@);
        }
        assert forall|k: int| 0 <= k < after.columns.len() implies (#[trigger] after.columns[k]).values.len()
            == after.masks.len() && after.columns[k].fills.len() == after.masks.len() by {
            assert(before.columns[k] == components[k]@);
        }
    }
}

impl Default for EntitiesInner {
    /// A table without component types and without entities.
    fn default() -> (table: Self)
        ensures
            table.wf(),
            table@.columns.len() == 0,
            table@.positions == Map::<u128, usize>::empty(),
            table@.masks.len() == 0,
            table@.cursor == 0,
    {
        EntitiesInner {
            components: Vec::new(),
            bitmasks: TypeMap::new(),
            map: Vec::new(),
            inserting_into_index: 0,
        }
    }
}

impl EntitiesInner {
    /// Every column is well formed.
    pub closed spec fn columns_wf(&self) -> bool {
        all_wf(self.components@)
    }

    /// The table is well formed, and so is each of its columns.
    pub open spec fn wf(&self) -> bool {
        &&& self@.wf()
        &&& self.columns_wf()
    }

    /// The place of a registered type is the place of a column.
    proof fn lemma_position(&self, ty: TypeInfo)
        requires
            self.wf(),
            self@.registered(ty),
        ensures
            self@.position(ty) < self.components@.len(),
            self@.position(ty) < MAX_COMPONENTS,
            self@.column(ty) == self.components@[self@.position(ty) as int]@,
            self@.column(ty).ty.spec_id() == ty.spec_id(),
            self.components@[self@.position(ty) as int].wf(),
            self.components@[self@.position(ty) as int].spec_len() == self.map@.len(),
    {
        let k = self@.position(ty) as int;
        assert(self@.positions.contains_key(ty.spec_id()));
        assert(self@.columns[k] == self.components@[k]@);
        self.components@[k].lemma_shape();
    }


    /// The number of registered component types.
    pub fn count(&self) -> (n: usize)
        ensures
            n == self@.columns.len(),
    {
        self.components.len()
    }

    /// The mask of every entity slot.
    pub fn map(&self) -> (masks: &Vec<u128>)
        ensures
            masks@ == self@.masks,
    {
        &self.map
    }

    /// The column of `ty`, if `ty` is registered.
    pub fn components(&self, ty: &TypeInfo) -> (column: Option<&ErasedVec>)
        requires
            self.wf(),
        ensures
            match column {
                Some(column) => self@.registered(*ty) && column@ == self@.column(*ty)
                    && column.wf(),
                None => !self@.registered(*ty),
            },
    {
        match self.bitmasks.get(ty) {
            Some(position) => {
                proof {
                    self.lemma_position(*ty);
                }
                Some(&self.components[position])
            },
            None => None,
        }
    }

    /// Returns the mask of `ty`: the bit at the place at which `ty` was
    /// registered; `None` where it was not.
    pub fn get_bitmask(&self, ty: &TypeInfo) -> (mask: Option<u128>)
        requires
            self.wf(),
        ensures
            mask == self@.bitmask(*ty),
    {
        match self.bitmasks.get(ty) {
            Some(position) => {
                proof {
                    self.lemma_position(*ty);
                }
                Some(1u128 << position)
            },
            None => None,
        }
    }

    /// Register `ty` as a component type.
    ///
    /// All types must be registered before they can be used as components.
    /// The new column gets a slot for each entity that exists. A type is
    /// registered once, and a table takes `MAX_COMPONENTS` types.
    ///
    /// Fails, and changes nothing, with `ErasedVecAllocError` exactly where
    /// the values have a size and there are more entities than an array of
    /// them may have.
    pub fn register_component(&mut self, ty: TypeInfo) -> (r: Result<(), ErasedVecErrors>)
        requires
            old(self).wf(),
            !old(self)@.registered(ty),
            old(self)@.columns.len() < MAX_COMPONENTS,
        ensures
            final(self).wf(),
            match r {
                Ok(()) => final(self)@ == old(self)@.register(ty),
                Err(e) => {
                    &&& ty.spec_size() > 0
                    &&& old(self)@.masks.len() > crate::storage::array_limit(
                        ty.spec_size(),
                        ty.spec_align(),
                    )
                    &&& e == ErasedVecErrors::ErasedVecAllocError
                    &&& final(self)@ == old(self)@
                },
            },
    {
        // Create new component storage
        let column = match ErasedVec::padded(ty, self.map.len()) {
            Ok(column) => column,
            Err(e) => {
                return Err(e);
            },
        };
        proof {
            column.lemma_shape();
        }
        // The place of the column is the place of the type's bit
        let position = self.components.len();
        self.components.push(column);
        self.bitmasks.insert(ty, position);
        proof {
            let after = self@;
            let expected = old(self)@.register(ty);
            assert(after.columns =~= expected.columns) by {
                assert(column@.values =~= expected.columns[position as int].values);
                assert(column@.fills =~= expected.columns[position as int].fills);
            }
            assert(after == expected);
            assert(after.wf()) by {
                assert forall|k: int, e: int|
                    0 <= k < after.columns.len() && 0 <= e < after.masks.len() && has_bit(
                        after.masks[e],
                        k as usize,
                    ) implies #[trigger] after.columns[k].fills[e] by {
                    if k < position {
                        assert(after.columns[k] == old(self)@.columns[k]);
                    } else {
                        assert(!has_bit(old(self)@.masks[e], k as usize));
                    }
                }
                assert forall|k: int| 0 <= k < after.columns.len() implies after.positions.contains_key(
                    (#[trigger] after.columns[k]).ty.spec_id(),
                ) && after.positions[after.columns[k].ty.spec_id()] == k by {
                    if k < position {
                        assert(after.columns[k] == old(self)@.columns[k]);
                    }
                }
            }
        }
        Ok(())
    }

    /// Returns the next free entity id for insertion, and makes it the slot
    /// that `with_component` writes to.
    ///
    /// The first slot with an empty mask is taken again, as it stands: what
    /// its columns hold is not released. Where no slot is free, every column
    /// gets one more slot, of zero bytes and not filled.
    ///
    /// Fails, and changes nothing, where no slot is free and a column cannot
    /// take another: with the error of the first such column.
    pub fn create_entity(&mut self) -> (r: Result<Entity, ErasedVecErrors>)
        requires
            old(self).wf(),
        ensures
            final(self).wf(),
            final(self)@ == old(self)@.create_entity(),
            match r {
                Ok(entity) => {
                    &&& entity == final(self)@.cursor
                    &&& entity < final(self)@.masks.len()
                    &&& entity == old(self)@.first_free()
                    &&& entity == old(self)@.masks.len() ==> old(self)@.first_full() == old(
                        self,
                    )@.columns.len()
                },
                Err(e) => {
                    &&& old(self)@.first_free() == old(self)@.masks.len()
                    &&& old(self)@.first_full() < old(self)@.columns.len()
                    &&& old(self)@.columns[old(self)@.first_full()].room_error() == Some(e)
                },
            },
    {
        let slots = self.map.len();
        let mut index: usize = 0;
        while index < slots && self.map[index] != 0
            invariant
                slots == self.map@.len(),
                index <= slots,
                forall|e: int| 0 <= e < index ==> self.map@[e] != 0,
            decreases slots - index,
        {
            index += 1;
        }
        proof {
            lemma_first_where(slots as int, self@.free_at(), index as int);
        }
        if index < slots {
            self.inserting_into_index = index;
            proof {
                assert(self@.columns =~= old(self)@.columns);
                assert(self@ == old(self)@.create_entity());
            }
            return Ok(index);
        }
        // If there are no free entity slots grow the entities struct
        let columns = self.components.len();
        let mut k: usize = 0;
        while k < columns
            invariant
                self.wf(),
                *self == *old(self),
                self@.first_free() == slots,
                slots == self@.masks.len(),
                columns == self.components@.len(),
                k <= columns,
                forall|j: int| 0 <= j < k ==> (#[trigger] self@.columns[j]).room_error() is None,
            decreases columns - k,
        {
            proof {
                assert(self@.columns[k as int] == self.components@[k as int]@);
            }
            match self.components[k].check_room() {
                Ok(()) => {},
                Err(e) => {
                    proof {
                        assert(self@.columns[k as int].room_error() == Some(e));
                        assert(self@.full_at()(k as int));
                        lemma_first_where(columns as int, self@.full_at(), k as int);
                    }
                    return Err(e);
                },
            }
            k += 1;
        }
        proof {
            lemma_first_where(columns as int, self@.full_at(), columns as int);
        }
        let mut k: usize = 0;
        while k < columns
            invariant
                old(self).wf(),
                columns == self.components@.len(),
                columns == old(self).components@.len(),
                k <= columns,
                self.map == old(self).map,
                self.bitmasks == old(self).bitmasks,
                self.inserting_into_index == old(self).inserting_into_index,
                forall|j: int| 0 <= j < columns ==> (#[trigger] old(self)@.columns[j]).room_error() is None,
                forall|j: int|
                    0 <= j < k ==> (#[trigger] self.components@[j]).wf() && self.components@[j]@
                        == old(self).components@[j]@.pad(),
                forall|j: int|
                    k <= j < columns ==> (#[trigger] self.components@[j]) == old(
                        self,
                    ).components@[j],
            decreases columns - k,
        {
            proof {
                assert(old(self)@.columns[k as int] == old(self).components@[k as int]@);
                assert(old(self).components@[k as int].wf());
            }
            let _ = self.components[k].pad();
            k += 1;
        }
        self.map.push(0);
        self.inserting_into_index = slots;
        proof {
            let after = self@;
            let expected = old(self)@.extend();
            assert(after.columns =~= expected.columns) by {
                assert forall|j: int| 0 <= j < columns implies after.columns[j]
                    == expected.columns[j] by {
                    assert(old(self)@.columns[j] == old(self).components@[j]@);
                }
            }
            assert(after == expected);
            assert(after.wf()) by {
                assert forall|j: int, e: int|
                    0 <= j < after.columns.len() && 0 <= e < after.masks.len() && has_bit(
                        after.masks[e],
                        j as usize,
                    ) implies #[trigger] after.columns[j].fills[e] by {
                    assert(old(self)@.columns[j] == old(self).components@[j]@);
                    if e < slots {
                        assert(old(self)@.columns[j].fills[e]);
                    } else {
                        lemma_no_bit(j as usize);
                    }
                }
                assert forall|e: int, j: usize|
                    0 <= e < after.masks.len() && after.columns.len() <= j
                        < MAX_COMPONENTS implies !#[trigger] has_bit(after.masks[e], j) by {
                    if e < slots {
                        assert(!has_bit(old(self)@.masks[e], j));
                    } else {
                        lemma_no_bit(j);
                    }
                }
                assert forall|j: int| 0 <= j < after.columns.len() implies after.positions.contains_key(
                    (#[trigger] after.columns[j]).ty.spec_id(),
                ) && after.positions[after.columns[j].ty.spec_id()] == j by {
                    assert(old(self)@.columns[j] == old(self).components@[j]@);
                }
                assert forall|j: int| 0 <= j < after.columns.len() implies (
                #[trigger] after.columns[j]).values.len() == after.masks.len()
                    && after.columns[j].fills.len() == after.masks.len() by {
                    assert(old(self)@.columns[j] == old(self).components@[j]@);
                }
            }
        }
        Ok(slots)
    }

    /// A table whose column of `ty` took `value` at `entity`, and whose mask
    /// of `entity` took the bit of `ty`, is the table with that component
    /// set.
    proof fn lemma_written(
        before: &Self,
        after: &Self,
        entity: usize,
        ty: TypeInfo,
        value: Seq<u8>,
    )
        requires
            before.wf(),
            before@.registered(ty),
            entity < before.map@.len(),
            after.components@.len() == before.components@.len(),
            after.components@[before@.position(ty) as int].replaced(
                &before.components@[before@.position(ty) as int],
                entity as int,
                value,
                true,
            ),
            forall|j: int|
                0 <= j < before.components@.len() && j != before@.position(ty)
                    ==> #[trigger] after.components@[j] == before.components@[j],
            after.bitmasks == before.bitmasks,
            after.map@ == before.map@.update(
                entity as int,
                before.map@[entity as int] | bit_at(before@.position(ty)),
            ),
            after.inserting_into_index == before.inserting_into_index,
        ensures
            after.wf(),
            after@ == before@.set_component(entity, ty, value),
            after@.same_shape(before@),
    {
        before.lemma_position(ty);
        let position = before@.position(ty);
        let expected = before@.set_component(entity, ty, value);
        assert(after@.columns =~= expected.columns) by {
            assert forall|j: int| 0 <= j < before.components@.len() implies after@.columns[j]
                == expected.columns[j] by {
                assert(before@.columns[j] == before.components@[j]@);
            }
        }
        assert(after@ == expected);
        assert forall|k: int, e: int|
            0 <= k < after@.columns.len() && 0 <= e < after@.masks.len() && has_bit(
                after@.masks[e],
                k as usize,
            ) implies #[trigger] after@.columns[k].fills[e] by {
            assert(before@.columns[k] == before.components@[k]@);
            if e == entity {
                lemma_set_bit(before.map@[entity as int], position, k as usize);
            }
            if !(k == position && e == entity) {
                assert(before@.columns[k].fills[e]);
            }
        }
        assert forall|e: int, k: usize|
            0 <= e < after@.masks.len() && after@.columns.len() <= k
                < MAX_COMPONENTS implies !#[trigger] has_bit(after@.masks[e], k) by {
            assert(!has_bit(before@.masks[e], k));
            if e == entity {
                lemma_set_bit(before.map@[entity as int], position, k);
            }
        }
        assert forall|k: int| 0 <= k < after@.columns.len() implies after@.positions.contains_key(
            (#[trigger] after@.columns[k]).ty.spec_id(),
        ) && after@.positions[after@.columns[k].ty.spec_id()] == k by {
            assert(before@.columns[k] == before.components@[k]@);
        }
        assert forall|k: int| 0 <= k < after@.columns.len() implies (
        #[trigger] after@.columns[k]).values.len() == after@.masks.len()
            && after@.columns[k].fills.len() == after@.masks.len() by {
            assert(before@.columns[k] == before.components@[k]@);
        }
        assert forall|k: int| 0 <= k < after@.columns.len() implies (
        #[trigger] after@.columns[k]).ty == before@.columns[k].ty by {
            assert(before@.columns[k] == before.components@[k]@);
        }
    }

    /// Add a component of type `ty` to the entity that `create_entity`
    /// returned last, and set its bit in the mask of that entity.
    ///
    /// What the slot held is overwritten and not released.
    ///
    /// Fails, and changes nothing, with `CreateComponentNeverCalled` where
    /// `ty` is not registered, else with `EntityDoesNotExist` where no entity
    /// was created yet.
    pub fn with_component(&mut self, ty: TypeInfo, data: &[u8]) -> (r: Result<(), EcsErrors>)
        requires
            old(self).wf(),
            old(self)@.fits(ty, data@),
        ensures
            final(self).wf(),
            final(self)@.same_shape(old(self)@),
            match r {
                Ok(()) => {
                    &&& old(self)@.registered(ty)
                    &&& old(self)@.exists_entity(old(self)@.cursor)
                    &&& final(self)@ == old(self)@.set_component(old(self)@.cursor, ty, data@)
                },
                Err(e) => {
                    &&& final(self)@ == old(self)@
                    &&& if !old(self)@.registered(ty) {
                        e.is_never_created(ty.spec_name())
                    } else {
                        !old(self)@.exists_entity(old(self)@.cursor) && e
                            == EcsErrors::EntityDoesNotExist
                    }
                },
            },
    {
        let index = self.inserting_into_index;
        let position = match self.bitmasks.get(&ty) {
            Some(position) => position,
            None => {
                // Return an error if the component type was never registered
                return Err(EcsErrors::CreateComponentNeverCalled { component: ty.name() });
            },
        };
        if index >= self.map.len() {
            return Err(EcsErrors::EntityDoesNotExist);
        }
        proof {
            self.lemma_position(ty);
        }
        let _ = self.components[position].set(ty, index, data);
        self.map[index] = self.map[index] | (1u128 << position);
        proof {
            Self::lemma_written(old(self), self, index, ty, data@);
        }
        Ok(())
    }

    /// Writes a type-erased component of `entity` and sets its bit. Where
    /// the component was live, what the slot held is released and comes
    /// back.
    fn put_erased(&mut self, entity: Entity, ty: TypeInfo, value: &[u8], position: usize) -> (released:
        Option<Vec<u8>>)
        requires
            old(self).wf(),
            old(self)@.registered(ty),
            old(self)@.position(ty) == position,
            old(self)@.exists_entity(entity),
            old(self)@.fits(ty, value@),
        ensures
            final(self).wf(),
            final(self)@.same_shape(old(self)@),
            final(self)@ == old(self)@.set_component(entity, ty, value@),
            match released {
                Some(bytes) => old(self)@.has(entity, ty) && bytes@ == old(self)@.column(
                    ty,
                ).values[entity as int],
                None => !old(self)@.has(entity, ty),
            },
    {
        proof {
            self.lemma_position(ty);
        }
        let has_component = self.map[entity] & (1u128 << position) != 0;
        let released = if has_component {
            // If it has the component reset the slot
            match self.components[position].reset_erased(entity, ty, value) {
                Ok(released) => Some(released),
                Err(_) => None,
            }
        } else {
            // Otherwise set the slot
            let _ = self.components[position].set_erased(entity, ty, value);
            None
        };
        self.map[entity] = self.map[entity] | (1u128 << position);
        proof {
            Self::lemma_written(old(self), self, entity, ty, value@);
        }
        released
    }

    /// Add a bundle of components to the entity that `create_entity`
    /// returned last: `values` are the values of the bundle and `tys` their
    /// types, in the order of the bundle.
    ///
    /// The components are written in their order up to the first that
    /// cannot be: those before it stay written. What the slots held is
    /// overwritten and not released.
    ///
    /// Fails with `CreateComponentNeverCalled`, naming the type, at the first
    /// type that is not registered; with `EntityDoesNotExist` where no entity
    /// was created yet.
    pub fn with_components(&mut self, tys: &Vec<TypeInfo>, values: &Vec<Vec<u8>>) -> (r: Result<
        (),
        EcsErrors,
    >)
        requires
            old(self).wf(),
            old(self)@.fits_all(tys@, views(values@)),
        ensures
            final(self).wf(),
            final(self)@.same_shape(old(self)@),
            final(self)@ == old(self)@.set_components(
                old(self)@.cursor,
                tys@,
                views(values@),
                old(self)@.writable(old(self)@.cursor, tys@),
            ),
            match r {
                Ok(()) => old(self)@.writable(old(self)@.cursor, tys@) == tys@.len(),
                Err(e) => {
                    let failed = old(self)@.writable(old(self)@.cursor, tys@);
                    &&& failed < tys@.len()
                    &&& if !old(self)@.registered(tys@[failed]) {
                        e.is_never_created(tys@[failed].spec_name())
                    } else {
                        !old(self)@.exists_entity(old(self)@.cursor) && e
                            == EcsErrors::EntityDoesNotExist
                    }
                },
            },
    {
        let entity = self.inserting_into_index;
        let count = tys.len();
        let mut index: usize = 0;
        while index < count
            invariant
                old(self).wf(),
                self.wf(),
                count == tys@.len(),
                index <= count,
                entity == old(self)@.cursor,
                old(self)@.fits_all(tys@, views(values@)),
                self@.same_shape(old(self)@),
                self@.cursor == old(self)@.cursor,
                self@ == old(self)@.set_components(entity, tys@, views(values@), index as int),
                index > 0 ==> old(self)@.exists_entity(entity),
                forall|i: int| 0 <= i < index ==> old(self)@.registered(#[trigger] tys@[i]),
            decreases count - index,
        {
            let ty = tys[index];
            proof {
                assert(views(values@)[index as int] == values@[index as int]@);
                assert(old(self)@.fits(tys@[index as int], views(values@)[index as int]));
                if self@.registered(ty) {
                    old(self).lemma_position(ty);
                    self.lemma_position(ty);
                }
            }
            let position = match self.bitmasks.get(&ty) {
                Some(position) => position,
                None => {
                    proof {
                        lemma_first_where(
                            count as int,
                            old(self)@.unregistered_at(tys@),
                            index as int,
                        );
                    }
                    return Err(EcsErrors::CreateComponentNeverCalled { component: ty.name() });
                },
            };
            if entity >= self.map.len() {
                return Err(EcsErrors::EntityDoesNotExist);
            }
            let ghost before = *self;
            let _ = self.components[position].set_erased(entity, ty, values[index].as_slice());
            self.map[entity] = self.map[entity] | (1u128 << position);
            proof {
                Self::lemma_written(&before, self, entity, ty, values@[index as int]@);
            }
            index += 1;
        }
        proof {
            lemma_first_where(count as int, old(self)@.unregistered_at(tys@), count as int);
        }
        Ok(())
    }

    /// Delete the component of type `ty` from the entity: its bit is
    /// cleared, and the column is left as it is. Where `ty` is not
    /// registered nothing is done.
    ///
    /// Fails, and changes nothing, with `EntityDoesNotExist` exactly where
    /// `ty` is registered and `entity` names no slot.
    pub fn delete_component(&mut self, ty: TypeInfo, entity: Entity) -> (r: Result<(), EcsErrors>)
        requires
            old(self).wf(),
        ensures
            final(self).wf(),
            final(self)@.same_shape(old(self)@),
            match r {
                Ok(()) => if old(self)@.registered(ty) {
                    old(self)@.exists_entity(entity) && final(self)@ == old(
                        self,
                    )@.delete_component(entity, ty)
                } else {
                    final(self)@ == old(self)@
                },
                Err(e) => {
                    &&& old(self)@.registered(ty)
                    &&& !old(self)@.exists_entity(entity)
                    &&& e == EcsErrors::EntityDoesNotExist
                    &&& final(self)@ == old(self)@
                },
            },
    {
        self.delete_component_erased(entity, ty)
    }

    /// Delete a type-erased component from the entity: its bit is cleared,
    /// and the column is left as it is. Where `ty` is not registered nothing
    /// is done.
    ///
    /// Fails, and changes nothing, with `EntityDoesNotExist` exactly where
    /// `ty` is registered and `entity` names no slot.
    pub fn delete_component_erased(&mut self, entity: Entity, ty: TypeInfo) -> (r: Result<
        (),
        EcsErrors,
    >)
        requires
            old(self).wf(),
        ensures
            final(self).wf(),
            final(self)@.same_shape(old(self)@),
            match r {
                Ok(()) => if old(self)@.registered(ty) {
                    old(self)@.exists_entity(entity) && final(self)@ == old(
                        self,
                    )@.delete_component(entity, ty)
                } else {
                    final(self)@ == old(self)@
                },
                Err(e) => {
                    &&& old(self)@.registered(ty)
                    &&& !old(self)@.exists_entity(entity)
                    &&& e == EcsErrors::EntityDoesNotExist
                    &&& final(self)@ == old(self)@
                },
            },
    {
        if let Some(position) = self.bitmasks.get(&ty) {
            if entity >= self.map.len() {
                return Err(EcsErrors::EntityDoesNotExist);
            }
            proof {
                self.lemma_position(ty);
            }
            self.map[entity] = self.map[entity] & !(1u128 << position);
            proof {
                let after = self@;
                assert(after.columns =~= old(self)@.columns);
                assert(after == old(self)@.delete_component(entity, ty));
                assert forall|k: int, e: int|
                    0 <= k < after.columns.len() && 0 <= e < after.masks.len() && has_bit(
                        after.masks[e],
                        k as usize,
                    ) implies #[trigger] after.columns[k].fills[e] by {
                    if e == entity {
                        lemma_clear_bit(old(self).map@[entity as int], position, k as usize);
                    }
                    assert(old(self)@.columns[k].fills[e]);
                }
                assert forall|e: int, k: usize|
                    0 <= e < after.masks.len() && after.columns.len() <= k
                        < MAX_COMPONENTS implies !#[trigger] has_bit(after.masks[e], k) by {
                    assert(!has_bit(old(self)@.masks[e], k));
                    if e == entity {
                        lemma_clear_bit(old(self).map@[entity as int], position, k);
                    }
                }
            }
        }
        Ok(())
    }

    /// Add a component of type `ty` to the provided entity, and set its bit
    /// in the mask of the entity.
    ///
    /// What the slot held is overwritten and not released.
    ///
    /// Fails, and changes nothing, with `ComponentNotRegistered` where `ty`
    /// is not registered, else with `EntityDoesNotExist` where `entity`
    /// names no slot.
    pub fn add_component(&mut self, ty: TypeInfo, entity: Entity, component: &[u8]) -> (r: Result<
        (),
        EcsErrors,
    >)
        requires
            old(self).wf(),
            old(self)@.fits(ty, component@),
        ensures
            final(self).wf(),
            final(self)@.same_shape(old(self)@),
            match r {
                Ok(()) => {
                    &&& old(self)@.registered(ty)
                    &&& old(self)@.exists_entity(entity)
                    &&& final(self)@ == old(self)@.set_component(entity, ty, component@)
                },
                Err(e) => {
                    &&& final(self)@ == old(self)@
                    &&& if !old(self)@.registered(ty) {
                        e == EcsErrors::ComponentNotRegistered
                    } else {
                        !old(self)@.exists_entity(entity) && e == EcsErrors::EntityDoesNotExist
                    }
                },
            },
    {
        let position = match self.bitmasks.get(&ty) {
            Some(position) => position,
            None => {
                return Err(EcsErrors::ComponentNotRegistered);
            },
        };
        if entity >= self.map.len() {
            return Err(EcsErrors::EntityDoesNotExist);
        }
        proof {
            self.lemma_position(ty);
        }
        self.map[entity] = self.map[entity] | (1u128 << position);
        let _ = self.components[position].set(ty, entity, component);
        proof {
            Self::lemma_written(old(self), self, entity, ty, component@);
        }
        Ok(())
    }

    /// Add a type-erased component to the entity, and set its bit in the
    /// mask of the entity.
    ///
    /// Where the entity has a live component of the type, what the slot held
    /// is released and comes back: the destructor is owed to it. Where it
    /// has none, the slot is overwritten and nothing comes back.
    ///
    /// Fails, and changes nothing, with `ComponentNotRegistered` where `ty`
    /// is not registered, else with `EntityDoesNotExist` where `entity`
    /// names no slot.
    pub fn add_component_erased(&mut self, entity: Entity, ty: TypeInfo, value: &[u8]) -> (r: Result<
        Option<Vec<u8>>,
        EcsErrors,
    >)
        requires
            old(self).wf(),
            old(self)@.fits(ty, value@),
        ensures
            final(self).wf(),
            final(self)@.same_shape(old(self)@),
            match r {
                Ok(released) => {
                    &&& old(self)@.registered(ty)
                    &&& old(self)@.exists_entity(entity)
                    &&& final(self)@ == old(self)@.set_component(entity, ty, value@)
                    &&& match released {
                        Some(bytes) => old(self)@.has(entity, ty) && bytes@ == old(
                            self,
                        )@.column(ty).values[entity as int],
                        None => !old(self)@.has(entity, ty),
                    }
                },
                Err(e) => {
                    &&& final(self)@ == old(self)@
                    &&& if !old(self)@.registered(ty) {
                        e == EcsErrors::ComponentNotRegistered
                    } else {
                        !old(self)@.exists_entity(entity) && e == EcsErrors::EntityDoesNotExist
                    }
                },
            },
    {
        match self.has_component_erased(entity, &ty) {
            Ok(_) => {},
            Err(e) => {
                return Err(e);
            },
        }
        match self.bitmasks.get(&ty) {
            Some(position) => Ok(self.put_erased(entity, ty, value, position)),
            None => Err(EcsErrors::CreateComponentNeverCalled { component: ty.name() }),
        }
    }

    /// Add a bundle of components to the provided entity: `values` are the
    /// values of the bundle and `tys` their types, in the order of the
    /// bundle.
    ///
    /// The components are written in their order up to the first that
    /// cannot be: those before it stay written. Where the entity has a live
    /// component of a type when its turn comes, what the slot held is
    /// released: the released values come back in the order of the writes,
    /// beside the outcome.
    ///
    /// Fails with `ComponentNotRegistered` at the first type that is not
    /// registered; with `EntityDoesNotExist` where `entity` names no slot.
    pub fn add_components(
        &mut self,
        entity: Entity,
        tys: &Vec<TypeInfo>,
        values: &Vec<Vec<u8>>,
    ) -> (r: (Vec<Vec<u8>>, Result<(), EcsErrors>))
        requires
            old(self).wf(),
            old(self)@.fits_all(tys@, views(values@)),
        ensures
            final(self).wf(),
            final(self)@.same_shape(old(self)@),
            final(self)@ == old(self)@.set_components(
                entity,
                tys@,
                views(values@),
                old(self)@.writable(entity, tys@),
            ),
            views(r.0@) == old(self)@.displaced(
                entity,
                tys@,
                views(values@),
                old(self)@.writable(entity, tys@),
            ),
            match r.1 {
                Ok(()) => old(self)@.writable(entity, tys@) == tys@.len(),
                Err(e) => {
                    let failed = old(self)@.writable(entity, tys@);
                    &&& failed < tys@.len()
                    &&& if !old(self)@.registered(tys@[failed]) {
                        e == EcsErrors::ComponentNotRegistered
                    } else {
                        !old(self)@.exists_entity(entity) && e == EcsErrors::EntityDoesNotExist
                    }
                },
            },
    {
        let mut released: Vec<Vec<u8>> = Vec::new();
        let count = tys.len();
        let mut index: usize = 0;
        proof {
            assert(views(released@) =~= Seq::<Seq<u8>>::empty());
        }
        while index < count
            invariant
                old(self).wf(),
                self.wf(),
                count == tys@.len(),
                index <= count,
                old(self)@.fits_all(tys@, views(values@)),
                self@.same_shape(old(self)@),
                self@ == old(self)@.set_components(entity, tys@, views(values@), index as int),
                views(released@) == old(self)@.displaced(
                    entity,
                    tys@,
                    views(values@),
                    index as int,
                ),
                index > 0 ==> old(self)@.exists_entity(entity),
                forall|i: int| 0 <= i < index ==> old(self)@.registered(#[trigger] tys@[i]),
            decreases count - index,
        {
            let ty = tys[index];
            proof {
                assert(views(values@)[index as int] == values@[index as int]@);
                assert(old(self)@.fits(tys@[index as int], views(values@)[index as int]));
                if self@.registered(ty) {
                    old(self).lemma_position(ty);
                    self.lemma_position(ty);
                }
            }
            let position = match self.bitmasks.get(&ty) {
                Some(position) => position,
                None => {
                    proof {
                        lemma_first_where(
                            count as int,
                            old(self)@.unregistered_at(tys@),
                            index as int,
                        );
                    }
                    return (released, Err(EcsErrors::ComponentNotRegistered));
                },
            };
            if entity >= self.map.len() {
                return (released, Err(EcsErrors::EntityDoesNotExist));
            }
            let ghost displaced = views(released@);
            match self.put_erased(entity, ty, values[index].as_slice(), position) {
                Some(bytes) => {
                    released.push(bytes);
                    proof {
                        assert(views(released@) =~= displaced.push(bytes@));
                    }
                },
                None => {},
            }
            index += 1;
        }
        proof {
            lemma_first_where(count as int, old(self)@.unregistered_at(tys@), count as int);
        }
        (released, Ok(()))
    }

    /// Deletes the entity: its mask is emptied, and the columns are left as
    /// they are. The next entity created takes the first emptied slot.
    ///
    /// Fails, and changes nothing, with `EntityDoesNotExist` exactly where
    /// `entity` names no slot.
    pub fn delete_entity(&mut self, entity: Entity) -> (r: Result<(), EcsErrors>)
        requires
            old(self).wf(),
        ensures
            final(self).wf(),
            final(self)@.same_shape(old(self)@),
            match r {
                Ok(()) => old(self)@.exists_entity(entity) && final(self)@ == old(
                    self,
                )@.delete_entity(entity),
                Err(e) => {
                    &&& !old(self)@.exists_entity(entity)
                    &&& e == EcsErrors::EntityDoesNotExist
                    &&& final(self)@ == old(self)@
                },
            },
    {
        if entity < self.map.len() {
            self.map[entity] = 0;
        } else {
            return Err(EcsErrors::EntityDoesNotExist);
        }
        proof {
            let after = self@;
            assert(after.columns =~= old(self)@.columns);
            assert(after == old(self)@.delete_entity(entity));
            assert forall|k: int, e: int|
                0 <= k < after.columns.len() && 0 <= e < after.masks.len() && has_bit(
                    after.masks[e],
                    k as usize,
                ) implies #[trigger] after.columns[k].fills[e] by {
                if e == entity {
                    lemma_no_bit(k as usize);
                }
                assert(old(self)@.columns[k].fills[e]);
            }
            assert forall|e: int, k: usize|
                0 <= e < after.masks.len() && after.columns.len() <= k
                    < MAX_COMPONENTS implies !#[trigger] has_bit(after.masks[e], k) by {
                assert(!has_bit(old(self)@.masks[e], k));
                if e == entity {
                    lemma_no_bit(k);
                }
            }
        }
        Ok(())
    }

    /// Checks whether an entity has a live component of type `ty`.
    ///
    /// Fails with `ComponentNotRegistered` where `ty` is not registered,
    /// else with `EntityDoesNotExist` where `entity` names no slot.
    pub fn has_component(&self, ty: TypeInfo, entity: Entity) -> (r: Result<bool, EcsErrors>)
        requires
            self.wf(),
        ensures
            match r {
                Ok(has) => {
                    &&& self@.registered(ty)
                    &&& self@.exists_entity(entity)
                    &&& has == self@.has(entity, ty)
                },
                Err(e) => if !self@.registered(ty) {
                    e == EcsErrors::ComponentNotRegistered
                } else {
                    !self@.exists_entity(entity) && e == EcsErrors::EntityDoesNotExist
                },
            },
    {
        self.has_component_erased(entity, &ty)
    }

    /// Checks whether an entity has a live component of the type that `ty`
    /// describes.
    ///
    /// Fails with `ComponentNotRegistered` where `ty` is not registered,
    /// else with `EntityDoesNotExist` where `entity` names no slot.
    pub fn has_component_erased(&self, entity: Entity, ty: &TypeInfo) -> (r: Result<
        bool,
        EcsErrors,
    >)
        requires
            self.wf(),
        ensures
            match r {
                Ok(has) => {
                    &&& self@.registered(*ty)
                    &&& self@.exists_entity(entity)
                    &&& has == self@.has(entity, *ty)
                },
                Err(e) => if !self@.registered(*ty) {
                    e == EcsErrors::ComponentNotRegistered
                } else {
                    !self@.exists_entity(entity) && e == EcsErrors::EntityDoesNotExist
                },
            },
    {
        match self.get_bitmask(ty) {
            Some(mask) => {
                if entity >= self.map.len() {
                    return Err(EcsErrors::EntityDoesNotExist);
                }
                Ok((self.map[entity] & mask) != 0)
            },
            None => Err(EcsErrors::ComponentNotRegistered),
        }
    }

    /// Fetches the component of type `ty` of `entity`.
    ///
    /// Fails with `ComponentNotRegistered` where `ty` is not registered,
    /// else with `EntityDoesNotExist` where `entity` names no slot, else
    /// with `ComponentDataDoesNotExist`, naming entity and type, where the
    /// entity has no live component of the type.
    pub fn get_component(&self, entity: Entity, ty: TypeInfo) -> (r: Result<&[u8], EcsErrors>)
        requires
            self.wf(),
        ensures
            match r {
                Ok(value) => {
                    &&& self@.registered(ty)
                    &&& self@.exists_entity(entity)
                    &&& self@.has(entity, ty)
                    &&& value@ == self@.column(ty).values[entity as int]
                },
                Err(e) => if !self@.registered(ty) {
                    e == EcsErrors::ComponentNotRegistered
                } else if !self@.exists_entity(entity) {
                    e == EcsErrors::EntityDoesNotExist
                } else {
                    !self@.has(entity, ty) && e.is_missing_data(entity, ty.spec_name())
                },
            },
    {
        let present = match self.has_component(ty, entity) {
            Ok(present) => present,
            Err(e) => {
                return Err(e);
            },
        };
        if !present {
            return Err(EcsErrors::ComponentDataDoesNotExist { entity, ty: ty.name() });
        }
        match self.bitmasks.get(&ty) {
            Some(position) => {
                proof {
                    self.lemma_position(ty);
                }
                // The presence bit stands for the checks of the column's own `get`
                Ok(self.components[position].indexed_ptr(entity))
            },
            None => Err(EcsErrors::ComponentNotRegistered),
        }
    }

    /// Fetches the component of type `ty` of `entity`, to be written in
    /// place.
    ///
    /// Fails, and changes nothing, with `ComponentNotRegistered` where `ty`
    /// is not registered, else with `EntityDoesNotExist` where `entity`
    /// names no slot, else with `ComponentDataDoesNotExist`, naming entity
    /// and type, where the entity has no live component of the type.
    pub fn get_component_mut(&mut self, entity: Entity, ty: TypeInfo) -> (r: Result<
        &mut [u8],
        EcsErrors,
    >)
        requires
            old(self).wf(),
        ensures
            match r {
                Ok(value) => {
                    &&& old(self)@.registered(ty)
                    &&& old(self)@.exists_entity(entity)
                    &&& old(self)@.has(entity, ty)
                    &&& value@ == old(self)@.column(ty).values[entity as int]
                    &&& final(value)@.len() == value@.len() ==> final(self).wf() && final(self)@
                        == old(self)@.poke(entity, ty, final(value)@)
                },
                Err(e) => {
                    &&& *final(self) == *old(self)
                    &&& if !old(self)@.registered(ty) {
                        e == EcsErrors::ComponentNotRegistered
                    } else if !old(self)@.exists_entity(entity) {
                        e == EcsErrors::EntityDoesNotExist
                    } else {
                        !old(self)@.has(entity, ty) && e.is_missing_data(entity, ty.spec_name())
                    }
                },
            },
    {
        let present = match self.has_component(ty, entity) {
            Ok(present) => present,
            Err(e) => {
                return Err(e);
            },
        };
        if !present {
            return Err(EcsErrors::ComponentDataDoesNotExist { entity, ty: ty.name() });
        }
        let position = match self.bitmasks.get(&ty) {
            Some(position) => position,
            None => {
                return Err(EcsErrors::ComponentNotRegistered);
            },
        };
        proof {
            self.lemma_position(ty);
            lemma_poked(
                self.components@,
                type_map_entries(self.bitmasks),
                self.map@,
                self.inserting_into_index,
                position as int,
                entity as int,
            );
        }
        match self.components[position].get_mut(ty, entity) {
            Ok(value) => Ok(value),
            Err(_) => Err(EcsErrors::DowncastToWrongType),
        }
    }

    /// Takes the table apart, column by column from the last registered to
    /// the first: beside the type of each column come the values of its
    /// filled slots, in the order of the slots. The destructor of the type
    /// is now owed to each of them, whether or not the mask of its entity
    /// still has the bit of the type.
    pub fn release(self) -> (released: Vec<(TypeInfo, Vec<Vec<u8>>)>)
        requires
            self.wf(),
        ensures
            released@.len() == self@.columns.len(),
            forall|i: int|
                0 <= i < released@.len() ==> {
                    let column = self@.columns[self@.columns.len() - 1 - i];
                    &&& (#[trigger] released@[i]).0 == column.ty
                    &&& views(released@[i].1@) == live(column.values, column.fills)
                },
    {
        let mut table = self;
        let mut released: Vec<(TypeInfo, Vec<Vec<u8>>)> = Vec::new();
        let ghost columns = self@.columns;
        proof {
            assert forall|k: int| 0 <= k < columns.len() implies columns[k]
                == #[trigger] self.components@[k]@ by {}
        }
        while table.components.len() > 0
            invariant
                all_wf(table.components@),
                table.components@.len() <= columns.len(),
                released@.len() == columns.len() - table.components@.len(),
                forall|k: int|
                    0 <= k < table.components@.len() ==> #[trigger] columns[k]
                        == table.components@[k]@,
                forall|i: int|
                    0 <= i < released@.len() ==> {
                        let column = columns[columns.len() - 1 - i];
                        &&& (#[trigger] released@[i]).0 == column.ty
                        &&& views(released@[i].1@) == live(column.values, column.fills)
                    },
            decreases table.components@.len(),
        {
            let ghost last = table.components@.last();
            proof {
                assert(last == table.components@[table.components@.len() - 1]);
                assert(last.wf());
            }
            let ghost before = released@;
            match table.components.pop() {
                Some(column) => {
                    let ty = column.ty();
                    let values = column.release();
                    released.push((ty, values));
                    proof {
                        assert(column == last);
                        assert(columns[table.components@.len() as int] == column@);
                        assert forall|i: int| 0 <= i < released@.len() implies {
                            let column = columns[columns.len() - 1 - i];
                            &&& (#[trigger] released@[i]).0 == column.ty
                            &&& views(released@[i].1@) == live(column.values, column.fills)
                        } by {
                            if i < before.len() {
                                assert(released@[i] == before[i]);
                            }
                        }
                    }
                },
                None => {},
            }
        }
        released
    }
}

} // verus!
