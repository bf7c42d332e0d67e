use super::query_entity::QueryEntity;
use crate::errors::EcsErrors;
use crate::storage::TypeInfo;
use crate::world::entities::EntitiesInner;
use vstd::prelude::*;

verus! {

/// Whether a mask has every bit of `wanted` and no bit of `barred`.
pub open spec fn selects(mask: u128, wanted: u128, barred: u128) -> bool {
    mask & (wanted | barred) == wanted
}

/// Where no bit is both wanted and barred, a mask is selected exactly when
/// it has every wanted bit and no barred bit.
pub proof fn lemma_selects_meaning(mask: u128, wanted: u128, barred: u128)
    requires
        wanted & barred == 0,
    ensures
        selects(mask, wanted, barred) <==> (mask & wanted == wanted && mask & barred == 0),
{
    assert(wanted & barred == 0 ==> ((mask & (wanted | barred) == wanted) <==> (mask & wanted
        == wanted && mask & barred == 0))) by (bit_vector);
}

/// Those of the first `n` slots whose mask `selects` selects, ascending.
pub open spec fn selected(masks: Seq<u128>, wanted: u128, barred: u128, n: int) -> Seq<usize>
    decreases n,
{
    if n <= 0 {
        Seq::empty()
    } else {
        let rest = selected(masks, wanted, barred, n - 1);
        if selects(masks[n - 1], wanted, barred) {
            rest.push((n - 1) as usize)
        } else {
            rest
        }
    }
}

/// The entity of each handle.
pub open spec fn ids(entities: Seq<QueryEntity>) -> Seq<usize> {
    Seq::new(entities.len(), |i: int| entities[i].spec_id())
}

/// A filter over the entities of a table: the components that an entity
/// must hold, and those that it must not.
pub struct Query<'a> {
    map: u128,
    exclude_map: u128,
    entities: &'a EntitiesInner,
}

impl<'a> Query<'a> {
    /// The bits of the components that an entity must hold.
    pub closed spec fn spec_map(&self) -> u128 {
        self.map
    }

    /// The bits of the components that an entity must not hold.
    pub closed spec fn spec_exclude_map(&self) -> u128 {
        self.exclude_map
    }

    /// The table that the query reads.
    pub closed spec fn spec_entities(&self) -> EntitiesInner {
        *self.entities
    }

    /// Create a new [`Query`], which asks for nothing yet.
    pub fn new(entities: &'a EntitiesInner) -> (query: Self)
        ensures
            query.spec_map() == 0,
            query.spec_exclude_map() == 0,
            query.spec_entities() == *entities,
    {
        Self { map: 0, exclude_map: 0, entities }
    }

    /// The bits of the components that an entity must hold.
    #[verifier::when_used_as_spec(spec_map)]
    pub fn map(&self) -> (map: u128)
        ensures
            map == self.spec_map(),
    {
        self.map
    }

    /// The bits of the components that an entity must not hold.
    #[verifier::when_used_as_spec(spec_exclude_map)]
    pub fn exclude_map(&self) -> (map: u128)
        ensures
            map == self.spec_exclude_map(),
    {
        self.exclude_map
    }

    /// Register a component the queried entities must hold.
    ///
    /// Fails, and changes nothing, with `ComponentNotRegistered` exactly
    /// where `ty` is not registered.
    pub fn with_component(&mut self, ty: TypeInfo) -> (r: Result<(), EcsErrors>)
        requires
            old(self).spec_entities().wf(),
        ensures
            final(self).spec_entities() == old(self).spec_entities(),
            final(self).spec_exclude_map() == old(self).spec_exclude_map(),
            match r {
                Ok(()) => old(self).spec_entities()@.bitmask(ty) matches Some(bit) && final(self).spec_map() == old(self).spec_map() | bit,
                Err(e) => {
                    &&& old(self).spec_entities()@.bitmask(ty) is None
                    &&& e == EcsErrors::ComponentNotRegistered
                    &&& final(self).spec_map() == old(self).spec_map()
                },
            },
    {
        if let Some(bit_mask) = self.entities.get_bitmask(&ty) {
            self.map = self.map | bit_mask;
        } else {
            return Err(EcsErrors::ComponentNotRegistered);
        }
        Ok(())
    }

    /// Register a component the queried entities must not hold.
    ///
    /// Fails, and changes nothing, with `ComponentNotRegistered` exactly
    /// where `ty` is not registered.
    pub fn without_component(&mut self, ty: TypeInfo) -> (r: Result<(), EcsErrors>)
        requires
            old(self).spec_entities().wf(),
        ensures
            final(self).spec_entities() == old(self).spec_entities(),
            final(self).spec_map() == old(self).spec_map(),
            match r {
                Ok(()) => old(self).spec_entities()@.bitmask(ty) matches Some(bit) && final(self).spec_exclude_map() == old(self).spec_exclude_map() | bit,
                Err(e) => {
                    &&& old(self).spec_entities()@.bitmask(ty) is None
                    &&& e == EcsErrors::ComponentNotRegistered
                    &&& final(self).spec_exclude_map() == old(self).spec_exclude_map()
                },
            },
    {
        if let Some(bit_mask) = self.entities.get_bitmask(&ty) {
            self.exclude_map = self.exclude_map | bit_mask;
        } else {
            return Err(EcsErrors::ComponentNotRegistered);
        }
        Ok(())
    }

    /// Returns a [`Vec`] of [`QueryEntity`] containing all entities who hold
    /// the queried components and none of the excluded ones, in ascending
    /// order of their ids.
    pub fn run(&self) -> (found: Vec<QueryEntity<'a>>)
        ensures
            ids(found@) == selected(
                self.spec_entities()@.masks,
                self.spec_map(),
                self.spec_exclude_map(),
                self.spec_entities()@.masks.len() as int,
            ),
            forall|i: int|
                0 <= i < found@.len() ==> (#[trigger] found@[i]).spec_entities()
                    == self.spec_entities(),
    {
        let masks = self.entities.map();
        let mut found: Vec<QueryEntity<'a>> = Vec::new();
        let mut index: usize = 0;
        proof {
            assert(ids(found@) =~= selected(masks@, self.map, self.exclude_map, 0));
        }
        while index < masks.len()
            invariant
                masks@ == self.spec_entities()@.masks,
                index <= masks@.len(),
                ids(found@) == selected(masks@, self.map, self.exclude_map, index as int),
                forall|i: int|
                    0 <= i < found@.len() ==> (#[trigger] found@[i]).spec_entities()
                        == self.spec_entities(),
            decreases masks@.len() - index,
        {
            let ghost before = found@;
            if (masks[index] & (self.map | self.exclude_map)) == self.map {
                found.push(QueryEntity::new(index, self.entities));
                proof {
                    assert(ids(found@) =~= ids(before).push(index));
                }
            }
            index += 1;
        }
        found
    }
}

/// `selected` holds exactly the slots below `n` whose mask is selected.
pub proof fn lemma_selected_exact(masks: Seq<u128>, wanted: u128, barred: u128, n: int)
    requires
        0 <= n <= masks.len(),
        n <= usize::MAX,
    ensures
        forall|e: usize| #[trigger]
            selected(masks, wanted, barred, n).contains(e) <==> (e < n && selects(
                masks[e as int],
                wanted,
                barred,
            )),
    decreases n,
{
    let all = selected(masks, wanted, barred, n);
    if n > 0 {
        lemma_selected_exact(masks, wanted, barred, n - 1);
        let rest = selected(masks, wanted, barred, n - 1);
        let last = (n - 1) as usize;
        assert forall|e: usize| #[trigger] all.contains(e) <==> (e < n && selects(
            masks[e as int],
            wanted,
            barred,
        )) by {
            if selects(masks[n - 1], wanted, barred) {
                assert(all == rest.push(last));
                if all.contains(e) {
                    let i = choose|i: int| 0 <= i < all.len() && all[i] == e;
                    if i < rest.len() {
                        assert(rest[i] == e);
                        assert(rest.contains(e));
                    }
                }
                if e < n && selects(masks[e as int], wanted, barred) {
                    if e == last {
                        assert(all[rest.len() as int] == e);
                    } else {
                        assert(rest.contains(e));
                        let i = choose|i: int| 0 <= i < rest.len() && rest[i] == e;
                        assert(all[i] == e);
                    }
                }
            } else {
                assert(all == rest);
                assert(rest.contains(e) <==> (e < n - 1 && selects(
                    masks[e as int],
                    wanted,
                    barred,
                )));
            }
        }
    } else {
        assert forall|e: usize| !#[trigger] all.contains(e) by {
            if all.contains(e) {
                let i = choose|i: int| 0 <= i < all.len() && all[i] == e;
            }
        }
    }
}

/// `selected` is strictly ascending, so no slot stands in it twice.
pub proof fn lemma_selected_ascending(masks: Seq<u128>, wanted: u128, barred: u128, n: int)
    requires
        0 <= n <= masks.len(),
        n <= usize::MAX,
    ensures
        forall|i: int, j: int|
            0 <= i < j < selected(masks, wanted, barred, n).len() ==> (#[trigger] selected(
                masks,
                wanted,
                barred,
                n,
            )[i]) < (#[trigger] selected(masks, wanted, barred, n)[j]),
        forall|i: int|
            0 <= i < selected(masks, wanted, barred, n).len() ==> (#[trigger] selected(
                masks,
                wanted,
                barred,
                n,
            )[i]) < n,
    decreases n,
{
    let all = selected(masks, wanted, barred, n);
    if n > 0 {
        lemma_selected_ascending(masks, wanted, barred, n - 1);
        let rest = selected(masks, wanted, barred, n - 1);
        assert forall|i: int| 0 <= i < all.len() implies (#[trigger] all[i]) < n by {
            if i < rest.len() {
                assert(rest[i] < n - 1);
            }
        }
        assert forall|i: int, j: int| 0 <= i < j < all.len() implies (#[trigger] all[i]) < (
        #[trigger] all[j]) by {
            if j < rest.len() {
                assert(rest[i] < rest[j]);
            } else {
                assert(rest[i] < n - 1);
            }
        }
    }
}

} // verus!
