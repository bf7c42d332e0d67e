use crate::errors::EcsErrors;
use crate::storage::TypeInfo;
use crate::world::entities::EntitiesInner;
use vstd::prelude::*;

verus! {

/// Structure which references an entity located by a
/// [`Query`](super::query::Query).
///
/// It reads the table that the query ran on. It cannot write to it: writes
/// go through the table itself, once no handle reads it any more.
pub struct QueryEntity<'a> {
    pub id: usize,
    entities: &'a EntitiesInner,
}

impl<'a> QueryEntity<'a> {
    /// The entity that the handle names.
    pub closed spec fn spec_id(&self) -> usize {
        self.id
    }

    /// The table that the handle reads.
    pub closed spec fn spec_entities(&self) -> EntitiesInner {
        *self.entities
    }

    /// A handle on the entity `id` of `entities`.
    pub fn new(id: usize, entities: &'a EntitiesInner) -> (entity: Self)
        ensures
            entity.spec_id() == id,
            entity.spec_entities() == *entities,
    {
        Self { id, entities }
    }

    /// Fetches the component of type `ty` of the entity.
    ///
    /// Fails with `ComponentNotRegistered` where `ty` is not registered,
    /// else with `EntityDoesNotExist` where the entity names no slot, else
    /// with `ComponentDataDoesNotExist`, naming entity and type, where the
    /// entity has no live component of the type.
    pub fn get_component(&self, ty: TypeInfo) -> (r: Result<&'a [u8], EcsErrors>)
        requires
            self.spec_entities().wf(),
        ensures
            match r {
                Ok(value) => {
                    &&& self.spec_entities()@.registered(ty)
                    &&& self.spec_entities()@.exists_entity(self.spec_id())
                    &&& self.spec_entities()@.has(self.spec_id(), ty)
                    &&& value@ == self.spec_entities()@.column(ty).values[self.spec_id() as int]
                },
                Err(e) => if !self.spec_entities()@.registered(ty) {
                    e == EcsErrors::ComponentNotRegistered
                } else if !self.spec_entities()@.exists_entity(self.spec_id()) {
                    e == EcsErrors::EntityDoesNotExist
                } else {
                    !self.spec_entities()@.has(self.spec_id(), ty) && e.is_missing_data(
                        self.spec_id(),
                        ty.spec_name(),
                    )
                },
            },
    {
        self.entities.get_component(self.id, ty)
    }
}

} // verus!
