use self::entities::{EntitiesInner, Entity};
use self::query::query::Query;
use self::resources::Resources;
use crate::errors::{EcsErrors, ErasedVecErrors};
use crate::storage::{views, TypeInfo};
use vstd::prelude::*;

pub mod command_buffer;
pub mod entities;
pub mod query;
pub mod resources;

verus! {

/// The world: the entity table and the resources, behind one owner.
///
/// Whoever holds the world exclusively may change it; any number may read
/// it at once, through `query` among others.
pub struct World {
    resources: Resources,
    entities: EntitiesInner,
}

//Resource Implementation
impl World {
    /// The resources of the world.
    pub closed spec fn spec_resources(&self) -> Resources {
        self.resources
    }

    /// The entity table of the world.
    pub closed spec fn spec_entities(&self) -> EntitiesInner {
        self.entities
    }

    /// The table and the resources are well formed.
    pub open spec fn wf(&self) -> bool {
        &&& self.spec_resources().wf()
        &&& self.spec_entities().wf()
    }

    /// What the entity table is to its users.
    pub open spec fn table(&self) -> entities::TableView {
        self.spec_entities()@
    }

    ///Generates an empty [`World`].
    pub fn new() -> (world: Self)
        ensures
            world.wf(),
            world.spec_resources().stored() == Map::<u128, Seq<u8>>::empty(),
            world.table().columns.len() == 0,
            world.table().positions == Map::<u128, usize>::empty(),
            world.table().masks.len() == 0,
            world.table().cursor == 0,
    {
        World { resources: Default::default(), entities: Default::default() }
    }

    ///Add a new resource to the world. Where a resource of the type was
    /// stored it is released and comes back.
    ///
    /// Fails, and changes nothing, with `ErasedVecCapacityOverflow` exactly
    /// where the values of `ty` have no size.
    pub fn add_resource(&mut self, ty: TypeInfo, data: &[u8]) -> (r: Result<
        Option<Vec<u8>>,
        ErasedVecErrors,
    >)
        requires
            old(self).wf(),
            data@.len() == ty.spec_size(),
        ensures
            final(self).wf(),
            final(self).spec_entities() == old(self).spec_entities(),
            match r {
                Ok(released) => {
                    &&& ty.spec_size() > 0
                    &&& final(self).spec_resources().stored() == old(
                        self,
                    ).spec_resources().stored().insert(ty.spec_id(), data@)
                    &&& match released {
                        Some(bytes) => old(self).spec_resources().has(ty) && bytes@ == old(
                            self,
                        ).spec_resources().stored()[ty.spec_id()],
                        None => !old(self).spec_resources().has(ty),
                    }
                },
                Err(e) => {
                    &&& ty.spec_size() == 0
                    &&& e == ErasedVecErrors::ErasedVecCapacityOverflow
                    &&& final(self).spec_resources().stored() == old(
                        self,
                    ).spec_resources().stored()
                },
            },
    {
        self.resources.add_resource(ty, data)
    }

    ///Query a resource by type.
    ///
    /// Fails with `ResourceDataDoesNotExist`, naming the type, exactly where
    /// the resource has not been added.
    pub fn get_resource(&self, ty: TypeInfo) -> (r: Result<&[u8], EcsErrors>)
        requires
            self.wf(),
        ensures
            match r {
                Ok(value) => self.spec_resources().has(ty) && value@
                    == self.spec_resources().stored()[ty.spec_id()],
                Err(e) => !self.spec_resources().has(ty) && e.is_missing_resource(
                    ty.spec_name(),
                ),
            },
    {
        self.resources.get(ty)
    }

    ///Query a resource by type, to be written in place.
    ///
    /// Fails, and changes nothing, with `ResourceDataDoesNotExist`, naming
    /// the type, exactly where the resource has not been added.
    pub fn get_resource_mut(&mut self, ty: TypeInfo) -> (r: Result<&mut [u8], EcsErrors>)
        requires
            old(self).wf(),
        ensures
            match r {
                Ok(value) => {
                    &&& old(self).spec_resources().has(ty)
                    &&& value@ == old(self).spec_resources().stored()[ty.spec_id()]
                    &&& final(value)@.len() == value@.len() ==> {
                        &&& final(self).wf()
                        &&& final(self).spec_entities() == old(self).spec_entities()
                        &&& final(self).spec_resources().stored() == old(
                            self,
                        ).spec_resources().stored().insert(ty.spec_id(), final(value)@)
                    }
                },
                Err(e) => {
                    &&& *final(self) == *old(self)
                    &&& !old(self).spec_resources().has(ty)
                    &&& e.is_missing_resource(ty.spec_name())
                },
            },
    {
        self.resources.get_mut(ty)
    }

    ///Remove a resource from the [`World`]: it comes back, released. Where
    /// no resource of the type is stored nothing is done.
    pub fn remove_resource(&mut self, ty: TypeInfo) -> (released: Option<Vec<u8>>)
        requires
            old(self).wf(),
        ensures
            final(self).wf(),
            final(self).spec_entities() == old(self).spec_entities(),
            final(self).spec_resources().stored() == old(self).spec_resources().stored().remove(
                ty.spec_id(),
            ),
            match released {
                Some(bytes) => old(self).spec_resources().has(ty) && bytes@ == old(
                    self,
                ).spec_resources().stored()[ty.spec_id()],
                None => !old(self).spec_resources().has(ty),
            },
    {
        self.resources.remove(ty)
    }
}

//Entity/Components Implementation
impl World {
    /// Register `ty` as a component type.
    ///
    /// All types must be registered before they can be used as components.
    /// A type is registered once, and a world takes
    /// [`entities::MAX_COMPONENTS`] types.
    ///
    /// Fails, and changes nothing, with `ErasedVecAllocError` exactly where
    /// the values have a size and there are more entities than an array of
    /// them may have.
    pub fn register_component(&mut self, ty: TypeInfo) -> (r: Result<(), ErasedVecErrors>)
        requires
            old(self).wf(),
            !old(self).table().registered(ty),
            old(self).table().columns.len() < entities::MAX_COMPONENTS,
        ensures
            final(self).wf(),
            final(self).spec_resources() == old(self).spec_resources(),
            match r {
                Ok(()) => final(self).table() == old(self).table().register(ty),
                Err(e) => {
                    &&& ty.spec_size() > 0
                    &&& old(self).table().masks.len() > crate::storage::array_limit(
                        ty.spec_size(),
                        ty.spec_align(),
                    )
                    &&& e == ErasedVecErrors::ErasedVecAllocError
                    &&& final(self).table() == old(self).table()
                },
            },
    {
        self.entities.register_component(ty)
    }

    /// Prepares the ECS for the insertion of data into a new `Entity`.
    ///
    /// The entity is initalized without any associated components.
    ///
    /// Fails, and changes nothing, where no slot is free and a column cannot
    /// take another: with the error of the first such column.
    pub fn create_entity(&mut self) -> (r: Result<(), ErasedVecErrors>)
        requires
            old(self).wf(),
        ensures
            final(self).wf(),
            final(self).spec_resources() == old(self).spec_resources(),
            final(self).table() == old(self).table().create_entity(),
            match r {
                Ok(()) => {
                    &&& final(self).table().cursor == old(self).table().first_free()
                    &&& final(self).table().exists_entity(final(self).table().cursor)
                },
                Err(e) => {
                    &&& old(self).table().first_free() == old(self).table().masks.len()
                    &&& old(self).table().first_full() < old(self).table().columns.len()
                    &&& old(self).table().columns[old(self).table().first_full()].room_error()
                        == Some(e)
                },
            },
    {
        match self.entities.create_entity() {
            Ok(_) => Ok(()),
            Err(e) => Err(e),
        }
    }

    /// Reserves and returns a new `Entity`.
    ///
    /// Fails, and changes nothing, where no slot is free and a column cannot
    /// take another: with the error of the first such column.
    pub fn reserve_entity(&mut self) -> (r: Result<Entity, ErasedVecErrors>)
        requires
            old(self).wf(),
        ensures
            final(self).wf(),
            final(self).spec_resources() == old(self).spec_resources(),
            final(self).table() == old(self).table().create_entity(),
            match r {
                Ok(entity) => {
                    &&& entity == final(self).table().cursor
                    &&& entity == old(self).table().first_free()
                    &&& final(self).table().exists_entity(entity)
                },
                Err(e) => {
                    &&& old(self).table().first_free() == old(self).table().masks.len()
                    &&& old(self).table().first_full() < old(self).table().columns.len()
                    &&& old(self).table().columns[old(self).table().first_full()].room_error()
                        == Some(e)
                },
            },
    {
        self.entities.create_entity()
    }

    /// Add a component of type `ty` to the entity created last.
    ///
    /// Fails, and changes nothing, with `CreateComponentNeverCalled` where
    /// `ty` is not registered, else with `EntityDoesNotExist` where no entity
    /// was created yet.
    pub fn with_component(&mut self, ty: TypeInfo, data: &[u8]) -> (r: Result<(), EcsErrors>)
        requires
            old(self).wf(),
            old(self).table().fits(ty, data@),
        ensures
            final(self).wf(),
            final(self).spec_resources() == old(self).spec_resources(),
            final(self).table().same_shape(old(self).table()),
            match r {
                Ok(()) => {
                    &&& old(self).table().registered(ty)
                    &&& old(self).table().exists_entity(old(self).table().cursor)
                    &&& final(self).table() == old(self).table().set_component(
                        old(self).table().cursor,
                        ty,
                        data@,
                    )
                },
                Err(e) => {
                    &&& final(self).table() == old(self).table()
                    &&& if !old(self).table().registered(ty) {
                        e.is_never_created(ty.spec_name())
                    } else {
                        !old(self).table().exists_entity(old(self).table().cursor) && e
                            == EcsErrors::EntityDoesNotExist
                    }
                },
            },
    {
        self.entities.with_component(ty, data)
    }

    /// Add a bundle of components to the entity created last: `values` are
    /// the values of the bundle and `tys` their types, in its order.
    ///
    /// The components are written in their order up to the first that
    /// cannot be. Fails with `CreateComponentNeverCalled`, naming the type,
    /// at the first type that is not registered; with `EntityDoesNotExist`
    /// where no entity was created yet.
    pub fn with_components(&mut self, tys: &Vec<TypeInfo>, values: &Vec<Vec<u8>>) -> (r: Result<
        (),
        EcsErrors,
    >)
        requires
            old(self).wf(),
            old(self).table().fits_all(tys@, views(values@)),
        ensures
            final(self).wf(),
            final(self).spec_resources() == old(self).spec_resources(),
            final(self).table().same_shape(old(self).table()),
            final(self).table() == old(self).table().set_components(
                old(self).table().cursor,
                tys@,
                views(values@),
                old(self).table().writable(old(self).table().cursor, tys@),
            ),
            match r {
                Ok(()) => old(self).table().writable(old(self).table().cursor, tys@)
                    == tys@.len(),
                Err(e) => {
                    let failed = old(self).table().writable(old(self).table().cursor, tys@);
                    &&& failed < tys@.len()
                    &&& if !old(self).table().registered(tys@[failed]) {
                        e.is_never_created(tys@[failed].spec_name())
                    } else {
                        !old(self).table().exists_entity(old(self).table().cursor) && e
                            == EcsErrors::EntityDoesNotExist
                    }
                },
            },
    {
        self.entities.with_components(tys, values)
    }

    /// Add a component of type `ty` to the entity.
    ///
    /// Fails, and changes nothing, with `ComponentNotRegistered` where `ty`
    /// is not registered, else with `EntityDoesNotExist` where `entity`
    /// names no slot.
    pub fn add_component(&mut self, ty: TypeInfo, entity: Entity, data: &[u8]) -> (r: Result<
        (),
        EcsErrors,
    >)
        requires
            old(self).wf(),
            old(self).table().fits(ty, data@),
        ensures
            final(self).wf(),
            final(self).spec_resources() == old(self).spec_resources(),
            final(self).table().same_shape(old(self).table()),
            match r {
                Ok(()) => {
                    &&& old(self).table().registered(ty)
                    &&& old(self).table().exists_entity(entity)
                    &&& final(self).table() == old(self).table().set_component(entity, ty, data@)
                },
                Err(e) => {
                    &&& final(self).table() == old(self).table()
                    &&& if !old(self).table().registered(ty) {
                        e == EcsErrors::ComponentNotRegistered
                    } else {
                        !old(self).table().exists_entity(entity) && e
                            == EcsErrors::EntityDoesNotExist
                    }
                },
            },
    {
        self.entities.add_component(ty, entity, data)
    }

    /// Add a type-erased component to the entity. Where the entity has a
    /// live component of the type, what the slot held is released and comes
    /// back.
    ///
    /// Fails, and changes nothing, with `ComponentNotRegistered` where `ty`
    /// is not registered, else with `EntityDoesNotExist` where `entity`
    /// names no slot.
    pub fn add_component_erased(&mut self, entity: Entity, ty: TypeInfo, value: &[u8]) -> (r: Result<
        Option<Vec<u8>>,
        EcsErrors,
    >)
        requires
            old(self).wf(),
            old(self).table().fits(ty, value@),
        ensures
            final(self).wf(),
            final(self).spec_resources() == old(self).spec_resources(),
            final(self).table().same_shape(old(self).table()),
            match r {
                Ok(released) => {
                    &&& old(self).table().registered(ty)
                    &&& old(self).table().exists_entity(entity)
                    &&& final(self).table() == old(self).table().set_component(entity, ty, value@)
                    &&& match released {
                        Some(bytes) => old(self).table().has(entity, ty) && bytes@ == old(
                            self,
                        ).table().column(ty).values[entity as int],
                        None => !old(self).table().has(entity, ty),
                    }
                },
                Err(e) => {
                    &&& final(self).table() == old(self).table()
                    &&& if !old(self).table().registered(ty) {
                        e == EcsErrors::ComponentNotRegistered
                    } else {
                        !old(self).table().exists_entity(entity) && e
                            == EcsErrors::EntityDoesNotExist
                    }
                },
            },
    {
        self.entities.add_component_erased(entity, ty, value)
    }

    /// Add a bundle of components to the entity: `values` are the values of
    /// the bundle and `tys` their types, in its order.
    ///
    /// The components are written in their order up to the first that
    /// cannot be; the values that the writes put out of their slots come
    /// back, beside the outcome. Fails with `ComponentNotRegistered` at the
    /// first type that is not registered; with `EntityDoesNotExist` where
    /// `entity` names no slot.
    pub fn add_components(
        &mut self,
        entity: Entity,
        tys: &Vec<TypeInfo>,
        values: &Vec<Vec<u8>>,
    ) -> (r: (Vec<Vec<u8>>, Result<(), EcsErrors>))
        requires
            old(self).wf(),
            old(self).table().fits_all(tys@, views(values@)),
        ensures
            final(self).wf(),
            final(self).spec_resources() == old(self).spec_resources(),
            final(self).table().same_shape(old(self).table()),
            final(self).table() == old(self).table().set_components(
                entity,
                tys@,
                views(values@),
                old(self).table().writable(entity, tys@),
            ),
            views(r.0@) == old(self).table().displaced(
                entity,
                tys@,
                views(values@),
                old(self).table().writable(entity, tys@),
            ),
            match r.1 {
                Ok(()) => old(self).table().writable(entity, tys@) == tys@.len(),
                Err(e) => {
                    let failed = old(self).table().writable(entity, tys@);
                    &&& failed < tys@.len()
                    &&& if !old(self).table().registered(tys@[failed]) {
                        e == EcsErrors::ComponentNotRegistered
                    } else {
                        !old(self).table().exists_entity(entity) && e
                            == EcsErrors::EntityDoesNotExist
                    }
                },
            },
    {
        self.entities.add_components(entity, tys, values)
    }

    /// Returns the component of type `ty` of the entity.
    ///
    /// Fails with `ComponentNotRegistered` where `ty` is not registered,
    /// else with `EntityDoesNotExist` where `entity` names no slot, else
    /// with `ComponentDataDoesNotExist`, naming entity and type, where the
    /// entity has no live component of the type.
    pub fn get_component(&self, entity: Entity, ty: TypeInfo) -> (r: Result<&[u8], EcsErrors>)
        requires
            self.wf(),
        ensures
            match r {
                Ok(value) => {
                    &&& self.table().registered(ty)
                    &&& self.table().exists_entity(entity)
                    &&& self.table().has(entity, ty)
                    &&& value@ == self.table().column(ty).values[entity as int]
                },
                Err(e) => if !self.table().registered(ty) {
                    e == EcsErrors::ComponentNotRegistered
                } else if !self.table().exists_entity(entity) {
                    e == EcsErrors::EntityDoesNotExist
                } else {
                    !self.table().has(entity, ty) && e.is_missing_data(entity, ty.spec_name())
                },
            },
    {
        self.entities.get_component(entity, ty)
    }

    /// Mutably returns the component of type `ty` of the entity.
    ///
    /// Fails, and changes nothing, with `ComponentNotRegistered` where `ty`
    /// is not registered, else with `EntityDoesNotExist` where `entity`
    /// names no slot, else with `ComponentDataDoesNotExist`, naming entity
    /// and type, where the entity has no live component of the type.
    pub fn get_component_mut(&mut self, entity: Entity, ty: TypeInfo) -> (r: Result<
        &mut [u8],
        EcsErrors,
    >)
        requires
            old(self).wf(),
        ensures
            match r {
                Ok(value) => {
                    &&& old(self).table().registered(ty)
                    &&& old(self).table().exists_entity(entity)
                    &&& old(self).table().has(entity, ty)
                    &&& value@ == old(self).table().column(ty).values[entity as int]
                    &&& final(value)@.len() == value@.len() ==> {
                        &&& final(self).wf()
                        &&& final(self).spec_resources() == old(self).spec_resources()
                        &&& final(self).table() == old(self).table().poke(
                            entity,
                            ty,
                            final(value)@,
                        )
                    }
                },
                Err(e) => {
                    &&& *final(self) == *old(self)
                    &&& if !old(self).table().registered(ty) {
                        e == EcsErrors::ComponentNotRegistered
                    } else if !old(self).table().exists_entity(entity) {
                        e == EcsErrors::EntityDoesNotExist
                    } else {
                        !old(self).table().has(entity, ty) && e.is_missing_data(
                            entity,
                            ty.spec_name(),
                        )
                    }
                },
            },
    {
        self.entities.get_component_mut(entity, ty)
    }

    /// Deletes an entity from the entities list matching the index.
    ///
    /// The next entity added will overwrite the emptied slot.
    ///
    /// Fails, and changes nothing, with `EntityDoesNotExist` exactly where
    /// `entity` names no slot.
    pub fn delete_entity(&mut self, entity: Entity) -> (r: Result<(), EcsErrors>)
        requires
            old(self).wf(),
        ensures
            final(self).wf(),
            final(self).spec_resources() == old(self).spec_resources(),
            final(self).table().same_shape(old(self).table()),
            match r {
                Ok(()) => old(self).table().exists_entity(entity) && final(self).table() == old(
                    self,
                ).table().delete_entity(entity),
                Err(e) => {
                    &&& !old(self).table().exists_entity(entity)
                    &&& e == EcsErrors::EntityDoesNotExist
                    &&& final(self).table() == old(self).table()
                },
            },
    {
        self.entities.delete_entity(entity)
    }

    /// Delete the component of type `ty` from the entity. Where `ty` is not
    /// registered nothing is done.
    ///
    /// Fails, and changes nothing, with `EntityDoesNotExist` exactly where
    /// `ty` is registered and `entity` names no slot.
    pub fn delete_component(&mut self, ty: TypeInfo, entity: Entity) -> (r: Result<(), EcsErrors>)
        requires
            old(self).wf(),
        ensures
            final(self).wf(),
            final(self).spec_resources() == old(self).spec_resources(),
            final(self).table().same_shape(old(self).table()),
            match r {
                Ok(()) => if old(self).table().registered(ty) {
                    old(self).table().exists_entity(entity) && final(self).table() == old(
                        self,
                    ).table().delete_component(entity, ty)
                } else {
                    final(self).table() == old(self).table()
                },
                Err(e) => {
                    &&& old(self).table().registered(ty)
                    &&& !old(self).table().exists_entity(entity)
                    &&& e == EcsErrors::EntityDoesNotExist
                    &&& final(self).table() == old(self).table()
                },
            },
    {
        self.entities.delete_component(ty, entity)
    }

    /// Delete a type-erased component from the entity. Where `ty` is not
    /// registered nothing is done.
    ///
    /// Fails, and changes nothing, with `EntityDoesNotExist` exactly where
    /// `ty` is registered and `entity` names no slot.
    pub fn delete_component_erased(&mut self, entity: Entity, ty: TypeInfo) -> (r: Result<
        (),
        EcsErrors,
    >)
        requires
            old(self).wf(),
        ensures
            final(self).wf(),
            final(self).spec_resources() == old(self).spec_resources(),
            final(self).table().same_shape(old(self).table()),
            match r {
                Ok(()) => if old(self).table().registered(ty) {
                    old(self).table().exists_entity(entity) && final(self).table() == old(
                        self,
                    ).table().delete_component(entity, ty)
                } else {
                    final(self).table() == old(self).table()
                },
                Err(e) => {
                    &&& old(self).table().registered(ty)
                    &&& !old(self).table().exists_entity(entity)
                    &&& e == EcsErrors::EntityDoesNotExist
                    &&& final(self).table() == old(self).table()
                },
            },
    {
        self.entities.delete_component_erased(entity, ty)
    }
}

//Teardown
impl World {
    /// Takes the world apart: the values of the filled slots of each
    /// column, beside the type of the column, from the last registered to
    /// the first; and each resource beside its type. The destructor of its
    /// type is now owed to each of the values.
    pub fn release(self) -> (released: (Vec<(TypeInfo, Vec<Vec<u8>>)>, Vec<(TypeInfo, Vec<u8>)>))
        requires
            self.wf(),
        ensures
            released.0@.len() == self.table().columns.len(),
            forall|i: int|
                0 <= i < released.0@.len() ==> {
                    let column = self.table().columns[self.table().columns.len() - 1 - i];
                    &&& (#[trigger] released.0@[i]).0 == column.ty
                    &&& views(released.0@[i].1@) == crate::storage::live(
                        column.values,
                        column.fills,
                    )
                },
            forall|i: int|
                0 <= i < released.1@.len() ==> self.spec_resources().has(
                    (#[trigger] released.1@[i]).0,
                ) && released.1@[i].1@ == self.spec_resources().stored()[released.1@[i].0.spec_id()],
            forall|id: u128| #[trigger]
                self.spec_resources().stored().contains_key(id) ==> resources::among(
                    released.1@,
                    id,
                ),
    {
        let World { resources, entities } = self;
        (entities.release(), resources.release())
    }
}

//Query implementation
impl World {
    /// A query over the entities of the world, which asks for nothing yet.
    pub fn query(&self) -> (query: Query<'_>)
        ensures
            query.spec_map() == 0,
            query.spec_exclude_map() == 0,
            query.spec_entities() == self.spec_entities(),
    {
        Query::new(&self.entities)
    }
}

//CommandBuffer implementation
impl World {
    pub fn command_buffer(&self) {
    }
}

} // verus!
