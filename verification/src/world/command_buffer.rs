use super::entities::{first_where, lemma_first_where, Entity, TableView};
use super::World;
use crate::errors::{EcsErrors, ErasedVecErrors, TypeInfoErrors};
use crate::storage::{matches_types, max_align, max_size, valid_layout, views, NoDropTuple, TypeInfo};
use vstd::prelude::*;

verus! {

/// Why replaying a command buffer stopped.
#[derive(Debug, Clone, PartialEq, Eq)]
pub enum CommandErrors {
    /// The table refused a command.
    Table(EcsErrors),
    /// No slot could be made for an entity to spawn.
    Storage(ErasedVecErrors),
}

/// What a buffered command is to its users.
pub enum CommandView {
    /// Write the values `values`, of the types `tys`, as components of
    /// `target`, or of a new entity where there is none.
    InsertOrSpawn { target: Option<Entity>, tys: Seq<TypeInfo>, values: Seq<Seq<u8>> },
    /// Delete the components of the types `tys` from `entity`.
    RemoveComponent { entity: Entity, tys: Seq<TypeInfo> },
    /// Delete `entity`.
    DeleteEntity { entity: Entity },
}

/// What replaying commands gives: the table, the values that the writes put
/// out of their slots, and whether a command failed.
pub struct Replay {
    pub table: TableView,
    pub released: Seq<Seq<u8>>,
    pub failed: bool,
}

impl TableView {
    /// Whether `other` has the types of this table at the same places.
    pub open spec fn same_types(self, other: TableView) -> bool {
        &&& self.positions == other.positions
        &&& self.columns.len() == other.columns.len()
        &&& forall|k: int|
            0 <= k < self.columns.len() ==> (#[trigger] self.columns[k]).ty == other.columns[k].ty
    }

    /// Whether an entity can be created: a slot is free, or every column can
    /// take another.
    pub open spec fn can_create(self) -> bool {
        self.first_free() < self.masks.len() || self.first_full() == self.columns.len()
    }

    /// Whether a type of `tys` is registered.
    pub open spec fn registered_at(self, tys: Seq<TypeInfo>) -> spec_fn(int) -> bool {
        |i: int| self.registered(tys[i])
    }

    /// How many of `tys`, from the first on, can be deleted from `entity`:
    /// all where `entity` names a slot, else those before the first type
    /// that is registered.
    pub open spec fn deletable(self, entity: Entity, tys: Seq<TypeInfo>) -> int {
        if self.exists_entity(entity) {
            tys.len() as int
        } else {
            first_where(tys.len() as int, self.registered_at(tys))
        }
    }

    /// The table with the components of the first `n` types of `tys`
    /// deleted from `entity`; types that are not registered are passed
    /// over.
    pub open spec fn delete_components(self, entity: Entity, tys: Seq<TypeInfo>, n: int) -> TableView
        decreases n,
    {
        if n <= 0 {
            self
        } else {
            let before = self.delete_components(entity, tys, n - 1);
            if before.registered(tys[n - 1]) {
                before.delete_component(entity, tys[n - 1])
            } else {
                before
            }
        }
    }

    /// The table after `command` was carried out as far as it can be.
    pub open spec fn apply(self, command: CommandView) -> TableView {
        match command {
            CommandView::InsertOrSpawn { target: Some(entity), tys, values } => self.set_components(
                entity,
                tys,
                values,
                self.writable(entity, tys),
            ),
            CommandView::InsertOrSpawn { target: None, tys, values } => if self.can_create() {
                let created = self.create_entity();
                created.set_components(
                    created.cursor,
                    tys,
                    values,
                    created.writable(created.cursor, tys),
                )
            } else {
                self
            },
            CommandView::RemoveComponent { entity, tys } => self.delete_components(
                entity,
                tys,
                self.deletable(entity, tys),
            ),
            CommandView::DeleteEntity { entity } => if self.exists_entity(entity) {
                self.delete_entity(entity)
            } else {
                self
            },
        }
    }

    /// The values that carrying out `command` puts out of their slots.
    pub open spec fn released_by(self, command: CommandView) -> Seq<Seq<u8>> {
        match command {
            CommandView::InsertOrSpawn { target: Some(entity), tys, values } => self.displaced(
                entity,
                tys,
                values,
                self.writable(entity, tys),
            ),
            CommandView::InsertOrSpawn { target: None, tys, values } => if self.can_create() {
                let created = self.create_entity();
                created.displaced(
                    created.cursor,
                    tys,
                    values,
                    created.writable(created.cursor, tys),
                )
            } else {
                Seq::empty()
            },
            _ => Seq::empty(),
        }
    }

    /// Whether `command` cannot be carried out in full.
    pub open spec fn fails(self, command: CommandView) -> bool {
        match command {
            CommandView::InsertOrSpawn { target: Some(entity), tys, values } => self.writable(
                entity,
                tys,
            ) < tys.len(),
            CommandView::InsertOrSpawn { target: None, tys, values } => !self.can_create() || {
                let created = self.create_entity();
                created.writable(created.cursor, tys) < tys.len()
            },
            CommandView::RemoveComponent { entity, tys } => self.deletable(entity, tys)
                < tys.len(),
            CommandView::DeleteEntity { entity } => !self.exists_entity(entity),
        }
    }

    /// Whether `error` is the error with which `command` fails: for an
    /// entity to spawn that has no slot, the error of the first column that
    /// cannot take one; for a component to write, `ComponentNotRegistered`
    /// at the first type that is not registered, else `EntityDoesNotExist`;
    /// for a component or an entity to delete, `EntityDoesNotExist`.
    pub open spec fn explains(self, command: CommandView, error: CommandErrors) -> bool {
        match command {
            CommandView::InsertOrSpawn { target: Some(entity), tys, values } => {
                let failed = self.writable(entity, tys);
                if !self.registered(tys[failed]) {
                    error == CommandErrors::Table(EcsErrors::ComponentNotRegistered)
                } else {
                    error == CommandErrors::Table(EcsErrors::EntityDoesNotExist)
                }
            },
            CommandView::InsertOrSpawn { target: None, tys, values } => if !self.can_create() {
                error matches CommandErrors::Storage(e) && self.columns[self.first_full()].room_error()
                    == Some(e)
            } else {
                let created = self.create_entity();
                let failed = created.writable(created.cursor, tys);
                if !created.registered(tys[failed]) {
                    error == CommandErrors::Table(EcsErrors::ComponentNotRegistered)
                } else {
                    error == CommandErrors::Table(EcsErrors::EntityDoesNotExist)
                }
            },
            _ => error == CommandErrors::Table(EcsErrors::EntityDoesNotExist),
        }
    }

    /// Whether the values of `command` can be components of their types in
    /// this table.
    pub open spec fn takes(self, command: CommandView) -> bool {
        match command {
            CommandView::InsertOrSpawn { target, tys, values } => self.fits_all(tys, values),
            _ => true,
        }
    }

    /// The table after the first `n` of `commands` were carried out in their
    /// order, up to and with the first that fails.
    pub open spec fn replay(self, commands: Seq<CommandView>, n: int) -> Replay
        decreases n,
    {
        if n <= 0 {
            Replay { table: self, released: Seq::empty(), failed: false }
        } else {
            let before = self.replay(commands, n - 1);
            if before.failed {
                before
            } else {
                Replay {
                    table: before.table.apply(commands[n - 1]),
                    released: before.released + before.table.released_by(commands[n - 1]),
                    failed: before.table.fails(commands[n - 1]),
                }
            }
        }
    }
}

impl TableView {
    /// How many of the first `n` of `commands` are carried out in full
    /// before one fails; `n` where none fails.
    pub open spec fn stops(self, commands: Seq<CommandView>, n: int) -> int
        decreases n,
    {
        if n <= 0 {
            0
        } else {
            let before = self.stops(commands, n - 1);
            if before < n - 1 {
                before
            } else if self.replay(commands, n - 1).table.fails(commands[n - 1]) {
                n - 1
            } else {
                n
            }
        }
    }
}

/// Once a command has failed, replaying more commands changes nothing.
pub proof fn lemma_replay_stopped(table: TableView, commands: Seq<CommandView>, k: int, n: int)
    requires
        0 <= k < n,
        table.stops(commands, k) == k,
        table.replay(commands, k + 1).failed,
    ensures
        table.replay(commands, n) == table.replay(commands, k + 1),
        table.stops(commands, n) == k,
    decreases n,
{
    if n > k + 1 {
        lemma_replay_stopped(table, commands, k, n - 1);
    } else {
        assert(!table.replay(commands, k).failed) by {
            lemma_replay_running(table, commands, k);
        }
    }
}

/// As long as every command was carried out in full, none has failed.
pub proof fn lemma_replay_running(table: TableView, commands: Seq<CommandView>, n: int)
    requires
        0 <= n,
        table.stops(commands, n) == n,
    ensures
        !table.replay(commands, n).failed,
    decreases n,
{
    if n > 0 {
        lemma_stops_bound(table, commands, n - 1);
        lemma_replay_running(table, commands, n - 1);
    }
}

/// No more commands are carried out than there are.
pub proof fn lemma_stops_bound(table: TableView, commands: Seq<CommandView>, n: int)
    requires
        0 <= n,
    ensures
        0 <= table.stops(commands, n) <= n,
    decreases n,
{
    if n > 0 {
        lemma_stops_bound(table, commands, n - 1);
    }
}

/// Creating an entity leaves the types at their places.
pub proof fn lemma_create_same_types(table: TableView)
    ensures
        table.same_types(table.create_entity()),
{
}

/// A table with the same types takes the same values.
pub proof fn lemma_same_types_fits(
    before: TableView,
    after: TableView,
    tys: Seq<TypeInfo>,
    values: Seq<Seq<u8>>,
)
    requires
        before.same_types(after),
        before.wf(),
        before.fits_all(tys, values),
    ensures
        after.fits_all(tys, values),
{
    assert forall|i: int| 0 <= i < tys.len() implies after.fits(#[trigger] tys[i], values[i]) by {
        assert(before.fits(tys[i], values[i]));
        if before.registered(tys[i]) {
            assert(before.positions.contains_key(tys[i].spec_id()));
        }
    }
}

struct RemoveInfo {
    entity: Entity,
    tys: Vec<TypeInfo>,
}

struct InsertInfo {
    entity: Option<Entity>,
    components: NoDropTuple,
}

/// A buffered command
enum Command {
    InsertOrSpawn(InsertInfo),
    RemoveComponent(RemoveInfo),
    DeleteEntity(Entity),
}

impl Command {
    spec fn wf(&self) -> bool {
        match self {
            Command::InsertOrSpawn(info) => info.components.wf(),
            _ => true,
        }
    }
}

impl View for Command {
    type V = CommandView;

    closed spec fn view(&self) -> CommandView {
        match self {
            Command::InsertOrSpawn(info) => CommandView::InsertOrSpawn {
                target: info.entity,
                tys: info.components.spec_tys(),
                values: info.components.parts(),
            },
            Command::RemoveComponent(info) => CommandView::RemoveComponent {
                entity: info.entity,
                tys: info.tys@,
            },
            Command::DeleteEntity(entity) => CommandView::DeleteEntity { entity: *entity },
        }
    }
}

/// Records operations for future application to a World
///
/// Useful when operations cannot be applied directly due to ordering concerns
/// or borrow checking.
pub struct CommandBuffer(Vec<Command>);

impl View for CommandBuffer {
    type V = Seq<CommandView>;

    closed spec fn view(&self) -> Seq<CommandView> {
        Seq::new(self.0@.len(), |i: int| self.0@[i]@)
    }
}

impl CommandBuffer {
    /// The packed values of every command are well formed.
    pub closed spec fn wf(&self) -> bool {
        forall|i: int| 0 <= i < self.0@.len() ==> (#[trigger] self.0@[i]).wf()
    }

    /// A buffer without commands.
    pub fn new() -> (buffer: Self)
        ensures
            buffer.wf(),
            buffer@ == Seq::<CommandView>::empty(),
    {
        let buffer = CommandBuffer(Vec::new());
        assert(buffer@ =~= Seq::<CommandView>::empty());
        buffer
    }

    /// Adds a command at the end.
    fn record(&mut self, command: Command)
        requires
            old(self).wf(),
            command.wf(),
        ensures
            final(self).wf(),
            final(self)@ == old(self)@.push(command@),
    {
        self.0.push(command);
        assert(self@ =~= old(self)@.push(command@));
    }

    /// Records the components `values`, of the types `tys`, for `entity`,
    /// or for a new entity where there is none.
    fn insert_or_spawn(
        &mut self,
        entity: Option<Entity>,
        tys: Vec<TypeInfo>,
        values: &Vec<Vec<u8>>,
    ) -> (r: Result<(), TypeInfoErrors>)
        requires
            old(self).wf(),
            matches_types(tys@, views(values@)),
        ensures
            final(self).wf(),
            match r {
                Ok(()) => final(self)@ == old(self)@.push(
                    CommandView::InsertOrSpawn { target: entity, tys: tys@, values: views(values@) },
                ),
                Err(e) => {
                    &&& max_size(tys@) * tys@.len() > usize::MAX || !valid_layout(
                        (max_size(tys@) * tys@.len()) as usize,
                        max_align(tys@),
                    )
                    &&& e == TypeInfoErrors::LayoutError
                    &&& final(self)@ == old(self)@
                },
            },
    {
        let components = match NoDropTuple::new(tys, values) {
            Ok(components) => components,
            Err(e) => {
                return Err(e);
            },
        };
        self.record(Command::InsertOrSpawn(InsertInfo { entity, components }));
        Ok(())
    }

    /// Create a new entity with the provided components: `values` of the
    /// types `tys`, in the order of the bundle.
    ///
    /// Fails, and records nothing, with `LayoutError` exactly where the
    /// values cannot be packed.
    pub fn spawn_entity(&mut self, tys: Vec<TypeInfo>, values: &Vec<Vec<u8>>) -> (r: Result<
        (),
        TypeInfoErrors,
    >)
        requires
            old(self).wf(),
            matches_types(tys@, views(values@)),
        ensures
            final(self).wf(),
            match r {
                Ok(()) => final(self)@ == old(self)@.push(
                    CommandView::InsertOrSpawn { target: None, tys: tys@, values: views(values@) },
                ),
                Err(e) => {
                    &&& max_size(tys@) * tys@.len() > usize::MAX || !valid_layout(
                        (max_size(tys@) * tys@.len()) as usize,
                        max_align(tys@),
                    )
                    &&& e == TypeInfoErrors::LayoutError
                    &&& final(self)@ == old(self)@
                },
            },
    {
        self.insert_or_spawn(None, tys, values)
    }

    /// Delete the specified entity.
    pub fn delete_entity(&mut self, entity: Entity)
        requires
            old(self).wf(),
        ensures
            final(self).wf(),
            final(self)@ == old(self)@.push(CommandView::DeleteEntity { entity }),
    {
        self.record(Command::DeleteEntity(entity));
    }

    /// Add a commponent to the specified entity.
    ///
    /// Fails, and records nothing, with `LayoutError` exactly where the
    /// value cannot be packed: never for a value of the size of its type.
    pub fn insert_component(&mut self, entity: Entity, ty: TypeInfo, component: &[u8]) -> (r: Result<
        (),
        TypeInfoErrors,
    >)
        requires
            old(self).wf(),
            component@.len() == ty.spec_size(),
        ensures
            final(self).wf(),
            r is Ok,
            final(self)@ == old(self)@.push(
                CommandView::InsertOrSpawn {
                    target: Some(entity),
                    tys: seq![ty],
                    values: seq![component@],
                },
            ),
    {
        let mut tys: Vec<TypeInfo> = Vec::new();
        tys.push(ty);
        let mut values: Vec<Vec<u8>> = Vec::new();
        values.push(vstd::slice::slice_to_vec(component));
        proof {
            use_type_invariant(&ty);
            assert(tys@ =~= seq![ty]);
            assert(views(values@) =~= seq![component@]);
            assert(tys@.drop_last() =~= Seq::<TypeInfo>::empty());
            assert(tys@.last() == ty);
            assert(max_size(tys@.drop_last()) == 0);
            assert(max_align(tys@.drop_last()) == 1);
            assert(max_size(tys@) == ty.spec_size());
            assert(max_align(tys@) == ty.spec_align());
            assert(max_size(tys@) * tys@.len() == ty.spec_size()) by (nonlinear_arith)
                requires
                    max_size(tys@) == ty.spec_size(),
                    tys@.len() == 1,
            ;
        }
        self.insert_components(entity, tys, &values)
    }

    /// Add commponents to the specified entity: `values` of the types
    /// `tys`, in the order of the bundle. To insert one component see
    /// [`Self::insert_component`].
    ///
    /// Fails, and records nothing, with `LayoutError` exactly where the
    /// values cannot be packed.
    pub fn insert_components(&mut self, entity: Entity, tys: Vec<TypeInfo>, values: &Vec<Vec<u8>>) -> (r:
        Result<(), TypeInfoErrors>)
        requires
            old(self).wf(),
            matches_types(tys@, views(values@)),
        ensures
            final(self).wf(),
            match r {
                Ok(()) => final(self)@ == old(self)@.push(
                    CommandView::InsertOrSpawn {
                        target: Some(entity),
                        tys: tys@,
                        values: views(values@),
                    },
                ),
                Err(e) => {
                    &&& max_size(tys@) * tys@.len() > usize::MAX || !valid_layout(
                        (max_size(tys@) * tys@.len()) as usize,
                        max_align(tys@),
                    )
                    &&& e == TypeInfoErrors::LayoutError
                    &&& final(self)@ == old(self)@
                },
            },
    {
        self.insert_or_spawn(Some(entity), tys, values)
    }

    /// Removes the component of the type `ty`.
    pub fn remove_component(&mut self, entity: Entity, ty: TypeInfo)
        requires
            old(self).wf(),
        ensures
            final(self).wf(),
            final(self)@ == old(self)@.push(
                CommandView::RemoveComponent { entity, tys: seq![ty] },
            ),
    {
        let mut tys: Vec<TypeInfo> = Vec::new();
        tys.push(ty);
        assert(tys@ =~= seq![ty]);
        self.remove_components(entity, tys)
    }

    /// Removes the components of the types `tys`.
    pub fn remove_components(&mut self, entity: Entity, tys: Vec<TypeInfo>)
        requires
            old(self).wf(),
        ensures
            final(self).wf(),
            final(self)@ == old(self)@.push(CommandView::RemoveComponent { entity, tys: tys@ }),
    {
        self.record(Command::RemoveComponent(RemoveInfo { entity, tys }));
    }

    /// Remove all commands from the [`CommandBuffer`].
    pub fn clear(&mut self)
        ensures
            final(self).wf(),
            final(self)@ == Seq::<CommandView>::empty(),
    {
        *self = CommandBuffer::new();
    }

    /// Writes the components of `info` for its entity, or for a new one.
    fn apply_insert(world: &mut World, info: &InsertInfo) -> (r: (
        Vec<Vec<u8>>,
        Result<(), CommandErrors>,
    ))
        requires
            old(world).wf(),
            info.components.wf(),
            old(world).table().takes(Command::InsertOrSpawn(*info)@),
        ensures
            final(world).wf(),
            final(world).spec_resources() == old(world).spec_resources(),
            old(world).table().same_types(final(world).table()),
            final(world).table() == old(world).table().apply(Command::InsertOrSpawn(*info)@),
            views(r.0@) == old(world).table().released_by(Command::InsertOrSpawn(*info)@),
            r.1 is Err <==> old(world).table().fails(Command::InsertOrSpawn(*info)@),
            r.1 matches Err(e) ==> old(world).table().explains(Command::InsertOrSpawn(*info)@, e),
    {
        let mut released: Vec<Vec<u8>> = Vec::new();
        let ghost tys = info.components.spec_tys();
        let ghost values = info.components.parts();
        proof {
            assert(views(released@) =~= Seq::<Seq<u8>>::empty());
            lemma_create_same_types(old(world).table());
        }
        let entity = match info.entity {
            Some(entity) => entity,
            None => match world.reserve_entity() {
                Ok(entity) => entity,
                Err(e) => {
                    return (released, Err(CommandErrors::Storage(e)));
                },
            },
        };
        let ghost start = world.table();
        proof {
            lemma_same_types_fits(old(world).table(), start, tys, values);
            info.components.lemma_shape();
        }
        let count = info.components.len();
        let mut index: usize = 0;
        while index < count
            invariant
                world.wf(),
                info.components.wf(),
                world.spec_resources() == old(world).spec_resources(),
                tys == info.components.spec_tys(),
                values == info.components.parts(),
                count == info.components.spec_len(),
                count == tys.len(),
                index <= count,
                start.wf(),
                start.fits_all(tys, values),
                start.same_shape(world.table()),
                old(world).table().same_types(start),
                match info.entity {
                    Some(target) => target == entity && start == old(world).table(),
                    None => {
                        &&& old(world).table().can_create()
                        &&& start == old(world).table().create_entity()
                        &&& entity == start.cursor
                    },
                },
                world.table() == start.set_components(entity, tys, values, index as int),
                views(released@) == start.displaced(entity, tys, values, index as int),
                index > 0 ==> start.exists_entity(entity),
                forall|i: int| 0 <= i < index ==> start.registered(#[trigger] tys[i]),
            decreases count - index,
        {
            let (ty, value) = info.components.get(index);
            proof {
                assert(start.fits(tys[index as int], values[index as int]));
                if start.registered(ty) {
                    assert(start.positions.contains_key(ty.spec_id()));
                }
            }
            let ghost displaced = views(released@);
            match world.add_component_erased(entity, ty, value) {
                Ok(Some(bytes)) => {
                    released.push(bytes);
                    proof {
                        assert(views(released@) =~= displaced.push(bytes@));
                    }
                },
                Ok(None) => {},
                Err(e) => {
                    proof {
                        assert(ty == tys[index as int]);
                        if !start.registered(ty) {
                            lemma_first_where(
                                count as int,
                                start.unregistered_at(tys),
                                index as int,
                            );
                        } else {
                            assert(!start.exists_entity(entity));
                            assert(index == 0);
                        }
                        assert(start.writable(entity, tys) == index);
                    }
                    return (released, Err(CommandErrors::Table(e)));
                },
            }
            index += 1;
        }
        proof {
            lemma_first_where(count as int, start.unregistered_at(tys), count as int);
        }
        (released, Ok(()))
    }

    /// Deletes the components of `info` from its entity.
    fn apply_remove(world: &mut World, info: &RemoveInfo) -> (r: Result<(), CommandErrors>)
        requires
            old(world).wf(),
        ensures
            final(world).wf(),
            final(world).spec_resources() == old(world).spec_resources(),
            old(world).table().same_types(final(world).table()),
            final(world).table() == old(world).table().apply(Command::RemoveComponent(*info)@),
            r is Err <==> old(world).table().fails(Command::RemoveComponent(*info)@),
            r matches Err(e) ==> old(world).table().explains(Command::RemoveComponent(*info)@, e),
    {
        let ghost start = world.table();
        let ghost tys = info.tys@;
        let count = info.tys.len();
        let mut index: usize = 0;
        while index < count
            invariant
                world.wf(),
                world.spec_resources() == old(world).spec_resources(),
                start == old(world).table(),
                tys == info.tys@,
                count == tys.len(),
                index <= count,
                start.same_shape(world.table()),
                world.table() == start.delete_components(info.entity, tys, index as int),
                !start.exists_entity(info.entity) ==> forall|i: int|
                    0 <= i < index ==> !start.registered(#[trigger] tys[i]),
            decreases count - index,
        {
            match world.delete_component_erased(info.entity, info.tys[index]) {
                Ok(()) => {},
                Err(e) => {
                    proof {
                        lemma_first_where(
                            count as int,
                            start.registered_at(tys),
                            index as int,
                        );
                    }
                    return Err(CommandErrors::Table(e));
                },
            }
            index += 1;
        }
        proof {
            if !start.exists_entity(info.entity) {
                lemma_first_where(count as int, start.registered_at(tys), count as int);
            }
        }
        Ok(())
    }

    /// Execute the buffered commands on `world`, in their order, up to and
    /// with the first that fails. The buffer keeps its commands.
    ///
    /// The values that the writes put out of their slots come back, beside
    /// the outcome: the destructor is owed to them. A command that fails
    /// stays carried out as far as it went.
    pub fn run(&mut self, world: &mut World) -> (r: (Vec<Vec<u8>>, Result<(), CommandErrors>))
        requires
            old(self).wf(),
            old(world).wf(),
            forall|i: int|
                0 <= i < old(self)@.len() ==> old(world).table().takes(#[trigger] old(self)@[i]),
        ensures
            final(self).wf(),
            final(self)@ == old(self)@,
            final(world).wf(),
            final(world).spec_resources() == old(world).spec_resources(),
            final(world).table() == old(world).table().replay(
                old(self)@,
                old(self)@.len() as int,
            ).table,
            views(r.0@) == old(world).table().replay(old(self)@, old(self)@.len() as int).released,
            r.1 is Err <==> old(world).table().replay(old(self)@, old(self)@.len() as int).failed,
            r.1 matches Err(e) ==> {
                let stopped = old(world).table().stops(old(self)@, old(self)@.len() as int);
                &&& 0 <= stopped < old(self)@.len()
                &&& old(world).table().replay(old(self)@, stopped).table.explains(
                    old(self)@[stopped],
                    e,
                )
            },
    {
        let mut released: Vec<Vec<u8>> = Vec::new();
        let ghost start = world.table();
        let ghost commands = self@;
        let count = self.0.len();
        let mut index: usize = 0;
        proof {
            assert(views(released@) =~= Seq::<Seq<u8>>::empty());
        }
        while index < count
            invariant
                self.wf(),
                *self == *old(self),
                commands == self@,
                count == commands.len(),
                count == self.0@.len(),
                index <= count,
                start == old(world).table(),
                start.wf(),
                world.wf(),
                world.spec_resources() == old(world).spec_resources(),
                start.same_types(world.table()),
                forall|i: int| 0 <= i < commands.len() ==> start.takes(#[trigger] commands[i]),
                start.stops(commands, index as int) == index,
                start.replay(commands, index as int) == (Replay {
                    table: world.table(),
                    released: views(released@),
                    failed: false,
                }),
            decreases count - index,
        {
            let ghost before = world.table();
            let ghost gathered = views(released@);
            let ghost command = commands[index as int];
            proof {
                assert(command == self.0@[index as int]@);
                assert(self.0@[index as int].wf());
                assert(start.takes(command));
                match command {
                    CommandView::InsertOrSpawn { target, tys, values } => {
                        lemma_same_types_fits(start, before, tys, values);
                    },
                    _ => {},
                }
            }
            let outcome = match &self.0[index] {
                Command::InsertOrSpawn(insert_info) => {
                    let (mut put_out, outcome) = Self::apply_insert(world, insert_info);
                    released.append(&mut put_out);
                    outcome
                },
                Command::RemoveComponent(remove_info) => Self::apply_remove(world, remove_info),
                Command::DeleteEntity(entity) => match world.delete_entity(*entity) {
                    Ok(()) => Ok(()),
                    Err(e) => Err(CommandErrors::Table(e)),
                },
            };
            proof {
                assert(views(released@) =~= gathered + before.released_by(command));
                assert(world.table() == before.apply(command));
                assert(start.replay(commands, index + 1) == (Replay {
                    table: world.table(),
                    released: views(released@),
                    failed: before.fails(command),
                }));
            }
            match outcome {
                Ok(()) => {},
                Err(e) => {
                    proof {
                        lemma_replay_stopped(start, commands, index as int, count as int);
                    }
                    return (released, Err(e));
                },
            }
            index += 1;
        }
        (released, Ok(()))
    }
}

} // verus!
