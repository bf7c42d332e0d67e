use nina::errors::EcsErrors;
use nina::storage::TypeInfo;
use nina::world::command_buffer::{CommandBuffer, CommandErrors};
use nina::world::World;

fn bool_ty() -> TypeInfo {
    TypeInfo::of(1, 1, 1, 0, "bool").unwrap()
}

/// A string of up to fifteen bytes: its length, then its bytes.
fn string() -> TypeInfo {
    TypeInfo::of(2, 16, 1, 0, "String").unwrap()
}

fn u32_ty() -> TypeInfo {
    TypeInfo::of(3, 4, 4, 0, "u32").unwrap()
}

fn f32_ty() -> TypeInfo {
    TypeInfo::of(4, 4, 4, 0, "f32").unwrap()
}

fn string_bytes(text: &str) -> Vec<u8> {
    let mut bytes = vec![0u8; 16];
    bytes[0] = text.len() as u8;
    bytes[1..1 + text.len()].copy_from_slice(text.as_bytes());
    bytes
}

fn read_string(bytes: &[u8]) -> String {
    String::from_utf8(bytes[1..1 + bytes[0] as usize].to_vec()).unwrap()
}

fn read_f32(bytes: &[u8]) -> f32 {
    f32::from_ne_bytes(bytes.try_into().unwrap())
}

fn read_u32(bytes: &[u8]) -> u32 {
    u32::from_ne_bytes(bytes.try_into().unwrap())
}

fn world() -> World {
    let mut world = World::new();
    world.register_component(bool_ty()).unwrap();
    world.register_component(string()).unwrap();
    world.register_component(u32_ty()).unwrap();
    world.register_component(f32_ty()).unwrap();
    world
}

#[test]
fn insert_into_entities() {
    let mut world = world();

    let mut buffer = CommandBuffer::new();

    buffer.spawn_entity(vec![bool_ty(), string()], &vec![vec![1], string_bytes("a")]).unwrap();
    buffer
        .spawn_entity(
            vec![u32_ty(), f32_ty()],
            &vec![1_u32.to_ne_bytes().to_vec(), 1.0_f32.to_ne_bytes().to_vec()],
        )
        .unwrap();
    buffer.spawn_entity(vec![bool_ty(), string()], &vec![vec![1], string_bytes("a")]).unwrap();
    buffer
        .spawn_entity(
            vec![f32_ty(), string()],
            &vec![1.0_f32.to_ne_bytes().to_vec(), string_bytes("a")],
        )
        .unwrap();
    let (released, outcome) = buffer.run(&mut world);
    assert_eq!(outcome, Ok(()));
    assert!(released.is_empty());

    let bool_0 = world.get_component(0, bool_ty()).unwrap();
    let string_0 = world.get_component(0, string()).unwrap();
    assert_eq!(bool_0, &[true as u8]);
    assert_eq!(read_string(string_0), "a".to_string());

    let u32_1 = world.get_component(1, u32_ty()).unwrap();
    assert_eq!(read_u32(u32_1), 1);
    let uf32_1 = world.get_component(1, f32_ty()).unwrap();
    assert_eq!(read_f32(uf32_1), 1.0);

    let bool_2 = world.get_component(2, bool_ty()).unwrap();
    assert_eq!(bool_2, &[true as u8]);
    let string_2 = world.get_component(2, string()).unwrap();
    assert_eq!(read_string(string_2), "a".to_string());

    let f32_3 = world.get_component(3, f32_ty()).unwrap();
    assert_eq!(read_f32(f32_3), 1.0);
    let string_3 = world.get_component(3, string()).unwrap();
    assert_eq!(read_string(string_3), "a".to_string());
}

#[test]
fn commands_are_replayed_in_their_order() {
    let mut world = world();
    let mut buffer = CommandBuffer::new();
    buffer.spawn_entity(vec![u32_ty()], &vec![vec![1; 4]]).unwrap();
    buffer.insert_component(0, u32_ty(), &[2; 4]).unwrap();
    buffer.insert_components(0, vec![bool_ty(), u32_ty()], &vec![vec![1], vec![3; 4]]).unwrap();
    buffer.remove_component(0, bool_ty());
    buffer.spawn_entity(vec![bool_ty()], &vec![vec![0]]).unwrap();
    buffer.remove_components(1, vec![bool_ty(), u32_ty()]);
    buffer.delete_entity(1);
    buffer.spawn_entity(vec![f32_ty()], &vec![vec![4; 4]]).unwrap();

    let (released, outcome) = buffer.run(&mut world);
    assert_eq!(outcome, Ok(()));
    // The writes over live components released what was there, in order
    assert_eq!(released, vec![vec![1; 4], vec![2; 4]]);
    assert_eq!(world.get_component(0, u32_ty()).unwrap(), &[3; 4]);
    assert_eq!(
        world.get_component(0, bool_ty()),
        Err(EcsErrors::ComponentDataDoesNotExist { entity: 0, ty: "bool".to_string() })
    );
    // The deleted entity gave its slot to the one spawned after it
    assert_eq!(world.get_component(1, f32_ty()).unwrap(), &[4; 4]);
    assert_eq!(world.reserve_entity(), Ok(2));
}

#[test]
fn replay_stops_at_the_first_command_that_fails() {
    let unknown = TypeInfo::of(9, 1, 1, 0, "Unknown").unwrap();
    let mut world = world();
    let mut buffer = CommandBuffer::new();
    buffer.spawn_entity(vec![u32_ty()], &vec![vec![1; 4]]).unwrap();
    buffer.insert_components(0, vec![bool_ty(), unknown, u32_ty()], &vec![vec![1], vec![1], vec![2; 4]])
        .unwrap();
    buffer.delete_entity(0);

    let (released, outcome) = buffer.run(&mut world);
    assert_eq!(outcome, Err(CommandErrors::Table(EcsErrors::ComponentNotRegistered)));
    assert!(released.is_empty());
    // What came before the failure stays done, what came after is not done
    assert_eq!(world.get_component(0, bool_ty()).unwrap(), &[1]);
    assert_eq!(world.get_component(0, u32_ty()).unwrap(), &[1; 4]);

    let mut buffer = CommandBuffer::new();
    buffer.delete_entity(5);
    assert_eq!(buffer.run(&mut world).1, Err(CommandErrors::Table(EcsErrors::EntityDoesNotExist)));
    let mut buffer = CommandBuffer::new();
    buffer.remove_component(5, unknown);
    buffer.remove_component(5, bool_ty());
    assert_eq!(buffer.run(&mut world).1, Err(CommandErrors::Table(EcsErrors::EntityDoesNotExist)));
    let mut buffer = CommandBuffer::new();
    buffer.insert_component(5, bool_ty(), &[1]).unwrap();
    assert_eq!(buffer.run(&mut world).1, Err(CommandErrors::Table(EcsErrors::EntityDoesNotExist)));
}

#[test]
fn cleared_buffer_does_nothing() {
    let mut world = world();
    let mut buffer = CommandBuffer::new();
    buffer.spawn_entity(vec![u32_ty()], &vec![vec![1; 4]]).unwrap();
    buffer.clear();
    assert_eq!(buffer.run(&mut world), (Vec::new(), Ok(())));
    assert_eq!(world.reserve_entity(), Ok(0));
}
