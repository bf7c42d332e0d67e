use nina::errors::{EcsErrors, ErasedVecErrors};
use nina::storage::TypeInfo;
use nina::world::World;

fn health() -> TypeInfo {
    TypeInfo::of(1, 4, 4, 0, "Health").unwrap()
}

fn armor() -> TypeInfo {
    TypeInfo::of(2, 4, 4, 0, "Armor").unwrap()
}

fn resource() -> TypeInfo {
    TypeInfo::of(3, 4, 4, 0, "Resource").unwrap()
}

/// A string of up to fifteen bytes: its length, then its bytes.
fn string() -> TypeInfo {
    TypeInfo::of(4, 16, 1, 0, "String").unwrap()
}

fn string_bytes(text: &str) -> Vec<u8> {
    let mut bytes = vec![0u8; 16];
    bytes[0] = text.len() as u8;
    bytes[1..1 + text.len()].copy_from_slice(text.as_bytes());
    bytes
}

fn read_string(bytes: &[u8]) -> String {
    String::from_utf8(bytes[1..1 + bytes[0] as usize].to_vec()).unwrap()
}

fn read_f32(bytes: &[u8]) -> f32 {
    f32::from_ne_bytes(bytes.try_into().unwrap())
}

fn read_u32(bytes: &[u8]) -> u32 {
    u32::from_ne_bytes(bytes.try_into().unwrap())
}

#[test]
fn systems_work() {
    let mut world = World::new();
    world.register_component(health()).unwrap();
    world.register_component(armor()).unwrap();
    world.add_resource(resource(), &100_i32.to_ne_bytes()).unwrap();

    world.create_entity().unwrap();
    world
        .with_components(
            &vec![health(), armor()],
            &vec![100.2_f32.to_ne_bytes().to_vec(), 44_u32.to_ne_bytes().to_vec()],
        )
        .unwrap();
    world.create_entity().unwrap();
    world.with_component(health(), &540.2_f32.to_ne_bytes()).unwrap();

    let p1_health = world.get_component(0, health()).unwrap();
    assert_eq!(read_f32(p1_health), 100.2);

    let p1_health = world.get_component_mut(1, health()).unwrap();
    p1_health.copy_from_slice(&100.0_f32.to_ne_bytes());
    assert_eq!(read_f32(p1_health), 100.0);

    some_system(&mut world);
}

fn some_system(world: &mut World) {
    let found: Vec<usize> = {
        let mut query = world.query();
        query.with_component(health()).unwrap();
        query.without_component(armor()).unwrap();
        query.run().iter().map(|entity| entity.id).collect()
    };

    // Check resources can be fetched and mutated
    let value = world.get_resource_mut(resource()).unwrap();
    value.copy_from_slice(&1002_i32.to_ne_bytes());
    assert_eq!(world.get_resource(resource()).unwrap(), 1002_i32.to_ne_bytes());

    // Check querying works
    assert_eq!(found, vec![1]);
    for entity in found {
        let health = world.get_component(entity, health()).unwrap();
        assert_eq!(read_f32(health), 100.0)
    }

    let found: Vec<usize> = {
        let mut query = world.query();
        query.with_component(health()).unwrap();
        query.run().iter().map(|entity| entity.id).collect()
    };
    assert_eq!(found, vec![0, 1]);

    for entity in found {
        if let Ok(armor) = world.get_component_mut(entity, armor()) {
            assert_eq!(read_u32(armor), 44);
            armor.copy_from_slice(&(read_u32(armor) + 6).to_ne_bytes());
        }
    }

    let mut query = world.query();
    query.with_component(armor()).unwrap();
    let entities = query.run();

    for entity in entities {
        let armor = entity.get_component(armor()).unwrap();
        assert_eq!(read_u32(armor), 50);
    }
}

#[test]
fn bundle_of_three_is_read_back_unchanged() {
    let number = TypeInfo::of(10, 4, 4, 0, "u32").unwrap();
    let float = TypeInfo::of(11, 4, 4, 0, "f32").unwrap();
    let mut world = World::new();
    world.register_component(number).unwrap();
    world.register_component(float).unwrap();
    world.register_component(string()).unwrap();

    world.create_entity().unwrap();
    world
        .with_components(
            &vec![number, float, string()],
            &vec![
                77_u32.to_ne_bytes().to_vec(),
                1.5_f32.to_ne_bytes().to_vec(),
                string_bytes("heap content"),
            ],
        )
        .unwrap();

    assert_eq!(read_u32(world.get_component(0, number).unwrap()), 77);
    assert_eq!(read_f32(world.get_component(0, float).unwrap()), 1.5);
    assert_eq!(read_string(world.get_component(0, string()).unwrap()), "heap content");
}

#[test]
fn deleted_entity_gives_its_id_to_the_next() {
    let a = TypeInfo::of(10, 4, 4, 0, "u32").unwrap();
    let mut world = World::new();
    world.register_component(a).unwrap();
    assert_eq!(world.reserve_entity(), Ok(0));
    world.with_component(a, &1_u32.to_ne_bytes()).unwrap();
    world.delete_entity(0).unwrap();
    assert_eq!(world.reserve_entity(), Ok(0));
    assert_eq!(
        world.get_component(0, a),
        Err(EcsErrors::ComponentDataDoesNotExist { entity: 0, ty: "u32".to_string() })
    );
}

#[test]
fn world_hands_the_errors_of_its_table_on() {
    let mut world = World::new();
    world.register_component(health()).unwrap();
    assert_eq!(world.with_component(health(), &[0; 4]), Err(EcsErrors::EntityDoesNotExist));
    assert_eq!(
        world.with_component(armor(), &[0; 4]),
        Err(EcsErrors::CreateComponentNeverCalled { component: "Armor".to_string() })
    );
    world.create_entity().unwrap();
    assert_eq!(world.add_component(armor(), 0, &[0; 4]), Err(EcsErrors::ComponentNotRegistered));
    assert_eq!(world.add_component(health(), 3, &[0; 4]), Err(EcsErrors::EntityDoesNotExist));
    assert_eq!(world.add_component_erased(0, health(), &[1; 4]), Ok(None));
    assert_eq!(world.add_component_erased(0, health(), &[2; 4]), Ok(Some(vec![1; 4])));
    let (released, outcome) = world.add_components(0, &vec![health()], &vec![vec![3; 4]]);
    assert_eq!(outcome, Ok(()));
    assert_eq!(released, vec![vec![2; 4]]);
    assert_eq!(world.delete_component_erased(0, health()), Ok(()));
    assert_eq!(world.delete_component(health(), 9), Err(EcsErrors::EntityDoesNotExist));
    assert_eq!(world.delete_entity(9), Err(EcsErrors::EntityDoesNotExist));
    assert_eq!(world.delete_entity(0), Ok(()));
    world.command_buffer();
}

#[test]
fn resources_of_the_world() {
    let mut world = World::new();
    assert_eq!(
        world.get_resource(resource()),
        Err(EcsErrors::ResourceDataDoesNotExist { component: "Resource".to_string() })
    );
    assert_eq!(world.add_resource(resource(), &[1; 4]), Ok(None));
    assert_eq!(world.add_resource(resource(), &[2; 4]), Ok(Some(vec![1; 4])));
    assert_eq!(world.get_resource(resource()).unwrap(), &[2; 4]);
    assert_eq!(world.remove_resource(resource()), Some(vec![2; 4]));
    assert_eq!(world.remove_resource(resource()), None);
    let unit = TypeInfo::of(9, 0, 1, 0, "Unit").unwrap();
    assert_eq!(world.add_resource(unit, &[]), Err(ErasedVecErrors::ErasedVecCapacityOverflow));
}

#[test]
fn world_taken_apart_releases_what_is_filled() {
    let mut world = World::new();
    world.register_component(health()).unwrap();
    world.register_component(armor()).unwrap();
    world.add_resource(resource(), &[9; 4]).unwrap();
    world.create_entity().unwrap();
    world.with_component(health(), &[1; 4]).unwrap();
    world.create_entity().unwrap();
    world.with_component(armor(), &[2; 4]).unwrap();
    world.create_entity().unwrap();
    world.with_component(health(), &[3; 4]).unwrap();
    // A deleted component stays in its slot until the slot is let go
    world.delete_component(health(), 2).unwrap();

    let (columns, resources) = world.release();
    assert_eq!(columns.len(), 2);
    assert_eq!(columns[0], (armor(), vec![vec![2; 4]]));
    assert_eq!(columns[1], (health(), vec![vec![1; 4], vec![3; 4]]));
    assert_eq!(resources, vec![(resource(), vec![9; 4])]);
}
