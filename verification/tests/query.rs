use nina::errors::EcsErrors;
use nina::storage::TypeInfo;
use nina::world::query::query::Query;
use nina::world::query::query_entity::QueryEntity;
use nina::world::World;

fn u32_ty() -> TypeInfo {
    TypeInfo::of(1, 4, 4, 0, "u32").unwrap()
}

fn f32_ty() -> TypeInfo {
    TypeInfo::of(2, 4, 4, 0, "f32").unwrap()
}

fn usize_ty() -> TypeInfo {
    TypeInfo::of(3, 8, 8, 0, "usize").unwrap()
}

fn health() -> TypeInfo {
    TypeInfo::of(4, 4, 4, 0, "Health").unwrap()
}

fn damage() -> TypeInfo {
    TypeInfo::of(5, 4, 4, 0, "Damage").unwrap()
}

fn read_i32(bytes: &[u8]) -> i32 {
    i32::from_ne_bytes(bytes.try_into().unwrap())
}

fn read_u32(bytes: &[u8]) -> u32 {
    u32::from_ne_bytes(bytes.try_into().unwrap())
}

#[test]
fn query_mask_updating_with_component() {
    let mut world = World::new();
    world.register_component(u32_ty()).unwrap();
    world.register_component(f32_ty()).unwrap();
    world.register_component(usize_ty()).unwrap();

    let mut query = world.query();

    query.with_component(u32_ty()).unwrap();
    query.with_component(f32_ty()).unwrap();
    query.without_component(usize_ty()).unwrap();

    assert_eq!(query.map(), 3);
    assert_eq!(query.exclude_map(), 4);
}

#[test]
fn get_component_works() {
    let mut world = World::new();

    world.register_component(u32_ty()).unwrap();
    world.register_component(f32_ty()).unwrap();

    world.create_entity().unwrap();
    world.with_component(u32_ty(), &100_u32.to_ne_bytes()).unwrap();

    world.create_entity().unwrap();
    world.with_component(f32_ty(), &10.0_f32.to_ne_bytes()).unwrap();

    let mut query = world.query();

    query.with_component(u32_ty()).unwrap();
    let entities: Vec<QueryEntity> = query.run();

    assert_eq!(entities.len(), 1);

    for entity in entities {
        assert_eq!(entity.id, 0);
        let health = entity.get_component(u32_ty()).unwrap();
        assert_eq!(read_u32(health), 100);
    }
}

#[test]
fn query_for_entity_mutable() {
    let mut world = World::new();
    world.register_component(health()).unwrap();
    world.register_component(f32_ty()).unwrap();

    world.create_entity().unwrap();
    world.with_component(health(), &100_i32.to_ne_bytes()).unwrap();

    world.create_entity().unwrap();
    world.with_component(f32_ty(), &10.0_f32.to_ne_bytes()).unwrap();

    let mut query = world.query();

    query.with_component(health()).unwrap();
    let entities: Vec<QueryEntity> = query.run();

    assert_eq!(entities.len(), 1);

    let found: Vec<usize> = entities.iter().map(|entity| entity.id).collect();
    for entity in found {
        assert_eq!(entity, 0);
        let health = world.get_component_mut(entity, health()).unwrap();
        assert_eq!(read_i32(health), 100);
        health.copy_from_slice(&(read_i32(health) + 1).to_ne_bytes());
    }

    let mut query = world.query();
    query.with_component(health()).unwrap();
    let entities: Vec<QueryEntity> = query.run();

    for entity in entities {
        let health = entity.get_component(health()).unwrap();
        assert_eq!(read_i32(health), 101);
    }
}

#[test]
fn query_for_entity_after_component_delete() {
    let mut world = World::new();
    world.register_component(health()).unwrap();
    world.register_component(damage()).unwrap();

    world.create_entity().unwrap();
    world.with_component(health(), &100_i32.to_ne_bytes()).unwrap();
    world.add_component(damage(), 0, &100_u32.to_ne_bytes()).unwrap();
    world.delete_component(damage(), 0).unwrap();

    let mut query = world.query();

    query.with_component(health()).unwrap();
    query.with_component(damage()).unwrap();
    let entities = query.run();
    assert_eq!(entities.len(), 0);
}

#[test]
fn query_for_entity_without_component() {
    let mut world = World::new();
    world.register_component(health()).unwrap();
    world.register_component(damage()).unwrap();
    world.register_component(usize_ty()).unwrap();
    world.register_component(f32_ty()).unwrap();

    world.create_entity().unwrap();
    world.with_component(damage(), &100_u32.to_ne_bytes()).unwrap();
    world.create_entity().unwrap();
    world.with_component(damage(), &100_u32.to_ne_bytes()).unwrap();
    world.with_component(health(), &100_i32.to_ne_bytes()).unwrap();
    world.create_entity().unwrap();
    world.with_component(health(), &30_i32.to_ne_bytes()).unwrap();
    world.with_component(usize_ty(), &5_u64.to_ne_bytes()).unwrap();

    let mut query = world.query();
    query.with_component(health()).unwrap();
    query.without_component(damage()).unwrap();
    let entities = query.run();

    assert_eq!(entities.len(), 1);

    let entity = &entities[0];
    let health = entity.get_component(health()).unwrap();
    assert_eq!(read_i32(health), 30);
}

#[test]
fn query_on_an_unregistered_type_is_refused() {
    let mut world = World::new();
    world.register_component(health()).unwrap();
    let mut query = world.query();
    assert_eq!(query.with_component(damage()), Err(EcsErrors::ComponentNotRegistered));
    assert_eq!(query.without_component(damage()), Err(EcsErrors::ComponentNotRegistered));
    assert_eq!(query.map(), 0);
    assert_eq!(query.exclude_map(), 0);
}

#[test]
fn query_selects_exactly_the_matching_masks() {
    let tys = [u32_ty(), f32_ty(), usize_ty()];
    let values: [&[u8]; 3] = [&[0; 4], &[0; 4], &[0; 8]];
    let mut world = World::new();
    for ty in tys {
        world.register_component(ty).unwrap();
    }
    // One entity for each set of components, the empty set last
    for mask in (0..8_u128).rev() {
        let entity = world.reserve_entity().unwrap();
        assert_eq!(entity, 7 - mask as usize);
        for bit in 0..3 {
            if mask & (1 << bit) != 0 {
                world.with_component(tys[bit], values[bit]).unwrap();
            }
        }
    }
    for wanted in 0..8_u128 {
        for barred in 0..8_u128 {
            let mut query = world.query();
            for bit in 0..3 {
                if wanted & (1 << bit) != 0 {
                    query.with_component(tys[bit]).unwrap();
                }
                if barred & (1 << bit) != 0 {
                    query.without_component(tys[bit]).unwrap();
                }
            }
            let found: Vec<usize> = query.run().iter().map(|entity| entity.id).collect();
            let expected: Vec<usize> = (0..8_usize)
                .filter(|entity| (7 - *entity as u128) & (wanted | barred) == wanted)
                .collect();
            assert_eq!(found, expected);
        }
    }
}

#[test]
fn with_one_and_without_another() {
    let a = u32_ty();
    let b = f32_ty();
    let mut world = World::new();
    world.register_component(a).unwrap();
    world.register_component(b).unwrap();

    world.create_entity().unwrap();
    world.with_component(a, &5_u32.to_ne_bytes()).unwrap();
    world.with_component(b, &2.5_f32.to_ne_bytes()).unwrap();
    world.create_entity().unwrap();
    world.with_component(a, &7_u32.to_ne_bytes()).unwrap();

    let mut query: Query = world.query();
    query.with_component(a).unwrap();
    query.without_component(b).unwrap();
    let found = query.run();
    assert_eq!(found.len(), 1);
    assert_eq!(found[0].id, 1);
    assert_eq!(read_u32(found[0].get_component(a).unwrap()), 7);
    assert_eq!(
        found[0].get_component(b),
        Err(EcsErrors::ComponentDataDoesNotExist { entity: 1, ty: "f32".to_string() })
    );
}
