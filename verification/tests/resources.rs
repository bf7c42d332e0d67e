use nina::errors::EcsErrors;
use nina::storage::TypeInfo;
use nina::world::resources::Resources;

fn world_width() -> TypeInfo {
    TypeInfo::of(1, 4, 4, 0, "WorldWidth").unwrap()
}

fn read(bytes: &[u8]) -> f32 {
    f32::from_ne_bytes(bytes.try_into().unwrap())
}

fn init_resource() -> Resources {
    let mut resources: Resources = Resources::default();
    let world_width_value = 100.0_f32;

    resources.add_resource(world_width(), &world_width_value.to_ne_bytes()).unwrap();

    return resources;
}

#[test]
fn add_resource() {
    let resources: Resources = init_resource();
    let stored_resource = resources.get(world_width()).unwrap();
    let extracted_world_width = read(stored_resource);
    assert_eq!(extracted_world_width, 100.0)
}

#[test]
fn get_resource() {
    let resources = init_resource();

    let world_width_value = read(resources.get(world_width()).unwrap());
    assert_eq!(world_width_value, 100.0)
}

#[test]
fn mut_get_resource() {
    let mut resources = init_resource();
    {
        let world_width_value = resources.get_mut(world_width()).unwrap();
        world_width_value.copy_from_slice(&(read(world_width_value) + 1.0).to_ne_bytes());
    }
    let world_width_value = read(resources.get_mut(world_width()).unwrap());
    assert_eq!(world_width_value, 101.0)
}

#[test]
fn remove_resource() {
    let mut resources = init_resource();

    resources.remove(world_width());
    let world_width_typeid = world_width();
    assert!(resources.get(world_width_typeid).is_err());
}

#[test]
fn resources_keep_apart_by_type() {
    let mut resources = Resources::default();
    let tys: Vec<TypeInfo> =
        (0..5_u128).map(|id| TypeInfo::of(id, 1, 1, 0, "Byte").unwrap()).collect();
    for (index, ty) in tys.iter().enumerate() {
        assert_eq!(resources.add_resource(*ty, &[index as u8]), Ok(None));
    }
    // Taking one out leaves the others where they are found
    assert_eq!(resources.remove(tys[1]), Some(vec![1]));
    assert_eq!(resources.remove(tys[4]), Some(vec![4]));
    assert_eq!(resources.remove(tys[1]), None);
    assert_eq!(resources.get(tys[0]).unwrap(), &[0]);
    assert_eq!(resources.get(tys[2]).unwrap(), &[2]);
    assert_eq!(resources.get(tys[3]).unwrap(), &[3]);
    assert_eq!(
        resources.get(tys[4]),
        Err(EcsErrors::ResourceDataDoesNotExist { component: "Byte".to_string() })
    );
    assert_eq!(
        resources.get_mut(tys[1]).map(|_| ()),
        Err(EcsErrors::ResourceDataDoesNotExist { component: "Byte".to_string() })
    );
    assert_eq!(resources.add_resource(tys[3], &[30]), Ok(Some(vec![3])));
    assert_eq!(resources.get(tys[3]).unwrap(), &[30]);
    assert_eq!(resources.get(tys[2]).unwrap(), &[2]);
}

#[test]
fn store_taken_apart_releases_every_value() {
    let mut resources = Resources::default();
    let tys: Vec<TypeInfo> =
        (0..3_u128).map(|id| TypeInfo::of(id, 1, 1, 0, "Byte").unwrap()).collect();
    for (index, ty) in tys.iter().enumerate() {
        resources.add_resource(*ty, &[index as u8]).unwrap();
    }
    resources.remove(tys[0]);
    let mut released = resources.release();
    released.sort_by_key(|(ty, _)| ty.id());
    assert_eq!(released, vec![(tys[1], vec![1]), (tys[2], vec![2])]);
}
