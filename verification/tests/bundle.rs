use nina::storage::{Bundle, EcsData, TypeInfo};

struct Health;
struct Speed;
struct Name;

impl EcsData for Health {
    fn type_info() -> TypeInfo {
        TypeInfo::of(1, 4, 4, 0, "Health").unwrap()
    }
}

impl EcsData for Speed {
    fn type_info() -> TypeInfo {
        TypeInfo::of(2, 4, 4, 0, "Speed").unwrap()
    }
}

impl EcsData for Name {
    fn type_info() -> TypeInfo {
        TypeInfo::of(3, 24, 8, 0, "Name").unwrap()
    }
}

#[test]
fn get_type_info_from_bundle() {
    let bundle_tys = <(Health, Speed, Name)>::types();
    assert_eq!(bundle_tys[0], Health::type_info());
    assert_eq!(bundle_tys[1], Speed::type_info());
    assert_eq!(bundle_tys[2], Name::type_info());
}

#[test]
fn num_in_bundle() {
    let num_0 = <(Health, Speed, Name)>::LENGTH;
    assert_eq!(num_0, 3);

    let num_1 = <(Health, Speed, Name, Health, Speed, Name, Health, Speed, Name)>::LENGTH;
    assert_eq!(num_1, 9);

    let num_1 =
        <(Health, Speed, Name, Health, Speed, Name, Health, Speed, Name, Health, Speed, Name, Speed)>::LENGTH;
    assert_eq!(num_1, 13);
}
