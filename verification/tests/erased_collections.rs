use nina::errors::ErasedVecErrors;
use nina::storage::{ErasedBox, ErasedVec, NoDropTuple, TypeInfo};

#[derive(Debug, Clone, Copy)]
struct Health {
    pub max: i32,
    pub min: i32,
}

impl Health {
    pub fn new(max: i32) -> Self {
        Health { max, min: max }
    }

    fn ty() -> TypeInfo {
        TypeInfo::of(1, 8, 4, 0, "Health").unwrap()
    }

    fn bytes(&self) -> [u8; 8] {
        let mut bytes = [0u8; 8];
        bytes[..4].copy_from_slice(&self.max.to_ne_bytes());
        bytes[4..].copy_from_slice(&self.min.to_ne_bytes());
        bytes
    }

    fn read(bytes: &[u8]) -> Self {
        Health {
            max: i32::from_ne_bytes(bytes[..4].try_into().unwrap()),
            min: i32::from_ne_bytes(bytes[4..8].try_into().unwrap()),
        }
    }
}

#[derive(Debug, PartialEq, PartialOrd)]
struct Player;

impl Player {
    fn ty() -> TypeInfo {
        TypeInfo::of(2, 0, 1, 0, "Player").unwrap()
    }
}

/// A path of up to three steps: the number of steps, then the steps.
struct Path {
    steps: Vec<[f32; 2]>,
}

impl Path {
    fn new(steps: Vec<[f32; 2]>) -> Self {
        Path { steps }
    }

    fn ty() -> TypeInfo {
        TypeInfo::of(3, 32, 8, 0, "Path").unwrap()
    }

    fn bytes(&self) -> [u8; 32] {
        let mut bytes = [0u8; 32];
        bytes[..8].copy_from_slice(&(self.steps.len() as u64).to_ne_bytes());
        for (index, step) in self.steps.iter().enumerate() {
            let at = 8 + 8 * index;
            bytes[at..at + 4].copy_from_slice(&step[0].to_ne_bytes());
            bytes[at + 4..at + 8].copy_from_slice(&step[1].to_ne_bytes());
        }
        bytes
    }

    fn read(bytes: &[u8]) -> Self {
        let count = u64::from_ne_bytes(bytes[..8].try_into().unwrap()) as usize;
        let mut steps = Vec::new();
        for index in 0..count {
            let at = 8 + 8 * index;
            steps.push([
                f32::from_ne_bytes(bytes[at..at + 4].try_into().unwrap()),
                f32::from_ne_bytes(bytes[at + 4..at + 8].try_into().unwrap()),
            ]);
        }
        Path { steps }
    }
}

fn pull_and_check(vec: &ErasedVec) {
    let retrieved_health = Health::read(vec.get(Health::ty(), 0).unwrap());
    let retrieved_health_2 = Health::read(vec.get(Health::ty(), 1).unwrap());
    let retrieved_health_3 = Health::read(vec.get(Health::ty(), 2).unwrap());

    assert_eq!(retrieved_health.max, 100);
    assert_eq!(retrieved_health_2.max, 5483392);
    assert_eq!(retrieved_health_3.max, 25);
}

fn pull_and_mut(vec: &mut ErasedVec) {
    let health = vec.get_mut(Health::ty(), 2).unwrap();
    health[4..8].copy_from_slice(&6_i32.to_ne_bytes());
}

#[test]
fn push_into_erasedvec_and_read() {
    let health_1 = Health::new(100);
    let health_2 = Health::new(5483392);
    let health_3 = Health::new(25);

    let mut heath_vec = ErasedVec::new(Health::ty());
    heath_vec.push(Health::ty(), &health_1.bytes()).unwrap();
    heath_vec.push(Health::ty(), &health_2.bytes()).unwrap();
    heath_vec.push(Health::ty(), &health_3.bytes()).unwrap();

    //Checking pushing normally works
    pull_and_check(&heath_vec);
    pull_and_mut(&mut heath_vec);
    let health_3 = Health::read(heath_vec.get(Health::ty(), 2).unwrap()).min;
    assert_eq!(health_3, 6);

    let ty = Health::ty();
    let health_1 = Health::new(100);
    let health_2 = Health::new(5483392);
    let health_3 = Health::new(25);

    let mut heath_vec = ErasedVec::new(Health::ty());
    heath_vec.push_erased(&health_1.bytes(), ty).unwrap();
    heath_vec.push_erased(&health_2.bytes(), ty).unwrap();
    heath_vec.push_erased(&health_3.bytes(), ty).unwrap();

    //Checking pushing erased normally works
    pull_and_check(&heath_vec);
    pull_and_mut(&mut heath_vec);
    let health_3 = Health::read(heath_vec.get(Health::ty(), 2).unwrap()).min;
    assert_eq!(health_3, 6);
}

#[test]
fn push_zst_into_erasedvec_and_read() {
    let empty: [u8; 0] = [];
    let mut player_vec = ErasedVec::new(Player::ty());
    player_vec.push(Player::ty(), &empty).unwrap();
    player_vec.push(Player::ty(), &empty).unwrap();
    player_vec.pad().unwrap();
    player_vec.push(Player::ty(), &empty).unwrap();
    player_vec.pad().unwrap();
    player_vec.pad().unwrap();

    //Confirm pushing normally works
    assert_eq!(player_vec.len(), 6);

    assert_eq!(player_vec.get(Player::ty(), 0).unwrap(), empty);
    assert_eq!(player_vec.get(Player::ty(), 1).unwrap(), empty);
    assert_eq!(player_vec.get_unchecked(2).unwrap(), []);
    assert_eq!(player_vec.get(Player::ty(), 3).unwrap(), empty);
    assert_eq!(player_vec.get_unchecked(4).unwrap(), []);
    assert_eq!(player_vec.get_unchecked(5).unwrap(), []);

    let mut player_vec = ErasedVec::new(Player::ty());
    let ty: TypeInfo = Player::ty();
    player_vec.push_erased(&empty, ty).unwrap();
    player_vec.push_erased(&empty, ty).unwrap();
    player_vec.pad().unwrap();
    player_vec.push_erased(&empty, ty).unwrap();
    player_vec.pad().unwrap();
    player_vec.pad().unwrap();

    //Confirm pushing erased works
    assert_eq!(player_vec.len(), 6);
    assert_eq!(player_vec.len(), 6);
    assert_eq!(player_vec.len(), 6);

    assert_eq!(player_vec.get(Player::ty(), 0).unwrap(), empty);
    assert_eq!(player_vec.get(Player::ty(), 1).unwrap(), empty);
    assert_eq!(player_vec.get_unchecked(2).unwrap(), []);
    assert_eq!(player_vec.get(Player::ty(), 3).unwrap(), empty);
    assert_eq!(player_vec.get_unchecked(4).unwrap(), []);
    assert_eq!(player_vec.get_unchecked(5).unwrap(), []);
    assert_eq!(player_vec.filled(), &vec![true, true, false, true, false, false]);
}

#[test]
fn push_collection_into_erasedvec_and_read() {
    //Check pushing normally works
    let mut path_vec = ErasedVec::new(Path::ty());
    let path_1 = Path::new(vec![[0.0, 9222.444], [3.432, 5933.9999999], [3.484, 19444.333]]);
    let path_2 = Path::new(vec![[222222.22222, 5933.9999999]]);
    let path_3 = Path::new(Vec::default());

    path_vec.push(Path::ty(), &path_1.bytes()).unwrap();
    path_vec.push(Path::ty(), &path_2.bytes()).unwrap();
    path_vec.push(Path::ty(), &path_3.bytes()).unwrap();

    let retrieved_path_1 = Path::read(path_vec.get(Path::ty(), 0).unwrap());
    assert_eq!(retrieved_path_1.steps[0][0], 0.0);
    assert_eq!(retrieved_path_1.steps[1][0], 3.432);

    let retrieved_path_2 = Path::read(path_vec.get(Path::ty(), 1).unwrap());
    assert_eq!(retrieved_path_2.steps[0][0], 222222.22222);
    assert_eq!(retrieved_path_2.steps[0][1], 5933.9999999);

    let retrieved_path_3 = Path::read(path_vec.get(Path::ty(), 2).unwrap());
    assert!(retrieved_path_3.steps.is_empty());
}

#[test]
fn inserting_erasedvec_into_works() {
    let mut health_vec = ErasedVec::new(Health::ty());
    let health_1 = Health::new(100);
    let health_2 = Health::new(5483392);
    let health_3 = Health::new(25);
    let health_4 = Health::new(30);

    health_vec.push(Health::ty(), &health_1.bytes()).unwrap();
    health_vec.push(Health::ty(), &health_2.bytes()).unwrap();
    health_vec.push(Health::ty(), &health_3.bytes()).unwrap();

    //Insert normally and check the values
    health_vec.insert(Health::ty(), 1, &health_4.bytes()).unwrap();
    assert_eq!(Health::read(health_vec.get(Health::ty(), 0).unwrap()).min, health_1.min);
    assert_eq!(Health::read(health_vec.get(Health::ty(), 1).unwrap()).min, health_4.min);
    assert_eq!(Health::read(health_vec.get(Health::ty(), 2).unwrap()).min, health_2.min);
    assert_eq!(Health::read(health_vec.get(Health::ty(), 3).unwrap()).min, health_3.min);

    let mut health_vec = ErasedVec::new(Health::ty());
    let health_1 = Health::new(100);
    let health_2 = Health::new(5483392);
    let health_3 = Health::new(25);
    let health_4 = Health::new(30);

    health_vec.push(Health::ty(), &health_1.bytes()).unwrap();
    health_vec.push(Health::ty(), &health_2.bytes()).unwrap();
    health_vec.push(Health::ty(), &health_3.bytes()).unwrap();

    //Insert erased and check the values
    health_vec.insert_erased(&health_4.bytes(), Health::ty(), 1).unwrap();
    assert_eq!(Health::read(health_vec.get(Health::ty(), 0).unwrap()).min, health_1.min);
    assert_eq!(Health::read(health_vec.get(Health::ty(), 1).unwrap()).min, health_4.min);
    assert_eq!(Health::read(health_vec.get(Health::ty(), 2).unwrap()).min, health_2.min);
    assert_eq!(Health::read(health_vec.get(Health::ty(), 3).unwrap()).min, health_3.min);
    assert_eq!(health_vec.len(), 4);
    assert_eq!(health_vec.filled(), &vec![true; 4]);
}

#[test]
fn padding_erasedvec_works() {
    let mut vec = ErasedVec::new(Health::ty());
    vec.pad().unwrap();
    vec.push(Health::ty(), &Health::new(400).bytes()).unwrap();
    let data = vec.get_unchecked(0).unwrap();
    assert_eq!(&[0; 8], data);
    let health = Health::read(vec.get(Health::ty(), 1).unwrap());
    assert_eq!(health.max, 400);
}

/// A string of up to fifteen bytes: its length, then its bytes.
fn short_string(text: &str) -> [u8; 16] {
    let mut bytes = [0u8; 16];
    bytes[0] = text.len() as u8;
    bytes[1..1 + text.len()].copy_from_slice(text.as_bytes());
    bytes
}

fn read_short_string(bytes: &[u8]) -> String {
    let len = bytes[0] as usize;
    String::from_utf8(bytes[1..1 + len].to_vec()).unwrap()
}

#[test]
fn fetching_item_from_nodroptuple_after_drop_works() {
    let string_ty = TypeInfo::of(10, 16, 1, 0, "String").unwrap();
    let f32_ty = TypeInfo::of(11, 4, 4, 0, "f32").unwrap();
    let u128_ty = TypeInfo::of(12, 16, 16, 0, "u128").unwrap();
    let usize_ty = TypeInfo::of(13, 8, 8, 0, "usize").unwrap();
    let data = vec![
        short_string("a").to_vec(),
        13.0_f32.to_ne_bytes().to_vec(),
        15_u128.to_ne_bytes().to_vec(),
        16_u64.to_ne_bytes().to_vec(),
    ];
    let string = {
        let tuple = NoDropTuple::new(vec![string_ty, f32_ty, u128_ty, usize_ty], &data).unwrap();
        assert_eq!(tuple.len(), 4);

        // Fetch the string
        let string_data = tuple.get(0);
        let string = read_short_string(string_data.1);
        assert_eq!(string_data.0, string_ty);
        assert_eq!(string, "a");

        // Fetch the f32
        let float_data = tuple.get(1);
        let float = f32::from_ne_bytes(float_data.1.try_into().unwrap());
        assert_eq!(float_data.0, f32_ty);
        assert_eq!(float, 13.0);

        // Fetch the u128
        let u128_data = tuple.get(2);
        let u128 = u128::from_ne_bytes(u128_data.1.try_into().unwrap());
        assert_eq!(u128_data.0, u128_ty);
        assert_eq!(u128, 15_u128);

        // Fetch the usize (64bits)
        let usize_data = tuple.get(3);
        let usize = u64::from_ne_bytes(usize_data.1.try_into().unwrap());
        assert_eq!(usize_data.0, usize_ty);
        assert_eq!(usize, 16_u64);

        string
    };
    // Confirm the string data remains in place even after the tuple is dropped
    assert_eq!(string, "a");
}

#[test]
fn pushed_values_are_read_back_in_order() {
    let ty = TypeInfo::of(20, 2, 2, 0, "u16").unwrap();
    let mut column = ErasedVec::new(ty);
    for value in 0..100_u16 {
        column.push(ty, &value.to_ne_bytes()).unwrap();
    }
    assert_eq!(column.len(), 100);
    for index in 0..100_usize {
        let value = u16::from_ne_bytes(column.get(ty, index).unwrap().try_into().unwrap());
        assert_eq!(value, index as u16);
    }
    assert_eq!(column.filled(), &vec![true; 100]);
}

#[test]
fn capacity_grows_from_none_to_one_and_doubles() {
    let ty = TypeInfo::of(20, 2, 2, 0, "u16").unwrap();
    let mut column = ErasedVec::new(ty);
    assert_eq!(column.cap(), 0);
    let mut seen = Vec::new();
    for value in 0..9_u16 {
        column.push(ty, &value.to_ne_bytes()).unwrap();
        seen.push(column.cap());
    }
    assert_eq!(seen, vec![1, 2, 4, 4, 8, 8, 8, 8, 16]);
}

#[test]
fn other_types_are_refused() {
    let ty = Health::ty();
    let value = Health::new(7).bytes();
    let mut column = ErasedVec::new(ty);
    column.push(ty, &value).unwrap();
    for id in [0_u128, 2, 3, 99, u128::MAX] {
        let other = TypeInfo::of(id, 8, 4, 0, "Other").unwrap();
        let wrong = ErasedVecErrors::IncorrectTypeInsertion {
            insert_type: "Other".to_string(),
            vec_type: "Health".to_string(),
        };
        assert_eq!(column.push(other, &value), Err(wrong.clone()));
        assert_eq!(column.push_erased(&value, other), Err(wrong.clone()));
        assert_eq!(column.insert(other, 0, &value), Err(wrong.clone()));
        assert_eq!(column.insert_erased(&value, other, 0), Err(wrong.clone()));
        assert_eq!(column.set(other, 0, &value), Err(wrong.clone()));
        assert_eq!(column.set_erased(0, other, &value), Err(wrong.clone()));
        assert_eq!(column.reset_erased(0, other, &value), Err(wrong.clone()));
        assert_eq!(column.assert_type_info_insert(other), Err(wrong));
        let missing = ErasedVecErrors::DoesNotContainType("Other".to_string());
        assert_eq!(column.get(other, 0), Err(missing.clone()));
        assert_eq!(column.get_mut(other, 0).map(|_| ()), Err(missing.clone()));
        assert_eq!(column.assert_type_info(other), Err(missing));
    }
    assert_eq!(column.len(), 1);
    assert_eq!(Health::read(column.get(ty, 0).unwrap()).max, 7);
}

#[test]
fn indices_outside_the_column_are_refused() {
    let ty = Health::ty();
    let value = Health::new(7).bytes();
    let mut column = ErasedVec::new(ty);
    column.push(ty, &value).unwrap();
    let outside = |index| ErasedVecErrors::IndexOutOfBounds { len: 1, index };
    assert_eq!(column.get(ty, 1), Err(outside(1)));
    assert_eq!(column.get_unchecked(5), Err(outside(5)));
    assert_eq!(column.get_mut(ty, 1).map(|_| ()), Err(outside(1)));
    assert_eq!(column.get_mut_unchecked(1).map(|_| ()), Err(outside(1)));
    assert_eq!(column.set(ty, 1, &value), Err(outside(1)));
    assert_eq!(column.set_erased(1, ty, &value), Err(outside(1)));
    assert_eq!(column.reset_erased(1, ty, &value), Err(outside(1)));
    assert_eq!(column.clear(1), Err(outside(1)));
    assert_eq!(column.insert(ty, 2, &value), Err(outside(2)));
    assert_eq!(column.insert_erased(&value, ty, 2), Err(outside(2)));
    // The end of the column is a place to insert at
    column.insert(ty, 1, &Health::new(8).bytes()).unwrap();
    assert_eq!(Health::read(column.get(ty, 1).unwrap()).max, 8);
}

#[test]
fn padded_slot_is_zero_and_unfilled_until_set() {
    let ty = Health::ty();
    let mut column = ErasedVec::new(ty);
    column.push(ty, &Health::new(1).bytes()).unwrap();
    column.pad().unwrap();
    assert_eq!(column.get_unchecked(1).unwrap(), &[0u8; 8]);
    assert_eq!(column.filled(), &vec![true, false]);
    column.set(ty, 1, &Health::new(9).bytes()).unwrap();
    assert_eq!(column.filled(), &vec![true, true]);
    assert_eq!(Health::read(column.get_unchecked(1).unwrap()).max, 9);
    assert_eq!(Health::read(column.get(ty, 0).unwrap()).max, 1);

    column.pad().unwrap();
    column.set_erased(2, ty, &Health::new(10).bytes()).unwrap();
    assert_eq!(column.filled(), &vec![true, true, true]);
    assert_eq!(Health::read(column.indexed_ptr(2)).max, 10);
}

#[test]
fn zero_size_column_takes_any_count_without_bytes() {
    let ty = Player::ty();
    let mut column = ErasedVec::new(ty);
    assert_eq!(column.cap(), usize::MAX);
    for _ in 0..10_000 {
        column.push(ty, &[]).unwrap();
    }
    assert_eq!(column.len(), 10_000);
    assert_eq!(column.cap(), usize::MAX);
    assert_eq!(column.get(ty, 9_999).unwrap(), &[] as &[u8]);
    assert_eq!(column.release().len(), 10_000);
}

#[test]
fn reset_releases_what_the_slot_held() {
    let ty = Health::ty();
    let mut column = ErasedVec::new(ty);
    column.push(ty, &Health::new(1).bytes()).unwrap();
    column.push(ty, &Health::new(2).bytes()).unwrap();
    assert_eq!(column.clear(1).unwrap(), Health::new(2).bytes().to_vec());
    let released = column.reset_erased(1, ty, &Health::new(3).bytes()).unwrap();
    assert_eq!(released, Health::new(2).bytes().to_vec());
    assert_eq!(Health::read(column.get(ty, 1).unwrap()).max, 3);
    assert_eq!(Health::read(column.get(ty, 0).unwrap()).max, 1);
}

#[test]
fn release_hands_back_the_filled_slots_only() {
    let ty = Health::ty();
    let mut column = ErasedVec::new(ty);
    column.pad().unwrap();
    column.push(ty, &Health::new(1).bytes()).unwrap();
    column.pad().unwrap();
    column.push(ty, &Health::new(2).bytes()).unwrap();
    let released = column.release();
    assert_eq!(released, vec![Health::new(1).bytes().to_vec(), Health::new(2).bytes().to_vec()]);
}

#[test]
fn padded_column_has_room_for_exactly_its_slots() {
    let ty = Health::ty();
    let column = ErasedVec::padded(ty, 3).unwrap();
    assert_eq!(column.len(), 3);
    assert_eq!(column.cap(), 3);
    assert_eq!(column.filled(), &vec![false; 3]);
    assert_eq!(column.get_unchecked(2).unwrap(), &[0u8; 8]);
    assert_eq!(column.ty(), ty);

    let huge = TypeInfo::of(30, isize::MAX as usize / 2, 1, 0, "Huge").unwrap();
    assert_eq!(ErasedVec::padded(huge, 3).map(|_| ()), Err(ErasedVecErrors::ErasedVecAllocError));
}

#[test]
fn box_holds_one_value() {
    let ty = Health::ty();
    let mut boxed = ErasedBox::new(ty, &Health::new(5).bytes()).unwrap();
    assert_eq!(boxed.ty(), ty);
    assert_eq!(Health::read(boxed.get(ty).unwrap()).max, 5);
    assert_eq!(Health::read(boxed.ptr()).min, 5);
    boxed.get_mut(ty).unwrap()[..4].copy_from_slice(&6_i32.to_ne_bytes());
    assert_eq!(Health::read(boxed.get(ty).unwrap()).max, 6);
    let other = Path::ty();
    assert_eq!(boxed.get(other), Err(ErasedVecErrors::DoesNotContainType("Path".to_string())));
    assert_eq!(
        boxed.get_mut(other).map(|_| ()),
        Err(ErasedVecErrors::DoesNotContainType("Path".to_string()))
    );
    assert_eq!(boxed.release(), Health { max: 6, min: 5 }.bytes().to_vec());

    let raw = ErasedBox::from_raw_parts(ty, &Health::new(7).bytes()).unwrap();
    assert_eq!(Health::read(raw.get(ty).unwrap()).max, 7);
}

#[test]
fn box_of_a_zero_size_type_is_refused() {
    let ty = Player::ty();
    assert_eq!(
        ErasedBox::new(ty, &[]).map(|_| ()),
        Err(ErasedVecErrors::ErasedVecCapacityOverflow)
    );
    assert_eq!(
        ErasedBox::from_raw_parts(ty, &[]).map(|_| ()),
        Err(ErasedVecErrors::ErasedVecCapacityOverflow)
    );
}

#[test]
fn values_without_size_pack_to_nothing() {
    let small = TypeInfo::of(31, 0, 1, 0, "Small").unwrap();
    let tuple = NoDropTuple::new(vec![small, small], &vec![Vec::new(), Vec::new()]).unwrap();
    assert_eq!(tuple.len(), 2);
    assert_eq!(tuple.get(1).0, small);
    assert_eq!(tuple.get(1).1, &[] as &[u8]);
}

#[test]
fn empty_bundle_packs_to_nothing() {
    let tuple = NoDropTuple::new(Vec::new(), &Vec::new()).unwrap();
    assert_eq!(tuple.len(), 0);
}
