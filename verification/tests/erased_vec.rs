use nina::storage::{ErasedVec, TypeInfo};

#[derive(Debug, Clone, Copy)]
struct Health {
    pub max: i32,
    pub min: i32,
}

impl Health {
    pub fn new(max: i32) -> Self {
        Health { max, min: max }
    }

    fn ty() -> TypeInfo {
        TypeInfo::of(1, 8, 4, 0, "Health").unwrap()
    }

    fn bytes(&self) -> [u8; 8] {
        let mut bytes = [0u8; 8];
        bytes[..4].copy_from_slice(&self.max.to_ne_bytes());
        bytes[4..].copy_from_slice(&self.min.to_ne_bytes());
        bytes
    }

    fn read(bytes: &[u8]) -> Self {
        Health {
            max: i32::from_ne_bytes(bytes[..4].try_into().unwrap()),
            min: i32::from_ne_bytes(bytes[4..8].try_into().unwrap()),
        }
    }
}

/// A player that may be absent: one byte that says whether it is there.
fn player_ty() -> TypeInfo {
    TypeInfo::of(2, 1, 1, 0, "Option<Player>").unwrap()
}

const SOME_PLAYER: [u8; 1] = [1];
const NO_PLAYER: [u8; 1] = [0];

/// A path of up to three steps: the number of steps, then the steps.
struct Path {
    steps: Vec<[f32; 2]>,
}

impl Path {
    fn new(steps: Vec<[f32; 2]>) -> Self {
        Path { steps }
    }

    fn ty() -> TypeInfo {
        TypeInfo::of(3, 32, 8, 0, "Path").unwrap()
    }

    fn bytes(&self) -> [u8; 32] {
        let mut bytes = [0u8; 32];
        bytes[..8].copy_from_slice(&(self.steps.len() as u64).to_ne_bytes());
        for (index, step) in self.steps.iter().enumerate() {
            let at = 8 + 8 * index;
            bytes[at..at + 4].copy_from_slice(&step[0].to_ne_bytes());
            bytes[at + 4..at + 8].copy_from_slice(&step[1].to_ne_bytes());
        }
        bytes
    }

    fn read(bytes: &[u8]) -> Self {
        let count = u64::from_ne_bytes(bytes[..8].try_into().unwrap()) as usize;
        let mut steps = Vec::new();
        for index in 0..count {
            let at = 8 + 8 * index;
            steps.push([
                f32::from_ne_bytes(bytes[at..at + 4].try_into().unwrap()),
                f32::from_ne_bytes(bytes[at + 4..at + 8].try_into().unwrap()),
            ]);
        }
        Path { steps }
    }
}

fn at(vec: &ErasedVec, index: usize) -> Health {
    Health::read(vec.get(Health::ty(), index).unwrap())
}

fn pull_and_check(vec: &ErasedVec) {
    let retrieved_health = at(vec, 0);
    let retrieved_health_2 = at(vec, 1);
    let retrieved_health_3 = at(vec, 2);

    assert_eq!(retrieved_health.max, 100);
    assert_eq!(retrieved_health_2.max, 5483392);
    assert_eq!(retrieved_health_3.max, 25);
}

fn pull_and_mut(vec: &mut ErasedVec) {
    vec.get_mut(Health::ty(), 2).unwrap()[4..8].copy_from_slice(&6_i32.to_ne_bytes());
}

#[test]
fn push_into_and_read() {
    let health_1 = Health::new(100);
    let health_2 = Health::new(5483392);
    let health_3 = Health::new(25);

    let mut heath_vec = ErasedVec::new(Health::ty());
    heath_vec.push(Health::ty(), &health_1.bytes()).unwrap();
    heath_vec.push(Health::ty(), &health_2.bytes()).unwrap();
    heath_vec.push(Health::ty(), &health_3.bytes()).unwrap();

    //Checking pushing normally works
    pull_and_check(&heath_vec);
    pull_and_mut(&mut heath_vec);
    let health_3 = at(&heath_vec, 2).min;
    assert_eq!(health_3, 6);

    let ty = Health::ty();
    let health_1 = Health::new(100);
    let health_2 = Health::new(5483392);
    let health_3 = Health::new(25);

    let mut heath_vec = ErasedVec::new(Health::ty());
    heath_vec.push_erased(&health_1.bytes(), ty).unwrap();
    heath_vec.push_erased(&health_2.bytes(), ty).unwrap();
    heath_vec.push_erased(&health_3.bytes(), ty).unwrap();

    //Checking pushing erased normally works
    pull_and_check(&heath_vec);
    pull_and_mut(&mut heath_vec);
    let health_3 = at(&heath_vec, 2).min;
    assert_eq!(health_3, 6);
}

#[test]
fn push_zst_into_and_read() {
    let mut player_vec = ErasedVec::new(player_ty());
    player_vec.push(player_ty(), &SOME_PLAYER).unwrap();
    player_vec.push(player_ty(), &SOME_PLAYER).unwrap();
    player_vec.push(player_ty(), &NO_PLAYER).unwrap();
    player_vec.push(player_ty(), &SOME_PLAYER).unwrap();
    player_vec.push(player_ty(), &NO_PLAYER).unwrap();
    player_vec.push(player_ty(), &NO_PLAYER).unwrap();

    //Confirm pushing normally works
    assert_eq!(player_vec.len(), 6);
    assert_eq!(player_vec.get(player_ty(), 0).unwrap(), SOME_PLAYER);
    assert_eq!(player_vec.get(player_ty(), 1).unwrap(), SOME_PLAYER);
    assert_eq!(player_vec.get(player_ty(), 2).unwrap(), NO_PLAYER);
    assert_eq!(player_vec.get(player_ty(), 3).unwrap(), SOME_PLAYER);
    assert_eq!(player_vec.get(player_ty(), 4).unwrap(), NO_PLAYER);
    assert_eq!(player_vec.get(player_ty(), 5).unwrap(), NO_PLAYER);

    let mut player_vec = ErasedVec::new(player_ty());
    let ty: TypeInfo = player_ty();
    player_vec.push_erased(&SOME_PLAYER, ty).unwrap();
    player_vec.push_erased(&SOME_PLAYER, ty).unwrap();
    player_vec.push_erased(&NO_PLAYER, ty).unwrap();
    player_vec.push_erased(&SOME_PLAYER, ty).unwrap();
    player_vec.push_erased(&NO_PLAYER, ty).unwrap();
    player_vec.push_erased(&NO_PLAYER, ty).unwrap();

    //Confirm pushing erased works
    assert_eq!(player_vec.len(), 6);
    assert_eq!(player_vec.get(player_ty(), 0).unwrap(), SOME_PLAYER);
    assert_eq!(player_vec.get(player_ty(), 1).unwrap(), SOME_PLAYER);
    assert_eq!(player_vec.get(player_ty(), 2).unwrap(), NO_PLAYER);
    assert_eq!(player_vec.get(player_ty(), 3).unwrap(), SOME_PLAYER);
    assert_eq!(player_vec.get(player_ty(), 4).unwrap(), NO_PLAYER);
    assert_eq!(player_vec.get(player_ty(), 5).unwrap(), NO_PLAYER);
}

#[test]
fn push_collection_into_and_read() {
    //Check pushing normally works
    let mut path_vec = ErasedVec::new(Path::ty());
    let path_1 = Path::new(vec![[0.0, 9222.444], [3.432, 5933.9999999], [3.484, 19444.333]]);
    let path_2 = Path::new(vec![[222222.22222, 5933.9999999]]);
    let path_3 = Path::new(Vec::default());

    path_vec.push(Path::ty(), &path_1.bytes()).unwrap();
    path_vec.push(Path::ty(), &path_2.bytes()).unwrap();
    path_vec.push(Path::ty(), &path_3.bytes()).unwrap();

    let retrieved_path_1 = Path::read(path_vec.get(Path::ty(), 0).unwrap());
    assert_eq!(retrieved_path_1.steps[0][0], 0.0);
    assert_eq!(retrieved_path_1.steps[1][0], 3.432);

    let retrieved_path_2 = Path::read(path_vec.get(Path::ty(), 1).unwrap());
    assert_eq!(retrieved_path_2.steps[0][0], 222222.22222);
    assert_eq!(retrieved_path_2.steps[0][1], 5933.9999999);

    //Check pushing erased works
    let mut path_vec = ErasedVec::new(Path::ty());
    let path_1 = Path::new(vec![[0.0, 9222.444], [3.432, 5933.9999999], [3.484, 19444.333]]);
    let path_2 = Path::new(vec![[222222.22222, 5933.9999999]]);
    let path_3 = Path::new(Vec::default());
    let ty = Path::ty();

    path_vec.push_erased(&path_1.bytes(), ty).unwrap();
    path_vec.push_erased(&path_2.bytes(), ty).unwrap();
    path_vec.push_erased(&path_3.bytes(), ty).unwrap();

    let retrieved_path_1 = Path::read(path_vec.get(Path::ty(), 0).unwrap());
    assert_eq!(retrieved_path_1.steps[0][0], 0.0);
    assert_eq!(retrieved_path_1.steps[1][0], 3.432);

    let retrieved_path_2 = Path::read(path_vec.get(Path::ty(), 1).unwrap());
    assert_eq!(retrieved_path_2.steps[0][0], 222222.22222);
    assert_eq!(retrieved_path_2.steps[0][1], 5933.9999999);
}

#[test]
fn inserting_into_works() {
    let mut health_vec = ErasedVec::new(Health::ty());
    let health_1 = Health::new(100);
    let health_2 = Health::new(5483392);
    let health_3 = Health::new(25);
    let health_4 = Health::new(30);

    health_vec.push(Health::ty(), &health_1.bytes()).unwrap();
    health_vec.push(Health::ty(), &health_2.bytes()).unwrap();
    health_vec.push(Health::ty(), &health_3.bytes()).unwrap();

    //Insert normally and check the values
    health_vec.insert(Health::ty(), 1, &health_4.bytes()).unwrap();
    assert_eq!(at(&health_vec, 0).min, health_1.min);
    assert_eq!(at(&health_vec, 1).min, health_4.min);
    assert_eq!(at(&health_vec, 2).min, health_2.min);
    assert_eq!(at(&health_vec, 3).min, health_3.min);

    let mut health_vec = ErasedVec::new(Health::ty());
    let health_1 = Health::new(100);
    let health_2 = Health::new(5483392);
    let health_3 = Health::new(25);
    let health_4 = Health::new(30);

    health_vec.push(Health::ty(), &health_1.bytes()).unwrap();
    health_vec.push(Health::ty(), &health_2.bytes()).unwrap();
    health_vec.push(Health::ty(), &health_3.bytes()).unwrap();

    //Insert erased and check the values
    health_vec.insert_erased(&health_4.bytes(), Health::ty(), 1).unwrap();
    assert_eq!(at(&health_vec, 0).min, health_1.min);
    assert_eq!(at(&health_vec, 1).min, health_4.min);
    assert_eq!(at(&health_vec, 2).min, health_2.min);
    assert_eq!(at(&health_vec, 3).min, health_3.min);
}
