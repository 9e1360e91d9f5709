use functional_game_engine::util::arena::ComponentArena;
use functional_game_engine::util::arena_model::ArenaError;
use functional_game_engine::util::{Byteable, Either};

#[derive(Debug, Copy, Clone)]
struct TestStruct1 {
    i: i32,
    u: u32,
}

#[derive(Debug, Copy, Clone)]
struct TestStruct2 {
    f: f32,
}

#[derive(Debug, Copy, Clone)]
struct TestStruct3 {
    x: i32,
    arr: [f32; 2],
}

fn float_of(bytes: &[u8]) -> Option<f32> {
    Some(f32::from_bits(u32::from_bytes(bytes)?))
}

impl Byteable for TestStruct1 {
    fn size() -> usize {
        8
    }

    fn from_bytes(bytes: &[u8]) -> Option<Self> {
        if bytes.len() != 8 {
            return None;
        }
        Some(TestStruct1 { i: i32::from_bytes(&bytes[0..4])?, u: u32::from_bytes(&bytes[4..8])? })
    }

    fn into_bytes(self) -> Vec<u8> {
        let mut out = self.i.into_bytes();
        out.extend(self.u.into_bytes());
        out
    }
}

impl Byteable for TestStruct2 {
    fn size() -> usize {
        4
    }

    fn from_bytes(bytes: &[u8]) -> Option<Self> {
        Some(TestStruct2 { f: float_of(bytes)? })
    }

    fn into_bytes(self) -> Vec<u8> {
        self.f.to_bits().into_bytes()
    }
}

impl Byteable for TestStruct3 {
    fn size() -> usize {
        12
    }

    fn from_bytes(bytes: &[u8]) -> Option<Self> {
        if bytes.len() != 12 {
            return None;
        }
        Some(TestStruct3 {
            x: i32::from_bytes(&bytes[0..4])?,
            arr: [float_of(&bytes[4..8])?, float_of(&bytes[8..12])?],
        })
    }

    fn into_bytes(self) -> Vec<u8> {
        let mut out = self.x.into_bytes();
        out.extend(self.arr[0].to_bits().into_bytes());
        out.extend(self.arr[1].to_bits().into_bytes());
        out
    }
}

fn filled() -> ComponentArena {
    let mut arena = ComponentArena::new();
    let s1 = TestStruct1 { i: -28, u: 74 };
    let s2 = TestStruct2 { f: 0.2345 };
    let s3 = TestStruct3 { x: 10, arr: [1.1, 2.2] };
    arena.allocate(s1, "s1");
    arena.allocate(s2, "s2");
    arena.allocate(s3, "s3");
    arena
}

#[test]
fn arena_raw_alloc() {
    let mut arena = ComponentArena::new();

    let data = [1u8, 2u8, 3u8, 4u8];

    arena.alloc_raw(&data, "test");

    assert_eq!(arena.get_bytes("test"), Some(&data[..]))
}

#[test]
fn arena_byte_access() {
    let arena = filled();

    let s1 = TestStruct1::from_bytes(arena.get_bytes("s1").unwrap()).unwrap();
    assert_eq!(s1.i, -28);
    assert_eq!(s1.u, 74);
    let s2 = TestStruct2::from_bytes(arena.get_bytes("s2").unwrap()).unwrap();
    assert_eq!(s2.f, 0.2345);
    let s3 = TestStruct3::from_bytes(arena.get_bytes("s3").unwrap()).unwrap();
    assert_eq!(s3.x, 10);
    assert_eq!(s3.arr, [1.1, 2.2]);
    let none: Option<&[u8]> = arena.get_bytes("s0");
    assert!(none.is_none());
}

#[test]
fn arena_generic_access() {
    let arena = filled();

    let s1: TestStruct1 = arena.get("s1").unwrap();
    assert_eq!(s1.i, -28);
    assert_eq!(s1.u, 74);
    let s2: TestStruct2 = arena.get("s2").unwrap();
    assert_eq!(s2.f, 0.2345);
    let s3: TestStruct3 = arena.get("s3").unwrap();
    assert_eq!(s3.x, 10);
    assert_eq!(s3.arr, [1.1, 2.2]);
    let none: Option<TestStruct1> = arena.get("s0");
    assert!(none.is_none());
}

#[test]
fn arena_insert() {
    let mut arena = filled();

    let mut s1: TestStruct1 = arena.get("s1").unwrap();
    s1.i = 2;
    s1.u = 1;
    arena.insert(s1, "s1").unwrap();
    s1 = arena.get("s1").unwrap();
    assert_eq!(s1.i, 2);
    assert_eq!(s1.u, 1);

    let s2: TestStruct2 = arena.get("s2").unwrap();
    assert!(arena.insert(s2, "s1").is_err());
}

#[test]
fn double_get() {
    let mut arena = ComponentArena::new();

    arena.allocate(TestStruct1 { i: -28, u: 74 }, "s1");
    {
        let mut s1: TestStruct1 = arena.get("s1").unwrap();
        s1.i = 2;
        arena.insert(s1, "s1").unwrap();
    }
    {
        let mut s1: TestStruct1 = arena.get("s1").unwrap();
        assert_eq!(s1.i, 2);
        assert_eq!(s1.u, 74);
        s1.i = 1;
        s1.u = 2;
        arena.insert(s1, "s1").unwrap()
    }
    {
        let s1: TestStruct1 = arena.get("s1").unwrap();
        assert_eq!(s1.i, 1);
        assert_eq!(s1.u, 2);
    }
}

#[test]
fn get_either_picks_by_length() {
    let arena = filled();
    match arena.get_either::<TestStruct1, TestStruct3>("s3") {
        Some(Either::That(s3)) => assert_eq!(s3.x, 10),
        _ => panic!("the slot holds twelve bytes"),
    }
    match arena.get_either::<TestStruct1, TestStruct3>("s1") {
        Some(Either::This(s1)) => assert_eq!(s1.u, 74),
        _ => panic!("the slot holds eight bytes"),
    }
    assert!(arena.get_either::<TestStruct1, TestStruct3>("s2").is_none());
    assert!(arena.get_either::<TestStruct1, TestStruct3>("s0").is_none());
}

#[test]
fn insert_reports_both_lengths() {
    let mut arena = filled();
    assert_eq!(
        arena.insert_raw(&[1, 2, 3], "s1"),
        Err(ArenaError::SizeMismatch { expected: 8, found: 3 })
    );
    assert_eq!(arena.insert_raw(&[1, 2, 3], "nothing"), Err(ArenaError::LabelNotFound));
}

#[test]
fn stored_value_survives_an_unrelated_allocation() {
    let mut arena = ComponentArena::new();
    arena.allocate(TestStruct1 { i: -28, u: 74 }, "s1");

    let mut s1: TestStruct1 = arena.get("s1").unwrap();
    assert_eq!((s1.i, s1.u), (-28, 74));

    s1.i = 2;
    s1.u = 1;
    arena.insert(s1, "s1").unwrap();
    let s1: TestStruct1 = arena.get("s1").unwrap();
    assert_eq!((s1.i, s1.u), (2, 1));

    arena.allocate(TestStruct3 { x: 10, arr: [1.1, 2.2] }, "s2");
    let s1: TestStruct1 = arena.get("s1").unwrap();
    assert_eq!((s1.i, s1.u), (2, 1));
    assert_eq!(arena.get_length("s1"), Some(8));
    assert_eq!(arena.get_length("s2"), Some(12));
}
