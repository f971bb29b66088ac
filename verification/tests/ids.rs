use sparreal::ids::TaskId as TestId;
use sparreal::ids::{CpuId, ProcessId};

#[test]
fn test_basic_id_creation() {
    let id = TestId::new(42);
    assert_eq!(id.raw(), 42);
}

#[test]
fn test_arithmetic_operations() {
    let id = TestId::new(10);

    assert_eq!((id + 5).raw(), 15);
    assert_eq!((id + TestId::new(3)).raw(), 13);

    assert_eq!((id - 3).raw(), 7);
    assert_eq!((id - TestId::new(2)).raw(), 8);
}

#[test]
fn test_assignment_operations() {
    let mut id = TestId::new(10);

    id += 5;
    assert_eq!(id.raw(), 15);

    id -= 3;
    assert_eq!(id.raw(), 12);
}

#[test]
fn test_comparisons() {
    let id1 = TestId::new(10);
    let id2 = TestId::new(20);
    let id3 = TestId::new(10);

    assert_eq!(id1, id3);
    assert_ne!(id1, id2);
    assert!(id1 < id2);
    assert!(id2 > id1);
    assert!(id1 <= id3);
    assert!(id1 >= id3);
}

#[test]
fn id_conversions_and_default() {
    let d = ProcessId::default();
    assert_eq!(d.raw(), 0);
    let c: CpuId = CpuId::from(7u32);
    let raw: u32 = c.into();
    assert_eq!(raw, 7);
    assert_eq!(format!("{:?}", TestId::new(3)), "TaskId(3)");
}
