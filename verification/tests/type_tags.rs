use wasmer::error::ExceptionKind;
use wasmer::types::{FunctionType, GlobalType, MemoryType, TableType, Type};

#[test]
fn tag_round_trip_all_valid_tags() {
    for t in 1..=7 {
        let ty = Type::try_from(t).unwrap();
        assert_eq!(ty.to_integer(), t);
    }
}

#[test]
fn tag_out_of_range_is_type_error() {
    for t in [0, 8, -1, 100, i32::MIN, i32::MAX] {
        let r = Type::try_from(t);
        assert!(r.is_err());
        assert_eq!(r.unwrap_err().kind(), ExceptionKind::TypeError);
    }
}

#[test]
fn tag_names_each_type() {
    assert!(matches!(Type::try_from(1), Ok(Type::I32)));
    assert!(matches!(Type::try_from(2), Ok(Type::I64)));
    assert!(matches!(Type::try_from(3), Ok(Type::F32)));
    assert!(matches!(Type::try_from(4), Ok(Type::F64)));
    assert!(matches!(Type::try_from(5), Ok(Type::V128)));
    assert!(matches!(Type::try_from(6), Ok(Type::ExternRef)));
    assert!(matches!(Type::try_from(7), Ok(Type::FuncRef)));
}

#[test]
fn function_type_from_tags() {
    let ft = FunctionType::new(&vec![1, 2], &vec![4]).unwrap();
    assert_eq!(ft.params(), vec![1, 2]);
    assert_eq!(ft.results(), vec![4]);
    assert_eq!(ft.params, vec![Type::I32, Type::I64]);
    assert_eq!(ft.results, vec![Type::F64]);
}

#[test]
fn function_type_rejects_bad_tag() {
    let r = FunctionType::new(&vec![1, 9], &vec![]);
    assert_eq!(r.unwrap_err().kind(), ExceptionKind::TypeError);
    let r = FunctionType::new(&vec![], &vec![0]);
    assert_eq!(r.unwrap_err().kind(), ExceptionKind::TypeError);
}

#[test]
fn memory_type_fields() {
    let mt = MemoryType::new(1, Some(32), false);
    assert_eq!(mt.minimum(), 1);
    assert_eq!(mt.maximum(), Some(32));
    assert!(!mt.shared());
    let mt = MemoryType::new(0, None, true);
    assert_eq!(mt.maximum(), None);
    assert!(mt.shared());
}

#[test]
fn global_type_fields() {
    let gt = GlobalType::new(1, true).unwrap();
    assert_eq!(gt.ty(), 1);
    assert!(gt.mutable());
    let r = GlobalType::new(8, false);
    assert_eq!(r.unwrap_err().kind(), ExceptionKind::TypeError);
}

#[test]
fn table_type_fields() {
    let tt = TableType::new(7, 2, Some(16)).unwrap();
    assert_eq!(tt.ty(), 7);
    assert_eq!(tt.minimum(), 2);
    assert_eq!(tt.maximum(), Some(16));
    let r = TableType::new(-3, 0, None);
    assert_eq!(r.unwrap_err().kind(), ExceptionKind::TypeError);
}
