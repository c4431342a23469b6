use wasmer::error::ExceptionKind;
use wasmer::types::Type;
use wasmer::values::{to_engine_value, to_host_value, EngineValue, HostValue};

#[test]
fn integer_round_trip_i32() {
    for v in [0i64, 1, -1, 2147483647, -2147483648] {
        let ev = to_engine_value(&HostValue::Integer(v), Type::I32).unwrap();
        assert_eq!(ev, EngineValue::I32(v as i32));
        assert_eq!(to_host_value(&ev), HostValue::Integer(v));
    }
}

#[test]
fn integer_round_trip_i64() {
    for v in [0i64, 42, -42, i64::MAX, i64::MIN] {
        let ev = to_engine_value(&HostValue::Integer(v), Type::I64).unwrap();
        assert_eq!(ev, EngineValue::I64(v));
        assert_eq!(to_host_value(&ev), HostValue::Integer(v));
    }
}

#[test]
fn float_round_trip_f64() {
    for d in [0.0f64, 2.0, -2.5, 1.0e300, f64::MIN_POSITIVE, f64::INFINITY] {
        let bits = d.to_bits();
        let ev = to_engine_value(&HostValue::Float(bits), Type::F64).unwrap();
        assert_eq!(ev, EngineValue::F64(bits));
        assert_eq!(to_host_value(&ev), HostValue::Float(bits));
    }
}

#[test]
fn float_round_trip_f32_representable() {
    for d in [2.0f64, -0.5, 1.5, 65536.0, 0.0, -0.0] {
        let ev = to_engine_value(&HostValue::Float(d.to_bits()), Type::F32).unwrap();
        assert_eq!(ev, EngineValue::F32((d as f32).to_bits()));
        assert_eq!(to_host_value(&ev), HostValue::Float(d.to_bits()));
    }
}

#[test]
fn integer_wraps_into_i32() {
    let ev = to_engine_value(&HostValue::Integer(0x80000000), Type::I32).unwrap();
    assert_eq!(ev, EngineValue::I32(-2147483648));
    let ev = to_engine_value(&HostValue::Integer(0x100000001), Type::I32).unwrap();
    assert_eq!(ev, EngineValue::I32(1));
    let ev = to_engine_value(&HostValue::Integer(-4294967295), Type::I32).unwrap();
    assert_eq!(ev, EngineValue::I32(1));
}

#[test]
fn float_truncates_into_i32() {
    let ev = to_engine_value(&HostValue::Float((3.9f64).to_bits()), Type::I32).unwrap();
    assert_eq!(ev, EngineValue::I32(3));
    let ev = to_engine_value(&HostValue::Float((-3.9f64).to_bits()), Type::I32).unwrap();
    assert_eq!(ev, EngineValue::I32(-3));
    let ev = to_engine_value(&HostValue::Float((0.999f64).to_bits()), Type::I32).unwrap();
    assert_eq!(ev, EngineValue::I32(0));
}

#[test]
fn float_truncates_into_i64() {
    for d in [3.9f64, -3.9, 0.0, 1.0e15, -2.5e9, 9007199254740993.0] {
        let ev = to_engine_value(&HostValue::Float(d.to_bits()), Type::I64).unwrap();
        assert_eq!(ev, EngineValue::I64(d as i64), "for {d}");
    }
}

#[test]
fn non_finite_floats_truncate_to_zero() {
    for d in [f64::NAN, f64::INFINITY, f64::NEG_INFINITY] {
        let ev = to_engine_value(&HostValue::Float(d.to_bits()), Type::I64).unwrap();
        assert_eq!(ev, EngineValue::I64(0));
        let ev = to_engine_value(&HostValue::Float(d.to_bits()), Type::I32).unwrap();
        assert_eq!(ev, EngineValue::I32(0));
    }
}

#[test]
fn integer_coerces_into_floats() {
    for v in [0i64, 1, -1, 16777216, 16777217, -123456789, i64::MAX, i64::MIN, 9007199254740993] {
        let ev = to_engine_value(&HostValue::Integer(v), Type::F64).unwrap();
        assert_eq!(ev, EngineValue::F64((v as f64).to_bits()), "f64 of {v}");
        let ev = to_engine_value(&HostValue::Integer(v), Type::F32).unwrap();
        assert_eq!(ev, EngineValue::F32((v as f32).to_bits()), "f32 of {v}");
    }
}

#[test]
fn small_integers_survive_a_trip_through_f64() {
    for v in [0i64, 1, -1, 4503599627370495, -4503599627370496, 9007199254740991] {
        let ev = to_engine_value(&HostValue::Integer(v), Type::F64).unwrap();
        let back = to_engine_value(&to_host_value(&ev), Type::I64).unwrap();
        assert_eq!(back, EngineValue::I64(v));
    }
}

#[test]
fn non_numeric_values_are_type_errors() {
    for ty in [Type::I32, Type::I64, Type::F32, Type::F64] {
        let r = to_engine_value(&HostValue::Boolean(true), ty);
        assert_eq!(r.unwrap_err().kind(), ExceptionKind::TypeError);
        let r = to_engine_value(&HostValue::Text(String::from("12")), ty);
        assert_eq!(r.unwrap_err().kind(), ExceptionKind::TypeError);
        let r = to_engine_value(&HostValue::Absent, ty);
        assert_eq!(r.unwrap_err().kind(), ExceptionKind::TypeError);
    }
}

#[test]
fn references_must_match_kind() {
    let ev = to_engine_value(&HostValue::ExternRef(7), Type::ExternRef).unwrap();
    assert_eq!(ev, EngineValue::ExternRef(7));
    let ev = to_engine_value(&HostValue::FuncRef(9), Type::FuncRef).unwrap();
    assert_eq!(ev, EngineValue::FuncRef(9));
    let r = to_engine_value(&HostValue::FuncRef(9), Type::ExternRef);
    assert_eq!(r.unwrap_err().kind(), ExceptionKind::TypeError);
    let r = to_engine_value(&HostValue::ExternRef(7), Type::FuncRef);
    assert_eq!(r.unwrap_err().kind(), ExceptionKind::TypeError);
    let r = to_engine_value(&HostValue::Integer(1), Type::FuncRef);
    assert_eq!(r.unwrap_err().kind(), ExceptionKind::TypeError);
}

#[test]
fn nothing_converts_into_v128() {
    let r = to_engine_value(&HostValue::Integer(1), Type::V128);
    assert_eq!(r.unwrap_err().kind(), ExceptionKind::TypeError);
    let r = to_engine_value(&HostValue::Float((1.0f64).to_bits()), Type::V128);
    assert_eq!(r.unwrap_err().kind(), ExceptionKind::TypeError);
}

#[test]
fn to_host_is_tag_directed() {
    assert_eq!(to_host_value(&EngineValue::I32(-5)), HostValue::Integer(-5));
    assert_eq!(to_host_value(&EngineValue::I64(1 << 40)), HostValue::Integer(1 << 40));
    assert_eq!(
        to_host_value(&EngineValue::F32((2.5f32).to_bits())),
        HostValue::Float((2.5f64).to_bits()),
    );
    assert_eq!(
        to_host_value(&EngineValue::F64((0.1f64).to_bits())),
        HostValue::Float((0.1f64).to_bits()),
    );
    assert_eq!(to_host_value(&EngineValue::ExternRef(3)), HostValue::ExternRef(3));
    assert_eq!(to_host_value(&EngineValue::FuncRef(4)), HostValue::FuncRef(4));
}

#[test]
fn engine_value_carries_its_type() {
    assert_eq!(EngineValue::I32(0).ty(), Type::I32);
    assert_eq!(EngineValue::I64(0).ty(), Type::I64);
    assert_eq!(EngineValue::F32(0).ty(), Type::F32);
    assert_eq!(EngineValue::F64(0).ty(), Type::F64);
    assert_eq!(EngineValue::V128(0).ty(), Type::V128);
    assert_eq!(EngineValue::ExternRef(0).ty(), Type::ExternRef);
    assert_eq!(EngineValue::FuncRef(0).ty(), Type::FuncRef);
}
