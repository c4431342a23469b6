use wasmer::error::ExceptionKind;
use wasmer::function::{
    trampoline_arguments, trampoline_results, trap_to_exception, EngineFunction, Function,
    FunctionBacking, HostCallable, Trap,
};
use wasmer::types::{FunctionType, Type};
use wasmer::values::{EngineValue, HostObject, HostValue};

fn unary_i32(results: Vec<Type>) -> FunctionType {
    FunctionType { params: vec![Type::I32], results }
}

#[test]
fn registering_a_plain_value_is_a_type_error() {
    let ft = unary_i32(vec![Type::I32]);
    let r = Function::new(HostObject::Value(HostValue::Integer(42)), ft);
    assert_eq!(r.unwrap_err().kind(), ExceptionKind::TypeError);
    let ft = unary_i32(vec![Type::I32]);
    let r = Function::new(HostObject::Value(HostValue::Text(String::from("f"))), ft);
    assert_eq!(r.unwrap_err().kind(), ExceptionKind::TypeError);
}

#[test]
fn registering_each_callable_kind_succeeds() {
    let ft = unary_i32(vec![Type::I32]);
    let f = Function::new(HostObject::Symbol(String::from("double")), ft).unwrap();
    match &f.inner().backing {
        FunctionBacking::Host(env) => {
            assert_eq!(env.callable, HostCallable::Symbol(String::from("double")));
            assert_eq!(env.result_types, vec![Type::I32]);
        },
        FunctionBacking::Native(_) => panic!("a registered function must be host backed"),
    }
    let f = Function::new(HostObject::Proc(3), unary_i32(vec![])).unwrap();
    assert!(matches!(
        &f.inner().backing,
        FunctionBacking::Host(env) if env.callable == HostCallable::Proc(3)
    ));
    let f = Function::new(HostObject::Method(4), unary_i32(vec![])).unwrap();
    assert!(matches!(
        &f.inner().backing,
        FunctionBacking::Host(env) if env.callable == HostCallable::Method(4)
    ));
}

#[test]
fn non_numeric_result_traps_at_call_time_not_registration() {
    // Registration succeeds whatever the callable will later return.
    let f = Function::new(HostObject::Proc(1), unary_i32(vec![Type::I32])).unwrap();
    let result_types = match &f.inner().backing {
        FunctionBacking::Host(env) => env.result_types.clone(),
        FunctionBacking::Native(_) => panic!("a registered function must be host backed"),
    };
    // The callable returned a string where an `I32` was declared: the call
    // itself fails, as a trap.
    let r = trampoline_results(&result_types, &HostValue::Text(String::from("oops")));
    assert!(r.is_err());
}

#[test]
fn two_results_convert_positionally() {
    let types = vec![Type::I32, Type::I32];
    let returned = HostValue::Sequence(vec![HostValue::Integer(1), HostValue::Integer(2)]);
    let evs = trampoline_results(&types, &returned).unwrap();
    assert_eq!(evs, vec![EngineValue::I32(1), EngineValue::I32(2)]);
    // On the call side the two results come back to the host as [1, 2].
    let host = Function::collect_results(&evs);
    assert_eq!(
        host,
        HostValue::Sequence(vec![HostValue::Integer(1), HostValue::Integer(2)]),
    );
}

#[test]
fn sequence_results_stop_at_first_bad_element() {
    let types = vec![Type::I32, Type::I32];
    let returned = HostValue::Sequence(vec![
        HostValue::Integer(1),
        HostValue::Text(String::from("two")),
    ]);
    assert!(trampoline_results(&types, &returned).is_err());
}

#[test]
fn single_result_converts_against_first_type() {
    let types = vec![Type::F64];
    let evs = trampoline_results(&types, &HostValue::Integer(2)).unwrap();
    assert_eq!(evs, vec![EngineValue::F64((2.0f64).to_bits())]);
}

#[test]
fn absent_or_undeclared_results_are_empty() {
    let evs = trampoline_results(&vec![Type::I32], &HostValue::Absent).unwrap();
    assert_eq!(evs, vec![]);
    let evs = trampoline_results(&vec![], &HostValue::Integer(5)).unwrap();
    assert_eq!(evs, vec![]);
}

#[test]
fn trampoline_converts_arguments_out() {
    let args = vec![EngineValue::I32(7), EngineValue::F64((1.5f64).to_bits())];
    let host = trampoline_arguments(&args);
    assert_eq!(host, vec![HostValue::Integer(7), HostValue::Float((1.5f64).to_bits())]);
}

#[test]
fn wrong_argument_count_is_a_type_error_before_the_engine_runs() {
    let f = Function::raw_new(EngineFunction {
        ty: FunctionType { params: vec![Type::I32, Type::I32], results: vec![Type::I32] },
        backing: FunctionBacking::Native(1),
    });
    let r = f.prepare_arguments(&vec![HostValue::Integer(1)]);
    assert_eq!(r.unwrap_err().kind(), ExceptionKind::TypeError);
    let r = f.prepare_arguments(&vec![
        HostValue::Integer(1),
        HostValue::Integer(2),
        HostValue::Integer(3),
    ]);
    assert_eq!(r.unwrap_err().kind(), ExceptionKind::TypeError);
}

#[test]
fn arguments_convert_against_parameter_types() {
    let f = Function::raw_new(EngineFunction {
        ty: FunctionType { params: vec![Type::I32, Type::F64], results: vec![] },
        backing: FunctionBacking::Native(1),
    });
    let evs = f
        .prepare_arguments(&vec![HostValue::Integer(3), HostValue::Float((2.5f64).to_bits())])
        .unwrap();
    assert_eq!(evs, vec![EngineValue::I32(3), EngineValue::F64((2.5f64).to_bits())]);
    let r = f.prepare_arguments(&vec![HostValue::Integer(3), HostValue::Boolean(true)]);
    assert_eq!(r.unwrap_err().kind(), ExceptionKind::TypeError);
}

#[test]
fn result_arity_maps_out_to_the_host() {
    assert_eq!(Function::collect_results(&vec![]), HostValue::Absent);
    assert_eq!(
        Function::collect_results(&vec![EngineValue::I64(9)]),
        HostValue::Integer(9),
    );
}

#[test]
fn a_trap_surfaces_as_a_runtime_error_exception() {
    let trap = Trap::new(String::from("unreachable executed"));
    let e = trap_to_exception(trap);
    assert_eq!(e.kind(), ExceptionKind::RuntimeError);
    assert_eq!(e.message(), "unreachable executed");
}

#[test]
fn function_exposes_its_type() {
    let ft = FunctionType { params: vec![Type::I64], results: vec![Type::F32] };
    let f = Function::new(HostObject::Proc(8), ft).unwrap();
    assert_eq!(f.ty().params, vec![Type::I64]);
    assert_eq!(f.ty().results, vec![Type::F32]);
}
