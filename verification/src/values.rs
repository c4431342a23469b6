//! The value marshaller: bidirectional conversion between a single engine
//! value and a host-language value, type-directed by a target value type.
//!
//! Converting into the engine needs a target type, because a host numeric is
//! not self-describing; converting out of the engine is self-describing,
//! because every engine value carries its tag.

use vstd::prelude::*;
use crate::error::{Exception, ExceptionKind};
use crate::float_bits::{
    f32_bits_to_f64_bits, f64_bits_to_f32_bits, f64_trunc_bits, i64_to_f32_bits, i64_to_f64_bits,
    spec_f32_to_f64, spec_f64_to_f32, spec_f64_trunc, spec_i64_to_f32, spec_i64_to_f64,
};
use crate::types::{FunctionType, GlobalType, MemoryType, TableType, Type};

verus! {

/// A host-language value at the marshalling boundary: a closed sum standing
/// for the host's single dynamic value type, independent of the richer
/// dynamic type system a concrete host language may offer. Floats are carried
/// as 64-bit IEEE-754 bit patterns.
#[derive(PartialEq, Debug)]
pub enum HostValue {
    Integer(i64),
    Float(u64),
    Boolean(bool),
    Text(String),
    ExternRef(u64),
    FuncRef(u64),
    Sequence(Vec<HostValue>),
    Absent,
}

/// A value as the dynamically typed host hands it to this layer: a plain
/// value, one of the recognized callable kinds (a named-method reference, a
/// closure, or a bound method), or one of the four composite type records.
#[derive(PartialEq, Debug)]
pub enum HostObject {
    Value(HostValue),
    Symbol(String),
    Proc(u64),
    Method(u64),
    FunctionType(FunctionType),
    MemoryType(MemoryType),
    GlobalType(GlobalType),
    TableType(TableType),
}

/// An engine value: a tagged union holding exactly one payload matching a
/// value type. The float payloads are IEEE-754 bit patterns (`u32` for a
/// 32-bit float, `u64` for a 64-bit float); the reference payloads are opaque
/// handles.
#[derive(Clone, Copy, PartialEq, Eq, Structural, Debug)]
pub enum EngineValue {
    I32(i32),
    I64(i64),
    F32(u32),
    F64(u64),
    V128(u128),
    ExternRef(u64),
    FuncRef(u64),
}

impl EngineValue {
    /// The value type this engine value carries.
    pub open spec fn ty_spec(self) -> Type {
        match self {
            EngineValue::I32(_) => Type::I32,
            EngineValue::I64(_) => Type::I64,
            EngineValue::F32(_) => Type::F32,
            EngineValue::F64(_) => Type::F64,
            EngineValue::V128(_) => Type::V128,
            EngineValue::ExternRef(_) => Type::ExternRef,
            EngineValue::FuncRef(_) => Type::FuncRef,
        }
    }

    /// Reads the value type this engine value carries.
    pub fn ty(&self) -> (r: Type)
        ensures
            r == self.ty_spec(),
    {
        match self {
            EngineValue::I32(_) => Type::I32,
            EngineValue::I64(_) => Type::I64,
            EngineValue::F32(_) => Type::F32,
            EngineValue::F64(_) => Type::F64,
            EngineValue::V128(_) => Type::V128,
            EngineValue::ExternRef(_) => Type::ExternRef,
            EngineValue::FuncRef(_) => Type::FuncRef,
        }
    }
}

/// The 32-bit two's-complement equivalent of an integer: the result is in
/// `[-pow2(31), pow2(31))` and congruent to `x` modulo `pow2(32)`.
pub open spec fn spec_wrap_i32(x: int) -> int {
    let low = x % 0x100000000;
    if low >= 0x80000000 {
        low - 0x100000000
    } else {
        low
    }
}

/// The 64-bit two's-complement equivalent of an integer: the result is in
/// `[-pow2(63), pow2(63))` and congruent to `x` modulo `pow2(64)`.
pub open spec fn spec_wrap_i64(x: int) -> int {
    let low = x % 0x10000000000000000;
    if low >= 0x8000000000000000 {
        low - 0x10000000000000000
    } else {
        low
    }
}

/// Narrows a host integer to 32 bits with two's-complement wraparound.
fn wrap_i64_to_i32(x: i64) -> (r: i32)
    ensures
        r as int == spec_wrap_i32(x as int),
{
    let u: u64 = if x < 0 {
        ((x as i128) + 0x10000000000000000) as u64
    } else {
        x as u64
    };
    proof {
        vstd::arithmetic::div_mod::lemma_mod_multiples_vanish(
            0x100000000,
            x as int,
            0x100000000,
        );
    }
    let low: u64 = u % 0x100000000;
    if low >= 0x80000000 {
        ((low as i64) - 0x100000000) as i32
    } else {
        low as i32
    }
}

/// Reinterprets a 64-bit pattern as a signed 64-bit integer.
fn u64_pattern_to_i64(t: u64) -> (r: i64)
    ensures
        r as int == spec_wrap_i64(t as int),
{
    if t >= 0x8000000000000000 {
        ((t as i128) - 0x10000000000000000) as i64
    } else {
        t as i64
    }
}

/// Keeps the low 32 bits of a 64-bit pattern, as a signed 32-bit integer.
fn u64_pattern_to_i32(t: u64) -> (r: i32)
    ensures
        r as int == spec_wrap_i32(t as int),
{
    let low: u64 = t % 0x100000000;
    if low >= 0x80000000 {
        ((low as i64) - 0x100000000) as i32
    } else {
        low as i32
    }
}

/// The engine value that `value` converts to under the target type `ty`, or
/// `None` where the conversion is a type error. The 32- and 64-bit integer
/// targets accept a host numeric and truncate it with two's-complement
/// wraparound; the float targets accept a host numeric and coerce it to the
/// target width; a reference target accepts exactly the reference handle of
/// its own kind; nothing converts into a 128-bit vector.
pub open spec fn spec_to_engine(value: HostValue, ty: Type) -> Option<EngineValue> {
    match ty {
        Type::I32 => match value {
            HostValue::Integer(i) => Some(EngineValue::I32(spec_wrap_i32(i as int) as i32)),
            HostValue::Float(d) => Some(
                EngineValue::I32(spec_wrap_i32(spec_f64_trunc(d as int)) as i32),
            ),
            _ => None,
        },
        Type::I64 => match value {
            HostValue::Integer(i) => Some(EngineValue::I64(i)),
            HostValue::Float(d) => Some(
                EngineValue::I64(spec_wrap_i64(spec_f64_trunc(d as int)) as i64),
            ),
            _ => None,
        },
        Type::F32 => match value {
            HostValue::Integer(i) => Some(EngineValue::F32(spec_i64_to_f32(i as int) as u32)),
            HostValue::Float(d) => Some(EngineValue::F32(spec_f64_to_f32(d as int) as u32)),
            _ => None,
        },
        Type::F64 => match value {
            HostValue::Integer(i) => Some(EngineValue::F64(spec_i64_to_f64(i as int) as u64)),
            HostValue::Float(d) => Some(EngineValue::F64(d)),
            _ => None,
        },
        Type::V128 => None,
        Type::ExternRef => match value {
            HostValue::ExternRef(h) => Some(EngineValue::ExternRef(h)),
            _ => None,
        },
        Type::FuncRef => match value {
            HostValue::FuncRef(h) => Some(EngineValue::FuncRef(h)),
            _ => None,
        },
    }
}

/// Whether `value` converts into the engine under the target type `ty`.
pub open spec fn spec_convertible(value: HostValue, ty: Type) -> bool {
    spec_to_engine(value, ty) is Some
}

/// Converts a host value into an engine value, directed by the target type
/// `ty`. Succeeds exactly where `spec_to_engine` is defined, and rejects
/// every other pairing with a `TypeError`.
pub fn to_engine_value(value: &HostValue, ty: Type) -> (r: Result<EngineValue, Exception>)
    ensures
        r is Ok <==> spec_convertible(*value, ty),
        r matches Ok(ev) ==> Some(ev) == spec_to_engine(*value, ty),
        r matches Err(e) ==> e.kind == ExceptionKind::TypeError,
{
    match ty {
        Type::I32 => match value {
            HostValue::Integer(i) => Ok(EngineValue::I32(wrap_i64_to_i32(*i))),
            HostValue::Float(d) => Ok(EngineValue::I32(u64_pattern_to_i32(f64_trunc_bits(*d)))),
            _ => Err(type_error_expected_numeric()),
        },
        Type::I64 => match value {
            HostValue::Integer(i) => Ok(EngineValue::I64(*i)),
            HostValue::Float(d) => Ok(EngineValue::I64(u64_pattern_to_i64(f64_trunc_bits(*d)))),
            _ => Err(type_error_expected_numeric()),
        },
        Type::F32 => match value {
            HostValue::Integer(i) => Ok(EngineValue::F32(i64_to_f32_bits(*i))),
            HostValue::Float(d) => Ok(EngineValue::F32(f64_bits_to_f32_bits(*d))),
            _ => Err(type_error_expected_numeric()),
        },
        Type::F64 => match value {
            HostValue::Integer(i) => Ok(EngineValue::F64(i64_to_f64_bits(*i))),
            HostValue::Float(d) => Ok(EngineValue::F64(*d)),
            _ => Err(type_error_expected_numeric()),
        },
        Type::V128 => Err(
            Exception::new(
                ExceptionKind::TypeError,
                "There is no host representation for a 128-bit vector value",
            ),
        ),
        Type::ExternRef => match value {
            HostValue::ExternRef(h) => Ok(EngineValue::ExternRef(*h)),
            _ => Err(
                Exception::new(
                    ExceptionKind::TypeError,
                    "Expected an external-reference handle",
                ),
            ),
        },
        Type::FuncRef => match value {
            HostValue::FuncRef(h) => Ok(EngineValue::FuncRef(*h)),
            _ => Err(
                Exception::new(
                    ExceptionKind::TypeError,
                    "Expected a function-reference handle",
                ),
            ),
        },
    }
}

/// The exception rejecting a non-numeric host value offered to a numeric
/// target type.
fn type_error_expected_numeric() -> (r: Exception)
    ensures
        r.kind == ExceptionKind::TypeError,
{
    Exception::new(ExceptionKind::TypeError, "Expected a host numeric value")
}

/// The host value an engine value projects to: an integer, a float, or an
/// opaque reference handle, directed by the engine value's own tag. A 128-bit
/// vector has no host representation and is never offered to this projection.
pub open spec fn spec_to_host(value: EngineValue) -> HostValue {
    match value {
        EngineValue::I32(i) => HostValue::Integer(i as i64),
        EngineValue::I64(i) => HostValue::Integer(i),
        EngineValue::F32(s) => HostValue::Float(spec_f32_to_f64(s as int) as u64),
        EngineValue::F64(d) => HostValue::Float(d),
        EngineValue::V128(_) => HostValue::Absent,
        EngineValue::ExternRef(h) => HostValue::ExternRef(h),
        EngineValue::FuncRef(h) => HostValue::FuncRef(h),
    }
}

/// Converts an engine value out to the host. Total on every payload the host
/// can represent; a 128-bit vector has no host representation and is excluded.
pub fn to_host_value(value: &EngineValue) -> (r: HostValue)
    requires
        !(*value matches EngineValue::V128(_)),
    ensures
        r == spec_to_host(*value),
{
    match value {
        EngineValue::I32(i) => HostValue::Integer(*i as i64),
        EngineValue::I64(i) => HostValue::Integer(*i),
        EngineValue::F32(s) => HostValue::Float(f32_bits_to_f64_bits(*s)),
        EngineValue::F64(d) => HostValue::Float(*d),
        EngineValue::V128(_) => HostValue::Absent,
        EngineValue::ExternRef(h) => HostValue::ExternRef(*h),
        EngineValue::FuncRef(h) => HostValue::FuncRef(*h),
    }
}

/// Law: the tag of an engine value produced by a conversion equals the value
/// type that drove the conversion.
pub proof fn lemma_conversion_tag(value: HostValue, ty: Type)
    ensures
        spec_to_engine(value, ty) matches Some(ev) ==> ev.ty_spec() == ty,
{
}

/// Law: a host integer in the 32-bit range converts into an `I32` engine
/// value and projects back to the same integer.
pub proof fn lemma_round_trip_i32(v: i64)
    requires
        -0x80000000 <= v < 0x80000000,
    ensures
        spec_to_engine(HostValue::Integer(v), Type::I32) matches Some(ev) && spec_to_host(ev)
            == HostValue::Integer(v),
{
    assert(spec_wrap_i32(v as int) == v as int);
}

/// Law: every host integer converts into an `I64` engine value and projects
/// back to the same integer.
pub proof fn lemma_round_trip_i64(v: i64)
    ensures
        spec_to_engine(HostValue::Integer(v), Type::I64) matches Some(ev) && spec_to_host(ev)
            == HostValue::Integer(v),
{
}

/// Law: every host float whose value is exactly representable at 32 bits —
/// that is, every projection of an `F32` engine value — converts into the
/// `F32` engine value it came from, and projects back to the same host
/// float. A not-a-number pattern is the one exclusion: narrowing
/// canonicalizes its payload.
pub proof fn lemma_round_trip_f32(s: u32)
    requires
        !((s / 0x800000) % 0x100 == 0xff && s % 0x800000 != 0),
    ensures
        ({
            let d = crate::float_bits::spec_f32_to_f64(s as int) as u64;
            spec_to_host(EngineValue::F32(s)) == HostValue::Float(d) && spec_to_engine(
                HostValue::Float(d),
                Type::F32,
            ) == Some(EngineValue::F32(s))
        }),
{
    crate::float_bits::lemma_narrow_of_widen(s as int);
}

/// Law: a host integer of magnitude below `pow2(53)` converts into an `F64`
/// engine value exactly: projecting that value back to the host and
/// converting the projection into an `I64` gives the integer again.
pub proof fn lemma_integer_exact_through_f64(v: i64)
    requires
        -0x20000000000000 < v < 0x20000000000000,
    ensures
        ({
            let ev = spec_to_engine(HostValue::Integer(v), Type::F64);
            ev matches Some(f) && spec_to_engine(spec_to_host(f), Type::I64) == Some(
                EngineValue::I64(v),
            )
        }),
{
    crate::float_bits::lemma_trunc_of_i64_to_f64(v as int);
}

/// Law: every host float converts into an `F64` engine value and projects
/// back to the same float.
pub proof fn lemma_round_trip_f64(d: u64)
    ensures
        spec_to_engine(HostValue::Float(d), Type::F64) matches Some(ev) && spec_to_host(ev)
            == HostValue::Float(d),
{
}

} // verus!
