//! The host function bridge.
//!
//! One direction registers a host callable as an engine import function: on
//! each invocation from engine code the arguments are converted to host
//! values, the callable is invoked, and its result is converted back against
//! the declared result types, every failure becoming an engine trap. The
//! other direction lets host code invoke an engine function object: the host
//! arguments are converted against the declared parameter types before any
//! engine call, and an engine trap is re-raised as a host `RuntimeError`
//! exception.
//!
//! The invocation of the callable, and of the engine itself, is outside work
//! the embedding carries out; this module holds every decision around it.

use vstd::prelude::*;
use crate::error::{Exception, ExceptionKind};
use crate::types::{FunctionType, Type};
use crate::values::{
    spec_convertible, spec_to_engine, spec_to_host, to_engine_value, to_host_value, EngineValue,
    HostObject, HostValue,
};

verus! {

/// An engine-level trap: the abnormal termination of an in-flight engine
/// call, carrying a message. A trap is reported to the engine's caller; it is
/// a failure class distinct from a host exception.
#[derive(PartialEq, Debug)]
pub struct Trap {
    pub message: String,
}

impl Trap {
    /// Builds a trap carrying `message`. This also translates a failure
    /// signaled by a host callable into the trap the engine reports.
    pub fn new(message: String) -> (r: Trap)
        ensures
            r.message@ == message@,
    {
        Trap { message }
    }
}

/// Re-raises an engine trap caught at the bridge boundary as the host
/// `RuntimeError` exception carrying the trap's message.
pub fn trap_to_exception(trap: Trap) -> (r: Exception)
    ensures
        r.kind == ExceptionKind::RuntimeError,
        r.message@ == trap.message@,
{
    Exception { kind: ExceptionKind::RuntimeError, message: trap.message }
}

/// A host callable, resolved to its calling convention once at registration
/// time: a named-method reference, a closure value, or a bound method. The
/// handles are opaque to this layer.
#[derive(PartialEq, Debug)]
pub enum HostCallable {
    Symbol(String),
    Proc(u64),
    Method(u64),
}

/// The host callable a dynamically typed host object resolves to, if it is
/// one of the recognized callable kinds.
pub open spec fn spec_recognize_callable(obj: HostObject) -> Option<HostCallable> {
    match obj {
        HostObject::Symbol(s) => Some(HostCallable::Symbol(s)),
        HostObject::Proc(h) => Some(HostCallable::Proc(h)),
        HostObject::Method(h) => Some(HostCallable::Method(h)),
        _ => None,
    }
}

/// The captured closure-environment of a registered import function: the
/// resolved callable together with the declared result types. It is an
/// immutable, independently owned unit, supplied back on every invocation
/// from engine code, whatever execution context the engine runs on.
#[derive(PartialEq, Debug)]
pub struct HostFunctionEnv {
    pub callable: HostCallable,
    pub result_types: Vec<Type>,
}

/// What backs an engine function object: a function of a compiled module,
/// named by an opaque engine handle, or an import function backed by a
/// registered host callable.
#[derive(PartialEq, Debug)]
pub enum FunctionBacking {
    Native(u64),
    Host(HostFunctionEnv),
}

/// An engine-native function object: its declared function type and its
/// backing.
#[derive(PartialEq, Debug)]
pub struct EngineFunction {
    pub ty: FunctionType,
    pub backing: FunctionBacking,
}

/// A host-visible function object wrapping an engine function.
#[derive(PartialEq, Debug)]
pub struct Function {
    inner: EngineFunction,
}

impl View for Function {
    type V = EngineFunction;

    closed spec fn view(&self) -> EngineFunction {
        self.inner
    }
}

impl Function {
    /// Wraps an existing engine function object.
    pub fn raw_new(inner: EngineFunction) -> (r: Function)
        ensures
            r@ == inner,
    {
        Function { inner }
    }

    /// The wrapped engine function object.
    pub fn inner(&self) -> (r: &EngineFunction)
        ensures
            r == self@,
    {
        &self.inner
    }

    /// Registers a host callable as an engine import function of type
    /// `function_type`. Succeeds exactly when `function` is one of the
    /// recognized callable kinds, resolving its calling convention once, here,
    /// and capturing it with the declared result types; anything else is
    /// rejected immediately with a `TypeError`, before any call occurs.
    pub fn new(function: HostObject, function_type: FunctionType) -> (r: Result<
        Function,
        Exception,
    >)
        ensures
            r is Ok <==> spec_recognize_callable(function) is Some,
            r matches Ok(f) ==> f@.ty == function_type && (f@.backing matches
                FunctionBacking::Host(env) && Some(env.callable) == spec_recognize_callable(
                function,
            ) && env.result_types@ == function_type.results@),
            r matches Err(e) ==> e.kind == ExceptionKind::TypeError,
    {
        let callable = match function {
            HostObject::Symbol(s) => HostCallable::Symbol(s),
            HostObject::Proc(h) => HostCallable::Proc(h),
            HostObject::Method(h) => HostCallable::Method(h),
            _ => {
                return Err(
                    Exception::new(
                        ExceptionKind::TypeError,
                        "Argument #1 of `Function.new` must be either a `Symbol`, a `Proc`, or a `Method`",
                    ),
                );
            },
        };
        let result_types = copy_types(&function_type.results);
        let env = HostFunctionEnv { callable, result_types };
        Ok(Function { inner: EngineFunction { ty: function_type, backing: FunctionBacking::Host(env) } })
    }

    /// The declared function type of the wrapped engine function.
    pub fn ty(&self) -> (r: &FunctionType)
        ensures
            r == self@.ty,
    {
        &self.inner.ty
    }

    /// Converts the host arguments of a call against the declared parameter
    /// types, positionally. A wrong argument count, or an argument that does
    /// not convert, aborts with a host exception before any engine call is
    /// made.
    pub fn prepare_arguments(&self, arguments: &Vec<HostValue>) -> (r: Result<
        Vec<EngineValue>,
        Exception,
    >)
        ensures
            r is Ok <==> arguments@.len() == self@.ty.params@.len() && (forall|i: int|
                0 <= i < arguments@.len() ==> spec_convertible(
                    arguments@[i],
                    #[trigger] self@.ty.params@[i],
                )),
            r matches Ok(evs) ==> evs@.len() == arguments@.len() && (forall|i: int|
                0 <= i < evs@.len() ==> Some(#[trigger] evs@[i]) == spec_to_engine(
                    arguments@[i],
                    self@.ty.params@[i],
                )),
            r matches Err(e) ==> e.kind == ExceptionKind::TypeError,
    {
        if arguments.len() != self.inner.ty.params.len() {
            return Err(
                Exception::new(
                    ExceptionKind::TypeError,
                    "The number of arguments does not match the function's arity",
                ),
            );
        }
        let mut evs: Vec<EngineValue> = Vec::new();
        let mut i: usize = 0;
        while i < arguments.len()
            invariant
                i <= arguments@.len(),
                arguments@.len() == self@.ty.params@.len(),
                evs@.len() == i,
                forall|j: int|
                    0 <= j < i ==> Some(#[trigger] evs@[j]) == spec_to_engine(
                        arguments@[j],
                        self@.ty.params@[j],
                    ),
            decreases arguments@.len() - i,
        {
            match to_engine_value(&arguments[i], self.inner.ty.params[i]) {
                Ok(ev) => {
                    evs.push(ev);
                },
                Err(e) => {
                    proof {
                        if forall|j: int|
                            0 <= j < arguments@.len() ==> spec_convertible(
                                arguments@[j],
                                #[trigger] self@.ty.params@[j],
                            ) {
                            assert(spec_convertible(
                                arguments@[i as int],
                                self@.ty.params@[i as int],
                            ));
                        }
                    }
                    return Err(e);
                },
            }
            i = i + 1;
        }
        proof {
            assert forall|j: int|
                0 <= j < arguments@.len() implies spec_convertible(
                arguments@[j],
                #[trigger] self@.ty.params@[j],
            ) by {
                assert(Some(evs@[j]) == spec_to_engine(arguments@[j], self@.ty.params@[j]));
            }
        }
        Ok(evs)
    }

    /// Maps the engine results of a completed call out to the host: no result
    /// is an absent value, one result is that value, and several results are
    /// an ordered sequence.
    pub fn collect_results(results: &Vec<EngineValue>) -> (r: HostValue)
        requires
            forall|i: int|
                0 <= i < results@.len() ==> !(#[trigger] results@[i] matches EngineValue::V128(_)),
        ensures
            results@.len() == 0 ==> r == HostValue::Absent,
            results@.len() == 1 ==> r == spec_to_host(results@[0]),
            results@.len() > 1 ==> (r matches HostValue::Sequence(vs) && vs@.len()
                == results@.len() && (forall|i: int|
                0 <= i < vs@.len() ==> #[trigger] vs@[i] == spec_to_host(results@[i]))),
    {
        if results.len() == 0 {
            HostValue::Absent
        } else if results.len() == 1 {
            to_host_value(&results[0])
        } else {
            HostValue::Sequence(trampoline_arguments(results))
        }
    }
}

/// Copies a sequence of value types.
fn copy_types(types: &Vec<Type>) -> (r: Vec<Type>)
    ensures
        r@ == types@,
{
    let mut out: Vec<Type> = Vec::new();
    let mut i: usize = 0;
    while i < types.len()
        invariant
            i <= types@.len(),
            out@.len() == i,
            forall|j: int| 0 <= j < i ==> #[trigger] out@[j] == types@[j],
        decreases types@.len() - i,
    {
        out.push(types[i]);
        i = i + 1;
    }
    assert(out@ =~= types@);
    out
}

/// Converts the engine arguments of an invocation from engine code into the
/// host values handed to the captured callable.
pub fn trampoline_arguments(arguments: &Vec<EngineValue>) -> (r: Vec<HostValue>)
    requires
        forall|i: int|
            0 <= i < arguments@.len() ==> !(#[trigger] arguments@[i] matches EngineValue::V128(_)),
    ensures
        r@.len() == arguments@.len(),
        forall|i: int| 0 <= i < r@.len() ==> #[trigger] r@[i] == spec_to_host(arguments@[i]),
{
    let mut out: Vec<HostValue> = Vec::new();
    let mut i: usize = 0;
    while i < arguments.len()
        invariant
            i <= arguments@.len(),
            out@.len() == i,
            forall|j: int|
                0 <= j < arguments@.len() ==> !(#[trigger] arguments@[j] matches
                EngineValue::V128(_)),
            forall|j: int| 0 <= j < i ==> #[trigger] out@[j] == spec_to_host(arguments@[j]),
        decreases arguments@.len() - i,
    {
        out.push(to_host_value(&arguments[i]));
        i = i + 1;
    }
    out
}

/// The length of the positional zip of the callable's results with the
/// declared result types: the shorter of the two.
pub open spec fn spec_zip_len(values: Seq<HostValue>, types: Seq<Type>) -> int {
    if values.len() <= types.len() {
        values.len() as int
    } else {
        types.len() as int
    }
}

/// Whether every zipped pair of a result value and its declared type
/// converts.
pub open spec fn spec_zip_convertible(values: Seq<HostValue>, types: Seq<Type>) -> bool {
    forall|i: int|
        0 <= i < spec_zip_len(values, types) ==> spec_convertible(
            values[i],
            #[trigger] types[i],
        )
}

/// The engine values of the positional zip conversion, meaningful when every
/// pair converts.
pub open spec fn spec_zip_converted(values: Seq<HostValue>, types: Seq<Type>) -> Seq<EngineValue> {
    Seq::new(
        spec_zip_len(values, types) as nat,
        |i: int| spec_to_engine(values[i], types[i]).unwrap(),
    )
}

/// The engine result sequence a callable's return value converts to against
/// the declared result types, or `None` where the conversion traps. An
/// ordered multi-value return is zipped positionally against the declared
/// types; a single non-absent return with at least one declared type is
/// converted against the first; an absent return, or no declared types,
/// yields no results.
pub open spec fn spec_trampoline_results(types: Seq<Type>, results: HostValue) -> Option<
    Seq<EngineValue>,
> {
    match results {
        HostValue::Sequence(vs) => if spec_zip_convertible(vs@, types) {
            Some(spec_zip_converted(vs@, types))
        } else {
            None
        },
        HostValue::Absent => Some(Seq::empty()),
        _ => {
            if types.len() == 0 {
                Some(Seq::empty())
            } else {
                match spec_to_engine(results, types[0]) {
                    Some(ev) => Some(seq![ev]),
                    None => None,
                }
            }
        },
    }
}

/// Converts the value a host callable returned into the engine result
/// sequence of the invocation, against the declared result types. Any value
/// that does not convert makes the whole invocation trap, carrying the
/// conversion failure's message; registration never checks this, so a
/// callable whose returns never match its declaration still registers and
/// fails only when called.
pub fn trampoline_results(result_types: &Vec<Type>, results: &HostValue) -> (r: Result<
    Vec<EngineValue>,
    Trap,
>)
    ensures
        r is Ok <==> spec_trampoline_results(result_types@, *results) is Some,
        r matches Ok(evs) ==> Some(evs@) == spec_trampoline_results(result_types@, *results),
{
    match results {
        HostValue::Sequence(vs) => {
            let n: usize = if vs.len() <= result_types.len() {
                vs.len()
            } else {
                result_types.len()
            };
            let mut evs: Vec<EngineValue> = Vec::new();
            let mut i: usize = 0;
            while i < n
                invariant
                    i <= n,
                    n == spec_zip_len(vs@, result_types@),
                    *results matches HostValue::Sequence(vsx) && vsx@ == vs@,
                    evs@.len() == i,
                    forall|j: int|
                        0 <= j < i ==> Some(#[trigger] evs@[j]) == spec_to_engine(
                            vs@[j],
                            result_types@[j],
                        ),
                decreases n - i,
            {
                match to_engine_value(&vs[i], result_types[i]) {
                    Ok(ev) => {
                        evs.push(ev);
                    },
                    Err(e) => {
                        proof {
                            assert((i as int) < spec_zip_len(vs@, result_types@));
                            assert(!spec_convertible(vs@[i as int], result_types@[i as int]));
                            if spec_zip_convertible(vs@, result_types@) {
                                assert(spec_convertible(vs@[i as int], result_types@[i as int]));
                            }
                        }
                        return Err(Trap::new(e.message));
                    },
                }
                i = i + 1;
            }
            proof {
                assert forall|j: int|
                    0 <= j < spec_zip_len(vs@, result_types@) implies spec_convertible(
                    vs@[j],
                    #[trigger] result_types@[j],
                ) by {
                    assert(Some(evs@[j]) == spec_to_engine(vs@[j], result_types@[j]));
                }
                assert(evs@ =~= spec_zip_converted(vs@, result_types@));
            }
            Ok(evs)
        },
        HostValue::Absent => Ok(Vec::new()),
        other => {
            if result_types.len() == 0 {
                Ok(Vec::new())
            } else {
                match to_engine_value(other, result_types[0]) {
                    Ok(ev) => {
                        let mut evs: Vec<EngineValue> = Vec::new();
                        evs.push(ev);
                        assert(evs@ =~= seq![ev]);
                        Ok(evs)
                    },
                    Err(e) => Err(Trap::new(e.message)),
                }
            }
        },
    }
}

} // verus!
