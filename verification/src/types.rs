//! The type descriptor system: WebAssembly value types with their stable
//! host-visible integer tags, and the composite function, memory, global and
//! table type records.

use vstd::prelude::*;
use crate::error::{Exception, ExceptionKind};

verus! {

/// A WebAssembly value type. Each variant carries a stable small-integer tag
/// in `1..=7`, part of the host-visible contract.
#[derive(Clone, Copy, PartialEq, Eq, Structural, Debug)]
pub enum Type {
    I32,
    I64,
    F32,
    F64,
    V128,
    ExternRef,
    FuncRef,
}

impl Type {
    /// The stable integer tag of this value type.
    pub open spec fn tag(self) -> i32 {
        match self {
            Type::I32 => 1,
            Type::I64 => 2,
            Type::F32 => 3,
            Type::F64 => 4,
            Type::V128 => 5,
            Type::ExternRef => 6,
            Type::FuncRef => 7,
        }
    }

    /// The value type a given integer tag names, if any: exactly the tags in
    /// `1..=7` name a type.
    pub open spec fn of_tag(tag: i32) -> Option<Type> {
        if tag == 1 {
            Some(Type::I32)
        } else if tag == 2 {
            Some(Type::I64)
        } else if tag == 3 {
            Some(Type::F32)
        } else if tag == 4 {
            Some(Type::F64)
        } else if tag == 5 {
            Some(Type::V128)
        } else if tag == 6 {
            Some(Type::ExternRef)
        } else if tag == 7 {
            Some(Type::FuncRef)
        } else {
            None
        }
    }

    /// Renders this value type as its stable integer tag.
    pub fn to_integer(&self) -> (r: i32)
        ensures
            r == self.tag(),
            1 <= r <= 7,
    {
        match self {
            Type::I32 => 1,
            Type::I64 => 2,
            Type::F32 => 3,
            Type::F64 => 4,
            Type::V128 => 5,
            Type::ExternRef => 6,
            Type::FuncRef => 7,
        }
    }

    /// Constructs the value type named by the integer tag `value`. Succeeds
    /// exactly on the tags `1..=7`; every other integer is rejected with a
    /// `TypeError`.
    pub fn try_from(value: i32) -> (r: Result<Type, Exception>)
        ensures
            r is Ok <==> 1 <= value <= 7,
            r matches Ok(ty) ==> Type::of_tag(value) == Some(ty),
            r matches Err(e) ==> e.kind == ExceptionKind::TypeError,
    {
        match value {
            1 => Ok(Type::I32),
            2 => Ok(Type::I64),
            3 => Ok(Type::F32),
            4 => Ok(Type::F64),
            5 => Ok(Type::V128),
            6 => Ok(Type::ExternRef),
            7 => Ok(Type::FuncRef),
            _ => Err(Exception::new(ExceptionKind::TypeError, "Unrecognized type")),
        }
    }
}

/// Whether every tag in `tags` names a value type.
pub open spec fn all_valid_tags(tags: Seq<i32>) -> bool {
    forall|i: int| 0 <= i < tags.len() ==> 1 <= #[trigger] tags[i] <= 7
}

/// The value types named by a sequence of tags, meaningful when every tag is
/// valid.
pub open spec fn types_of_tags(tags: Seq<i32>) -> Seq<Type> {
    tags.map_values(|t: i32| Type::of_tag(t).unwrap())
}

/// The integer tags of a sequence of value types.
pub open spec fn tags_of_types(types: Seq<Type>) -> Seq<i32> {
    types.map_values(|ty: Type| ty.tag())
}

/// Converts a whole sequence of integer tags to value types, rejecting the
/// first tag outside `1..=7` with a `TypeError`.
fn types_from_tags(tags: &Vec<i32>) -> (r: Result<Vec<Type>, Exception>)
    ensures
        r is Ok <==> all_valid_tags(tags@),
        r matches Ok(types) ==> types@ == types_of_tags(tags@),
        r matches Err(e) ==> e.kind == ExceptionKind::TypeError,
{
    let mut types: Vec<Type> = Vec::new();
    let mut i: usize = 0;
    while i < tags.len()
        invariant
            0 <= i <= tags@.len(),
            types@.len() == i,
            forall|j: int| 0 <= j < i ==> 1 <= #[trigger] tags@[j] <= 7,
            forall|j: int| 0 <= j < i ==> #[trigger] types@[j] == Type::of_tag(tags@[j]).unwrap(),
        decreases tags@.len() - i,
    {
        match Type::try_from(tags[i]) {
            Ok(ty) => {
                types.push(ty);
            },
            Err(e) => {
                return Err(e);
            },
        }
        i = i + 1;
    }
    assert(types@ =~= types_of_tags(tags@));
    Ok(types)
}

/// An ordered sequence of parameter value types and an ordered sequence of
/// result value types. Immutable once constructed.
#[derive(Clone, PartialEq, Debug)]
pub struct FunctionType {
    pub params: Vec<Type>,
    pub results: Vec<Type>,
}

impl FunctionType {
    /// Constructs a function type from two sequences of integer tags, one for
    /// the parameters and one for the results. Succeeds exactly when every
    /// tag is in `1..=7`; any other tag is rejected with a `TypeError`.
    pub fn new(params: &Vec<i32>, results: &Vec<i32>) -> (r: Result<FunctionType, Exception>)
        ensures
            r is Ok <==> all_valid_tags(params@) && all_valid_tags(results@),
            r matches Ok(ft) ==> ft.params@ == types_of_tags(params@) && ft.results@
                == types_of_tags(results@),
            r matches Err(e) ==> e.kind == ExceptionKind::TypeError,
    {
        let params = types_from_tags(params)?;
        let results = types_from_tags(results)?;
        Ok(FunctionType { params, results })
    }

    /// The parameter types, rendered as their integer tags.
    pub fn params(&self) -> (r: Vec<i32>)
        ensures
            r@ == tags_of_types(self.params@),
    {
        tags_of_type_vec(&self.params)
    }

    /// The result types, rendered as their integer tags.
    pub fn results(&self) -> (r: Vec<i32>)
        ensures
            r@ == tags_of_types(self.results@),
    {
        tags_of_type_vec(&self.results)
    }
}

/// Renders a sequence of value types as their integer tags.
fn tags_of_type_vec(types: &Vec<Type>) -> (r: Vec<i32>)
    ensures
        r@ == tags_of_types(types@),
{
    let mut tags: Vec<i32> = Vec::new();
    let mut i: usize = 0;
    while i < types.len()
        invariant
            0 <= i <= types@.len(),
            tags@.len() == i,
            forall|j: int| 0 <= j < i ==> #[trigger] tags@[j] == types@[j].tag(),
        decreases types@.len() - i,
    {
        tags.push(types[i].to_integer());
        i = i + 1;
    }
    assert(tags@ =~= tags_of_types(types@));
    tags
}

/// A linear-memory type: a minimum page count, an optional maximum page
/// count, and a shared flag. This layer does not enforce `maximum >=
/// minimum`; the engine enforces it at instantiation.
#[derive(Clone, Copy, PartialEq, Eq, Structural, Debug)]
pub struct MemoryType {
    pub minimum: u32,
    pub maximum: Option<u32>,
    pub shared: bool,
}

impl MemoryType {
    /// Constructs a memory type from its fields; pure and total.
    pub fn new(minimum: u32, maximum: Option<u32>, shared: bool) -> (r: MemoryType)
        ensures
            r.minimum == minimum,
            r.maximum == maximum,
            r.shared == shared,
    {
        MemoryType { minimum, maximum, shared }
    }

    /// The minimum page count.
    pub fn minimum(&self) -> (r: u32)
        ensures
            r == self.minimum,
    {
        self.minimum
    }

    /// The maximum page count, if one was declared.
    pub fn maximum(&self) -> (r: Option<u32>)
        ensures
            r == self.maximum,
    {
        self.maximum
    }

    /// Whether the memory is shared.
    pub fn shared(&self) -> (r: bool)
        ensures
            r == self.shared,
    {
        self.shared
    }
}

/// A global type: a value type plus a mutability flag.
#[derive(Clone, Copy, PartialEq, Eq, Structural, Debug)]
pub struct GlobalType {
    pub ty: Type,
    pub mutable: bool,
}

impl GlobalType {
    /// Constructs a global type from an integer tag and a mutability flag.
    /// The tag must be in `1..=7`; any other tag is rejected with a
    /// `TypeError`.
    pub fn new(ty: i32, mutable: bool) -> (r: Result<GlobalType, Exception>)
        ensures
            r is Ok <==> 1 <= ty <= 7,
            r matches Ok(gt) ==> Type::of_tag(ty) == Some(gt.ty) && gt.mutable == mutable,
            r matches Err(e) ==> e.kind == ExceptionKind::TypeError,
    {
        let ty = Type::try_from(ty)?;
        Ok(GlobalType { ty, mutable })
    }

    /// The value type, rendered as its integer tag.
    pub fn ty(&self) -> (r: i32)
        ensures
            r == self.ty.tag(),
    {
        self.ty.to_integer()
    }

    /// Whether the global is mutable.
    pub fn mutable(&self) -> (r: bool)
        ensures
            r == self.mutable,
    {
        self.mutable
    }
}

/// A table type: an element value type, a minimum size, and an optional
/// maximum size. Only reference types are semantically valid elements; this
/// layer does not enforce that.
#[derive(Clone, Copy, PartialEq, Eq, Structural, Debug)]
pub struct TableType {
    pub ty: Type,
    pub minimum: u32,
    pub maximum: Option<u32>,
}

impl TableType {
    /// Constructs a table type from an integer tag and its size bounds. The
    /// tag must be in `1..=7`; any other tag is rejected with a `TypeError`.
    pub fn new(ty: i32, minimum: u32, maximum: Option<u32>) -> (r: Result<TableType, Exception>)
        ensures
            r is Ok <==> 1 <= ty <= 7,
            r matches Ok(tt) ==> Type::of_tag(ty) == Some(tt.ty) && tt.minimum == minimum
                && tt.maximum == maximum,
            r matches Err(e) ==> e.kind == ExceptionKind::TypeError,
    {
        let ty = Type::try_from(ty)?;
        Ok(TableType { ty, minimum, maximum })
    }

    /// The element value type, rendered as its integer tag.
    pub fn ty(&self) -> (r: i32)
        ensures
            r == self.ty.tag(),
    {
        self.ty.to_integer()
    }

    /// The minimum size.
    pub fn minimum(&self) -> (r: u32)
        ensures
            r == self.minimum,
    {
        self.minimum
    }

    /// The maximum size, if one was declared.
    pub fn maximum(&self) -> (r: Option<u32>)
        ensures
            r == self.maximum,
    {
        self.maximum
    }
}

/// Law: every integer tag in `1..=7` names a type whose own tag it is, and
/// every integer outside `1..=7` names none.
pub proof fn lemma_tag_round_trip(t: i32)
    ensures
        1 <= t <= 7 ==> (Type::of_tag(t) matches Some(ty) && ty.tag() == t),
        !(1 <= t <= 7) ==> Type::of_tag(t) is None,
{
}

/// Law: parsing a type's own tag gives that type back.
pub proof fn lemma_type_of_own_tag(ty: Type)
    ensures
        Type::of_tag(ty.tag()) == Some(ty),
{
}

/// The polymorphic type payload of an export or import record: one of the
/// four recognized composite kinds.
#[derive(Clone, PartialEq, Debug)]
pub enum ExternType {
    Function(FunctionType),
    Memory(MemoryType),
    Global(GlobalType),
    Table(TableType),
}

/// The composite type record a dynamically typed payload carries, if it
/// carries one of the four recognized kinds.
pub open spec fn spec_extern_type_of(obj: crate::values::HostObject) -> Option<ExternType> {
    match obj {
        crate::values::HostObject::FunctionType(ft) => Some(ExternType::Function(ft)),
        crate::values::HostObject::MemoryType(mt) => Some(ExternType::Memory(mt)),
        crate::values::HostObject::GlobalType(gt) => Some(ExternType::Global(gt)),
        crate::values::HostObject::TableType(tt) => Some(ExternType::Table(tt)),
        _ => None,
    }
}

/// Narrows a dynamically typed payload to a composite type record, rejecting
/// everything else with a `TypeError` whose message is `message`.
fn extern_type_from_object(obj: crate::values::HostObject, message: &str) -> (r: Result<
    ExternType,
    Exception,
>)
    ensures
        r is Ok <==> spec_extern_type_of(obj) is Some,
        r matches Ok(et) ==> Some(et) == spec_extern_type_of(obj),
        r matches Err(e) ==> e.kind == ExceptionKind::TypeError && e.message@ == message@,
{
    match obj {
        crate::values::HostObject::FunctionType(ft) => Ok(ExternType::Function(ft)),
        crate::values::HostObject::MemoryType(mt) => Ok(ExternType::Memory(mt)),
        crate::values::HostObject::GlobalType(gt) => Ok(ExternType::Global(gt)),
        crate::values::HostObject::TableType(tt) => Ok(ExternType::Table(tt)),
        _ => Err(Exception::new(ExceptionKind::TypeError, message)),
    }
}

/// A named export of a module: a name plus one of the four composite type
/// payloads. A value object constructed once when introspecting a module; it
/// holds no reference back to the module.
#[derive(Clone, PartialEq, Debug)]
pub struct ExportType {
    pub name: String,
    pub ty: ExternType,
}

impl ExportType {
    /// Constructs an export record from a name and a dynamically typed
    /// payload. Succeeds exactly when the payload is one of the four
    /// recognized composite kinds; anything else is rejected with a
    /// `TypeError`.
    pub fn new(name: String, ty: crate::values::HostObject) -> (r: Result<ExportType, Exception>)
        ensures
            r is Ok <==> spec_extern_type_of(ty) is Some,
            r matches Ok(et) ==> et.name@ == name@ && Some(et.ty) == spec_extern_type_of(ty),
            r matches Err(e) ==> e.kind == ExceptionKind::TypeError,
    {
        let ty = extern_type_from_object(
            ty,
            "Argument #2 of `ExportType.new` must be of kind `FunctionType`, `MemoryType`, `GlobalType` or `TableType`",
        )?;
        Ok(ExportType { name, ty })
    }

    /// The export's name.
    pub fn name(&self) -> (r: &str)
        ensures
            r@ == self.name@,
    {
        self.name.as_str()
    }

    /// The export's type payload.
    pub fn ty(&self) -> (r: &ExternType)
        ensures
            r == self.ty,
    {
        &self.ty
    }
}

/// A named import a module asks for: a module namespace, a name, and one of
/// the four composite type payloads.
#[derive(Clone, PartialEq, Debug)]
pub struct ImportType {
    pub module: String,
    pub name: String,
    pub ty: ExternType,
}

impl ImportType {
    /// Constructs an import record from a module namespace, a name, and a
    /// dynamically typed payload. Succeeds exactly when the payload is one of
    /// the four recognized composite kinds; anything else is rejected with a
    /// `TypeError`.
    pub fn new(module: String, name: String, ty: crate::values::HostObject) -> (r: Result<
        ImportType,
        Exception,
    >)
        ensures
            r is Ok <==> spec_extern_type_of(ty) is Some,
            r matches Ok(it) ==> it.module@ == module@ && it.name@ == name@ && Some(it.ty)
                == spec_extern_type_of(ty),
            r matches Err(e) ==> e.kind == ExceptionKind::TypeError,
    {
        let ty = extern_type_from_object(
            ty,
            "Argument #3 of `ImportType.new` must be of kind `FunctionType`, `MemoryType`, `GlobalType` or `TableType`",
        )?;
        Ok(ImportType { module, name, ty })
    }

    /// The import's module namespace.
    pub fn module(&self) -> (r: &str)
        ensures
            r@ == self.module@,
    {
        self.module.as_str()
    }

    /// The import's name.
    pub fn name(&self) -> (r: &str)
        ensures
            r@ == self.name@,
    {
        self.name.as_str()
    }

    /// The import's type payload.
    pub fn ty(&self) -> (r: &ExternType)
        ensures
            r == self.ty,
    {
        &self.ty
    }
}

} // verus!
