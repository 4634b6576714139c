use vstd::prelude::*;

use crate::error::{Fault, SandboxExecutionError};

verus! {

/// The arena type of bumpalo, which owns every value of one execution.
#[verifier::external_type_specification]
#[verifier::external_body]
pub struct ExBump<const MIN_ALIGN: usize>(bumpalo::Bump<MIN_ALIGN>);

/// Relies on bumpalo::Bump::new: makes an empty arena.
pub assume_specification[ bumpalo::Bump::new ]() -> bumpalo::Bump;

/// A guest integer: 64-bit two's complement.
#[derive(Clone, Copy, Debug, PartialEq, Eq, Structural)]
pub struct VirPyInt {
    pub value: i64,
}

impl VirPyInt {
    pub fn new(value: i64) -> (r: Self)
        ensures
            r.value == value,
    {
        VirPyInt { value }
    }

    pub fn get_value(&self) -> (r: i64)
        ensures
            r == self.value,
    {
        self.value
    }
}

/// The runtime kind of a guest value.
#[derive(Debug)]
pub enum ValueKind {
    Int(VirPyInt),
    Bool(bool),
    Str(String),
    NoneValue,
    /// A failure carried as a value.
    Error(SandboxExecutionError),
}

/// The type of a value, as operator dispatch sees it.
#[derive(Clone, Copy, Debug, PartialEq, Eq, Structural)]
pub enum TypeTag {
    Int,
    Bool,
    Str,
    NoneValue,
    Error,
}

/// A handle to a value allocated in the arena of one execution.
pub type Value<'a> = &'a ValueKind;

/// The mathematical form of a guest value.
pub enum Val {
    Int(i64),
    Bool(bool),
    Str(Seq<char>),
    NoneValue,
    Error(Fault),
}

impl View for ValueKind {
    type V = Val;

    open spec fn view(&self) -> Val {
        match self {
            ValueKind::Int(i) => Val::Int(i.value),
            ValueKind::Bool(b) => Val::Bool(*b),
            ValueKind::Str(s) => Val::Str(s@),
            ValueKind::NoneValue => Val::NoneValue,
            ValueKind::Error(e) => Val::Error(e@),
        }
    }
}

pub open spec fn tag_of(v: Val) -> TypeTag {
    match v {
        Val::Int(_) => TypeTag::Int,
        Val::Bool(_) => TypeTag::Bool,
        Val::Str(_) => TypeTag::Str,
        Val::NoneValue => TypeTag::NoneValue,
        Val::Error(_) => TypeTag::Error,
    }
}

/// The guest-visible name of a type.
pub open spec fn guest_type_name(t: TypeTag) -> Seq<char> {
    match t {
        TypeTag::Int => "int"@,
        TypeTag::Bool => "bool"@,
        TypeTag::Str => "str"@,
        TypeTag::NoneValue => "NoneType"@,
        TypeTag::Error => "error"@,
    }
}

/// Relies on bumpalo::Bump::alloc: moves the value into the arena and hands
/// back a reference to it that lives as long as the arena. It panics only when
/// no memory can be reserved.
#[verifier::external_body]
pub(crate) fn alloc_value<'a>(arena: &'a bumpalo::Bump, v: ValueKind) -> (r: Value<'a>)
    ensures
        *r == v,
{
    arena.alloc(v)
}

/// Places a new value in `arena`; the handle is valid as long as the arena.
pub fn allocate<'a>(arena: &'a bumpalo::Bump, kind: ValueKind) -> (r: Value<'a>)
    ensures
        *r == kind,
{
    alloc_value(arena, kind)
}

impl ValueKind {
    pub fn type_tag(&self) -> (r: TypeTag)
        ensures
            r == tag_of(self@),
    {
        match self {
            ValueKind::Int(_) => TypeTag::Int,
            ValueKind::Bool(_) => TypeTag::Bool,
            ValueKind::Str(_) => TypeTag::Str,
            ValueKind::NoneValue => TypeTag::NoneValue,
            ValueKind::Error(_) => TypeTag::Error,
        }
    }

    /// The integer inside, if this value is an integer.
    pub fn as_int(&self) -> (r: Option<&VirPyInt>)
        ensures
            r matches Some(i) ==> self@ == Val::Int(i.value),
            r is None ==> !(self@ is Int),
    {
        match self {
            ValueKind::Int(i) => Some(i),
            _ => None,
        }
    }

    /// The boolean inside, if this value is a boolean.
    pub fn as_bool(&self) -> (r: Option<bool>)
        ensures
            r == (match self@ {
                Val::Bool(b) => Some(b),
                _ => None::<bool>,
            }),
    {
        match self {
            ValueKind::Bool(b) => Some(*b),
            _ => None,
        }
    }

    /// The string inside, if this value is a string.
    pub fn as_str(&self) -> (r: Option<&String>)
        ensures
            r matches Some(s) ==> self@ == Val::Str(s@),
            r is None ==> !(self@ is Str),
    {
        match self {
            ValueKind::Str(s) => Some(s),
            _ => None,
        }
    }

    /// The failure inside, if this value is an error value.
    pub fn as_error(&self) -> (r: Option<&SandboxExecutionError>)
        ensures
            r matches Some(e) ==> self@ == Val::Error(e@),
            r is None ==> !(self@ is Error),
    {
        match self {
            ValueKind::Error(e) => Some(e),
            _ => None,
        }
    }

    /// A deep copy of this value.
    pub fn duplicate(&self) -> (r: ValueKind)
        ensures
            r@ == self@,
    {
        match self {
            ValueKind::Int(i) => ValueKind::Int(*i),
            ValueKind::Bool(b) => ValueKind::Bool(*b),
            ValueKind::Str(s) => ValueKind::Str(s.clone()),
            ValueKind::NoneValue => ValueKind::NoneValue,
            ValueKind::Error(e) => ValueKind::Error(e.duplicate()),
        }
    }

    /// A copy of this value placed in `arena`.
    pub fn clone_in_arena<'a>(&self, arena: &'a bumpalo::Bump) -> (r: Value<'a>)
        ensures
            r@ == self@,
    {
        alloc_value(arena, self.duplicate())
    }
}

/// The guest-visible name of the type of `v`.
pub fn reveal_type(v: &ValueKind) -> (r: String)
    ensures
        r@ == guest_type_name(tag_of(v@)),
{
    let s = match v {
        ValueKind::Int(_) => "int",
        ValueKind::Bool(_) => "bool",
        ValueKind::Str(_) => "str",
        ValueKind::NoneValue => "NoneType",
        ValueKind::Error(_) => "error",
    };
    String::from_str(s)
}

} // verus!
