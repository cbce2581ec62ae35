//! The values that programs compute with.
use vstd::prelude::*;
use crate::amatype::Type;
use crate::function::{AmaFunc, Builtin, Frame, NativeFunc};
use crate::host::Num;

verus! {

broadcast use vstd::string::group_string_axioms;

/// A handle to a composite value that the allocator owns. Copies of a handle
/// refer to the same object.
#[derive(Debug, Clone, Copy, PartialEq, Eq, Structural)]
pub struct Ref(pub usize);

/// A handle to a record schema: the position of the module that owns the
/// schema, and the position of the schema in that module.
#[derive(Debug, Clone, Copy, PartialEq, Eq, Structural)]
pub struct RegistoRef {
    pub module: usize,
    pub index: usize,
}

/// A runtime value.
#[derive(Debug)]
pub enum AmaValue {
    Int(i64),
    /// A real, as the 64 bits of its IEEE 754 binary64 form.
    Real(u64),
    Bool(bool),
    Func(AmaFunc),
    NativeFn(NativeFunc),
    Type(Type),
    /// The null value.
    Nulo,
    Vector(Ref),
    Str(String),
    Registo(RegistoRef),
    RegObj(Ref),
    Variant(u64, Option<Ref>),
}

/// The mathematical model of a runtime value.
pub enum Value {
    Int(i64),
    Real(u64),
    Bool(bool),
    Func(Frame),
    NativeFn(Builtin),
    Type(Type),
    Nulo,
    Vector(Ref),
    Str(Seq<char>),
    Registo(RegistoRef),
    RegObj(Ref),
    Variant(u64, Option<Ref>),
}

impl View for AmaValue {
    type V = Value;

    open spec fn view(&self) -> Value {
        match self {
            AmaValue::Int(i) => Value::Int(*i),
            AmaValue::Real(bits) => Value::Real(*bits),
            AmaValue::Bool(b) => Value::Bool(*b),
            AmaValue::Func(f) => Value::Func(f@),
            AmaValue::NativeFn(f) => Value::NativeFn(f.func),
            AmaValue::Type(t) => Value::Type(*t),
            AmaValue::Nulo => Value::Nulo,
            AmaValue::Vector(r) => Value::Vector(*r),
            AmaValue::Str(s) => Value::Str(s@),
            AmaValue::Registo(r) => Value::Registo(*r),
            AmaValue::RegObj(r) => Value::RegObj(*r),
            AmaValue::Variant(tag, items) => Value::Variant(*tag, *items),
        }
    }
}

/// The models of a sequence of values.
pub open spec fn values_of(s: Seq<AmaValue>) -> Seq<Value> {
    Seq::new(s.len(), |i: int| s[i]@)
}

/// The models of a sequence of strings.
pub open spec fn texts_of(s: Seq<String>) -> Seq<Seq<char>> {
    Seq::new(s.len(), |i: int| s[i]@)
}

impl Clone for AmaValue {
    /// A copy of the value. The copy of a handle refers to the same object.
    fn clone(&self) -> (r: Self)
        ensures
            r == *self,
    {
        match self {
            AmaValue::Int(i) => AmaValue::Int(*i),
            AmaValue::Real(bits) => AmaValue::Real(*bits),
            AmaValue::Bool(b) => AmaValue::Bool(*b),
            AmaValue::Func(f) => AmaValue::Func(f.clone()),
            AmaValue::NativeFn(f) => AmaValue::NativeFn(*f),
            AmaValue::Type(t) => AmaValue::Type(*t),
            AmaValue::Nulo => AmaValue::Nulo,
            AmaValue::Vector(r) => AmaValue::Vector(*r),
            AmaValue::Str(s) => AmaValue::Str(s.clone()),
            AmaValue::Registo(r) => AmaValue::Registo(*r),
            AmaValue::RegObj(r) => AmaValue::RegObj(*r),
            AmaValue::Variant(tag, items) => AmaValue::Variant(*tag, *items),
        }
    }
}

impl Value {
    /// The dynamic type of a value; only integers, reals, booleans, texts
    /// and vectors have one.
    pub open spec fn spec_type(self) -> Option<Type> {
        match self {
            Value::Str(_) => Some(Type::Texto),
            Value::Int(_) => Some(Type::Int),
            Value::Real(_) => Some(Type::Real),
            Value::Bool(_) => Some(Type::Bool),
            Value::Vector(_) => Some(Type::Vector),
            _ => None,
        }
    }
}

impl AmaValue {
    /// The dynamic type of the value.
    pub fn get_type(&self) -> (t: Type)
        requires
            self@.spec_type() is Some,
        ensures
            Some(t) == self@.spec_type(),
    {
        match self {
            AmaValue::Str(_) => Type::Texto,
            AmaValue::Int(_) => Type::Int,
            AmaValue::Real(_) => Type::Real,
            AmaValue::Bool(_) => Type::Bool,
            _ => Type::Vector,
        }
    }

    /// The dynamic type of the value, if it has one.
    pub fn type_of(&self) -> (t: Option<Type>)
        ensures
            t == self@.spec_type(),
    {
        match self {
            AmaValue::Str(_) => Some(Type::Texto),
            AmaValue::Int(_) => Some(Type::Int),
            AmaValue::Real(_) => Some(Type::Real),
            AmaValue::Bool(_) => Some(Type::Bool),
            AmaValue::Vector(_) => Some(Type::Vector),
            _ => None,
        }
    }

    /// The integer that the value holds.
    pub fn take_int(&self) -> (i: i64)
        requires
            self@ is Int,
        ensures
            self@ == Value::Int(i),
    {
        match self {
            AmaValue::Int(i) => *i,
            _ => 0,
        }
    }

    /// The number that the value holds, as an operand for the host, which
    /// does the arithmetic on reals.
    pub fn take_float(&self) -> (n: Num)
        requires
            self@ is Int || self@ is Real,
        ensures
            self@ == Value::Int(n->Int_0) || self@ == Value::Real(n->Real_0),
            self@ is Int <==> n is Int,
    {
        match self {
            AmaValue::Int(i) => Num::Int(*i),
            AmaValue::Real(bits) => Num::Real(*bits),
            _ => Num::Int(0),
        }
    }

    /// The type descriptor that the value holds.
    pub fn take_type(&self) -> (t: Type)
        requires
            self@ is Type,
        ensures
            self@ == Value::Type(t),
    {
        match self {
            AmaValue::Type(t) => *t,
            _ => Type::Int,
        }
    }

    /// The text that the value holds.
    pub fn take_str(&self) -> (s: &str)
        requires
            self@ is Str,
        ensures
            self@ == Value::Str(s@),
    {
        match self {
            AmaValue::Str(s) => s.as_str(),
            _ => "",
        }
    }

    /// The boolean that the value holds.
    pub fn take_bool(&self) -> (b: bool)
        requires
            self@ is Bool,
        ensures
            self@ == Value::Bool(b),
    {
        match self {
            AmaValue::Bool(b) => *b,
            _ => false,
        }
    }

    /// The function descriptor that the value holds.
    pub fn take_func(self) -> (f: AmaFunc)
        requires
            self@ is Func,
        ensures
            self@ == Value::Func(f@),
    {
        match self {
            AmaValue::Func(f) => f,
            _ => AmaFunc {
                name: String::new(),
                start_ip: 0,
                ip: 0,
                last_i: 0,
                bp: -1,
                locals: 0,
                module: crate::function::FuncModule::Main,
            },
        }
    }

    /// The handle of the record instance that the value holds.
    pub fn take_regobj(&self) -> (r: Ref)
        requires
            self@ is RegObj,
        ensures
            self@ == Value::RegObj(r),
    {
        match self {
            AmaValue::RegObj(r) => *r,
            _ => Ref(0),
        }
    }

    /// Whether the value is a real.
    pub fn is_float(&self) -> (b: bool)
        ensures
            b == (self@ is Real),
    {
        match self {
            AmaValue::Real(_) => true,
            _ => false,
        }
    }

    /// Whether the value is a text.
    pub fn is_str(&self) -> (b: bool)
        ensures
            b == (self@ is Str),
    {
        match self {
            AmaValue::Str(_) => true,
            _ => false,
        }
    }

    /// Whether the value is a boolean.
    pub fn is_bool(&self) -> (b: bool)
        ensures
            b == (self@ is Bool),
    {
        match self {
            AmaValue::Bool(_) => true,
            _ => false,
        }
    }

    /// Whether the value is an integer.
    pub fn is_int(&self) -> (b: bool)
        ensures
            b == (self@ is Int),
    {
        match self {
            AmaValue::Int(_) => true,
            _ => false,
        }
    }

    /// Whether the value is the null value.
    pub fn is_none(&self) -> (b: bool)
        ensures
            b == (self@ is Nulo),
    {
        match self {
            AmaValue::Nulo => true,
            _ => false,
        }
    }
}

} // verus!
