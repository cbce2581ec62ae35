//! Descriptors of the primitive types of the language.
use vstd::prelude::*;

verus! {

/// A type descriptor. Descriptors are first-class values, so that a native
/// function such as `vec` can take a type as an argument.
#[derive(Debug, Clone, Copy, PartialEq, Eq, Structural)]
pub enum Type {
    Int,
    Real,
    Texto,
    Bool,
    Vector,
}

impl Type {
    /// The name of the type as user programs write it.
    pub open spec fn spec_name(self) -> Seq<char> {
        match self {
            Type::Int => "int"@,
            Type::Real => "real"@,
            Type::Texto => "texto"@,
            Type::Bool => "bool"@,
            Type::Vector => "Vector"@,
        }
    }

    /// The name of the type as user programs write it.
    pub fn name(&self) -> (r: &'static str)
        ensures
            r@ == self.spec_name(),
    {
        match self {
            Type::Int => "int",
            Type::Real => "real",
            Type::Texto => "texto",
            Type::Bool => "bool",
            Type::Vector => "Vector",
        }
    }
}

/// Whether a value of dynamic type `val_t` passes a checked cast to `target`:
/// exactly when the two descriptors are the same.
pub fn check_cast(val_t: Type, target: Type) -> (r: bool)
    ensures
        r == (val_t == target),
{
    val_t == target
}

} // verus!
