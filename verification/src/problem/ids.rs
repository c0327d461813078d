//! Identifiers of the declarations of a problem.

use vstd::prelude::*;

verus! {

/// Identifiers: a value to start from before the problem assigns one.
pub trait Id: Copy + Sized {
    fn empty() -> Self;
}

#[derive(Clone, Copy, PartialEq, Eq, Debug, Hash, Structural)]
pub struct StructureId(pub usize);

#[derive(Clone, Copy, PartialEq, Eq, Debug, Hash, Structural)]
pub struct ClassId(pub usize);

#[derive(Clone, Copy, PartialEq, Eq, Debug, Hash, Structural)]
pub struct InstanceId(pub usize);

#[derive(Clone, Copy, PartialEq, Eq, Debug, Hash, Structural)]
pub struct VariableId(pub usize);

#[derive(Clone, Copy, PartialEq, Eq, Debug, Hash, Structural)]
pub struct FunctionId(pub usize);

#[derive(Clone, Copy, PartialEq, Eq, Debug, Hash, Structural)]
pub struct ConstraintId(pub usize);

/// The attribute of index `.1` of the structure or class `.0`.
#[derive(Clone, Copy, PartialEq, Eq, Debug, Hash)]
pub struct AttributeId<T: Id>(pub T, pub usize);

/// The method of index `.1` of the structure or class `.0`.
#[derive(Clone, Copy, PartialEq, Eq, Debug, Hash)]
pub struct MethodId<T: Id>(pub T, pub usize);

impl Id for StructureId {
    fn empty() -> Self {
        StructureId(0)
    }
}

impl Id for ClassId {
    fn empty() -> Self {
        ClassId(0)
    }
}

impl Id for InstanceId {
    fn empty() -> Self {
        InstanceId(0)
    }
}

impl Id for VariableId {
    fn empty() -> Self {
        VariableId(0)
    }
}

impl Id for FunctionId {
    fn empty() -> Self {
        FunctionId(0)
    }
}

impl Id for ConstraintId {
    fn empty() -> Self {
        ConstraintId(0)
    }
}

impl<T: Id> Id for AttributeId<T> {
    fn empty() -> Self {
        AttributeId(T::empty(), 0)
    }
}

impl<T: Id> Id for MethodId<T> {
    fn empty() -> Self {
        MethodId(T::empty(), 0)
    }
}

} // verus!
