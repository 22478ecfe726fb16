//! Dispatch table for the imported math operations.
//!
//! A selector from a closed set resolves, totally and purely, to a function
//! value: either one of the three base operations imported from the host, or
//! a derived reciprocal that calls the matching base import and divides one
//! by its result. Resolution itself involves no floating point; applying a
//! resolved function value to a number is the indirect-call entry point,
//! which lives with the unverified numeric code outside this library.

use vstd::prelude::*;

verus! {

/// Selector for one of the six operations the module can dispatch to.
#[derive(Clone, Copy, PartialEq, Eq, Structural, Debug)]
pub enum Func {
    Sin,
    Cos,
    Tan,
    Csc,
    Sec,
    Cot,
}

/// One of the three operations imported directly from the host.
#[derive(Clone, Copy, PartialEq, Eq, Structural, Debug)]
pub enum BaseFunc {
    Sin,
    Cos,
    Tan,
}

/// A resolved function value: a base import taken as it is, or the derived
/// operation that computes the reciprocal of a base import's result.
#[derive(Clone, Copy, PartialEq, Eq, Structural, Debug)]
pub enum FuncValue {
    Base(BaseFunc),
    Reciprocal(BaseFunc),
}

/// The dispatch mapping: total over the selectors, pure, and resolving each
/// reciprocal selector to the reciprocal of its matching base operation.
pub open spec fn resolve(f: Func) -> FuncValue {
    match f {
        Func::Sin => FuncValue::Base(BaseFunc::Sin),
        Func::Cos => FuncValue::Base(BaseFunc::Cos),
        Func::Tan => FuncValue::Base(BaseFunc::Tan),
        Func::Csc => FuncValue::Reciprocal(BaseFunc::Sin),
        Func::Sec => FuncValue::Reciprocal(BaseFunc::Cos),
        Func::Cot => FuncValue::Reciprocal(BaseFunc::Tan),
    }
}

/// Resolves a selector to its function value, exactly as [`resolve`] maps it.
pub fn func(f: Func) -> (v: FuncValue)
    ensures
        v == resolve(f),
{
    match f {
        Func::Sin => FuncValue::Base(BaseFunc::Sin),
        Func::Cos => FuncValue::Base(BaseFunc::Cos),
        Func::Tan => FuncValue::Base(BaseFunc::Tan),
        Func::Csc => FuncValue::Reciprocal(BaseFunc::Sin),
        Func::Sec => FuncValue::Reciprocal(BaseFunc::Cos),
        Func::Cot => FuncValue::Reciprocal(BaseFunc::Tan),
    }
}

} // verus!
