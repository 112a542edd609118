use vstd::prelude::*;

verus! {

/// The closed set of value types a script expression or symbol can have.
///
/// `Error` is a poison value meaning a fault has already been reported at
/// this position; later checks that see it stay silent so one root cause
/// does not flood the log.
#[derive(Clone, Copy, Debug, PartialEq, Eq, Structural)]
pub enum Type {
    Int,
    Fix,
    Bool,
    Error,
}

/// A fixed-point number with 8 fractional bits, stored as its raw
/// scaled representation: the value is `raw / 256`.
#[derive(Clone, Copy, Debug, PartialEq, Eq, Structural)]
pub struct Fix {
    pub raw: i32,
}

impl Fix {
    /// The fixed-point value whose scaled representation is `raw`.
    pub fn from_raw(raw: i32) -> (r: Fix)
        ensures
            r.raw == raw,
    {
        Fix { raw }
    }
}

/// The signature of one script function: argument types and return types,
/// in declaration order.
#[derive(Clone, Debug)]
pub struct FunctionType {
    pub args: Vec<Type>,
    pub rets: Vec<Type>,
}

} // verus!
