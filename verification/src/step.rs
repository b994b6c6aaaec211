//! The decisions a step of a routine makes around the evaluations it asks for.
//!
//! A step may carry a guard, an expression evaluated before it runs, and a call step
//! passes arguments that are either literal values or strings to be evaluated. The
//! evaluation itself is left to the caller, who hands over what it gave.

use vstd::prelude::*;
use crate::value::{value_truthy, Value};

verus! {

/// Whether a step runs, given what its guard evaluated to: always without a guard; with
/// one, only when it evaluated to a value that counts as true (an evaluation that
/// failed counts as false).
pub fn guard_allows(guard: Option<Result<Value, String>>) -> (r: bool)
    ensures
        r == match guard {
            None => true,
            Some(Ok(v)) => value_truthy(v),
            Some(Err(_)) => false,
        },
{
    match guard {
        None => true,
        Some(Ok(v)) => v.is_truthy(),
        Some(Err(_)) => false,
    }
}

/// The value an argument of a call step is passed as: what evaluating its text gave,
/// when it is a string and the evaluation succeeded; else the argument as written.
pub fn resolve_arg(literal: Value, evaluated: Option<Result<Value, String>>) -> (r: Value)
    ensures
        r == match evaluated {
            Some(Ok(v)) => v,
            _ => literal,
        },
{
    match evaluated {
        Some(Ok(v)) => v,
        _ => literal,
    }
}

} // verus!
