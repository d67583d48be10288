//! Timeouts, in whole seconds.

use crate::integer::{parse_u64, u64_of, IntegerError};
use vstd::prelude::*;

verus! {

/// A span of time in whole seconds.
#[derive(Clone, Copy, Debug, PartialEq, Eq, Structural)]
pub struct Seconds(pub u64);

/// The span of time that `arg` writes: a count of seconds.
pub open spec fn duration_of(arg: Seq<char>) -> Result<Seconds, IntegerError> {
    match u64_of(arg) {
        Ok(n) => Ok(Seconds(n)),
        Err(e) => Err(e),
    }
}

/// Reads a count of seconds: an optional plus sign and at least one digit,
/// no more than the largest `u64`.
pub fn parse_duration(arg: &str) -> (r: Result<Seconds, IntegerError>)
    ensures
        r == duration_of(arg@),
{
    match parse_u64(arg) {
        Ok(n) => Ok(Seconds(n)),
        Err(e) => Err(e),
    }
}

} // verus!
