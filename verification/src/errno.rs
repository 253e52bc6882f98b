//! The error type shared by every fallible operation of this crate.

use crate::c::EINVAL;
use vstd::prelude::*;

verus! {

/// Newtype wrapping a raw `errno` value.
///
/// Every codec in this crate reports failure as `Err(Errno(EINVAL))`:
/// all of its error conditions are deterministic functions of the
/// caller-supplied buffer and header values.
#[derive(Clone, Copy, PartialEq, Eq, Structural, Debug)]
pub struct Errno(pub i32);

/// Shorthand for the one error this crate's codecs report.
pub(crate) fn einval<T>() -> (r: Result<T, Errno>)
    ensures
        r == Result::<T, Errno>::Err(Errno(EINVAL)),
{
    Err(Errno(EINVAL))
}

} // verus!
