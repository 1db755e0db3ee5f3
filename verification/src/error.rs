use vstd::prelude::*;

verus! {

/// The one way a request can fail: a dimension is zero, or the standard
/// deviation of the ring-centre offset is not a finite, non-negative number.
#[derive(Debug, Clone, Copy, PartialEq, Eq)]
pub struct InvalidParameter;

} // verus!
