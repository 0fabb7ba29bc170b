//! Errors of the library.

use vstd::prelude::*;

verus! {

/// What can go wrong while building or serialising geometry.
///
/// `DegenerateGeometry`: a triangle whose derived normal is zero (collinear or
/// repeated vertices).  `InvalidConfiguration`: parameters outside the format's
/// reach, such as a triangle count that does not fit the binary format's
/// 32-bit count field.  I/O failures never arise here: the library only ever
/// computes values.
#[derive(Clone, Copy, PartialEq, Eq, Structural, Debug)]
pub enum StlError {
    DegenerateGeometry,
    InvalidConfiguration,
}

} // verus!
