//! A Menger-sponge generator with exact, verified geometry.
//!
//! The sponge is built as a sparse ternary tree over an integer lattice
//! (`menger_sponge`), flattened into triangles whose outward unit normals are
//! derived exactly (`lattice`), and serialised to the STL exchange format in
//! both its ASCII and binary variants (`stl`), whose text obeys the counting
//! law of `text`.  Floating-point work — turning a lattice coordinate into a
//! number's text or its 32-bit encoding — is the caller's: the serialiser
//! receives those encodings ready-made and is verified to lay them out
//! byte-exactly.

pub mod error;
pub mod lattice;
pub mod menger_sponge;
pub mod stl;
pub mod text;

use vstd::prelude::*;

verus! {

/// Milliseconds elapsed between two clock readings, for coarse stage timing.
/// The caller supplies both readings; a clock that ran backwards would make
/// the difference meaningless, so such inputs are excluded.
pub fn elapsed_since(start_millis: u128, now_millis: u128) -> (r: u128)
    requires
        start_millis <= now_millis,
    ensures
        r == now_millis - start_millis,
{
    now_millis - start_millis
}

} // verus!
