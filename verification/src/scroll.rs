//! The offsets a navigation entry remembers for its scrollables.

use vstd::prelude::*;

use crate::float_bits::{f32_bits_eq, f32_eq};

verus! {

/// One axis of a remembered offset after an update, all values as `f32` bit
/// patterns. The toolkit reports clamped translations, not the underlying
/// offsets, so only an actual change since the update began (a translation
/// that differs from the one observed) replaces the remembered offset; idle
/// or loading frames keep an offset saved for content that is still shorter
/// than its destination.
pub fn captured_offset(offset: u32, observed: u32, translation: u32) -> (out: u32)
    ensures
        out == (if f32_eq(translation, observed) {
            offset
        } else {
            translation
        }),
{
    if f32_bits_eq(translation, observed) {
        offset
    } else {
        translation
    }
}

} // verus!
