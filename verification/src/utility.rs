//! Helpers for reading multi-byte values out of raw buffers.

use vstd::prelude::*;

use crate::memory_view::word_at;

verus! {

/// Free-standing helpers over plain byte buffers, used before a full
/// [`crate::memory_view::MemoryView`] exists.
pub struct MemoryTools;

impl MemoryTools {
    /// The big-endian word formed by the two bytes at `index`.
    pub fn get_u16_at_position(buf: &[u8], index: usize) -> (r: u16)
        requires
            index + 1 < buf@.len(),
        ensures
            r == word_at(buf@, index as int),
    {
        (buf[index] as u16) * 256 + (buf[index + 1] as u16)
    }
}

} // verus!
