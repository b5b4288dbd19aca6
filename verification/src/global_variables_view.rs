//! Indexed access to the 240-entry table of 16-bit global variables.

use vstd::prelude::*;

use crate::memory_view::{MemoryView, image_sized, with_word, word_at};

verus! {

/// A view whose base is the global-variables table.
#[derive(Clone, Copy, Debug, PartialEq, Eq, Structural)]
pub struct GlobalVariablesView {
    /// Points at the first global.
    pub view: MemoryView,
}

impl GlobalVariablesView {
    /// The whole table lies inside the image.
    pub open spec fn fits(self, mem: Seq<u8>) -> bool {
        &&& image_sized(mem)
        &&& self.view.pointer + 480 <= mem.len()
    }

    /// Reads global number `index` (0-based over the 240 entries).
    pub fn read_global(&self, mem: &Vec<u8>, index: u16) -> (r: u16)
        requires
            self.fits(mem@),
            index < 240,
        ensures
            r == word_at(mem@, self.view.pointer + 2 * index),
    {
        let offset = index * 2;
        self.view.read_u16_at_head(mem, offset as u32)
    }

    /// Writes global number `index` (0-based over the 240 entries).
    pub fn write_global(&self, mem: &mut Vec<u8>, index: u16, value: u16)
        requires
            self.fits(old(mem)@),
            index < 240,
        ensures
            final(mem)@ == with_word(old(mem)@, self.view.pointer + 2 * index, value),
            final(mem)@.len() == old(mem)@.len(),
            word_at(final(mem)@, self.view.pointer + 2 * index) == value,
    {
        let offset = index * 2;
        self.view.write_u16_at_head(mem, offset as u32, value);
    }
}

} // verus!
