//! Navigation of the object table: tree links and attribute bits.
//!
//! A version 1-3 object entry is 9 bytes: a 4-byte attribute bitfield
//! (attribute 0 is the most significant bit of byte 0), three 1-byte relative
//! ids (parent, sibling, child in that order) and a 2-byte property-table
//! address.

use vstd::prelude::*;

use crate::memory_view::{MemoryView, image_sized, word_at};
use crate::object_properties_view::ObjectPropertiesView;

verus! {

/// The single-bit mask for bit position `i` within a byte, counting from the
/// most significant bit: attribute bit `i` is `1 << (7 - (i mod 8))`.
pub open spec fn spec_bit_mask(i: int) -> u8 {
    if i == 0 {
        0x80
    } else if i == 1 {
        0x40
    } else if i == 2 {
        0x20
    } else if i == 3 {
        0x10
    } else if i == 4 {
        0x08
    } else if i == 5 {
        0x04
    } else if i == 6 {
        0x02
    } else {
        0x01
    }
}

/// Attribute `i` of the object whose entry starts at `base` is set.
pub open spec fn attr_set(mem: Seq<u8>, base: int, i: int) -> bool {
    mem[base + i / 8] & spec_bit_mask(i % 8) != 0
}

/// A view of one object's 9-byte entry.
#[derive(Clone, Copy, Debug, PartialEq, Eq, Structural)]
pub struct ObjectView {
    /// The 1-based object id this view was made for.
    pub object_id: u16,
    /// Length of the attribute field in bytes (4 in versions 1-3).
    pub attributes_length: u32,
    /// A view whose base is the property-defaults array.
    pub defaults_view: MemoryView,
    /// Length of each relative id in bytes (1 in versions 1-3).
    pub related_obj_length: u32,
    /// A view whose base is this object's entry.
    pub view: MemoryView,
}

impl ObjectView {
    /// Shape of a version 1-3 object view whose entry lies inside the image.
    pub open spec fn fits(self, mem: Seq<u8>) -> bool {
        &&& image_sized(mem)
        &&& self.attributes_length == 4
        &&& self.related_obj_length == 1
        &&& self.view.pointer + 9 <= mem.len()
    }

    /// The absolute address of this object's parent byte.
    pub open spec fn parent_addr(self) -> int {
        self.view.pointer + 4
    }

    /// The absolute address of this object's sibling byte.
    pub open spec fn sibling_addr(self) -> int {
        self.view.pointer + 5
    }

    /// The absolute address of this object's child byte.
    pub open spec fn child_addr(self) -> int {
        self.view.pointer + 6
    }

    /// The parent id recorded in `mem` for this object.
    pub open spec fn spec_parent(self, mem: Seq<u8>) -> u8 {
        mem[self.parent_addr()]
    }

    /// The sibling id recorded in `mem` for this object.
    pub open spec fn spec_sibling(self, mem: Seq<u8>) -> u8 {
        mem[self.sibling_addr()]
    }

    /// The child id recorded in `mem` for this object.
    pub open spec fn spec_child(self, mem: Seq<u8>) -> u8 {
        mem[self.child_addr()]
    }

    /// Reads the parent id.
    pub fn get_parent(&self, mem: &Vec<u8>) -> (r: u16)
        requires
            self.fits(mem@),
        ensures
            r == self.spec_parent(mem@),
    {
        let pointer_position = self.attributes_length;
        self.view.read_at_head(mem, pointer_position) as u16
    }

    /// Reads the sibling id.
    pub fn get_sibling(&self, mem: &Vec<u8>) -> (r: u16)
        requires
            self.fits(mem@),
        ensures
            r == self.spec_sibling(mem@),
    {
        let pointer_position = self.attributes_length + self.related_obj_length;
        self.view.read_at_head(mem, pointer_position) as u16
    }

    /// Reads the child id.
    pub fn get_child(&self, mem: &Vec<u8>) -> (r: u16)
        requires
            self.fits(mem@),
        ensures
            r == self.spec_child(mem@),
    {
        let pointer_position = self.attributes_length + self.related_obj_length * 2;
        self.view.read_at_head(mem, pointer_position) as u16
    }

    /// Writes the parent id.
    pub fn set_parent(&self, mem: &mut Vec<u8>, parent_id: u16)
        requires
            self.fits(old(mem)@),
            parent_id < 256,
        ensures
            final(mem)@ == old(mem)@.update(self.parent_addr(), parent_id as u8),
    {
        let pointer_position = self.attributes_length;
        self.view.write_at_head(mem, pointer_position, parent_id as u8);
    }

    /// Writes the sibling id.
    pub fn set_sibling(&self, mem: &mut Vec<u8>, sibling_id: u16)
        requires
            self.fits(old(mem)@),
            sibling_id < 256,
        ensures
            final(mem)@ == old(mem)@.update(self.sibling_addr(), sibling_id as u8),
    {
        let pointer_position = self.attributes_length + self.related_obj_length;
        self.view.write_at_head(mem, pointer_position, sibling_id as u8);
    }

    /// Writes the child id.
    pub fn set_child(&self, mem: &mut Vec<u8>, child_id: u16)
        requires
            self.fits(old(mem)@),
            child_id < 256,
        ensures
            final(mem)@ == old(mem)@.update(self.child_addr(), child_id as u8),
    {
        let pointer_position = self.attributes_length + self.related_obj_length * 2;
        self.view.write_at_head(mem, pointer_position, child_id as u8);
    }

    /// A view of this object's property table, whose address is the word
    /// after the relative ids.
    pub fn get_properties_table_view(&self, mem: &Vec<u8>) -> (r: ObjectPropertiesView)
        requires
            self.fits(mem@),
        ensures
            r.object_id == self.object_id,
            r.defaults_view == self.defaults_view,
            r.view.pointer == word_at(mem@, self.view.pointer + 7),
    {
        let pointer_position = self.attributes_length + self.related_obj_length * 3;
        let pointer = self.view.read_u16_at_head(mem, pointer_position) as u32;
        ObjectPropertiesView::create(self.object_id, pointer, &self.defaults_view)
    }

    /// The executable mirror of [`spec_bit_mask`].
    fn bit_mask(i: u16) -> (r: u8)
        requires
            i < 8,
        ensures
            r == spec_bit_mask(i as int),
            r != 0,
    {
        match i {
            0 => 0x80,
            1 => 0x40,
            2 => 0x20,
            3 => 0x10,
            4 => 0x08,
            5 => 0x04,
            6 => 0x02,
            _ => 0x01,
        }
    }

    /// Tests attribute `attribute` (0 to 31).
    pub fn has_attribute(&self, mem: &Vec<u8>, attribute: u16) -> (r: bool)
        requires
            self.fits(mem@),
            attribute < 32,
        ensures
            r == attr_set(mem@, self.view.pointer as int, attribute as int),
    {
        let byte = self.view.read_at_head(mem, (attribute / 8) as u32);
        byte & Self::bit_mask(attribute % 8) != 0
    }

    /// Sets attribute `attribute` (0 to 31), leaving every other byte alone.
    pub fn set_attribute(&self, mem: &mut Vec<u8>, attribute: u16)
        requires
            self.fits(old(mem)@),
            attribute < 32,
        ensures
            final(mem)@ == old(mem)@.update(
                self.view.pointer + attribute / 8,
                (old(mem)@[self.view.pointer + attribute / 8] | spec_bit_mask(
                    attribute as int % 8,
                )) as u8,
            ),
            attr_set(final(mem)@, self.view.pointer as int, attribute as int),
    {
        let mask = Self::bit_mask(attribute % 8);
        let byte = self.view.read_at_head(mem, (attribute / 8) as u32);
        self.view.write_at_head(mem, (attribute / 8) as u32, byte | mask);
        proof {
            let b = byte;
            let m = mask;
            assert((b | m) & m == m) by (bit_vector);
        }
    }

    /// Clears attribute `attribute` (0 to 31), leaving every other byte alone.
    pub fn unset_attribute(&self, mem: &mut Vec<u8>, attribute: u16)
        requires
            self.fits(old(mem)@),
            attribute < 32,
        ensures
            final(mem)@ == old(mem)@.update(
                self.view.pointer + attribute / 8,
                (old(mem)@[self.view.pointer + attribute / 8] & !spec_bit_mask(
                    attribute as int % 8,
                )) as u8,
            ),
            !attr_set(final(mem)@, self.view.pointer as int, attribute as int),
    {
        let mask = Self::bit_mask(attribute % 8);
        let byte = self.view.read_at_head(mem, (attribute / 8) as u32);
        self.view.write_at_head(mem, (attribute / 8) as u32, byte & !mask);
        proof {
            let b = byte;
            let m = mask;
            assert((b & !m) & m == 0) by (bit_vector);
        }
    }

    /// Whether bit `num` of `byte` is set, counting from the least
    /// significant bit.
    pub fn is_bit_set(num: u8, byte: u8) -> (r: bool)
        requires
            num < 8,
        ensures
            r == (byte & (1u8 << num) != 0),
    {
        byte & (1u8 << num) != 0
    }

    /// Whether bit `num` of `word` is set, counting from the least
    /// significant bit.
    pub fn is_bit_set_in_u16(num: u8, word: u16) -> (r: bool)
        requires
            num < 16,
        ensures
            r == (word & (1u16 << num) != 0),
    {
        word & (1u16 << num) != 0
    }

    /// Whether bit `num` of `dword` is set, counting from the least
    /// significant bit.
    pub fn is_bit_set_in_u32(num: u8, dword: u32) -> (r: bool)
        requires
            num < 32,
        ensures
            r == (dword & (1u32 << num) != 0),
    {
        dword & (1u32 << num) != 0
    }
}

} // verus!
