//! Byte- and word-level access to the story image.
//!
//! A [`MemoryView`] is a base offset into the image.  The image itself is a
//! single flat byte buffer owned by the machine; every operation takes it as
//! an explicit argument, so that each view observes the latest bytes at each
//! read.  All multi-byte reads and writes are big-endian.

use vstd::prelude::*;

verus! {

/// A story image in versions 1-3 holds at most 128 KiB, so every absolute
/// address and every base-plus-offset sum fits comfortably in a `u32`.
pub open spec fn image_sized(mem: Seq<u8>) -> bool {
    mem.len() <= 0x20000
}

/// The big-endian 16-bit word formed by the two bytes at `a`.
pub open spec fn word_at(mem: Seq<u8>, a: int) -> int {
    mem[a] * 256 + mem[a + 1]
}

/// The big-endian 32-bit value formed by the four bytes at `a`.
pub open spec fn dword_at(mem: Seq<u8>, a: int) -> int {
    word_at(mem, a) * 0x10000 + word_at(mem, a + 2)
}

/// The image `mem` with the 16-bit `value` written big-endian at `a`.
pub open spec fn with_word(mem: Seq<u8>, a: int, value: u16) -> Seq<u8> {
    mem.update(a, (value / 256) as u8).update(a + 1, (value % 256) as u8)
}

/// Big-endian discipline: a word written at `a` is the word read back at `a`.
///
/// Together with the contracts of `storew` and `loadw`, which state their
/// effects through `with_word` and `word_at`, this gives: for every
/// `storew(arr, i, v)` followed by `loadw(arr, i)`, the loaded value is `v`.
pub proof fn lemma_word_round_trip(mem: Seq<u8>, a: int, v: u16)
    requires
        0 <= a,
        a + 1 < mem.len(),
    ensures
        word_at(with_word(mem, a, v), a) == v,
        with_word(mem, a, v).len() == mem.len(),
{
    let m2 = with_word(mem, a, v);
    assert(m2[a] == (v / 256) as u8);
    assert(m2[a + 1] == (v % 256) as u8);
    assert(v / 256 < 256);
    assert(word_at(m2, a) == (v / 256) * 256 + (v % 256));
    assert((v / 256) * 256 + (v % 256) == v) by {
        vstd::arithmetic::div_mod::lemma_fundamental_div_mod(v as int, 256);
    }
}

/// A view into the story image: a base offset from which relative reads and
/// writes are made.
#[derive(Clone, Copy, Debug, PartialEq, Eq, Structural)]
pub struct MemoryView {
    /// The base offset of this view within the image.  The largest story file
    /// in versions 1-3 is 128 KiB, so a `u32` always suffices.
    pub pointer: u32,
}

impl MemoryView {
    /// The absolute address of `offset` relative to this view's base.
    pub fn program_offset(&self, offset: u32) -> (r: u32)
        requires
            self.pointer + offset <= u32::MAX,
        ensures
            r == self.pointer + offset,
    {
        self.pointer + offset
    }

    /// The two bytes at the view's base: the head of the next instruction.
    pub fn peek_at_instruction(&self, mem: &Vec<u8>) -> (r: [u8; 2])
        requires
            image_sized(mem@),
            self.pointer + 1 < mem@.len(),
        ensures
            r[0] == mem@[self.pointer as int],
            r[1] == mem@[self.pointer + 1],
    {
        [self.read_at_head(mem, 0), self.read_at_head(mem, 1)]
    }

    /// The byte at the absolute address `address`.
    pub fn read_at(&self, mem: &Vec<u8>, address: u32) -> (r: u8)
        requires
            address < mem@.len(),
        ensures
            r == mem@[address as int],
    {
        mem[address as usize]
    }

    /// The byte at `offset` relative to the view's base.
    pub fn read_at_head(&self, mem: &Vec<u8>, offset: u32) -> (r: u8)
        requires
            image_sized(mem@),
            self.pointer + offset < mem@.len(),
        ensures
            r == mem@[self.pointer + offset],
    {
        self.read_at(mem, self.program_offset(offset))
    }

    /// The big-endian word at the absolute address `address`.
    pub fn read_u16_at(&self, mem: &Vec<u8>, address: u32) -> (r: u16)
        requires
            image_sized(mem@),
            address + 1 < mem@.len(),
        ensures
            r == word_at(mem@, address as int),
    {
        let upper_half = self.read_at(mem, address) as u16;
        let lower_half = self.read_at(mem, address + 1) as u16;
        upper_half * 256 + lower_half
    }

    /// The big-endian 32-bit value at the absolute address `address`.
    pub fn read_u32_at(&self, mem: &Vec<u8>, address: u32) -> (r: u32)
        requires
            image_sized(mem@),
            address + 3 < mem@.len(),
        ensures
            r == dword_at(mem@, address as int),
    {
        let upper_half = self.read_u16_at(mem, address) as u32;
        let lower_half = self.read_u16_at(mem, address + 2) as u32;
        upper_half * 0x10000 + lower_half
    }

    /// The big-endian word at `offset` relative to the view's base.
    pub fn read_u16_at_head(&self, mem: &Vec<u8>, offset: u32) -> (r: u16)
        requires
            image_sized(mem@),
            self.pointer + offset + 1 < mem@.len(),
        ensures
            r == word_at(mem@, self.pointer + offset),
    {
        self.read_u16_at(mem, self.pointer + offset)
    }

    /// The big-endian 32-bit value at `offset` relative to the view's base.
    pub fn read_u32_at_head(&self, mem: &Vec<u8>, offset: u32) -> (r: u32)
        requires
            image_sized(mem@),
            self.pointer + offset + 3 < mem@.len(),
        ensures
            r == dword_at(mem@, self.pointer + offset),
    {
        self.read_u32_at(mem, self.pointer + offset)
    }

    /// Writes the byte `value` at the absolute address `address`.
    pub fn write_at(&self, mem: &mut Vec<u8>, address: u32, value: u8)
        requires
            image_sized(old(mem)@),
            address < old(mem)@.len(),
        ensures
            final(mem)@ == old(mem)@.update(address as int, value),
            final(mem)@.len() == old(mem)@.len(),
    {
        mem.set(address as usize, value);
    }

    /// Writes the byte `value` at `offset` relative to the view's base.
    pub fn write_at_head(&self, mem: &mut Vec<u8>, offset: u32, value: u8)
        requires
            image_sized(old(mem)@),
            self.pointer + offset < old(mem)@.len(),
        ensures
            final(mem)@ == old(mem)@.update(self.pointer + offset, value),
            final(mem)@.len() == old(mem)@.len(),
    {
        self.write_at(mem, self.pointer + offset, value);
    }

    /// Writes the word `value` big-endian at the absolute address `address`.
    pub fn write_u16_at(&self, mem: &mut Vec<u8>, address: u32, value: u16)
        requires
            image_sized(old(mem)@),
            address + 1 < old(mem)@.len(),
        ensures
            final(mem)@ == with_word(old(mem)@, address as int, value),
            final(mem)@.len() == old(mem)@.len(),
            word_at(final(mem)@, address as int) == value,
    {
        proof {
            lemma_word_round_trip(mem@, address as int, value);
        }
        let upper_half = (value / 256) as u8;
        let lower_half = (value % 256) as u8;
        self.write_at(mem, address, upper_half);
        self.write_at(mem, address + 1, lower_half);
    }

    /// Writes the word `value` big-endian at `offset` relative to the base.
    pub fn write_u16_at_head(&self, mem: &mut Vec<u8>, offset: u32, value: u16)
        requires
            image_sized(old(mem)@),
            self.pointer + offset + 1 < old(mem)@.len(),
        ensures
            final(mem)@ == with_word(old(mem)@, self.pointer + offset, value),
            final(mem)@.len() == old(mem)@.len(),
            word_at(final(mem)@, self.pointer + offset) == value,
    {
        self.write_u16_at(mem, self.pointer + offset, value);
    }
}

} // verus!
