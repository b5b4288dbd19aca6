//! Walking and editing an object's variable-length property table.
//!
//! A table entry is one size byte `S = 32 * (L - 1) + N` (length `L` in 1..=8,
//! property number `N` in 1..=31) followed by `L` data bytes; entries appear
//! in descending order of `N` and the list ends at a size byte of zero.  The
//! table is preceded by a text-length byte and that many words of short-name
//! text.

use vstd::prelude::*;

use crate::FatalError;
use crate::memory_view::{MemoryView, image_sized, with_word, word_at};

verus! {

/// The property number packed into a size byte.
pub open spec fn prop_id(size_byte: u8) -> int {
    (size_byte % 32) as int
}

/// The data length packed into a size byte.
pub open spec fn prop_size(size_byte: u8) -> int {
    size_byte / 32 + 1
}

/// The cursor after the entry whose size byte sits at `c`, clamped to the
/// image length so the walk measure stays non-negative.
pub open spec fn next_prop_cursor(mem: Seq<u8>, c: int) -> int {
    if c + 1 + prop_size(mem[c]) > mem.len() {
        mem.len() as int
    } else {
        c + 1 + prop_size(mem[c])
    }
}

/// The walk from the size byte at `c`: the first entry whose number is
/// `target` (or the very first entry, when `find_first`), as
/// `(data address, number, length)`; `None` when the terminator is reached
/// first or the walk leaves the image.
pub open spec fn find_prop(mem: Seq<u8>, c: int, target: int, find_first: bool) -> Option<
    (int, int, int),
>
    decreases mem.len() - c,
{
    if !(0 <= c < mem.len()) {
        None
    } else if mem[c] == 0 {
        None
    } else if find_first || prop_id(mem[c]) == target {
        Some((c + 1, prop_id(mem[c]), prop_size(mem[c])))
    } else {
        find_prop(mem, next_prop_cursor(mem, c), target, find_first)
    }
}

/// The walk from `c` ends inside the image (at a match or at the
/// terminator) rather than running off its end.
pub open spec fn walk_in_bounds(mem: Seq<u8>, c: int, target: int, find_first: bool) -> bool
    decreases mem.len() - c,
{
    if !(0 <= c < mem.len()) {
        false
    } else if mem[c] == 0 {
        true
    } else if find_first || prop_id(mem[c]) == target {
        true
    } else {
        walk_in_bounds(mem, next_prop_cursor(mem, c), target, find_first)
    }
}

/// The property numbers of the entries visited by the walk from `c`, in
/// walk order.
pub open spec fn walk_ids(mem: Seq<u8>, c: int) -> Seq<int>
    decreases mem.len() - c,
{
    if !(0 <= c < mem.len()) {
        Seq::empty()
    } else if mem[c] == 0 {
        Seq::empty()
    } else {
        seq![prop_id(mem[c])] + walk_ids(mem, next_prop_cursor(mem, c))
    }
}

/// A found entry's data address lies inside the image, its number below 32
/// and its length between 1 and 8.
pub proof fn lemma_find_prop_bounds(mem: Seq<u8>, c: int, target: int, find_first: bool)
    ensures
        find_prop(mem, c, target, find_first) matches Some((a, id, sz)) ==> 0 < a <= mem.len()
            && 0 <= id < 32 && 1 <= sz <= 8,
    decreases mem.len() - c,
{
    if 0 <= c < mem.len() && mem[c] != 0 && !(find_first || prop_id(mem[c]) == target) {
        lemma_find_prop_bounds(mem, next_prop_cursor(mem, c), target, find_first);
    }
}

/// Where a property entry was found, its number, and its data length.
#[derive(Clone, Copy, Debug, PartialEq, Eq, Structural)]
pub struct ObjectPropertyInfo {
    /// Absolute address of the first data byte; `None` when the property is
    /// absent from the table.
    pub addr: Option<u32>,
    /// The property number.
    pub id: u8,
    /// The data length in bytes; 0 when absent.
    pub size: u8,
}

/// A property value together with where it came from.
pub struct ObjectProperty {
    /// The 16-bit value (a single data byte is zero-extended).
    pub value: u16,
    /// The location information of the entry, when present.
    pub info: ObjectPropertyInfo,
}

/// A view of one object's property table.
#[derive(Clone, Copy, Debug, PartialEq, Eq, Structural)]
pub struct ObjectPropertiesView {
    /// The 1-based object id this table belongs to.
    pub object_id: u16,
    /// A view whose base is the 31-word property-defaults array.
    pub defaults_view: MemoryView,
    /// A view whose base is the table's text-length byte.
    pub view: MemoryView,
}

impl ObjectPropertiesView {
    /// The table's text-length byte lies inside the image.
    pub open spec fn fits(self, mem: Seq<u8>) -> bool {
        &&& image_sized(mem)
        &&& self.view.pointer < mem.len()
    }

    /// The defaults array lies inside the image.
    pub open spec fn defaults_fit(self, mem: Seq<u8>) -> bool {
        self.defaults_view.pointer + 62 <= mem.len()
    }

    /// The absolute address of the first size byte: past the text-length
    /// byte and the short-name words.
    pub open spec fn first_prop_cursor(self, mem: Seq<u8>) -> int {
        self.view.pointer + 2 * mem[self.view.pointer as int] + 1
    }

    /// Makes a view for the property table at `pointer_position`.
    pub fn create(object_id: u16, pointer_position: u32, defaults_view: &MemoryView) -> (r:
        ObjectPropertiesView)
        ensures
            r.object_id == object_id,
            r.defaults_view == *defaults_view,
            r.view.pointer == pointer_position,
    {
        ObjectPropertiesView {
            object_id,
            defaults_view: *defaults_view,
            view: MemoryView { pointer: pointer_position },
        }
    }

    /// The table's text-length byte.
    pub fn text_size(&self, mem: &Vec<u8>) -> (r: u8)
        requires
            self.fits(mem@),
        ensures
            r == mem@[self.view.pointer as int],
    {
        self.view.read_at(mem, self.view.pointer)
    }

    /// Unpacks a size byte: `size_byte = 32 * (size - 1) + id`.
    pub fn get_object_property_from_size_byte(size_byte: u8) -> (r: ObjectPropertyInfo)
        ensures
            r.addr is None,
            r.id == prop_id(size_byte),
            r.size == prop_size(size_byte),
    {
        ObjectPropertyInfo { addr: None, size: (size_byte / 32) + 1, id: size_byte % 32 }
    }

    /// Walks the table for property `property_index` (0 finds the first
    /// entry).  Returns the entry's location, an absent marker when the
    /// terminator is reached, or `BadAddress` when the table runs off the
    /// image.
    pub fn get_property_info(&self, mem: &Vec<u8>, property_index: u8) -> (r: Result<
        ObjectPropertyInfo,
        FatalError,
    >)
        requires
            self.fits(mem@),
        ensures
            r is Ok <==> walk_in_bounds(
                mem@,
                self.first_prop_cursor(mem@),
                property_index as int,
                property_index == 0,
            ),
            r matches Err(e) ==> e == FatalError::BadAddress,
            r matches Ok(info) ==> match find_prop(
                mem@,
                self.first_prop_cursor(mem@),
                property_index as int,
                property_index == 0,
            ) {
                Some((a, id, sz)) => info.addr == Some(a as u32) && info.id == id && info.size
                    == sz,
                None => info.addr is None && info.id == property_index && info.size == 0,
            },
    {
        let text_size = self.text_size(mem);
        let find_first = property_index == 0;
        let ghost c0 = self.first_prop_cursor(mem@);
        let ghost target = property_index as int;
        let mut cursor: u32 = self.view.pointer + 2 * (text_size as u32) + 1;
        loop
            invariant
                self.fits(mem@),
                c0 == self.first_prop_cursor(mem@),
                cursor <= 0x20208,
                find_first == (property_index == 0),
                target == property_index as int,
                find_prop(mem@, cursor as int, target, find_first) == find_prop(
                    mem@,
                    c0,
                    target,
                    find_first,
                ),
                walk_in_bounds(mem@, cursor as int, target, find_first) == walk_in_bounds(
                    mem@,
                    c0,
                    target,
                    find_first,
                ),
            decreases mem@.len() - cursor,
        {
            if cursor as usize >= mem.len() {
                proof {
                    assert(!walk_in_bounds(mem@, cursor as int, target, find_first));
                }
                return Err(FatalError::BadAddress);
            }
            let size_byte = self.view.read_at(mem, cursor);
            if size_byte == 0 {
                proof {
                    assert(find_prop(mem@, cursor as int, target, find_first) is None);
                    assert(walk_in_bounds(mem@, cursor as int, target, find_first));
                }
                return Ok(ObjectPropertyInfo { addr: None, id: property_index, size: 0 });
            }
            let found = Self::get_object_property_from_size_byte(size_byte);
            if find_first || found.id == property_index {
                proof {
                    assert(find_prop(mem@, cursor as int, target, find_first) == Some(
                        (cursor + 1, prop_id(size_byte), prop_size(size_byte)),
                    ));
                }
                return Ok(ObjectPropertyInfo {
                    addr: Some(cursor + 1),
                    id: found.id,
                    size: found.size,
                });
            }
            let next = cursor + 1 + found.size as u32;
            proof {
                if next <= mem@.len() {
                    assert(next_prop_cursor(mem@, cursor as int) == next as int);
                    assert(find_prop(mem@, cursor as int, target, find_first) == find_prop(
                        mem@,
                        next as int,
                        target,
                        find_first,
                    ));
                    assert(walk_in_bounds(mem@, cursor as int, target, find_first)
                        == walk_in_bounds(mem@, next as int, target, find_first));
                } else {
                    assert(next_prop_cursor(mem@, cursor as int) == mem@.len() as int);
                    assert(!walk_in_bounds(mem@, mem@.len() as int, target, find_first));
                    assert(!walk_in_bounds(mem@, cursor as int, target, find_first));
                }
            }
            if next as usize > mem.len() {
                return Err(FatalError::BadAddress);
            }
            cursor = next;
        }
    }

    /// The absolute data address recorded in `info`, or 0 when absent.
    pub fn get_property_addr_from_info(&self, info: ObjectPropertyInfo) -> (r: u32)
        ensures
            r == match info.addr {
                None => 0,
                Some(x) => x as int,
            },
    {
        match info.addr {
            None => 0,
            Some(x) => x,
        }
    }

    /// The absolute address of property `property_index`'s data bytes, or 0
    /// when the property is absent.
    pub fn get_property_addr(&self, mem: &Vec<u8>, property_index: u8) -> (r: Result<
        u32,
        FatalError,
    >)
        requires
            self.fits(mem@),
        ensures
            r is Ok <==> walk_in_bounds(
                mem@,
                self.first_prop_cursor(mem@),
                property_index as int,
                property_index == 0,
            ),
            r matches Err(e) ==> e == FatalError::BadAddress,
            r matches Ok(a) ==> a as int == match find_prop(
                mem@,
                self.first_prop_cursor(mem@),
                property_index as int,
                property_index == 0,
            ) {
                Some((addr, _, _)) => addr,
                None => 0,
            },
    {
        let info = self.get_property_info(mem, property_index)?;
        proof {
            lemma_find_prop_bounds(
                mem@,
                self.first_prop_cursor(mem@),
                property_index as int,
                property_index == 0,
            );
        }
        Ok(self.get_property_addr_from_info(info))
    }

    /// The default value for property `property_index` from the 31-word
    /// defaults array.
    pub fn get_property_default(&self, mem: &Vec<u8>, property_index: u8) -> (r: u16)
        requires
            image_sized(mem@),
            self.defaults_fit(mem@),
            1 <= property_index <= 31,
        ensures
            r == word_at(mem@, self.defaults_view.pointer + 2 * (property_index - 1)),
    {
        self.defaults_view.read_u16_at_head(mem, (property_index as u32 - 1) * 2)
    }

    /// Reads property `property_index`: the stored 1- or 2-byte value when
    /// the table holds the property, the default otherwise.  A stored width
    /// above 2 is `BadProperty`.
    pub fn get_property(&self, mem: &Vec<u8>, property_index: u8) -> (r: Result<
        ObjectProperty,
        FatalError,
    >)
        requires
            self.fits(mem@),
            self.defaults_fit(mem@),
            1 <= property_index <= 31,
        ensures
            r matches Ok(p) ==> match find_prop(
                mem@,
                self.first_prop_cursor(mem@),
                property_index as int,
                false,
            ) {
                Some((a, id, sz)) => (sz == 1 && p.value == mem@[a]) || (sz == 2 && p.value
                    == word_at(mem@, a)),
                None => p.value == word_at(
                    mem@,
                    self.defaults_view.pointer + 2 * (property_index - 1),
                ),
            },
            r is Ok <==> (walk_in_bounds(
                mem@,
                self.first_prop_cursor(mem@),
                property_index as int,
                false,
            ) && (match find_prop(
                mem@,
                self.first_prop_cursor(mem@),
                property_index as int,
                false,
            ) {
                Some((a, id, sz)) => (sz == 1 && a < mem@.len()) || (sz == 2 && a + 1
                    < mem@.len()),
                None => true,
            })),
    {
        let info = self.get_property_info(mem, property_index)?;
        proof {
            lemma_find_prop_bounds(
                mem@,
                self.first_prop_cursor(mem@),
                property_index as int,
                property_index == 0,
            );
        }
        let value: u16 = match info.addr {
            None => self.get_property_default(mem, property_index),
            Some(addr) => {
                match info.size {
                    1 => {
                        if !((addr as usize) < mem.len()) {
                            return Err(FatalError::BadAddress);
                        }
                        self.view.read_at(mem, addr) as u16
                    },
                    2 => {
                        if addr as usize >= mem.len() || addr as usize + 1 >= mem.len() {
                            return Err(FatalError::BadAddress);
                        }
                        self.view.read_u16_at(mem, addr)
                    },
                    _ => {
                        return Err(FatalError::BadProperty);
                    },
                }
            },
        };
        Ok(ObjectProperty { info, value })
    }

    /// Writes property `property_index` in place.  The property must exist
    /// in the table with width 1 or 2; otherwise `BadProperty`.
    pub fn write_property(&self, mem: &mut Vec<u8>, property_index: u8, value: u16) -> (r: Result<
        (),
        FatalError,
    >)
        requires
            self.fits(old(mem)@),
        ensures
            final(mem)@.len() == old(mem)@.len(),
            r matches Ok(_) ==> match find_prop(
                old(mem)@,
                self.first_prop_cursor(old(mem)@),
                property_index as int,
                property_index == 0,
            ) {
                Some((a, id, sz)) => (sz == 1 && final(mem)@ == old(mem)@.update(
                    a,
                    (value % 256) as u8,
                )) || (sz == 2 && final(mem)@ == with_word(old(mem)@, a, value)),
                None => false,
            },
            r is Ok <==> (walk_in_bounds(
                old(mem)@,
                self.first_prop_cursor(old(mem)@),
                property_index as int,
                property_index == 0,
            ) && (match find_prop(
                old(mem)@,
                self.first_prop_cursor(old(mem)@),
                property_index as int,
                property_index == 0,
            ) {
                Some((a, id, sz)) => (sz == 1 && a < old(mem)@.len()) || (sz == 2 && a + 1 < old(
                    mem,
                )@.len()),
                None => false,
            })),
            r is Err ==> final(mem)@ == old(mem)@,
    {
        let info = self.get_property_info(mem, property_index)?;
        proof {
            lemma_find_prop_bounds(
                mem@,
                self.first_prop_cursor(mem@),
                property_index as int,
                property_index == 0,
            );
        }
        match (info.size, info.addr) {
            (1, Some(addr)) => {
                if !((addr as usize) < mem.len()) {
                    return Err(FatalError::BadAddress);
                }
                self.view.write_at(mem, addr, (value % 256) as u8);
                Ok(())
            },
            (2, Some(addr)) => {
                if addr as usize >= mem.len() || addr as usize + 1 >= mem.len() {
                    return Err(FatalError::BadAddress);
                }
                self.view.write_u16_at(mem, addr, value);
                Ok(())
            },
            _ => Err(FatalError::BadProperty),
        }
    }
}

/// Property-lookup law: over a table whose full walk reaches its terminator
/// inside the image (target 32 matches no entry, so that walk visits every
/// entry), looking a real property number up succeeds exactly when the
/// number is among the property numbers the walk encounters.  On a
/// well-formed table those numbers are strictly decreasing, so the entry
/// found is the only one.
pub proof fn lemma_find_prop_contains(mem: Seq<u8>, c: int, target: int)
    requires
        0 < target < 32,
    ensures
        walk_in_bounds(mem, c, 32, false) ==> ((find_prop(mem, c, target, false) is Some)
            <==> walk_ids(mem, c).contains(target)),
    decreases mem.len() - c,
{
    if walk_in_bounds(mem, c, 32, false) {
        if 0 <= c < mem.len() && mem[c] != 0 {
            let id = prop_id(mem[c]);
            assert(id < 32);
            assert(walk_ids(mem, c) == seq![id] + walk_ids(mem, next_prop_cursor(mem, c)));
            if id == target {
                assert(find_prop(mem, c, target, false) is Some);
                assert(walk_ids(mem, c)[0] == target);
                assert(walk_ids(mem, c).contains(target));
            } else {
                lemma_find_prop_contains(mem, next_prop_cursor(mem, c), target);
                let rest = walk_ids(mem, next_prop_cursor(mem, c));
                if rest.contains(target) {
                    let k = choose|k: int| 0 <= k < rest.len() && rest[k] == target;
                    assert(walk_ids(mem, c)[k + 1] == target);
                    assert(walk_ids(mem, c).contains(target));
                }
                if walk_ids(mem, c).contains(target) {
                    let k = choose|k: int|
                        0 <= k < walk_ids(mem, c).len() && walk_ids(mem, c)[k] == target;
                    assert(k >= 1);
                    assert(rest[k - 1] == target);
                    assert(rest.contains(target));
                }
            }
        } else {
            assert(walk_ids(mem, c) =~= Seq::<int>::empty());
            assert(!walk_ids(mem, c).contains(target));
        }
    }
}

} // verus!
