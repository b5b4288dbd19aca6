//! The story-file header: the fixed 64-byte layout at the start of the image.

use vstd::prelude::*;

use crate::FatalError;
use crate::memory_view::{MemoryView, image_sized, word_at};
use crate::text::{dec_digits, push_u16_decimal};

verus! {

/// Which pair of values the status line shows.
#[derive(Clone, Copy, Debug, PartialEq, Eq, Structural)]
pub enum StatusLineType {
    /// Score and turn count.
    Score,
    /// Hours and minutes.
    Hours,
}

/// The game flags of a version 1-3 header, decoded from the flags byte.
#[derive(Clone, Copy, Debug, PartialEq, Eq, Structural)]
pub struct HeaderFlagsV1 {
    /// Status-line style: score/turns or hours/minutes (flags bit 1).
    pub status_line: StatusLineType,
    /// Story split across two discs (flags bit 2); unused here.
    pub split_story: bool,
    /// A status line can be shown (flags bit 4 clear).
    pub show_status_line: bool,
    /// Screen splitting is available (flags bit 5).
    pub split_screen: bool,
    /// A variable-pitch font is the default (flags bit 6).
    pub variable_pitch_font: bool,
}

/// Header flags by version group; versions 1-3 share one layout.
#[derive(Clone, Copy, Debug, PartialEq, Eq, Structural)]
pub enum HeaderFlags {
    /// The version 1-3 flag layout.
    V1 { flags: HeaderFlagsV1 },
}

/// The flags byte decoded into its version 1-3 meaning.
pub open spec fn spec_parse_flags(b: u8) -> HeaderFlagsV1 {
    HeaderFlagsV1 {
        status_line: if b & 0x02 != 0 {
            StatusLineType::Hours
        } else {
            StatusLineType::Score
        },
        split_story: b & 0x04 != 0,
        show_status_line: b & 0x10 == 0,
        split_screen: b & 0x20 != 0,
        variable_pitch_font: b & 0x40 != 0,
    }
}

/// A loadable image: long enough for a header, version at most 3, and the
/// table pointers that the interpreter dereferences unconditionally lying
/// within the image.
pub open spec fn header_valid(mem: Seq<u8>) -> bool {
    &&& mem.len() >= 64
    &&& image_sized(mem)
    &&& 1 <= mem[0] <= 3
    &&& word_at(mem, 0x0C) + 480 <= mem.len()
    &&& word_at(mem, 0x0A) + 62 <= mem.len()
}

/// The parsed header fields.  Parsed once at load; the interpreter-writable
/// bits are read back from the image on demand.
#[derive(Clone, Copy, Debug, PartialEq, Eq, Structural)]
pub struct Header {
    /// The story version byte (1 to 3).
    pub version: u8,
    /// The decoded flags byte.
    pub flags: HeaderFlags,
    /// Where high memory starts.
    pub hi_memory_start: u16,
    /// The initial program counter.
    pub pc_start: u16,
    /// The dictionary table pointer.
    pub dictionary_location: u16,
    /// The object table pointer.
    pub object_table_location: u16,
    /// The global-variables table pointer.
    pub global_vars_table_location: u16,
    /// Where static memory starts.
    pub static_memory_start_location: u16,
    /// The abbreviations table pointer (header offset 0x18).
    pub abbreviations_location: u16,
}

impl Header {
    /// `self` holds exactly the fields parsed from `mem`.
    pub open spec fn parsed_from(self, mem: Seq<u8>) -> bool {
        &&& self.version == mem[0]
        &&& self.flags == (HeaderFlags::V1 { flags: spec_parse_flags(mem[1]) })
        &&& self.hi_memory_start == word_at(mem, 0x04)
        &&& self.pc_start == word_at(mem, 0x06)
        &&& self.dictionary_location == word_at(mem, 0x08)
        &&& self.object_table_location == word_at(mem, 0x0A)
        &&& self.global_vars_table_location == word_at(mem, 0x0C)
        &&& self.static_memory_start_location == word_at(mem, 0x0E)
        &&& self.abbreviations_location == word_at(mem, 0x18)
    }

    /// Parses the header of `mem`.  Succeeds exactly on a valid image:
    /// long enough, version 1-3, mandatory table pointers in range.
    pub fn create(mem: &Vec<u8>) -> (r: Result<Header, FatalError>)
        ensures
            r is Ok <==> header_valid(mem@),
            r matches Ok(h) ==> h.parsed_from(mem@),
            r matches Err(e) ==> e == FatalError::MalformedImage,
    {
        if mem.len() < 64 || mem.len() > 0x20000 {
            return Err(FatalError::MalformedImage);
        }
        let view = MemoryView { pointer: 0 };
        let version = view.read_at(mem, 0x0);
        if version < 1 || version > 3 {
            return Err(FatalError::MalformedImage);
        }
        let global_vars = view.read_u16_at(mem, 0x0C);
        if !(global_vars as usize + 480 <= mem.len()) {
            return Err(FatalError::MalformedImage);
        }
        let object_table = view.read_u16_at(mem, 0x0A);
        if !(object_table as usize + 62 <= mem.len()) {
            return Err(FatalError::MalformedImage);
        }
        Ok(Header {
            version,
            flags: HeaderFlags::process_header(view.read_at(mem, 0x1)),
            hi_memory_start: view.read_u16_at(mem, 0x04),
            pc_start: view.read_u16_at(mem, 0x06),
            dictionary_location: view.read_u16_at(mem, 0x08),
            object_table_location: object_table,
            global_vars_table_location: global_vars,
            static_memory_start_location: view.read_u16_at(mem, 0x0E),
            abbreviations_location: view.read_u16_at(mem, 0x18),
        })
    }

    /// The fixed-pitch bit of the interpreter-settable byte at 0x10.
    pub fn fixed_font(&self, mem: &Vec<u8>) -> (r: bool)
        requires
            mem@.len() >= 64,
        ensures
            r == (mem@[0x10] & 0x02 != 0),
    {
        let view = MemoryView { pointer: 0 };
        view.read_at(mem, 0x10) & 0x02 != 0
    }

    /// The transcripting bit of the interpreter-settable byte at 0x10.
    pub fn transcripting(&self, mem: &Vec<u8>) -> (r: bool)
        requires
            mem@.len() >= 64,
        ensures
            r == (mem@[0x10] & 0x01 != 0),
    {
        let view = MemoryView { pointer: 0 };
        view.read_at(mem, 0x10) & 0x01 != 0
    }

    /// A human-readable dump of the parsed fields, one `name: value` line per
    /// field, for diagnostics.
    pub fn get_status(&self) -> (r: Vec<char>)
        ensures
            r@.len() > 0,
    {
        let mut out: Vec<char> = Vec::new();
        Header::push_label_and_value(&mut out, 0, self.version as u16);
        Header::push_label_and_value(&mut out, 1, self.hi_memory_start);
        Header::push_label_and_value(&mut out, 2, self.pc_start);
        Header::push_label_and_value(&mut out, 3, self.dictionary_location);
        Header::push_label_and_value(&mut out, 4, self.object_table_location);
        Header::push_label_and_value(&mut out, 5, self.global_vars_table_location);
        Header::push_label_and_value(&mut out, 6, self.static_memory_start_location);
        out
    }

    /// Appends one labelled decimal field to `out`.
    fn push_label_and_value(out: &mut Vec<char>, label: u8, value: u16)
        ensures
            final(out)@.len() > old(out)@.len(),
    {
        let name: Vec<char> = match label {
            0 => vec!['v', 'e', 'r', 's', 'i', 'o', 'n'],
            1 => vec!['h', 'i', '_', 'm', 'e', 'm', 'o', 'r', 'y'],
            2 => vec!['p', 'c', '_', 's', 't', 'a', 'r', 't'],
            3 => vec!['d', 'i', 'c', 't', 'i', 'o', 'n', 'a', 'r', 'y'],
            4 => vec!['o', 'b', 'j', 'e', 'c', 't', 's'],
            5 => vec!['g', 'l', 'o', 'b', 'a', 'l', 's'],
            _ => vec!['s', 't', 'a', 't', 'i', 'c', '_', 'm', 'e', 'm'],
        };
        let mut i: usize = 0;
        while i < name.len()
            invariant
                out@.len() >= old(out)@.len(),
            decreases name.len() - i,
        {
            out.push(name[i]);
            i = i + 1;
        }
        out.push(':');
        out.push(' ');
        push_u16_decimal(out, value);
        out.push('\n');
        proof {
            assert(dec_digits(value as int).len() > 0);
        }
    }
}

impl HeaderFlags {
    /// Decodes the flags byte for a version 1-3 image.
    pub fn process_header(flag_byte: u8) -> (r: HeaderFlags)
        ensures
            r == (HeaderFlags::V1 { flags: spec_parse_flags(flag_byte) }),
    {
        HeaderFlags::process_v1_header(flag_byte)
    }

    /// The version 1-3 flag layout: bit 1 selects the hours status line,
    /// bit 2 marks a two-disc story, bit 4 set means no status line can be
    /// shown, bit 5 screen splitting, bit 6 variable-pitch default.
    pub fn process_v1_header(flag_byte: u8) -> (r: HeaderFlags)
        ensures
            r == (HeaderFlags::V1 { flags: spec_parse_flags(flag_byte) }),
    {
        HeaderFlags::V1 {
            flags: HeaderFlagsV1 {
                status_line: if flag_byte & 0x02 != 0 {
                    StatusLineType::Hours
                } else {
                    StatusLineType::Score
                },
                split_story: flag_byte & 0x04 != 0,
                show_status_line: flag_byte & 0x10 == 0,
                split_screen: flag_byte & 0x20 != 0,
                variable_pitch_font: flag_byte & 0x40 != 0,
            },
        }
    }
}

} // verus!
