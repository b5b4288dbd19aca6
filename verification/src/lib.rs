//! A verified interpreter core for Z-machine story files, versions 1 through 3.
//!
//! The crate models the machine's flat address space, activation-frame stack,
//! object and property tables, compressed-text codec and instruction set, and
//! proves the memory, stack and instruction-trailer protocols against their
//! contracts.

use vstd::prelude::*;

pub mod global_variables_view;
pub mod header;
pub mod input_handler;
pub mod instruction_set;
pub mod memory_view;
pub mod object_properties_view;
pub mod object_view;
pub mod opcode;
pub mod text;
pub mod utility;
pub mod zinterface;
pub mod zmachine;
pub mod zstring;

verus! {

/// The fatal error kinds of the interpreter.  Every one of them signals either
/// a corrupted story image or an interpreter bug; none is translated into a
/// story-visible condition.
#[derive(Clone, Copy, Debug, PartialEq, Eq, Structural)]
pub enum FatalError {
    /// Version above 3, missing mandatory pointer, or truncated story file.
    MalformedImage,
    /// Pop from an empty evaluation stack, or leaving a frame with no frame.
    StackUnderflow,
    /// Out-of-range read or write.
    BadAddress,
    /// Form/count/number tuple not in the dispatch table.
    BadOpcode,
    /// Walking past an absent property, writing an over-long property, or
    /// dividing by zero.
    BadProperty,
    /// Opcode 0xBE in a version 1-3 image.
    ExtendedOpcode,
}

} // verus!
