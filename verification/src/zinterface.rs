//! The presentation boundary: the narrow interface the terminal (or any
//! other front end) implements for the machine's driver.

use vstd::prelude::*;

verus! {

/// What a pass of the driver loop reports back to the loop host.
#[derive(Clone, Copy, Debug, PartialEq, Eq, Structural)]
pub enum LoopState {
    Running,
    Restarting,
    Quitting,
    Error,
}

impl From<u8> for LoopState {
    /// Decodes the loop state a driver pass encoded as a byte; unknown
    /// codes read as `Error`.
    fn from(orig: u8) -> (r: Self) {
        match orig {
            0 => LoopState::Running,
            1 => LoopState::Restarting,
            2 => LoopState::Quitting,
            _ => LoopState::Error,
        }
    }
}

impl vstd::std_specs::convert::FromSpecImpl<u8> for LoopState {
    open spec fn obeys_from_spec() -> bool {
        true
    }

    open spec fn from_spec(orig: u8) -> LoopState {
        if orig == 0 {
            LoopState::Running
        } else if orig == 1 {
            LoopState::Restarting
        } else if orig == 2 {
            LoopState::Quitting
        } else {
            LoopState::Error
        }
    }
}

/// The operations a presentation layer offers the driver: clearing and
/// writing the main transcript, replacing the status line, fetching a line
/// of input without blocking, and being told the story has quit.  Front
/// ends implement this outside the verified core.
pub trait ZInterface: Sized {
    /// The story has transitioned to its stopped state.
    fn quit(&self);

    /// Request a cleared main area.
    fn clear(&self);

    /// Fetch a line if one is ready; `None` means no line yet.
    fn read_next_line(&self, buf: &mut String) -> Option<usize>;

    /// Append text to the main transcript (no implicit line termination).
    fn print_to_main(&self, main: &str);

    /// Replace the status line with the two justified halves.
    fn print_to_header(&self, left_side: &str, right_side: &str);
}

} // verus!
