//! Pulling a line of player input out of a line source.

use vstd::prelude::*;

verus! {

/// A source of input lines; the driver's front end implements it over its
/// terminal or stream.
pub trait LineReader {
    /// Appends the next line to `buf` and reports how many bytes arrived;
    /// `None` when no line could be read.
    fn read_next_line(&mut self, buf: &mut String) -> Option<usize>;
}

/// Where input comes from.
#[derive(Clone, Copy, Debug, PartialEq, Eq, Structural)]
pub enum InputConfiguration {
    /// A standard input stream.
    Standard,
    /// A hosted document form, for embedded builds.
    HTMLDocument,
}

/// Wraps a line source and normalizes "no input" and "empty input" into one
/// absent answer.
pub struct InputHandler<T: LineReader> {
    /// The line source.
    pub reader: T,
}

impl<T: LineReader> InputHandler<T> {
    /// One fetch attempt: `None` when the reader had nothing (or an empty
    /// read), otherwise the line as the reader delivered it.
    pub fn get_input(&mut self) -> Option<String> {
        let mut input = String::new();
        let result = self.reader.read_next_line(&mut input);
        let length: usize = match result {
            Some(x) => x,
            None => 0,
        };
        if length == 0 {
            return None;
        }
        Some(input)
    }
}

} // verus!
