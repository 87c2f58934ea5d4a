//! The host-platform capability value injected by the embedding
//! application, so that platform-conditional behaviour stays ordinary,
//! testable logic instead of conditional compilation.

use vstd::prelude::*;

verus! {

/// The platform families that change behaviour: path separators and the
/// executable suffix on Windows, the fixed hardware encoder on macOS.
#[derive(Clone, Copy, Debug, PartialEq, Eq, Structural)]
pub enum Platform {
    MacOs,
    Windows,
    Other,
}

impl Platform {
    /// The platform's path separator.
    pub open spec fn spec_separator(self) -> char {
        if self is Windows {
            '\\'
        } else {
            '/'
        }
    }

    /// The platform's path separator.
    pub fn separator(self) -> (c: char)
        ensures
            c == self.spec_separator(),
    {
        match self {
            Platform::Windows => '\\',
            _ => '/',
        }
    }
}

} // verus!
