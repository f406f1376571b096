use vstd::prelude::*;

verus! {

/// The failures an operation of this library reports, one per kind.
#[derive(Clone, Copy, Debug, PartialEq, Eq, Structural)]
pub enum Error {
    /// Backing memory, an identifier space or a table is exhausted.
    NoMemory,
    /// No free range of the requested size is left in an address window.
    NoSpace,
    /// A size or an argument is not acceptable.
    Invalid,
    /// A handle does not name an object of the calling context.
    NotFound,
    /// The object already holds a mapping in this address space.
    Busy,
    /// The mapping state contradicts itself.
    Io,
    /// A failure of a renderer, carried as its error code.
    Code(i32),
}

} // verus!
