pub mod slide;
pub mod layout;
pub mod deck;
pub mod events;
pub mod nav;
pub mod render;
pub mod session;
pub mod text;

use vstd::prelude::*;

verus! {

/// Number of terminal rows reserved below the canvas for the footer margin
/// and the elapsed-time readout.
pub const BOTTOM_OFFSET: usize = 4;

/// Left indentation of slide content, and the width of the side borders.
pub const CONTENT_MARGIN: usize = 4;

/// Block-art stencils whose true height is at or below this threshold are
/// rejected in favour of a plain-text header line.
pub const MIN_ASCII_ART_HEIGHT: usize = 12;

/// The usable canvas height: the terminal height minus the reserved bottom
/// margin.
pub fn usable_height(term_height: usize) -> (r: usize)
    requires
        term_height >= BOTTOM_OFFSET + 1,
    ensures
        r == term_height - BOTTOM_OFFSET,
{
    term_height - BOTTOM_OFFSET
}

} // verus!
