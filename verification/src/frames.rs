//! The Bongo Cat animation frames, named by what they show.
//!
//! A frame is a 128 x 32 monochrome image in page format: 4 pages of 128
//! columns, each byte holding 8 vertical pixels of one column of one page,
//! bit 0 at the top.

use vstd::prelude::*;

verus! {

/// Bytes in one animation frame: 128 columns times 32 rows, 8 rows a byte.
pub const FRAME_SIZE: usize = 512;

/// Columns in one animation frame.
pub const FRAME_COLS: usize = 128;

/// Frames of the idle (resting, breathing) animation.
pub const IDLE_FRAMES: u8 = 5;

/// Frames of a paw strike, one per paw.
pub const TAP_FRAMES: u8 = 2;

/// Which animation frame to show.
#[derive(Clone, Copy, Debug, PartialEq, Eq, Structural)]
pub enum BongoFrame {
    /// The idle frame with this index, below `IDLE_FRAMES`.
    Idle(u8),
    /// Both paws raised.
    Prep,
    /// Both paws smashing.
    Fury,
    /// One paw down: index 0 or 1 of the tap frames.
    Tap(u8),
}

} // verus!
