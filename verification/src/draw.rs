//! Drawing commands: what a render puts on the 128 x 64 display, in order.

use vstd::prelude::*;
use crate::frames::BongoFrame;
use crate::text::{label5_bytes, label8_bytes};

verus! {

/// A page-format bitmap to draw.
#[derive(Clone, Copy, Debug, PartialEq, Eq, Structural)]
pub enum Bitmap {
    /// The sleep icon, 48 columns wide.
    Sleep,
    /// An animation frame, 128 columns wide.
    Bongo(BongoFrame),
}

/// A small 8 x 8 mark beside the Bluetooth icon.
#[derive(Clone, Copy, Debug, PartialEq, Eq, Structural)]
pub enum Mark {
    /// Peripheral connected, no battery reading.
    Check,
    /// Peripheral not connected.
    Cross,
}

/// One drawing command. Coordinates are those of the top-left corner, but for
/// text, whose `y` is the baseline.
#[derive(Debug, PartialEq, Eq)]
pub enum DrawCmd {
    /// Fill the whole display with the off colour.
    Clear,
    /// Draw the lit pixels of a page-format bitmap with `cols` columns.
    PageBitmap { bitmap: Bitmap, cols: usize, x: i32, y: i32 },
    /// Draw the 9 x 14 Bluetooth icon.
    BtIcon { x: i32, y: i32 },
    /// Draw an 8 x 8 mark.
    MarkIcon { mark: Mark, x: i32, y: i32 },
    /// Draw a rectangle: filled, or its one-pixel outline.
    Rect { x: i32, y: i32, w: u32, h: u32, filled: bool },
    /// Draw a battery label in the 7 x 13 font.
    BatteryLabel { text: heapless::String<5>, x: i32, y: i32 },
    /// Draw the words-per-minute label in the 6 x 10 font.
    WpmLabel { digits: heapless::String<8>, x: i32, y: i32 },
}

/// A drawing command with its label text taken as bytes.
pub enum DrawView {
    Clear,
    PageBitmap { bitmap: Bitmap, cols: usize, x: i32, y: i32 },
    BtIcon { x: i32, y: i32 },
    MarkIcon { mark: Mark, x: i32, y: i32 },
    Rect { x: i32, y: i32, w: u32, h: u32, filled: bool },
    BatteryLabel { text: Seq<u8>, x: i32, y: i32 },
    WpmLabel { digits: Seq<u8>, x: i32, y: i32 },
}

impl View for DrawCmd {
    type V = DrawView;

    open spec fn view(&self) -> DrawView {
        match *self {
            DrawCmd::Clear => DrawView::Clear,
            DrawCmd::PageBitmap { bitmap, cols, x, y } => DrawView::PageBitmap { bitmap, cols, x, y },
            DrawCmd::BtIcon { x, y } => DrawView::BtIcon { x, y },
            DrawCmd::MarkIcon { mark, x, y } => DrawView::MarkIcon { mark, x, y },
            DrawCmd::Rect { x, y, w, h, filled } => DrawView::Rect { x, y, w, h, filled },
            DrawCmd::BatteryLabel { text, x, y } => DrawView::BatteryLabel {
                text: label5_bytes(text),
                x,
                y,
            },
            DrawCmd::WpmLabel { digits, x, y } => DrawView::WpmLabel {
                digits: label8_bytes(digits),
                x,
                y,
            },
        }
    }
}

/// The views of a list of commands.
pub open spec fn cmds_view(cmds: Seq<DrawCmd>) -> Seq<DrawView> {
    cmds.map_values(|c: DrawCmd| c@)
}

/// Pushing a command pushes its view.
pub proof fn lemma_cmds_view_push(cmds: Seq<DrawCmd>, c: DrawCmd)
    ensures
        cmds_view(cmds.push(c)) == cmds_view(cmds).push(c@),
{
    assert(cmds_view(cmds.push(c)) =~= cmds_view(cmds).push(c@));
}

} // verus!
