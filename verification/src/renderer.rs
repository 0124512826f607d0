//! The dongle renderer: peripheral status above a Bongo Cat animation.
//!
//! The cat types along with the keyboard: in normal mode each key press
//! alternates the paw that strikes, the paw stays down for a few renders, the
//! cat then holds both paws up for a few renders and finally falls back to its
//! idle breathing animation. Above a words-per-minute threshold it goes wild
//! and smashes both paws in turn on every render.

use vstd::prelude::*;
use crate::battery::{
    BatteryStatus, battery_icon_view, battery_label, draw_battery_icon,
    fmt_battery_pct, lemma_battery_label_fits,
};
use crate::draw::{Bitmap, DrawCmd, DrawView, Mark, cmds_view, lemma_cmds_view_push};
use crate::frames::{BongoFrame, FRAME_COLS, IDLE_FRAMES};
use crate::text::{
    decimal_bytes, decimal_digits, label5_len, label5_new, label8_len, label8_new,
    lemma_decimal_bytes, write_piece8,
};

verus! {

/// WPM above which the cat goes into fury mode, unless set otherwise.
pub const DEFAULT_FURY_WPM: u16 = 80;

/// Renders per idle frame unless set otherwise.
pub const DEFAULT_IDLE_TICKS_PER_FRAME: u8 = 3;

/// Renders the paw stays down after a tap unless set otherwise.
pub const DEFAULT_TAP_HOLD_TICKS: u8 = 3;

/// Renders in the PREP pose after a tap unless set otherwise.
pub const DEFAULT_TAP_IDLE_TICKS: u8 = 5;

/// Row of the top of the animation frame.
pub const BONGO_Y_OFFSET: i32 = 33;

/// Column of the left of the animation frame.
pub const BONGO_X_OFFSET: i32 = 9;

/// Width of the Bluetooth icon.
pub const BT_ICON_W: i32 = 9;

/// Columns of the sleep icon.
pub const SLEEP_ICON_W: usize = 48;

/// Width of the display.
pub const DISPLAY_W: i32 = 128;

/// Animation mode.
#[derive(Clone, Copy, Debug, PartialEq, Eq, Structural)]
pub enum BongoState {
    /// Cat typing: alternates paws on each key press.
    Normal,
    /// Cat going wild: alternates both paws on every render.
    Fury,
}

/// Split dongle status and Bongo Cat OLED renderer for a 128 x 64 display.
///
/// - Normal: each key press alternates the left and right paw.
/// - Fury (high WPM): both paws smashing, one toggle per render.
///
/// The animation advances once per render.
pub struct DongleRenderer {
    /// WPM threshold above which the cat enters fury mode.
    fury_wpm: u16,
    /// Number of renders before advancing to the next idle frame.
    idle_ticks_per_frame: u8,
    /// Number of renders the paw stays down after a tap.
    tap_hold_ticks: u8,
    /// Number of renders in PREP pose before falling back to the idle animation.
    tap_idle_ticks: u8,
    bongo_state: BongoState,
    tap_paw: bool,
    idle_frame: u8,
    idle_tick: u8,
    tap_hold: u8,
    tap_inactivity: u8,
}

/// The renderer's settings and animation state.
pub struct RendererView {
    pub fury_wpm: u16,
    pub idle_ticks_per_frame: u8,
    pub tap_hold_ticks: u8,
    pub tap_idle_ticks: u8,
    pub bongo_state: BongoState,
    pub tap_paw: bool,
    pub idle_frame: u8,
    pub idle_tick: u8,
    pub tap_hold: u8,
    pub tap_inactivity: u8,
}

impl RendererView {
    /// The idle frame is one of the idle frames, and the idle tick can count
    /// one more.
    pub open spec fn wf(self) -> bool {
        &&& self.idle_frame < IDLE_FRAMES
        &&& self.idle_tick < 255
    }
}

impl View for DongleRenderer {
    type V = RendererView;

    closed spec fn view(&self) -> RendererView {
        RendererView {
            fury_wpm: self.fury_wpm,
            idle_ticks_per_frame: self.idle_ticks_per_frame,
            tap_hold_ticks: self.tap_hold_ticks,
            tap_idle_ticks: self.tap_idle_ticks,
            bongo_state: self.bongo_state,
            tap_paw: self.tap_paw,
            idle_frame: self.idle_frame,
            idle_tick: self.idle_tick,
            tap_hold: self.tap_hold,
            tap_inactivity: self.tap_inactivity,
        }
    }
}

impl DongleRenderer {
    #[verifier::type_invariant]
    closed spec fn inv(self) -> bool {
        self@.wf()
    }
}

/// The renderer as it starts: default settings, normal mode, left paw next
/// is the first to strike, first idle frame, nothing counted.
pub open spec fn default_view() -> RendererView {
    RendererView {
        fury_wpm: DEFAULT_FURY_WPM,
        idle_ticks_per_frame: DEFAULT_IDLE_TICKS_PER_FRAME,
        tap_hold_ticks: DEFAULT_TAP_HOLD_TICKS,
        tap_idle_ticks: DEFAULT_TAP_IDLE_TICKS,
        bongo_state: BongoState::Normal,
        tap_paw: false,
        idle_frame: 0,
        idle_tick: 0,
        tap_hold: 0,
        tap_inactivity: 0,
    }
}

impl Default for DongleRenderer {
    fn default() -> (r: Self)
        ensures
            r@ == default_view(),
            r@.wf(),
    {
        DongleRenderer {
            fury_wpm: DEFAULT_FURY_WPM,
            idle_ticks_per_frame: DEFAULT_IDLE_TICKS_PER_FRAME,
            tap_hold_ticks: DEFAULT_TAP_HOLD_TICKS,
            tap_idle_ticks: DEFAULT_TAP_IDLE_TICKS,
            bongo_state: BongoState::Normal,
            tap_paw: false,
            idle_frame: 0,
            idle_tick: 0,
            tap_hold: 0,
            tap_inactivity: 0,
        }
    }
}

impl DongleRenderer {
    /// Set the WPM above which the cat goes into fury mode.
    pub fn with_fury_wpm(self, wpm: u16) -> (r: Self)
        ensures
            r@ == (RendererView { fury_wpm: wpm, ..self@ }),
            self@.wf(),
            r@.wf(),
    {
        proof {
            use_type_invariant(&self);
        }
        let mut r = self;
        r.fury_wpm = wpm;
        r
    }

    /// Set how many renders must pass before the idle animation advances one frame.
    pub fn with_idle_ticks_per_frame(self, ticks: u8) -> (r: Self)
        ensures
            r@ == (RendererView { idle_ticks_per_frame: ticks, ..self@ }),
            self@.wf(),
            r@.wf(),
    {
        proof {
            use_type_invariant(&self);
        }
        let mut r = self;
        r.idle_ticks_per_frame = ticks;
        r
    }

    /// Set how many renders the paw stays in the TAP pose after a key press.
    pub fn with_tap_hold_ticks(self, ticks: u8) -> (r: Self)
        ensures
            r@ == (RendererView { tap_hold_ticks: ticks, ..self@ }),
            self@.wf(),
            r@.wf(),
    {
        proof {
            use_type_invariant(&self);
        }
        let mut r = self;
        r.tap_hold_ticks = ticks;
        r
    }

    /// Set how many renders the cat stays in PREP pose before returning to idle animation.
    pub fn with_tap_idle_ticks(self, ticks: u8) -> (r: Self)
        ensures
            r@ == (RendererView { tap_idle_ticks: ticks, ..self@ }),
            self@.wf(),
            r@.wf(),
    {
        proof {
            use_type_invariant(&self);
        }
        let mut r = self;
        r.tap_idle_ticks = ticks;
        r
    }
}

/// The tap frame of a paw: the second one for `true`.
pub open spec fn tap_frame(paw: bool) -> BongoFrame {
    BongoFrame::Tap(if paw { 1u8 } else { 0u8 })
}

/// One render of the idle animation: the tick counts on, and once it reaches
/// the renders per frame it starts over and the next idle frame (cyclically)
/// is shown; otherwise the current one is shown again.
pub open spec fn idle_step(v: RendererView) -> (RendererView, BongoFrame) {
    let tick = v.idle_tick + 1;
    if tick >= v.idle_ticks_per_frame {
        let frame = ((v.idle_frame + 1) % (IDLE_FRAMES as int)) as u8;
        (RendererView { idle_tick: 0, idle_frame: frame, ..v }, BongoFrame::Idle(frame))
    } else {
        (RendererView { idle_tick: tick as u8, ..v }, BongoFrame::Idle(v.idle_frame))
    }
}

/// The mode that `wpm` asks for.
pub open spec fn mode_for(v: RendererView, wpm: u16) -> BongoState {
    if wpm > v.fury_wpm {
        BongoState::Fury
    } else {
        BongoState::Normal
    }
}

/// Entering the mode that `wpm` asks for; a change of mode restarts the idle
/// animation.
pub open spec fn enter_mode(v: RendererView, wpm: u16) -> RendererView {
    let mode = mode_for(v, wpm);
    if mode != v.bongo_state {
        RendererView { bongo_state: mode, idle_frame: 0, idle_tick: 0, ..v }
    } else {
        v
    }
}

/// A key press in normal mode switches paws, puts the paw down for the hold
/// time and restarts the PREP count; in fury mode it changes nothing.
pub open spec fn register_press(v: RendererView, key_press_latch: bool) -> RendererView {
    if key_press_latch && v.bongo_state != BongoState::Fury {
        RendererView { tap_paw: !v.tap_paw, tap_hold: v.tap_hold_ticks, tap_inactivity: 0, ..v }
    } else {
        v
    }
}

/// The pose of one render. Normal: the tap frame while the paw is held down,
/// then PREP for the PREP time, then the idle animation. Fury: the paws
/// switch on every render, FURY and PREP in turn.
pub open spec fn pose_step(v: RendererView) -> (RendererView, BongoFrame) {
    match v.bongo_state {
        BongoState::Normal => {
            if v.tap_hold > 0 {
                (
                    RendererView { tap_hold: (v.tap_hold - 1) as u8, tap_inactivity: 0, ..v },
                    tap_frame(v.tap_paw),
                )
            } else if v.tap_inactivity < v.tap_idle_ticks {
                (
                    RendererView { tap_inactivity: (v.tap_inactivity + 1) as u8, ..v },
                    BongoFrame::Prep,
                )
            } else {
                idle_step(v)
            }
        },
        BongoState::Fury => {
            let paw = !v.tap_paw;
            (
                RendererView { tap_paw: paw, ..v },
                if paw {
                    BongoFrame::Fury
                } else {
                    BongoFrame::Prep
                },
            )
        },
    }
}

/// One render of the animation for the given WPM and key press latch: the
/// new state and the frame to show.
pub open spec fn animate_step(v: RendererView, wpm: u16, key_press_latch: bool) -> (
    RendererView,
    BongoFrame,
) {
    pose_step(register_press(enter_mode(v, wpm), key_press_latch))
}

/// The frame is one that exists: an idle frame below `IDLE_FRAMES`, a tap
/// frame below `TAP_FRAMES`.
pub open spec fn frame_exists(f: BongoFrame) -> bool {
    match f {
        BongoFrame::Idle(i) => i < IDLE_FRAMES,
        BongoFrame::Tap(i) => i < crate::frames::TAP_FRAMES,
        _ => true,
    }
}

impl DongleRenderer {
    /// Advances the idle animation by one render and returns the idle frame
    /// to show.
    fn next_idle_frame(&mut self) -> (frame: BongoFrame)
        ensures
            (final(self)@, frame) == idle_step(old(self)@),
            old(self)@.wf(),
            final(self)@.wf(),
            frame == BongoFrame::Idle(final(self)@.idle_frame),
            final(self)@.idle_tick < (if old(self)@.idle_ticks_per_frame == 0 {
                1
            } else {
                old(self)@.idle_ticks_per_frame as int
            }),
    {
        proof {
            use_type_invariant(&*self);
        }
        let tick = self.idle_tick + 1;
        if tick >= self.idle_ticks_per_frame {
            self.idle_tick = 0;
            self.idle_frame = (self.idle_frame + 1) % IDLE_FRAMES;
        } else {
            self.idle_tick = tick;
        }
        BongoFrame::Idle(self.idle_frame)
    }

    /// Advances the animation by one render, for the current WPM and whether
    /// a key was pressed since the last render, and returns the frame to show.
    pub fn animate(&mut self, wpm: u16, key_press_latch: bool) -> (frame: BongoFrame)
        ensures
            (final(self)@, frame) == animate_step(old(self)@, wpm, key_press_latch),
            old(self)@.wf(),
            final(self)@.wf(),
            frame_exists(frame),
    {
        proof {
            use_type_invariant(&*self);
        }
        // WPM drives the mode.
        let new_state = if wpm > self.fury_wpm {
            BongoState::Fury
        } else {
            BongoState::Normal
        };
        if new_state != self.bongo_state {
            self.bongo_state = new_state;
            self.idle_frame = 0;
            self.idle_tick = 0;
        }
        // Alternate paw on each key press (only in Normal; Fury switches paws itself).
        if key_press_latch && self.bongo_state != BongoState::Fury {
            self.tap_paw = !self.tap_paw;
            self.tap_hold = self.tap_hold_ticks;
            self.tap_inactivity = 0;
        }
        match self.bongo_state {
            BongoState::Normal => {
                if self.tap_hold > 0 {
                    self.tap_hold = self.tap_hold - 1;
                    self.tap_inactivity = 0;
                    BongoFrame::Tap(if self.tap_paw { 1 } else { 0 })
                } else if self.tap_inactivity < self.tap_idle_ticks {
                    self.tap_inactivity = self.tap_inactivity + 1;
                    BongoFrame::Prep
                } else {
                    self.next_idle_frame()
                }
            },
            BongoState::Fury => {
                self.tap_paw = !self.tap_paw;
                if self.tap_paw {
                    BongoFrame::Fury
                } else {
                    BongoFrame::Prep
                }
            },
        }
    }
}

/// What one render is given: whether the keyboard sleeps, the WPM estimate,
/// whether a key was pressed since the last render, and each peripheral's
/// connection and battery.
#[derive(Clone, Copy, Debug)]
pub struct RenderInput {
    pub sleeping: bool,
    pub wpm: u16,
    pub key_press_latch: bool,
    pub peripherals_connected: [bool; 2],
    pub peripheral_batteries: [BatteryStatus; 2],
}

/// Column of the right peripheral's status icon.
pub open spec fn right_x() -> i32 {
    (DISPLAY_W - BT_ICON_W) as i32
}

/// The left peripheral's status: its battery icon and label when it reports
/// a battery, otherwise the Bluetooth icon with a check when connected and a
/// cross when not.
pub open spec fn left_status_view(connected: bool, battery: BatteryStatus) -> Seq<DrawView> {
    if connected {
        if battery is Unavailable {
            seq![
                DrawView::BtIcon { x: 0, y: 0 },
                DrawView::MarkIcon { mark: Mark::Check, x: (BT_ICON_W + 3) as i32, y: 3 },
            ]
        } else {
            battery_icon_view(battery, 0, 0).push(
                DrawView::BatteryLabel { text: battery_label(battery), x: 10, y: 11 },
            )
        }
    } else {
        seq![
            DrawView::BtIcon { x: 0, y: 0 },
            DrawView::MarkIcon { mark: Mark::Cross, x: (BT_ICON_W + 3) as i32, y: 4 },
        ]
    }
}

/// The right peripheral's status, mirrored against the right edge: the label
/// ends 6 pixels left of the battery icon, 7 pixels a character.
pub open spec fn right_status_view(connected: bool, battery: BatteryStatus) -> Seq<DrawView> {
    if connected {
        if battery is Unavailable {
            seq![
                DrawView::BtIcon { x: right_x(), y: 0 },
                DrawView::MarkIcon { mark: Mark::Check, x: (right_x() - 11) as i32, y: 3 },
            ]
        } else {
            battery_icon_view(battery, right_x(), 0).push(
                DrawView::BatteryLabel {
                    text: battery_label(battery),
                    x: (right_x() - battery_label(battery).len() * 7 - 6) as i32,
                    y: 11,
                },
            )
        }
    } else {
        seq![
            DrawView::BtIcon { x: right_x(), y: 0 },
            DrawView::MarkIcon { mark: Mark::Cross, x: (right_x() - 11) as i32, y: 4 },
        ]
    }
}

/// The WPM label in the bottom-right corner, 6 pixels a character, its
/// baseline on the last row.
pub open spec fn wpm_view(wpm: u16) -> DrawView {
    DrawView::WpmLabel {
        digits: decimal_bytes(wpm as nat),
        x: (DISPLAY_W - decimal_bytes(wpm as nat).len() * 6) as i32,
        y: 63,
    }
}

/// One render: the new state and what is drawn. Asleep, the display shows
/// only the sleep icon and the animation stands still. Awake, it shows both
/// peripherals' status, the animation frame of this render and the WPM.
pub open spec fn render_step(v: RendererView, input: RenderInput) -> (RendererView, Seq<DrawView>) {
    if input.sleeping {
        (
            v,
            seq![
                DrawView::Clear,
                DrawView::PageBitmap { bitmap: Bitmap::Sleep, cols: SLEEP_ICON_W, x: 40, y: 8 },
            ],
        )
    } else {
        let (next, frame) = animate_step(v, input.wpm, input.key_press_latch);
        (
            next,
            seq![DrawView::Clear] + left_status_view(
                input.peripherals_connected[0],
                input.peripheral_batteries[0],
            ) + right_status_view(input.peripherals_connected[1], input.peripheral_batteries[1])
                + seq![
                DrawView::PageBitmap {
                    bitmap: Bitmap::Bongo(frame),
                    cols: FRAME_COLS,
                    x: BONGO_X_OFFSET,
                    y: BONGO_Y_OFFSET,
                },
                wpm_view(input.wpm),
            ],
        )
    }
}

/// Appends a command and keeps the views in step.
fn push_cmd(cmds: &mut Vec<DrawCmd>, cmd: DrawCmd)
    ensures
        final(cmds)@ == old(cmds)@.push(cmd),
        cmds_view(final(cmds)@) == cmds_view(old(cmds)@).push(cmd@),
{
    proof {
        lemma_cmds_view_push(cmds@, cmd);
    }
    cmds.push(cmd);
}

/// The battery label of `battery`, written into a fresh label.
fn battery_label_text(battery: BatteryStatus) -> (text: heapless::String<5>)
    ensures
        crate::text::label5_bytes(text) == battery_label(battery),
        battery_label(battery).len() <= 4,
{
    let mut buf = label5_new();
    fmt_battery_pct(&mut buf, battery);
    proof {
        lemma_battery_label_fits(battery);
    }
    buf
}

fn draw_left_status(cmds: &mut Vec<DrawCmd>, connected: bool, battery: BatteryStatus)
    ensures
        cmds_view(final(cmds)@) == cmds_view(old(cmds)@) + left_status_view(connected, battery),
{
    let ghost start = cmds_view(cmds@);
    if connected {
        if matches!(battery, BatteryStatus::Unavailable) {
            push_cmd(cmds, DrawCmd::BtIcon { x: 0, y: 0 });
            push_cmd(cmds, DrawCmd::MarkIcon { mark: Mark::Check, x: BT_ICON_W + 3, y: 3 });
        } else {
            draw_battery_icon(battery, cmds, 0, 0);
            let text = battery_label_text(battery);
            push_cmd(cmds, DrawCmd::BatteryLabel { text, x: 10, y: 11 });
        }
    } else {
        push_cmd(cmds, DrawCmd::BtIcon { x: 0, y: 0 });
        push_cmd(cmds, DrawCmd::MarkIcon { mark: Mark::Cross, x: BT_ICON_W + 3, y: 4 });
    }
}

fn draw_right_status(cmds: &mut Vec<DrawCmd>, connected: bool, battery: BatteryStatus)
    ensures
        cmds_view(final(cmds)@) == cmds_view(old(cmds)@) + right_status_view(connected, battery),
{
    let ghost start = cmds_view(cmds@);
    let right_x = DISPLAY_W - BT_ICON_W;
    if connected {
        if matches!(battery, BatteryStatus::Unavailable) {
            push_cmd(cmds, DrawCmd::BtIcon { x: right_x, y: 0 });
            push_cmd(cmds, DrawCmd::MarkIcon { mark: Mark::Check, x: right_x - 11, y: 3 });
        } else {
            draw_battery_icon(battery, cmds, right_x, 0);
            let text = battery_label_text(battery);
            let text_w = label5_len(&text) as i32 * 7;
            push_cmd(cmds, DrawCmd::BatteryLabel { text, x: right_x - text_w - 6, y: 11 });
        }
    } else {
        push_cmd(cmds, DrawCmd::BtIcon { x: right_x, y: 0 });
        push_cmd(cmds, DrawCmd::MarkIcon { mark: Mark::Cross, x: right_x - 11, y: 4 });
    }
}

/// The frame of a command that draws an animation frame exists.
pub open spec fn drawn_frame_exists(c: DrawView) -> bool {
    match c {
        DrawView::PageBitmap { bitmap: Bitmap::Bongo(f), .. } => frame_exists(f),
        _ => true,
    }
}

/// Every animation frame that the commands draw exists.
pub open spec fn drawn_frames_exist(cmds: Seq<DrawView>) -> bool {
    forall|i: int| 0 <= i < cmds.len() ==> #[trigger] drawn_frame_exists(cmds[i])
}

impl DongleRenderer {
    /// Renders one frame: advances the animation (unless asleep) and returns
    /// what to draw on the display, in order.
    pub fn render(&mut self, input: &RenderInput) -> (cmds: Vec<DrawCmd>)
        ensures
            (final(self)@, cmds_view(cmds@)) == render_step(old(self)@, *input),
            old(self)@.wf(),
            final(self)@.wf(),
            drawn_frames_exist(cmds_view(cmds@)),
    {
        proof {
            use_type_invariant(&*self);
        }
        let mut cmds: Vec<DrawCmd> = Vec::new();
        push_cmd(&mut cmds, DrawCmd::Clear);
        if input.sleeping {
            push_cmd(
                &mut cmds,
                DrawCmd::PageBitmap { bitmap: Bitmap::Sleep, cols: SLEEP_ICON_W, x: 40, y: 8 },
            );
            return cmds;
        }
        draw_left_status(&mut cmds, input.peripherals_connected[0], input.peripheral_batteries[0]);
        draw_right_status(&mut cmds, input.peripherals_connected[1], input.peripheral_batteries[1]);

        let frame = self.animate(input.wpm, input.key_press_latch);
        push_cmd(
            &mut cmds,
            DrawCmd::PageBitmap {
                bitmap: Bitmap::Bongo(frame),
                cols: FRAME_COLS,
                x: BONGO_X_OFFSET,
                y: BONGO_Y_OFFSET,
            },
        );

        // WPM overlay, bottom-right corner.
        let mut digits_text = label8_new();
        let digits = decimal_digits(input.wpm);
        proof {
            lemma_decimal_bytes(input.wpm as nat);
        }
        let _ = write_piece8(&mut digits_text, &digits);
        let x = DISPLAY_W - label8_len(&digits_text) as i32 * 6;
        push_cmd(&mut cmds, DrawCmd::WpmLabel { digits: digits_text, x, y: 63 });
        cmds
    }
}

} // verus!
