//! What holds of the animation over every state and over runs of renders.

use vstd::prelude::*;
use crate::battery::{BatteryStatus, battery_label, lemma_battery_label_fits};
use crate::battery::battery_icon_view;
use crate::draw::{Bitmap, DrawView, Mark};
use crate::frames::{BongoFrame, FRAME_COLS, IDLE_FRAMES};
use crate::text::{decimal_bytes, lemma_decimal_bytes};
use crate::renderer::{
    BONGO_X_OFFSET, BONGO_Y_OFFSET, BongoState, RenderInput, RendererView, animate_step, enter_mode, frame_exists, idle_step,
    left_status_view, pose_step, register_press, render_step, right_status_view, right_x, tap_frame, wpm_view,
};

verus! {

/// The WPM of each of the first `n` renders is known and at most the fury
/// threshold.
pub open spec fn stays_normal(wpms: Seq<u16>, fury_wpm: u16, n: nat) -> bool {
    &&& n <= wpms.len()
    &&& forall|i: int| 0 <= i < n ==> #[trigger] wpms[i] <= fury_wpm
}

/// The state after `n` renders without a key press, render `i` (from 0)
/// seeing the WPM `wpms[i]`.
pub open spec fn quiet_state(v: RendererView, wpms: Seq<u16>, n: nat) -> RendererView
    decreases n,
{
    if n == 0 {
        v
    } else {
        animate_step(quiet_state(v, wpms, (n - 1) as nat), wpms[n - 1], false).0
    }
}

/// The frame shown by render `n` (from 0) of a run without key presses,
/// render `i` seeing the WPM `wpms[i]`.
pub open spec fn quiet_frame(v: RendererView, wpms: Seq<u16>, n: nat) -> BongoFrame {
    animate_step(quiet_state(v, wpms, n), wpms[n as int], false).1
}

/// The frame shown `j` renders after a key press (the render of the press
/// itself is `j == 0`), no key being pressed after it, render `i` seeing the
/// WPM `wpms[i]`.
pub open spec fn frame_after_press(v: RendererView, wpms: Seq<u16>, j: nat) -> BongoFrame {
    let pressed = animate_step(v, wpms[0], true);
    if j == 0 {
        pressed.1
    } else {
        quiet_frame(pressed.0, wpms.drop_first(), (j - 1) as nat)
    }
}

/// A render keeps the state well formed and shows a frame that exists.
pub proof fn lemma_animation_keeps_invariant(v: RendererView, wpm: u16, key_press_latch: bool)
    requires
        v.wf(),
    ensures
        animate_step(v, wpm, key_press_latch).0.wf(),
        frame_exists(animate_step(v, wpm, key_press_latch).1),
{
}

/// The WPM alone decides the mode: fury above the threshold, normal at and
/// below it. A render never changes the settings.
pub proof fn lemma_mode_follows_wpm(v: RendererView, wpm: u16, key_press_latch: bool)
    ensures
        animate_step(v, wpm, key_press_latch).0.bongo_state == (if wpm > v.fury_wpm {
            BongoState::Fury
        } else {
            BongoState::Normal
        }),
        animate_step(v, wpm, key_press_latch).0.fury_wpm == v.fury_wpm,
        animate_step(v, wpm, key_press_latch).0.idle_ticks_per_frame == v.idle_ticks_per_frame,
        animate_step(v, wpm, key_press_latch).0.tap_hold_ticks == v.tap_hold_ticks,
        animate_step(v, wpm, key_press_latch).0.tap_idle_ticks == v.tap_idle_ticks,
{
}

/// Entering fury mode restarts the idle animation from its first frame.
pub proof fn lemma_fury_entry_restarts_idle(v: RendererView, wpm: u16, key_press_latch: bool)
    requires
        v.bongo_state == BongoState::Normal,
        wpm > v.fury_wpm,
    ensures
        animate_step(v, wpm, key_press_latch).0.idle_frame == 0,
        animate_step(v, wpm, key_press_latch).0.idle_tick == 0,
{
}

/// In fury mode the cat shows FURY and PREP in turn, one per render, and key
/// presses change neither the paw hold nor the PREP count.
pub proof fn lemma_fury_alternates(v: RendererView, wpm: u16, first: bool, second: bool)
    requires
        wpm > v.fury_wpm,
    ensures
        ({
            let (v1, f1) = animate_step(v, wpm, first);
            let (v2, f2) = animate_step(v1, wpm, second);
            &&& f1 == BongoFrame::Fury || f1 == BongoFrame::Prep
            &&& f2 == BongoFrame::Fury || f2 == BongoFrame::Prep
            &&& f1 != f2
            &&& v1.tap_hold == v.tap_hold && v1.tap_inactivity == v.tap_inactivity
        }),
{
}

/// In normal mode, with a paw hold time, each key press strikes with the
/// other paw than the press before it.
pub proof fn lemma_presses_alternate_paws(v: RendererView, wpm: u16)
    requires
        wpm <= v.fury_wpm,
        v.tap_hold_ticks > 0,
    ensures
        ({
            let (v1, f1) = animate_step(v, wpm, true);
            let (v2, f2) = animate_step(v1, wpm, true);
            &&& f1 == tap_frame(!v.tap_paw)
            &&& f2 == tap_frame(v.tap_paw)
        }),
{
}

/// How the counters evolve over a quiet run in normal mode: the paw stays
/// down while the hold lasts, then PREP is shown until the PREP count reaches
/// the PREP time, then the idle animation runs; the paw does not change.
proof fn lemma_quiet_run(u: RendererView, wpms: Seq<u16>, n: nat)
    requires
        u.wf(),
        u.bongo_state == BongoState::Normal,
        stays_normal(wpms, u.fury_wpm, n),
    ensures
        ({
            let s = quiet_state(u, wpms, n);
            let base: int = if u.tap_hold > 0 { 0 } else { u.tap_inactivity as int };
            let k = u.tap_idle_ticks as int;
            &&& s.wf()
            &&& s.bongo_state == BongoState::Normal
            &&& s.fury_wpm == u.fury_wpm
            &&& s.tap_idle_ticks == u.tap_idle_ticks
            &&& s.tap_paw == u.tap_paw
            &&& s.tap_hold == (if n < u.tap_hold { u.tap_hold - n } else { 0 })
            &&& 0 < n < u.tap_hold ==> s.tap_inactivity == 0
            &&& n >= u.tap_hold ==> s.tap_inactivity == (if base >= k {
                base
            } else if base + (n - u.tap_hold) < k {
                base + (n - u.tap_hold)
            } else {
                k
            })
        }),
    decreases n,
{
    if n > 0 {
        let m = (n - 1) as nat;
        lemma_quiet_run(u, wpms, m);
        let prev = quiet_state(u, wpms, m);
        assert(wpms[m as int] <= u.fury_wpm);
        assert(enter_mode(prev, wpms[m as int]) == prev);
        assert(register_press(prev, false) == prev);
        assert(quiet_state(u, wpms, n) == pose_step(prev).0);
        if prev.tap_hold > 0 {
            assert(m < u.tap_hold);
        } else if prev.tap_inactivity < prev.tap_idle_ticks {
            assert(m >= u.tap_hold);
        } else {
            assert(m >= u.tap_hold);
            assert(idle_step(prev).0.tap_inactivity == prev.tap_inactivity);
        }
    }
}

/// The frame of render `n` of a quiet run in normal mode.
proof fn lemma_quiet_frame(u: RendererView, wpms: Seq<u16>, n: nat)
    requires
        u.wf(),
        u.bongo_state == BongoState::Normal,
        stays_normal(wpms, u.fury_wpm, n + 1),
    ensures
        ({
            let f = quiet_frame(u, wpms, n);
            let base: int = if u.tap_hold > 0 { 0 } else { u.tap_inactivity as int };
            let k = u.tap_idle_ticks as int;
            &&& n < u.tap_hold ==> f == tap_frame(u.tap_paw)
            &&& n >= u.tap_hold && base + (n - u.tap_hold) < k ==> f == BongoFrame::Prep
            &&& n >= u.tap_hold && base + (n - u.tap_hold) >= k ==> f is Idle
        }),
{
    lemma_quiet_run(u, wpms, n);
    assert(wpms[n as int] <= u.fury_wpm);
}

/// After a key press in normal mode the paw that the press chose stays down
/// for the hold time (`tap_hold_ticks` renders, the render of the press
/// included), the cat then holds both paws up for the PREP time
/// (`tap_idle_ticks` renders), and from then on shows the idle animation, as
/// long as no other key is pressed and the WPM stays at or below the
/// threshold, whatever it is on each render.
pub proof fn lemma_key_press_animation(v: RendererView, wpms: Seq<u16>, j: nat)
    requires
        v.wf(),
        stays_normal(wpms, v.fury_wpm, j + 1),
    ensures
        ({
            let h = v.tap_hold_ticks as int;
            let k = v.tap_idle_ticks as int;
            let f = frame_after_press(v, wpms, j);
            &&& j < h ==> f == tap_frame(!v.tap_paw)
            &&& h <= j < h + k ==> f == BongoFrame::Prep
            &&& j >= h + k ==> f is Idle
        }),
{
    assert(wpms[0] <= v.fury_wpm);
    let pressed = animate_step(v, wpms[0], true);
    if j > 0 {
        let rest = wpms.drop_first();
        assert forall|i: int| 0 <= i < j implies #[trigger] rest[i] <= pressed.0.fury_wpm by {
            assert(rest[i] == wpms[i + 1]);
        }
        lemma_quiet_frame(pressed.0, rest, (j - 1) as nat);
    }
}

/// The idle animation shows each idle frame for `idle_ticks_per_frame`
/// renders (one render when that is 0), then moves on to the next one,
/// cyclically, as long as no key is pressed and the WPM stays at or below
/// the threshold.
pub proof fn lemma_idle_period(u: RendererView, wpms: Seq<u16>, n: nat)
    requires
        u.wf(),
        u.bongo_state == BongoState::Normal,
        stays_normal(wpms, u.fury_wpm, n + 1),
        u.tap_hold == 0,
        u.tap_inactivity >= u.tap_idle_ticks,
        u.idle_tick == 0,
    ensures
        ({
            let period: int = if u.idle_ticks_per_frame == 0 { 1 } else { u.idle_ticks_per_frame as int };
            let next = ((u.idle_frame + 1) % (IDLE_FRAMES as int)) as u8;
            &&& n + 1 < period ==> quiet_frame(u, wpms, n) == BongoFrame::Idle(u.idle_frame)
            &&& n + 1 == period ==> quiet_frame(u, wpms, n) == BongoFrame::Idle(next)
            &&& n + 1 == period ==> quiet_state(u, wpms, n + 1).idle_frame == next
                && quiet_state(u, wpms, n + 1).idle_tick == 0
        }),
{
    lemma_idle_run(u, wpms, n);
    assert(wpms[n as int] <= u.fury_wpm);
}

proof fn lemma_idle_run(u: RendererView, wpms: Seq<u16>, n: nat)
    requires
        u.wf(),
        u.bongo_state == BongoState::Normal,
        stays_normal(wpms, u.fury_wpm, n),
        u.tap_hold == 0,
        u.tap_inactivity >= u.tap_idle_ticks,
        u.idle_tick == 0,
    ensures
        ({
            let period: int = if u.idle_ticks_per_frame == 0 { 1 } else { u.idle_ticks_per_frame as int };
            let s = quiet_state(u, wpms, n);
            &&& n < period ==> s.idle_tick == n && s.idle_frame == u.idle_frame
            &&& s.wf()
            &&& s.bongo_state == BongoState::Normal
            &&& s.tap_hold == 0
            &&& s.tap_inactivity == u.tap_inactivity
            &&& s.fury_wpm == u.fury_wpm
            &&& s.tap_idle_ticks == u.tap_idle_ticks
            &&& s.idle_ticks_per_frame == u.idle_ticks_per_frame
        }),
    decreases n,
{
    if n > 0 {
        lemma_idle_run(u, wpms, (n - 1) as nat);
        assert(wpms[n - 1] <= u.fury_wpm);
    }
}

/// Asleep, a render leaves the animation where it was.
pub proof fn lemma_sleep_freezes_animation(v: RendererView, input: RenderInput)
    requires
        input.sleeping,
    ensures
        render_step(v, input).0 == v,
        render_step(v, input).1.len() == 2,
{
}

/// The WPM label reads the WPM in decimal and ends at the right edge of the
/// display.
pub proof fn lemma_wpm_label_right_aligned(wpm: u16)
    ensures
        wpm_view(wpm) matches DrawView::WpmLabel { digits, x, y } && digits == decimal_bytes(
            wpm as nat,
        ) && x + digits.len() * 6 == 128 && 1 <= digits.len() <= 5 && y == 63,
{
    lemma_decimal_bytes(wpm as nat);
}

/// The right battery label ends 6 pixels left of the right status icon, 7
/// pixels a character.
pub proof fn lemma_right_label_aligned(battery: BatteryStatus)
    requires
        !(battery is Unavailable),
    ensures
        right_status_view(true, battery).last() matches DrawView::BatteryLabel { text, x, y }
            && text == battery_label(battery) && x + text.len() * 7 + 6 == right_x() && y == 11,
{
    lemma_battery_label_fits(battery);
}

/// Renders per idle frame: `idle_ticks_per_frame`, or one when that is 0.
pub open spec fn idle_period(v: RendererView) -> int {
    if v.idle_ticks_per_frame == 0 {
        1
    } else {
        v.idle_ticks_per_frame as int
    }
}

/// The state after `n` steps of the idle animation alone.
pub open spec fn idle_steps(v: RendererView, n: nat) -> RendererView
    decreases n,
{
    if n == 0 {
        v
    } else {
        idle_step(idle_steps(v, (n - 1) as nat)).0
    }
}

/// One idle step shows the idle frame it moves to, which is one of the idle
/// frames; its tick stays below the renders per frame; it changes nothing
/// but the idle frame and tick.
pub proof fn lemma_idle_step_bounds(v: RendererView)
    requires
        v.wf(),
    ensures
        ({
            let (s, f) = idle_step(v);
            &&& s.wf()
            &&& s.idle_tick < idle_period(v)
            &&& f == BongoFrame::Idle(s.idle_frame)
            &&& s == (RendererView { idle_frame: s.idle_frame, idle_tick: s.idle_tick, ..v })
        }),
{
}

proof fn lemma_idle_cycle_state(v: RendererView, n: nat)
    requires
        v.wf(),
        v.idle_tick == 0,
    ensures
        ({
            let s = idle_steps(v, n);
            let k = idle_period(v);
            &&& s.wf()
            &&& s.idle_ticks_per_frame == v.idle_ticks_per_frame
            &&& s.idle_tick as int == (n as int) % k
            &&& s.idle_frame as int == (v.idle_frame + (n as int) / k) % (IDLE_FRAMES as int)
        }),
    decreases n,
{
    let k = idle_period(v);
    if n == 0 {
        vstd::arithmetic::div_mod::lemma_fundamental_div_mod_converse(0, k, 0, 0);
    } else {
        let m = (n - 1) as nat;
        lemma_idle_cycle_state(v, m);
        let s = idle_steps(v, m);
        let t = (m as int) % k;
        let q = (m as int) / k;
        vstd::arithmetic::div_mod::lemma_fundamental_div_mod(m as int, k);
        vstd::arithmetic::div_mod::lemma_mod_pos_bound(m as int, k);
        assert(n == q * k + t + 1) by (nonlinear_arith)
            requires
                m == k * q + t,
                n == m + 1,
        ;
        if t + 1 < k {
            vstd::arithmetic::div_mod::lemma_fundamental_div_mod_converse(n as int, k, q, t + 1);
            assert(s.idle_tick + 1 < v.idle_ticks_per_frame);
        } else {
            assert(n == (q + 1) * k + 0) by (nonlinear_arith)
                requires
                    n == q * k + t + 1,
                    t + 1 == k,
            ;
            vstd::arithmetic::div_mod::lemma_fundamental_div_mod_converse(n as int, k, q + 1, 0);
            assert(s.idle_tick + 1 >= v.idle_ticks_per_frame);
            vstd::arithmetic::div_mod::lemma_add_mod_noop(v.idle_frame + q, 1int, 5int);
        }
    }
}

/// The idle animation alone (`next_idle_frame`, step after step) from the
/// start of an idle frame `f`: step `n` (from 0) shows idle frame
/// `(f + (n + 1) / k) % 5`, `k` being the renders per frame, so each frame
/// shows for `k` steps and the frames follow each other cyclically; after
/// `5 * k` steps the animation is back at frame `f` with its tick at 0.
pub proof fn lemma_idle_cycle(v: RendererView, n: nat)
    requires
        v.wf(),
        v.idle_tick == 0,
    ensures
        idle_step(idle_steps(v, n)).1 == BongoFrame::Idle(
            ((v.idle_frame + (n + 1) as int / idle_period(v)) % (IDLE_FRAMES as int)) as u8,
        ),
        n == 5 * idle_period(v) ==> idle_steps(v, n).idle_frame == v.idle_frame
            && idle_steps(v, n).idle_tick == 0,
{
    let k = idle_period(v);
    lemma_idle_cycle_state(v, n);
    lemma_idle_cycle_state(v, n + 1);
    if n == 5 * k {
        vstd::arithmetic::div_mod::lemma_fundamental_div_mod_converse(n as int, k, 5, 0);
    }
}

/// The state after the first `n` renders of `inputs`, from `v`.
pub open spec fn render_states(v: RendererView, inputs: Seq<RenderInput>, n: nat) -> RendererView
    decreases n,
{
    if n == 0 {
        v
    } else {
        render_step(render_states(v, inputs, (n - 1) as nat), inputs[n - 1]).0
    }
}

/// What render `n` (from 0) of `inputs` draws, from `v`.
pub open spec fn render_cmds(v: RendererView, inputs: Seq<RenderInput>, n: nat) -> Seq<DrawView> {
    render_step(render_states(v, inputs, n), inputs[n as int]).1
}

/// The WPM of each input.
pub open spec fn input_wpms(inputs: Seq<RenderInput>) -> Seq<u16> {
    inputs.map_values(|i: RenderInput| i.wpm)
}

proof fn lemma_renders_follow_quiet_run(v: RendererView, inputs: Seq<RenderInput>, n: nat)
    requires
        0 < n <= inputs.len(),
        !inputs[0].sleeping,
        inputs[0].key_press_latch,
        forall|i: int| 1 <= i < n ==> !(#[trigger] inputs[i]).sleeping && !inputs[i].key_press_latch,
    ensures
        render_states(v, inputs, n) == quiet_state(
            animate_step(v, inputs[0].wpm, true).0,
            input_wpms(inputs).drop_first(),
            (n - 1) as nat,
        ),
    decreases n,
{
    let wpms = input_wpms(inputs).drop_first();
    let u = animate_step(v, inputs[0].wpm, true).0;
    if n == 1 {
        assert(render_states(v, inputs, 0) == v);
        assert(render_states(v, inputs, 1) == render_step(v, inputs[0]).0);
        assert(quiet_state(u, wpms, 0) == u);
    } else {
        let m = (n - 1) as nat;
        lemma_renders_follow_quiet_run(v, inputs, m);
        let prev = render_states(v, inputs, m);
        assert(!inputs[m as int].sleeping && !inputs[m as int].key_press_latch);
        assert(wpms[m - 1] == inputs[m as int].wpm);
        assert(render_states(v, inputs, n) == render_step(prev, inputs[m as int]).0);
        assert(render_step(prev, inputs[m as int]).0 == animate_step(
            prev,
            inputs[m as int].wpm,
            false,
        ).0);
        assert(quiet_state(u, wpms, m) == animate_step(
            quiet_state(u, wpms, (m - 1) as nat),
            wpms[m - 1],
            false,
        ).0);
    }
}

/// The key-press run over render calls: if render 0 of `inputs` comes with a
/// key press and renders 1 to `j` come without one, none asleep and every
/// WPM at or below the threshold, then render `j` draws, as its animation
/// frame, the tap frame of the paw that the press chose while `j` is below
/// the hold time, PREP for the following PREP time, and an idle frame from
/// then on.
pub proof fn lemma_key_press_renders(v: RendererView, inputs: Seq<RenderInput>, j: nat)
    requires
        v.wf(),
        j < inputs.len(),
        forall|i: int|
            0 <= i <= j ==> !(#[trigger] inputs[i]).sleeping && inputs[i].wpm <= v.fury_wpm
                && inputs[i].key_press_latch == (i == 0),
    ensures
        ({
            let h = v.tap_hold_ticks as int;
            let k = v.tap_idle_ticks as int;
            let cmds = render_cmds(v, inputs, j);
            let f = frame_after_press(v, input_wpms(inputs), j);
            &&& cmds.len() >= 2
            &&& cmds[cmds.len() - 2] == (DrawView::PageBitmap {
                bitmap: Bitmap::Bongo(f),
                cols: FRAME_COLS,
                x: BONGO_X_OFFSET,
                y: BONGO_Y_OFFSET,
            })
            &&& j < h ==> f == tap_frame(!v.tap_paw)
            &&& h <= j < h + k ==> f == BongoFrame::Prep
            &&& j >= h + k ==> f is Idle
        }),
{
    let wpms = input_wpms(inputs);
    assert(!inputs[0].sleeping && inputs[0].key_press_latch);
    assert forall|i: int| 0 <= i < j + 1 implies #[trigger] wpms[i] <= v.fury_wpm by {
        assert(!inputs[i].sleeping && inputs[i].wpm <= v.fury_wpm);
    }
    lemma_key_press_animation(v, wpms, j);
    if j > 0 {
        assert forall|i: int| 1 <= i < j implies !(#[trigger] inputs[i]).sleeping
            && !inputs[i].key_press_latch by {
            assert(inputs[i].key_press_latch == (i == 0));
        }
        lemma_renders_follow_quiet_run(v, inputs, j);
        assert(!inputs[j as int].sleeping && !inputs[j as int].key_press_latch);
        assert(wpms.drop_first()[j - 1] == inputs[j as int].wpm);
    }
}

/// Without a key press, a render at or below the threshold goes by the paw
/// hold and the PREP count it starts with, whatever mode it comes from: the
/// paw stays down while the hold lasts, then PREP is shown until the PREP
/// count reaches the PREP time, then the idle animation; the PREP count is
/// left alone once the PREP time is over. Coming from fury mode, the idle
/// animation starts over from its first frame.
pub proof fn lemma_quiet_normal_step(v: RendererView, wpm: u16)
    requires
        v.wf(),
        wpm <= v.fury_wpm,
    ensures
        ({
            let (s, f) = animate_step(v, wpm, false);
            &&& s.bongo_state == BongoState::Normal
            &&& s.tap_paw == v.tap_paw
            &&& v.tap_hold > 0 ==> f == tap_frame(v.tap_paw) && s.tap_hold == v.tap_hold - 1
                && s.tap_inactivity == 0
            &&& (v.tap_hold == 0 && v.tap_inactivity < v.tap_idle_ticks) ==> f == BongoFrame::Prep
                && s.tap_hold == 0 && s.tap_inactivity == v.tap_inactivity + 1
            &&& (v.tap_hold == 0 && v.tap_inactivity >= v.tap_idle_ticks) ==> f is Idle
                && s.tap_hold == 0 && s.tap_inactivity == v.tap_inactivity
            &&& (v.bongo_state == BongoState::Fury && v.tap_hold == 0 && v.tap_inactivity
                >= v.tap_idle_ticks) ==> f == BongoFrame::Idle(
                if v.idle_ticks_per_frame <= 1 {
                    1u8
                } else {
                    0u8
                },
            ) && s.idle_frame == (if v.idle_ticks_per_frame <= 1 {
                1u8
            } else {
                0u8
            })
        }),
{
}

/// A render that enters fury mode leaves the paw hold and the PREP count as
/// they were, key press or not.
pub proof fn lemma_fury_keeps_tap_counts(v: RendererView, wpm: u16, key_press_latch: bool)
    requires
        wpm > v.fury_wpm,
    ensures
        animate_step(v, wpm, key_press_latch).0.tap_hold == v.tap_hold,
        animate_step(v, wpm, key_press_latch).0.tap_inactivity == v.tap_inactivity,
{
}

/// `c` draws the mark `mark` on the left half of the display (`left`) or on
/// the right half.
pub open spec fn mark_on_side(c: DrawView, mark: Mark, left: bool) -> bool {
    match c {
        DrawView::MarkIcon { mark: m, x, .. } => m == mark && (x < 64) == left,
        _ => false,
    }
}

/// Some command of `cmds` draws `mark` on the given half of the display.
pub open spec fn draws_mark(cmds: Seq<DrawView>, mark: Mark, left: bool) -> bool {
    exists|i: int| 0 <= i < cmds.len() && #[trigger] mark_on_side(cmds[i], mark, left)
}

proof fn lemma_status_side_marks(connected: bool, battery: BatteryStatus, left: bool)
    ensures
        ({
            let view = if left {
                left_status_view(connected, battery)
            } else {
                right_status_view(connected, battery)
            };
            &&& forall|i: int, m: Mark, side: bool|
                0 <= i < view.len() && #[trigger] mark_on_side(view[i], m, side) ==> side == left
                    && (m == Mark::Cross <==> !connected) && (m == Mark::Check <==> (connected
                    && battery is Unavailable))
            &&& !connected ==> mark_on_side(view[1], Mark::Cross, left)
            &&& (connected && battery is Unavailable) ==> mark_on_side(view[1], Mark::Check, left)
            &&& 2 <= view.len()
        }),
{
    if connected && !(battery is Unavailable) {
        let x = if left { 0i32 } else { right_x() };
        let icon = battery_icon_view(battery, x, 0);
        assert forall|i: int| 0 <= i < icon.len() implies !(#[trigger] icon[i] is MarkIcon) by {
            if i >= 2 {
                assert(icon[i] == (DrawView::Rect {
                    x: (x + 1) as i32,
                    y: (0 + 10 - (i - 2)) as i32,
                    w: 5,
                    h: 1,
                    filled: true,
                }));
            }
        }
    }
}

/// The status header marks each peripheral as the original does, on its own
/// half of the display: a cross exactly when the peripheral is not
/// connected, a check exactly when it is connected and reports no battery
/// (and otherwise its battery icon and label), each next to the Bluetooth
/// icon at the places the layout gives.
pub proof fn lemma_status_marks(v: RendererView, input: RenderInput)
    requires
        !input.sleeping,
    ensures
        ({
            let c = render_step(v, input).1;
            let (c0, c1) = (input.peripherals_connected[0], input.peripherals_connected[1]);
            let (b0, b1) = (input.peripheral_batteries[0], input.peripheral_batteries[1]);
            &&& draws_mark(c, Mark::Cross, true) <==> !c0
            &&& draws_mark(c, Mark::Check, true) <==> c0 && b0 is Unavailable
            &&& draws_mark(c, Mark::Cross, false) <==> !c1
            &&& draws_mark(c, Mark::Check, false) <==> c1 && b1 is Unavailable
            &&& !c0 ==> c[1] == DrawView::BtIcon { x: 0, y: 0 } && c[2] == (DrawView::MarkIcon {
                mark: Mark::Cross,
                x: 12,
                y: 4,
            })
            &&& (c0 && b0 is Unavailable) ==> c[1] == DrawView::BtIcon { x: 0, y: 0 } && c[2]
                == (DrawView::MarkIcon { mark: Mark::Check, x: 12, y: 3 })
            &&& !c1 ==> c.contains(DrawView::BtIcon { x: 119, y: 0 }) && c.contains(
                DrawView::MarkIcon { mark: Mark::Cross, x: 108, y: 4 },
            )
            &&& (c1 && b1 is Unavailable) ==> c.contains(DrawView::BtIcon { x: 119, y: 0 })
                && c.contains(DrawView::MarkIcon { mark: Mark::Check, x: 108, y: 3 })
        }),
{
    let c = render_step(v, input).1;
    let (c0, c1) = (input.peripherals_connected[0], input.peripherals_connected[1]);
    let (b0, b1) = (input.peripheral_batteries[0], input.peripheral_batteries[1]);
    let l = left_status_view(c0, b0);
    let r = right_status_view(c1, b1);
    let (next, frame) = animate_step(v, input.wpm, input.key_press_latch);
    let tail = seq![
        DrawView::PageBitmap {
            bitmap: Bitmap::Bongo(frame),
            cols: FRAME_COLS,
            x: BONGO_X_OFFSET,
            y: BONGO_Y_OFFSET,
        },
        wpm_view(input.wpm),
    ];
    lemma_status_side_marks(c0, b0, true);
    lemma_status_side_marks(c1, b1, false);
    assert(c == seq![DrawView::Clear] + l + r + tail);
    let rs: int = 1 + l.len() as int;
    let ts: int = rs + r.len();
    assert forall|i: int, m: Mark, side: bool|
        0 <= i < c.len() && #[trigger] mark_on_side(c[i], m, side) implies (side && 1 <= i < rs
        && mark_on_side(l[i - 1], m, side)) || (!side && rs <= i < ts && mark_on_side(
        r[i - rs],
        m,
        side,
    )) by {
        if i == 0 {
        } else if i < rs {
            assert(c[i] == l[i - 1]);
        } else if i < ts {
            assert(c[i] == r[i - rs]);
        } else {
            assert(c[i] == tail[i - ts]);
        }
    }
    assert(c[2] == l[1]);
    assert(c[rs] == r[0] && c[rs + 1] == r[1]);
    assert(c[1] == l[0]);
    if !c0 {
        assert(mark_on_side(c[2], Mark::Cross, true));
    }
    if c0 && b0 is Unavailable {
        assert(mark_on_side(c[2], Mark::Check, true));
    }
    if !c1 {
        assert(mark_on_side(c[rs + 1], Mark::Cross, false));
    }
    if c1 && b1 is Unavailable {
        assert(mark_on_side(c[rs + 1], Mark::Check, false));
    }
}

} // verus!
