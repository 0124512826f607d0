//! Battery status of a peripheral: its label text and its bar icon.

use vstd::prelude::*;
use crate::draw::{DrawCmd, DrawView, cmds_view, lemma_cmds_view_push};
use crate::text::{
    decimal_bytes, decimal_digits, is_ascii_bytes, is_decimal_of, label5_bytes,
    lemma_decimal_bytes, lemma_decimal_bytes_value,
    write_piece5,
};

verus! {

/// Whether a battery is charging.
#[derive(Clone, Copy, Debug, PartialEq, Eq, Structural)]
pub enum ChargeState {
    Charging,
    Discharging,
    Unknown,
}

/// What is known of a peripheral's battery.
#[derive(Clone, Copy, Debug, PartialEq, Eq, Structural)]
pub enum BatteryStatus {
    /// No reading.
    Unavailable,
    /// A reading: the charge state and, where known, the level in percent.
    Available { charge_state: ChargeState, level: Option<u8> },
}

/// Bars of a full battery icon.
pub const BATTERY_BARS: i32 = 9;

/// Width of the battery icon's body.
pub const BATTERY_BODY_W: i32 = 7;

/// Height of the battery icon's body: room for the bars and the outline.
pub const BATTERY_BODY_H: i32 = 11;

/// Width of the terminal nub on top of the battery icon.
pub const BATTERY_NUB_W: i32 = 3;

/// The pieces that the label of `battery` is written in, each by one
/// `write_str`: `?` without a reading, `CHG` while charging, the level and
/// `%` when it is known, `FUL` otherwise.
pub open spec fn battery_label_pieces(battery: BatteryStatus) -> Seq<Seq<u8>> {
    match battery {
        BatteryStatus::Unavailable => seq![seq![63u8]],
        BatteryStatus::Available { charge_state: ChargeState::Charging, .. } => seq![
            seq![67u8, 72u8, 71u8],
        ],
        BatteryStatus::Available { level: Some(v), .. } => seq![decimal_bytes(v as nat), seq![37u8]],
        BatteryStatus::Available { level: None, .. } => seq![seq![70u8, 85u8, 76u8]],
    }
}

/// The whole label of `battery`.
pub open spec fn battery_label(battery: BatteryStatus) -> Seq<u8> {
    match battery {
        BatteryStatus::Unavailable => seq![63u8],
        BatteryStatus::Available { charge_state: ChargeState::Charging, .. } => seq![67u8, 72u8, 71u8],
        BatteryStatus::Available { level: Some(v), .. } => decimal_bytes(v as nat).push(37u8),
        BatteryStatus::Available { level: None, .. } => seq![70u8, 85u8, 76u8],
    }
}

/// What writing `pieces` in turn leaves in a label of capacity `cap` that held
/// `held`: each piece goes in whole or not at all, and the first one that does
/// not fit ends the writing.
pub open spec fn write_pieces(held: Seq<u8>, pieces: Seq<Seq<u8>>, cap: nat) -> Seq<u8>
    decreases pieces.len(),
{
    if pieces.len() == 0 {
        held
    } else if held.len() + pieces[0].len() <= cap {
        write_pieces(held + pieces[0], pieces.drop_first(), cap)
    } else {
        held
    }
}

/// Writes the battery label of `battery` into `buf`, as one formatted write:
/// `?`, `CHG`, the level and `%`, or `FUL`.
pub fn fmt_battery_pct(buf: &mut heapless::String<5>, battery: BatteryStatus)
    ensures
        label5_bytes(*final(buf)) == write_pieces(
            label5_bytes(*old(buf)),
            battery_label_pieces(battery),
            5,
        ),
{
    proof {
        reveal_with_fuel(write_pieces, 3);
    }
    match battery {
        BatteryStatus::Unavailable => {
            let piece = vec![63u8];
            let _ = write_piece5(buf, &piece);
            assert(battery_label_pieces(battery).drop_first().len() == 0);
        },
        BatteryStatus::Available { charge_state: ChargeState::Charging, .. } => {
            let piece = vec![67u8, 72u8, 71u8];
            let _ = write_piece5(buf, &piece);
            assert(battery_label_pieces(battery).drop_first().len() == 0);
        },
        BatteryStatus::Available { level: Some(v), .. } => {
            let digits = decimal_digits(v as u16);
            proof {
                lemma_decimal_bytes(v as nat);
            }
            let ghost pieces = battery_label_pieces(battery);
            if write_piece5(buf, &digits) {
                let percent = vec![37u8];
                let _ = write_piece5(buf, &percent);
                assert(pieces.drop_first().drop_first().len() == 0);
                assert(pieces.drop_first()[0] == seq![37u8]);
            }
        },
        BatteryStatus::Available { level: None, .. } => {
            let piece = vec![70u8, 85u8, 76u8];
            let _ = write_piece5(buf, &piece);
            assert(battery_label_pieces(battery).drop_first().len() == 0);
        },
    }
}

/// From an empty label, the whole battery label is written, and it has one
/// to four bytes.
pub proof fn lemma_battery_label_fits(battery: BatteryStatus)
    ensures
        write_pieces(Seq::<u8>::empty(), battery_label_pieces(battery), 5) == battery_label(
            battery,
        ),
        1 <= battery_label(battery).len() <= 4,
        is_ascii_bytes(battery_label(battery)),
{
    let pieces = battery_label_pieces(battery);
    let e = Seq::<u8>::empty();
    reveal_with_fuel(write_pieces, 3);
    match battery {
        BatteryStatus::Available { charge_state: ChargeState::Charging, .. } => {
            assert(pieces.drop_first().len() == 0);
            assert(e + pieces[0] == battery_label(battery));
        },
        BatteryStatus::Available { level: Some(v), .. } => {
            lemma_decimal_bytes(v as nat);
            let d = decimal_bytes(v as nat);
            assert(pieces.drop_first().drop_first().len() == 0);
            assert(e + d == d);
            assert(d + seq![37u8] == d.push(37u8));
            let l = battery_label(battery);
            assert forall|i: int| 0 <= i < l.len() implies #[trigger] l[i] < 128 by {
                if i < d.len() {
                    assert(l[i] == d[i]);
                }
            }
        },
        _ => {
            assert(pieces.drop_first().len() == 0);
            assert(e + pieces[0] == battery_label(battery));
        },
    }
}

/// Bars lit in the battery icon: the level in ninths rounded up, all of them
/// without a level, none without a reading.
pub open spec fn battery_bar_count(battery: BatteryStatus) -> int {
    match battery {
        BatteryStatus::Available { level: Some(pct), .. } => (pct as int * 9 + 99) / 100,
        BatteryStatus::Available { level: None, .. } => 9,
        BatteryStatus::Unavailable => 0,
    }
}

/// The bars lit in the battery icon of `battery`.
pub fn battery_bars(battery: BatteryStatus) -> (bars: i32)
    ensures
        bars == battery_bar_count(battery),
        0 <= bars <= 23,
{
    match battery {
        BatteryStatus::Available { level: Some(pct), .. } => ((pct as i32 * BATTERY_BARS) + 99) / 100,
        BatteryStatus::Available { level: None, .. } => BATTERY_BARS,
        BatteryStatus::Unavailable => 0,
    }
}

/// A level of at most 100 percent lights at most the 9 bars that fit in the
/// body, and lights them all only from 89 percent on; the bars grow with the
/// level.
pub proof fn lemma_battery_bars_fit(pct: u8, other: u8)
    requires
        pct <= 100,
    ensures
        ({
            let b = BatteryStatus::Available { charge_state: ChargeState::Discharging, level: Some(pct) };
            &&& 0 <= battery_bar_count(b) <= 9
            &&& (battery_bar_count(b) == 9 <==> pct >= 89)
            &&& (battery_bar_count(b) == 0 <==> pct == 0)
        }),
        pct <= other ==> battery_bar_count(
            BatteryStatus::Available { charge_state: ChargeState::Discharging, level: Some(pct) },
        ) <= battery_bar_count(
            BatteryStatus::Available { charge_state: ChargeState::Discharging, level: Some(other) },
        ),
{
}

/// The outline and bar rectangles of the battery icon at `(x, y)`: the nub,
/// the body below it, and one filled row per lit bar, from the bottom up.
pub open spec fn battery_icon_view(battery: BatteryStatus, x: i32, y: i32) -> Seq<DrawView> {
    seq![
        DrawView::Rect { x: (x + 2) as i32, y, w: 3, h: 1, filled: false },
        DrawView::Rect { x, y: (y + 1) as i32, w: 7, h: 11, filled: false },
    ] + Seq::new(
        battery_bar_count(battery) as nat,
        |i: int| DrawView::Rect { x: (x + 1) as i32, y: (y + 10 - i) as i32, w: 5, h: 1, filled: true },
    )
}

/// Draws the battery icon of `battery` with its top-left corner at `(x, y)`:
/// appends its rectangles to `cmds`.
pub fn draw_battery_icon(battery: BatteryStatus, cmds: &mut Vec<DrawCmd>, x: i32, y: i32)
    requires
        x <= i32::MAX - 2,
        y <= i32::MAX - 1,
        battery_bar_count(battery) > 0 ==> y <= i32::MAX - 12 && i32::MIN <= y + 11
            - battery_bar_count(battery),
    ensures
        cmds_view(final(cmds)@) == cmds_view(old(cmds)@) + battery_icon_view(battery, x, y),
{
    let ghost start = cmds_view(cmds@);
    let body_y = y + 1;
    let nub_x = x + (BATTERY_BODY_W - BATTERY_NUB_W) / 2;
    cmds.push(DrawCmd::Rect { x: nub_x, y, w: BATTERY_NUB_W as u32, h: 1, filled: false });
    cmds.push(
        DrawCmd::Rect {
            x,
            y: body_y,
            w: BATTERY_BODY_W as u32,
            h: BATTERY_BODY_H as u32,
            filled: false,
        },
    );
    let bars = battery_bars(battery);
    let ghost icon = battery_icon_view(battery, x, y);
    assert(cmds_view(cmds@) == start + icon.take(2));
    let mut i: i32 = 0;
    while i < bars
        invariant
            0 <= i <= bars,
            bars == battery_bar_count(battery),
            bars <= 23,
            body_y == y + 1,
            x <= i32::MAX - 2,
            bars > 0 ==> y <= i32::MAX - 12 && i32::MIN <= y + 11 - bars,
            icon == battery_icon_view(battery, x, y),
            cmds_view(cmds@) == start + icon.take(2 + i),
        decreases bars - i,
    {
        let bar_y = body_y + BATTERY_BODY_H - 2 - i;
        let ghost before = cmds@;
        let cmd = DrawCmd::Rect { x: x + 1, y: bar_y, w: (BATTERY_BODY_W - 2) as u32, h: 1, filled: true };
        proof {
            lemma_cmds_view_push(before, cmd);
        }
        cmds.push(cmd);
        assert(cmds@ == before.push(cmd));
        assert(cmd@ == icon[2 + i]);
        assert(icon.take(2 + i + 1) == icon.take(2 + i).push(icon[2 + i]));
        i = i + 1;
    }
    assert(icon.take(2 + i) == icon);
}

/// The charge state does not change the battery icon: only the level does.
pub proof fn lemma_battery_icon_ignores_charge(
    first: ChargeState,
    second: ChargeState,
    level: Option<u8>,
    x: i32,
    y: i32,
)
    ensures
        battery_icon_view(BatteryStatus::Available { charge_state: first, level }, x, y)
            == battery_icon_view(BatteryStatus::Available { charge_state: second, level }, x, y),
{
}

/// The icon of a lower level is the start of the icon of a higher level: it
/// has the same outline and a subset of its bars.
pub proof fn lemma_battery_icon_grows(
    first: ChargeState,
    second: ChargeState,
    low: u8,
    high: u8,
    x: i32,
    y: i32,
)
    requires
        low <= high,
    ensures
        ({
            let small = battery_icon_view(
                BatteryStatus::Available { charge_state: first, level: Some(low) },
                x,
                y,
            );
            let big = battery_icon_view(
                BatteryStatus::Available { charge_state: second, level: Some(high) },
                x,
                y,
            );
            &&& small.len() <= big.len()
            &&& small == big.take(small.len() as int)
        }),
{
    let bl = BatteryStatus::Available { charge_state: first, level: Some(low) };
    let bh = BatteryStatus::Available { charge_state: second, level: Some(high) };
    vstd::arithmetic::div_mod::lemma_div_is_ordered(low as int * 9 + 99, high as int * 9 + 99, 100);
    let small = battery_icon_view(bl, x, y);
    let big = battery_icon_view(bh, x, y);
    assert(small =~= big.take(small.len() as int));
}

/// With a level and not charging, the label is the level in base 10
/// followed by `%`; while charging it is `CHG`, whatever the level.
pub proof fn lemma_battery_label_level(charge_state: ChargeState, level: Option<u8>)
    ensures
        ({
            let label = battery_label(BatteryStatus::Available { charge_state, level });
            &&& charge_state == ChargeState::Charging ==> label == seq![67u8, 72u8, 71u8]
            &&& (charge_state != ChargeState::Charging && level is Some) ==> {
                &&& label.len() >= 2
                &&& label.last() == 37u8
                &&& is_decimal_of(label.drop_last(), level->0 as nat)
            }
        }),
{
    if let Some(v) = level {
        lemma_decimal_bytes_value(v as nat);
        let d = decimal_bytes(v as nat);
        if charge_state != ChargeState::Charging {
            assert(battery_label(BatteryStatus::Available { charge_state, level }).drop_last() == d);
        }
    }
}

} // verus!
