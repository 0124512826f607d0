use firmware::battery::{BatteryStatus, ChargeState};
use firmware::draw::{Bitmap, DrawCmd, Mark};
use firmware::frames::BongoFrame;
use firmware::renderer::{DongleRenderer, RenderInput};

fn input(sleeping: bool, wpm: u16, key: bool) -> RenderInput {
    RenderInput {
        sleeping,
        wpm,
        key_press_latch: key,
        peripherals_connected: [false, false],
        peripheral_batteries: [BatteryStatus::Unavailable, BatteryStatus::Unavailable],
    }
}

fn text5(s: &str) -> heapless::String<5> {
    let mut t = heapless::String::new();
    t.push_str(s).unwrap();
    t
}

fn text8(s: &str) -> heapless::String<8> {
    let mut t = heapless::String::new();
    t.push_str(s).unwrap();
    t
}

#[test]
fn sleeping_render_shows_sleep_icon_and_freezes_animation() {
    let mut r = DongleRenderer::default();
    let cmds = r.render(&input(true, 120, true));
    assert_eq!(
        cmds,
        vec![DrawCmd::Clear, DrawCmd::PageBitmap { bitmap: Bitmap::Sleep, cols: 48, x: 40, y: 8 }]
    );
    // Nothing advanced: the first awake render behaves as on a fresh renderer.
    assert_eq!(r.animate(0, false), BongoFrame::Prep);
    let mut fresh = DongleRenderer::default();
    assert_eq!(fresh.animate(0, false), BongoFrame::Prep);
}

#[test]
fn disconnected_peripherals_show_crosses() {
    let mut r = DongleRenderer::default();
    let cmds = r.render(&input(false, 42, false));
    assert_eq!(
        cmds,
        vec![
            DrawCmd::Clear,
            DrawCmd::BtIcon { x: 0, y: 0 },
            DrawCmd::MarkIcon { mark: Mark::Cross, x: 12, y: 4 },
            DrawCmd::BtIcon { x: 119, y: 0 },
            DrawCmd::MarkIcon { mark: Mark::Cross, x: 108, y: 4 },
            DrawCmd::PageBitmap { bitmap: Bitmap::Bongo(BongoFrame::Prep), cols: 128, x: 9, y: 33 },
            DrawCmd::WpmLabel { digits: text8("42"), x: 116, y: 63 },
        ]
    );
}

#[test]
fn connected_peripherals_show_batteries_or_checks() {
    let mut r = DongleRenderer::default();
    let mut inp = input(false, 7, true);
    inp.peripherals_connected = [true, true];
    inp.peripheral_batteries = [
        BatteryStatus::Available { charge_state: ChargeState::Discharging, level: Some(57) },
        BatteryStatus::Unavailable,
    ];
    let cmds = r.render(&inp);
    let mut want = vec![
        DrawCmd::Clear,
        DrawCmd::Rect { x: 2, y: 0, w: 3, h: 1, filled: false },
        DrawCmd::Rect { x: 0, y: 1, w: 7, h: 11, filled: false },
    ];
    for i in 0..6 {
        want.push(DrawCmd::Rect { x: 1, y: 10 - i, w: 5, h: 1, filled: true });
    }
    want.extend([
        DrawCmd::BatteryLabel { text: text5("57%"), x: 10, y: 11 },
        DrawCmd::BtIcon { x: 119, y: 0 },
        DrawCmd::MarkIcon { mark: Mark::Check, x: 108, y: 3 },
        DrawCmd::PageBitmap { bitmap: Bitmap::Bongo(BongoFrame::Tap(1)), cols: 128, x: 9, y: 33 },
        DrawCmd::WpmLabel { digits: text8("7"), x: 122, y: 63 },
    ]);
    assert_eq!(cmds, want);
}

#[test]
fn right_battery_label_is_right_aligned() {
    let mut r = DongleRenderer::default();
    let mut inp = input(false, 12345, false);
    inp.peripherals_connected = [false, true];
    inp.peripheral_batteries = [
        BatteryStatus::Unavailable,
        BatteryStatus::Available { charge_state: ChargeState::Charging, level: None },
    ];
    let cmds = r.render(&inp);
    assert!(cmds.contains(&DrawCmd::BatteryLabel { text: text5("CHG"), x: 92, y: 11 }));
    assert_eq!(cmds.last(), Some(&DrawCmd::WpmLabel { digits: text8("12345"), x: 98, y: 63 }));
    // Full battery icon on the right: nub, body and 9 bars.
    let bars = cmds
        .iter()
        .filter(|c| matches!(c, DrawCmd::Rect { filled: true, x: 120, .. }))
        .count();
    assert_eq!(bars, 9);
}

#[test]
fn fury_render_alternates_frames() {
    let mut r = DongleRenderer::default().with_fury_wpm(50);
    let frame_of = |cmds: Vec<DrawCmd>| {
        cmds.into_iter()
            .find_map(|c| match c {
                DrawCmd::PageBitmap { bitmap: Bitmap::Bongo(f), .. } => Some(f),
                _ => None,
            })
            .unwrap()
    };
    assert_eq!(frame_of(r.render(&input(false, 60, false))), BongoFrame::Fury);
    assert_eq!(frame_of(r.render(&input(false, 60, true))), BongoFrame::Prep);
    assert_eq!(frame_of(r.render(&input(false, 60, false))), BongoFrame::Fury);
}

#[test]
fn default_renderer_at_threshold_wpm_draws_prep() {
    let mut r = DongleRenderer::default();
    let cmds = r.render(&input(false, 80, false));
    assert!(cmds.contains(&DrawCmd::PageBitmap {
        bitmap: Bitmap::Bongo(BongoFrame::Prep),
        cols: 128,
        x: 9,
        y: 33
    }));
}

#[test]
fn key_press_run_over_renders() {
    let mut r = DongleRenderer::default().with_tap_hold_ticks(2).with_tap_idle_ticks(3);
    let wpms = [5u16, 80, 0, 40, 77, 1, 2];
    let drawn: Vec<BongoFrame> = wpms
        .iter()
        .enumerate()
        .map(|(i, &w)| {
            let cmds = r.render(&input(false, w, i == 0));
            match &cmds[cmds.len() - 2] {
                DrawCmd::PageBitmap { bitmap: Bitmap::Bongo(f), cols: 128, x: 9, y: 33 } => *f,
                other => panic!("unexpected command {:?}", other),
            }
        })
        .collect();
    assert_eq!(
        drawn,
        vec![
            BongoFrame::Tap(1),
            BongoFrame::Tap(1),
            BongoFrame::Prep,
            BongoFrame::Prep,
            BongoFrame::Prep,
            BongoFrame::Idle(0),
            BongoFrame::Idle(0),
        ]
    );
}
