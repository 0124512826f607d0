use firmware::frames::BongoFrame;
use firmware::renderer::DongleRenderer;

fn frames(r: &mut DongleRenderer, wpm: u16, presses: &[bool]) -> Vec<BongoFrame> {
    presses.iter().map(|&p| r.animate(wpm, p)).collect()
}

#[test]
fn default_renderer_shows_prep_then_idle_cycle() {
    let mut r = DongleRenderer::default();
    let got = frames(&mut r, 0, &[false; 12]);
    let mut want = vec![BongoFrame::Prep; 5];
    want.extend([
        BongoFrame::Idle(0),
        BongoFrame::Idle(0),
        BongoFrame::Idle(1),
        BongoFrame::Idle(1),
        BongoFrame::Idle(1),
        BongoFrame::Idle(2),
        BongoFrame::Idle(2),
    ]);
    assert_eq!(got, want);
}

#[test]
fn idle_animation_wraps_after_last_frame() {
    let mut r = DongleRenderer::default().with_tap_idle_ticks(0).with_idle_ticks_per_frame(1);
    let got = frames(&mut r, 0, &[false; 6]);
    assert_eq!(
        got,
        vec![
            BongoFrame::Idle(1),
            BongoFrame::Idle(2),
            BongoFrame::Idle(3),
            BongoFrame::Idle(4),
            BongoFrame::Idle(0),
            BongoFrame::Idle(1),
        ]
    );
}

#[test]
fn zero_ticks_per_frame_advances_every_render() {
    let mut r = DongleRenderer::default().with_tap_idle_ticks(0).with_idle_ticks_per_frame(0);
    let got = frames(&mut r, 0, &[false; 3]);
    assert_eq!(got, vec![BongoFrame::Idle(1), BongoFrame::Idle(2), BongoFrame::Idle(3)]);
}

#[test]
fn key_press_holds_paw_then_prep_then_idle() {
    let mut r = DongleRenderer::default();
    let mut presses = vec![true];
    presses.extend([false; 9]);
    let got = frames(&mut r, 0, &presses);
    let mut want = vec![BongoFrame::Tap(1); 3];
    want.extend([BongoFrame::Prep; 5]);
    want.extend([BongoFrame::Idle(0), BongoFrame::Idle(0)]);
    assert_eq!(got, want);
}

#[test]
fn presses_alternate_paws() {
    let mut r = DongleRenderer::default();
    let got = frames(&mut r, 0, &[true, true, true]);
    assert_eq!(got, vec![BongoFrame::Tap(1), BongoFrame::Tap(0), BongoFrame::Tap(1)]);
}

#[test]
fn press_during_hold_restarts_hold() {
    let mut r = DongleRenderer::default();
    let got = frames(&mut r, 0, &[true, false, true, false, false, false]);
    assert_eq!(
        got,
        vec![
            BongoFrame::Tap(1),
            BongoFrame::Tap(1),
            BongoFrame::Tap(0),
            BongoFrame::Tap(0),
            BongoFrame::Tap(0),
            BongoFrame::Prep,
        ]
    );
}

#[test]
fn zero_hold_ticks_press_shows_prep() {
    let mut r = DongleRenderer::default().with_tap_hold_ticks(0).with_tap_idle_ticks(2);
    let got = frames(&mut r, 0, &[true, false, false]);
    assert_eq!(got, vec![BongoFrame::Prep, BongoFrame::Prep, BongoFrame::Idle(0)]);
}

#[test]
fn fury_alternates_fury_and_prep_and_ignores_presses() {
    let mut r = DongleRenderer::default();
    let got = frames(&mut r, 81, &[false, true, false, true]);
    assert_eq!(
        got,
        vec![BongoFrame::Fury, BongoFrame::Prep, BongoFrame::Fury, BongoFrame::Prep]
    );
}

#[test]
fn fury_threshold_is_configurable() {
    let mut r = DongleRenderer::default().with_fury_wpm(100);
    assert_eq!(r.animate(99, false), BongoFrame::Prep);
    assert_eq!(r.animate(100, false), BongoFrame::Prep);
    assert_eq!(r.animate(101, false), BongoFrame::Fury);
    assert_eq!(r.animate(150, false), BongoFrame::Prep);
}

#[test]
fn leaving_fury_restarts_idle_animation() {
    let mut r = DongleRenderer::default().with_tap_idle_ticks(0).with_idle_ticks_per_frame(1);
    assert_eq!(r.animate(0, false), BongoFrame::Idle(1));
    assert_eq!(r.animate(0, false), BongoFrame::Idle(2));
    assert_eq!(r.animate(90, false), BongoFrame::Fury);
    assert_eq!(r.animate(0, false), BongoFrame::Idle(1));
}

#[test]
fn fury_keeps_paw_for_next_normal_press() {
    let mut r = DongleRenderer::default();
    // Fury toggles the paw once: false -> true.
    assert_eq!(r.animate(81, false), BongoFrame::Fury);
    // Back in normal mode, a press switches to the other paw.
    assert_eq!(r.animate(0, true), BongoFrame::Tap(0));
}

#[test]
fn default_threshold_is_not_fury() {
    let mut r = DongleRenderer::default();
    assert_eq!(frames(&mut r, 80, &[false, false]), vec![BongoFrame::Prep, BongoFrame::Prep]);
    assert_eq!(r.animate(81, false), BongoFrame::Fury);
}

#[test]
fn idle_animation_cycles_back_after_five_periods() {
    let mut r = DongleRenderer::default().with_tap_idle_ticks(0).with_idle_ticks_per_frame(2);
    let got = frames(&mut r, 0, &[false; 10]);
    assert_eq!(
        got,
        vec![
            BongoFrame::Idle(0),
            BongoFrame::Idle(1),
            BongoFrame::Idle(1),
            BongoFrame::Idle(2),
            BongoFrame::Idle(2),
            BongoFrame::Idle(3),
            BongoFrame::Idle(3),
            BongoFrame::Idle(4),
            BongoFrame::Idle(4),
            BongoFrame::Idle(0),
        ]
    );
}

#[test]
fn key_press_run_with_varying_wpm_below_threshold() {
    let mut r = DongleRenderer::default().with_tap_hold_ticks(2).with_tap_idle_ticks(2);
    let wpms = [10u16, 80, 0, 55, 80, 3];
    let got: Vec<BongoFrame> =
        wpms.iter().enumerate().map(|(i, &w)| r.animate(w, i == 0)).collect();
    assert_eq!(
        got,
        vec![
            BongoFrame::Tap(1),
            BongoFrame::Tap(1),
            BongoFrame::Prep,
            BongoFrame::Prep,
            BongoFrame::Idle(0),
            BongoFrame::Idle(0),
        ]
    );
}
