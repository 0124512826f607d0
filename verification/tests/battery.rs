use firmware::battery::{battery_bars, draw_battery_icon, fmt_battery_pct, BatteryStatus, ChargeState};
use firmware::draw::DrawCmd;

fn label(b: BatteryStatus) -> String {
    let mut buf: heapless::String<5> = heapless::String::new();
    fmt_battery_pct(&mut buf, b);
    buf.as_str().to_string()
}

fn level(charge_state: ChargeState, level: Option<u8>) -> BatteryStatus {
    BatteryStatus::Available { charge_state, level }
}

#[test]
fn battery_labels() {
    assert_eq!(label(BatteryStatus::Unavailable), "?");
    assert_eq!(label(level(ChargeState::Charging, Some(40))), "CHG");
    assert_eq!(label(level(ChargeState::Charging, None)), "CHG");
    assert_eq!(label(level(ChargeState::Discharging, Some(57))), "57%");
    assert_eq!(label(level(ChargeState::Unknown, Some(0))), "0%");
    assert_eq!(label(level(ChargeState::Discharging, Some(100))), "100%");
    assert_eq!(label(level(ChargeState::Discharging, Some(255))), "255%");
    assert_eq!(label(level(ChargeState::Discharging, None)), "FUL");
}

#[test]
fn battery_label_is_written_whole_or_not_at_all() {
    let mut buf: heapless::String<5> = heapless::String::new();
    buf.push_str("ab").unwrap();
    fmt_battery_pct(&mut buf, level(ChargeState::Discharging, Some(100)));
    assert_eq!(buf.as_str(), "ab100");

    let mut buf: heapless::String<5> = heapless::String::new();
    buf.push_str("abc").unwrap();
    fmt_battery_pct(&mut buf, level(ChargeState::Discharging, Some(100)));
    assert_eq!(buf.as_str(), "abc");

    let mut buf: heapless::String<5> = heapless::String::new();
    buf.push_str("ab").unwrap();
    fmt_battery_pct(&mut buf, level(ChargeState::Discharging, None));
    assert_eq!(buf.as_str(), "abFUL");
}

#[test]
fn battery_bar_counts() {
    let d = |p| level(ChargeState::Discharging, Some(p));
    assert_eq!(battery_bars(BatteryStatus::Unavailable), 0);
    assert_eq!(battery_bars(level(ChargeState::Charging, None)), 9);
    assert_eq!(battery_bars(d(0)), 0);
    assert_eq!(battery_bars(d(1)), 1);
    assert_eq!(battery_bars(d(11)), 1);
    assert_eq!(battery_bars(d(12)), 2);
    assert_eq!(battery_bars(d(50)), 5);
    assert_eq!(battery_bars(d(88)), 8);
    assert_eq!(battery_bars(d(89)), 9);
    assert_eq!(battery_bars(d(100)), 9);
    assert_eq!(battery_bars(d(255)), 23);
    assert_eq!(battery_bars(level(ChargeState::Charging, Some(30))), 3);
}

#[test]
fn battery_icon_rectangles() {
    let mut cmds = Vec::new();
    draw_battery_icon(level(ChargeState::Discharging, Some(23)), &mut cmds, 4, 2);
    assert_eq!(
        cmds,
        vec![
            DrawCmd::Rect { x: 6, y: 2, w: 3, h: 1, filled: false },
            DrawCmd::Rect { x: 4, y: 3, w: 7, h: 11, filled: false },
            DrawCmd::Rect { x: 5, y: 12, w: 5, h: 1, filled: true },
            DrawCmd::Rect { x: 5, y: 11, w: 5, h: 1, filled: true },
            DrawCmd::Rect { x: 5, y: 10, w: 5, h: 1, filled: true },
        ]
    );
}

#[test]
fn battery_icon_without_reading_is_empty_outline() {
    let mut cmds = vec![DrawCmd::Clear];
    draw_battery_icon(BatteryStatus::Unavailable, &mut cmds, 0, 0);
    assert_eq!(cmds.len(), 3);
    assert_eq!(cmds[0], DrawCmd::Clear);
}

fn icon(b: BatteryStatus) -> Vec<DrawCmd> {
    let mut cmds = Vec::new();
    draw_battery_icon(b, &mut cmds, 119, 0);
    cmds
}

#[test]
fn charge_state_does_not_change_icon() {
    assert_eq!(
        icon(level(ChargeState::Charging, Some(64))),
        icon(level(ChargeState::Discharging, Some(64)))
    );
    assert_eq!(icon(level(ChargeState::Unknown, None)), icon(level(ChargeState::Charging, None)));
}

#[test]
fn lower_level_icon_is_start_of_higher_level_icon() {
    let low = icon(level(ChargeState::Discharging, Some(30)));
    let high = icon(level(ChargeState::Charging, Some(95)));
    assert_eq!(low.len(), 2 + 3);
    assert_eq!(high.len(), 2 + 9);
    assert_eq!(&high[..low.len()], &low[..]);
}
