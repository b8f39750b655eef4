use cosmic_comp::power::{
    animation_frame_interval, cap_mode, interval_for_power, set_interval_from_fps,
    spawn_power_watcher, BatteryWatcher, CapMode, PowerStart, PropertiesChanged, WatchAction,
    WatchEvent, WatchPhase,
};
use std::time::Duration;

fn change(interface: &str, changed: &[&str], invalidated: &[&str]) -> WatchEvent {
    WatchEvent::Changed(PropertiesChanged {
        interface: interface.to_string(),
        changed: changed.iter().map(|s| s.to_string()).collect(),
        invalidated: invalidated.iter().map(|s| s.to_string()).collect(),
    })
}

const MANAGER: &str = "org.freedesktop.login1.Manager";

/// A watcher that waits for changes, on battery or not.
fn waiting(on_battery: bool) -> BatteryWatcher {
    let mut watcher = BatteryWatcher::new();
    watcher.watch_battery(&WatchEvent::Done);
    watcher.watch_battery(&WatchEvent::Done);
    watcher.watch_battery(&WatchEvent::Done);
    watcher.watch_battery(&WatchEvent::OnBattery(on_battery));
    assert_eq!(watcher.watch_battery(&WatchEvent::Done), WatchAction::AwaitChange);
    watcher
}

#[test]
fn interval_is_a_duration_in_milliseconds() {
    assert_eq!(animation_frame_interval(0), None);
    assert_eq!(animation_frame_interval(16), Some(Duration::new(0, 16_000_000)));
    assert_eq!(animation_frame_interval(1500), Some(Duration::new(1, 500_000_000)));
}

#[test]
fn interval_of_a_cap() {
    assert_eq!(set_interval_from_fps(0), 0);
    assert_eq!(set_interval_from_fps(1), 1000);
    assert_eq!(set_interval_from_fps(30), 33);
    assert_eq!(set_interval_from_fps(60), 16);
    assert_eq!(set_interval_from_fps(1000), 1);
    assert_eq!(set_interval_from_fps(1001), 1);
    assert_eq!(set_interval_from_fps(u64::MAX), 1);
}

#[test]
fn cap_on_battery_only() {
    assert_eq!(interval_for_power(true), 16);
    assert_eq!(interval_for_power(false), 0);
}

#[test]
fn cap_mode_of_numbers() {
    assert_eq!(cap_mode(Some("60")), CapMode::Fixed(60));
    assert_eq!(cap_mode(Some("0")), CapMode::Off);
    assert_eq!(cap_mode(Some("+30")), CapMode::Fixed(30));
    assert_eq!(cap_mode(Some("000")), CapMode::Off);
    assert_eq!(cap_mode(Some("007")), CapMode::Fixed(7));
    assert_eq!(cap_mode(Some("18446744073709551615")), CapMode::Fixed(u64::MAX));
    assert_eq!(
        cap_mode(Some("000000000000000000000000000018446744073709551615")),
        CapMode::Fixed(u64::MAX)
    );
}

#[test]
fn cap_mode_ignores_white_space_around_the_number() {
    assert_eq!(cap_mode(Some("  60\n")), CapMode::Fixed(60));
    for space in [
        '\u{9}', '\u{a}', '\u{b}', '\u{c}', '\u{d}', '\u{20}', '\u{85}', '\u{a0}', '\u{1680}',
        '\u{2000}', '\u{200a}', '\u{2028}', '\u{2029}', '\u{202f}', '\u{205f}', '\u{3000}',
    ] {
        assert_eq!(cap_mode(Some(&format!("{space}24{space}{space}"))), CapMode::Fixed(24));
    }
    for other in ['\u{8}', '\u{e}', '\u{180e}', '\u{200b}', '\u{feff}'] {
        assert_eq!(cap_mode(Some(&format!("{other}24"))), CapMode::Battery);
    }
}

#[test]
fn white_space_is_that_of_unicode() {
    for code in 0..=0x10ffff {
        let Some(c) = char::from_u32(code) else {
            continue;
        };
        let listed = matches!(code,
            0x9..=0xd | 0x20 | 0x85 | 0xa0 | 0x1680 | 0x2000..=0x200a | 0x2028 | 0x2029 | 0x202f
            | 0x205f | 0x3000);
        assert_eq!(c.is_whitespace(), listed);
    }
}

#[test]
fn cap_mode_ignores_what_is_no_number() {
    assert_eq!(cap_mode(None), CapMode::Battery);
    for value in [
        "", "   ", "+", "-", "-1", "++1", "1 2", "6O", "60fps", "1_000", "0x10", "1.5", "٣",
        "18446744073709551616", "99999999999999999999999",
    ] {
        assert_eq!(cap_mode(Some(value)), CapMode::Battery);
    }
}

#[test]
fn start_by_mode() {
    assert_eq!(
        spawn_power_watcher(CapMode::Fixed(30)),
        PowerStart { interval_ms: Some(33), watch: false }
    );
    assert_eq!(
        spawn_power_watcher(CapMode::Off),
        PowerStart { interval_ms: None, watch: false }
    );
    assert_eq!(
        spawn_power_watcher(CapMode::Battery),
        PowerStart { interval_ms: None, watch: true }
    );
}

#[test]
fn every_number_but_zero_caps() {
    let interval = |value: &str| {
        let start = spawn_power_watcher(cap_mode(Some(value)));
        assert!(!start.watch);
        animation_frame_interval(start.interval_ms.unwrap_or(0))
    };
    assert_eq!(interval("0"), None);
    assert_eq!(interval("1"), Some(Duration::from_secs(1)));
    assert_eq!(interval("60"), Some(Duration::from_millis(16)));
    for value in ["1000", "1001", "2000", "18446744073709551615"] {
        assert_eq!(interval(value), Some(Duration::from_millis(1)));
    }
}

#[test]
fn watcher_prepares_in_order() {
    let mut watcher = BatteryWatcher::new();
    assert_eq!(watcher.action(), WatchAction::Connect);
    assert_eq!(watcher.watch_battery(&WatchEvent::Done), WatchAction::CreateProperties);
    assert_eq!(watcher.watch_battery(&WatchEvent::Done), WatchAction::CreateManager);
    assert_eq!(watcher.watch_battery(&WatchEvent::Done), WatchAction::ReadOnBattery);
    assert_eq!(watcher.interval_ms, 0);
    assert_eq!(watcher.watch_battery(&WatchEvent::OnBattery(true)), WatchAction::Subscribe);
    assert_eq!(watcher.interval_ms, 16);
    assert_eq!(watcher.watch_battery(&WatchEvent::Done), WatchAction::AwaitChange);
    assert_eq!(watcher.watch_battery(&WatchEvent::Closed), WatchAction::Stop);
    assert_eq!(watcher.interval_ms, 16);
}

#[test]
fn watcher_stops_when_it_cannot_prepare() {
    for done in 0..4 {
        let mut watcher = BatteryWatcher::new();
        for _ in 0..done {
            watcher.watch_battery(&WatchEvent::Done);
        }
        assert_eq!(watcher.watch_battery(&WatchEvent::Failed), WatchAction::Stop);
        assert_eq!(watcher.phase, WatchPhase::Stopped);
        assert_eq!(watcher.interval_ms, 0);
        assert_eq!(watcher.watch_battery(&WatchEvent::OnBattery(true)), WatchAction::Stop);
        assert_eq!(watcher.interval_ms, 0);
    }
}

#[test]
fn watcher_that_cannot_subscribe_keeps_the_first_reading() {
    let mut watcher = BatteryWatcher::new();
    for _ in 0..3 {
        watcher.watch_battery(&WatchEvent::Done);
    }
    watcher.watch_battery(&WatchEvent::OnBattery(true));
    assert_eq!(watcher.watch_battery(&WatchEvent::Failed), WatchAction::Stop);
    assert_eq!(watcher.interval_ms, 16);
}

#[test]
fn watcher_reads_again_after_a_change() {
    for event in [
        change(MANAGER, &["OnBattery"], &[]),
        change(MANAGER, &[], &["OnBattery"]),
        change(MANAGER, &["Docked", "OnBattery"], &["LidClosed"]),
    ] {
        let mut watcher = waiting(false);
        assert_eq!(watcher.watch_battery(&event), WatchAction::ReadOnBattery);
        assert_eq!(watcher.interval_ms, 0);
        assert_eq!(
            watcher.watch_battery(&WatchEvent::OnBattery(true)),
            WatchAction::AwaitChange
        );
        assert_eq!(watcher.interval_ms, 16);
        watcher.watch_battery(&event);
        watcher.watch_battery(&WatchEvent::OnBattery(false));
        assert_eq!(watcher.interval_ms, 0);
    }
}

#[test]
fn watcher_ignores_other_changes() {
    for event in [
        change("org.freedesktop.login1.Session", &["OnBattery"], &[]),
        change(MANAGER, &["Docked"], &["LidClosed"]),
        change(MANAGER, &[], &[]),
        change(MANAGER, &["onbattery", "OnBattery2"], &["OnBatter"]),
        WatchEvent::Failed,
        WatchEvent::Done,
        WatchEvent::OnBattery(false),
    ] {
        let mut watcher = waiting(true);
        assert_eq!(watcher.watch_battery(&event), WatchAction::AwaitChange);
        assert_eq!(watcher.interval_ms, 16);
    }
}

#[test]
fn watcher_survives_a_failed_reading() {
    let mut watcher = waiting(true);
    watcher.watch_battery(&change(MANAGER, &["OnBattery"], &[]));
    assert_eq!(watcher.watch_battery(&WatchEvent::Failed), WatchAction::AwaitChange);
    assert_eq!(watcher.interval_ms, 16);
}
