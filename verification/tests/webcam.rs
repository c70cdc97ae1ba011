//! The device-presence pipeline, driven step by step.

use waybar::checker::Checker;
use waybar::debounce::{DebounceAction, DebounceInput, Debouncer};
use waybar::formatter::Formatter;
use waybar::monitor::{classify_poll, PollAction};
use waybar::pipeline::{Error, Pipeline};

#[test]
fn burst_collapses_to_one_update() {
    // three raw events inside one window, then the window elapses: one update
    let mut d = Debouncer::new();
    assert!(matches!(d.step(DebounceInput::Received), DebounceAction::Continue));
    assert!(matches!(d.step(DebounceInput::Received), DebounceAction::Continue));
    assert!(matches!(d.step(DebounceInput::Received), DebounceAction::Continue));
    assert!(matches!(d.step(DebounceInput::TimedOut), DebounceAction::Emit));
    // quiescence afterwards: nothing more comes out
    assert!(matches!(d.step(DebounceInput::TimedOut), DebounceAction::Continue));
}

#[test]
fn separated_events_emit_twice() {
    // a gap of at least one window between two raw events: two updates
    let mut d = Debouncer::new();
    assert!(matches!(d.step(DebounceInput::Received), DebounceAction::Continue));
    assert!(matches!(d.step(DebounceInput::TimedOut), DebounceAction::Emit));
    assert!(matches!(d.step(DebounceInput::Received), DebounceAction::Continue));
    assert!(matches!(d.step(DebounceInput::TimedOut), DebounceAction::Emit));
}

#[test]
fn closed_channel_stops_cleanly() {
    let mut d = Debouncer::new();
    assert!(matches!(d.step(DebounceInput::Closed), DebounceAction::Stop));
    // a pending event does not turn the shutdown into an emission
    let mut d = Debouncer::new();
    d.step(DebounceInput::Received);
    assert!(matches!(d.step(DebounceInput::Closed), DebounceAction::Stop));
}

#[test]
fn startup_injects_exactly_one_update() {
    let p = Pipeline::startup();
    assert_eq!(p.updates_sent(), 1);
    assert_eq!(p.checks_done(), 0);
    assert!(!p.is_pending());
}

#[test]
fn signal_emits_one_update_and_keeps_debounce_state() {
    let mut p = Pipeline::startup();
    // a raw event is in flight
    p.on_debounce_round(DebounceInput::Received);
    assert!(p.is_pending());
    let before = p.updates_sent();
    p.on_signal();
    assert_eq!(p.updates_sent(), before + 1);
    // the pending window was neither reset nor cancelled
    assert!(p.is_pending());
    assert!(matches!(p.on_debounce_round(DebounceInput::TimedOut), DebounceAction::Emit));
}

#[test]
fn two_close_events_cause_one_check() {
    // two raw events well inside one window, with the timer elapsing after
    // the second: the debouncer sends exactly one update, and draining the
    // queue runs exactly one check per update
    let mut p = Pipeline::startup();
    p.on_debounce_round(DebounceInput::Received);
    p.on_debounce_round(DebounceInput::Received);
    assert_eq!(p.updates_sent(), 1); // nothing extra while the window is open
    assert!(matches!(p.on_debounce_round(DebounceInput::TimedOut), DebounceAction::Emit));
    assert_eq!(p.updates_sent(), 2); // the burst became one update
    let f = Formatter::new(String::from("A"), String::from("B"));
    let pending = p.updates_sent();
    for _ in 0..pending {
        let r = p.on_update(&f, Ok(false));
        assert!(r.is_ok());
    }
    assert_eq!(p.checks_done(), 2); // one for startup, one for the burst
}

#[test]
fn failed_check_is_fatal() {
    let mut p = Pipeline::startup();
    let f = Formatter::new(String::from("A"), String::from("B"));
    let r = p.on_update(&f, Err(Error::DeviceQuery));
    assert_eq!(r.unwrap_err(), Error::DeviceQuery);
}

#[test]
fn has_devices_reflects_enumeration() {
    let c = Checker::new(&String::from("usb"), &String::from("uvcvideo")).unwrap();
    assert_eq!(c.subsystem().as_str(), "usb");
    assert_eq!(c.driver().as_str(), "uvcvideo");
    assert_eq!(c.has_devices(Ok(0)), Ok(false));
    assert_eq!(c.has_devices(Ok(1)), Ok(true));
    assert_eq!(c.has_devices(Ok(17)), Ok(true));
    assert_eq!(c.has_devices(Err(Error::DeviceQuery)), Err(Error::DeviceQuery));
}

#[test]
fn poll_outcomes_classified() {
    assert_eq!(classify_poll(0), PollAction::NothingReady);
    assert_eq!(classify_poll(1), PollAction::DrainOne);
    assert_eq!(classify_poll(7), PollAction::DrainOne);
    assert_eq!(classify_poll(-1), PollAction::Fail);
}

#[test]
fn formatter_builds_the_two_records() {
    let f = Formatter::new(String::from("A"), String::from("B"));
    let found = f.format(true);
    assert_eq!(found.text.as_str(), "A");
    assert_eq!(found.tooltip.as_str(), "Camera connected");
    assert_eq!(found.class, vec![String::from("found")]);
    assert_eq!(found.percentage, 100);
    let missing = f.format(false);
    assert_eq!(missing.text.as_str(), "B");
    assert_eq!(missing.tooltip.as_str(), "Camera not connected");
    assert_eq!(missing.class, vec![String::from("not-found")]);
    assert_eq!(missing.percentage, 0);
}

#[test]
fn absent_camera_line() {
    // no matching device attached: the first line the bar reads
    let f = Formatter::new(String::from("A"), String::from("B"));
    let c = Checker::new(&String::from("usb"), &String::from("uvcvideo")).unwrap();
    let record = f.format(c.has_devices(Ok(0)).unwrap());
    assert_eq!(
        record.to_json(),
        "{\"text\":\"B\",\"tooltip\":\"Camera not connected\",\"class\":[\"not-found\"],\"percentage\":0}"
    );
}

#[test]
fn present_camera_line() {
    // one matching device attached
    let f = Formatter::new(String::from("A"), String::from("B"));
    let c = Checker::new(&String::from("usb"), &String::from("uvcvideo")).unwrap();
    let record = f.format(c.has_devices(Ok(1)).unwrap());
    assert_eq!(
        record.to_json(),
        "{\"text\":\"A\",\"tooltip\":\"Camera connected\",\"class\":[\"found\"],\"percentage\":100}"
    );
}
