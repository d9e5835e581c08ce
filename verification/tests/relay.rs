use sidecar_relay::event::{LogLevel, ProcessEvent};
use sidecar_relay::relay::{relay_run, relay_step, RelayState};

#[test]
fn forwards_the_example_sequence_in_order() {
    let events = vec![
        ProcessEvent::Stdout(b"a".to_vec()),
        ProcessEvent::Stderr(b"b".to_vec()),
        ProcessEvent::Error("x".to_string()),
        ProcessEvent::Terminated(0),
    ];
    let log = relay_run(&events);
    assert_eq!(log.len(), 4);
    assert_eq!(log[0].level, LogLevel::Info);
    assert_eq!(log[0].message, "[sidecar] a");
    assert_eq!(log[1].level, LogLevel::Error);
    assert_eq!(log[1].message, "[sidecar] b");
    assert_eq!(log[2].level, LogLevel::Error);
    assert_eq!(log[2].message, "[sidecar] error: x");
    assert_eq!(log[3].level, LogLevel::Info);
    assert_eq!(log[3].message, "[sidecar] terminated with status: 0");
}

#[test]
fn one_record_per_stream_event() {
    let events = vec![
        ProcessEvent::Stdout(b"first".to_vec()),
        ProcessEvent::Stdout(b"".to_vec()),
        ProcessEvent::Stderr(b"second".to_vec()),
        ProcessEvent::Stdout(b"third".to_vec()),
    ];
    let log = relay_run(&events);
    assert_eq!(log.len(), 4);
    assert_eq!(log[0].message, "[sidecar] first");
    assert_eq!(log[1].message, "[sidecar] ");
    assert_eq!(log[2].message, "[sidecar] second");
    assert_eq!(log[3].message, "[sidecar] third");
}

#[test]
fn invalid_utf8_is_replaced_not_refused() {
    let events = vec![ProcessEvent::Stdout(vec![0xff, 0xfe]), ProcessEvent::Stderr(vec![0x80])];
    let log = relay_run(&events);
    assert_eq!(log.len(), 2);
    assert_eq!(log[0].message, "[sidecar] \u{fffd}\u{fffd}");
    assert_eq!(log[1].message, "[sidecar] \u{fffd}");
}

#[test]
fn nothing_is_logged_after_terminated() {
    let events = vec![
        ProcessEvent::Stdout(b"before".to_vec()),
        ProcessEvent::Terminated(3),
        ProcessEvent::Stdout(b"after".to_vec()),
        ProcessEvent::Error("late".to_string()),
    ];
    let log = relay_run(&events);
    assert_eq!(log.len(), 2);
    assert_eq!(log[0].message, "[sidecar] before");
    assert_eq!(log[1].message, "[sidecar] terminated with status: 3");
}

#[test]
fn channel_close_without_terminated_drains_everything() {
    let events = vec![
        ProcessEvent::Stdout(b"only".to_vec()),
        ProcessEvent::Other,
        ProcessEvent::Stderr(b"lines".to_vec()),
    ];
    let log = relay_run(&events);
    assert_eq!(log.len(), 2);
    assert_eq!(log[0].message, "[sidecar] only");
    assert_eq!(log[1].message, "[sidecar] lines");
}

#[test]
fn empty_channel_yields_empty_log() {
    let log = relay_run(&Vec::new());
    assert!(log.is_empty());
}

#[test]
fn unhandled_events_owe_nothing() {
    let (state, record) = relay_step(RelayState::Running, &ProcessEvent::Other);
    assert_eq!(state, RelayState::Running);
    assert!(record.is_none());
}

#[test]
fn step_ends_exactly_on_terminated() {
    let (state, record) = relay_step(RelayState::Running, &ProcessEvent::Terminated(-7));
    assert_eq!(state, RelayState::Ended);
    let record = record.expect("a termination record is owed");
    assert_eq!(record.level, LogLevel::Info);
    assert_eq!(record.message, "[sidecar] terminated with status: -7");
}

#[test]
fn ended_relay_ignores_every_event() {
    let events = vec![
        ProcessEvent::Stdout(b"ignored".to_vec()),
        ProcessEvent::Stderr(b"ignored".to_vec()),
        ProcessEvent::Error("ignored".to_string()),
        ProcessEvent::Terminated(1),
        ProcessEvent::Other,
    ];
    for event in &events {
        let (state, record) = relay_step(RelayState::Ended, event);
        assert_eq!(state, RelayState::Ended);
        assert!(record.is_none());
    }
}

#[test]
fn status_rendering_covers_the_extremes() {
    let (_, record) = relay_step(RelayState::Running, &ProcessEvent::Terminated(i32::MAX));
    assert_eq!(record.unwrap().message, "[sidecar] terminated with status: 2147483647");
    let (_, record) = relay_step(RelayState::Running, &ProcessEvent::Terminated(i32::MIN));
    assert_eq!(record.unwrap().message, "[sidecar] terminated with status: -2147483648");
}
