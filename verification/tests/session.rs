use event_tracker::document::Document;
use event_tracker::event::{CanonicalEvent, NormalizeError, RawEvent};
use event_tracker::session::{decide, on_raw_event, track_event, AppState, Decision, Gate, Outcome};
use event_tracker::store::write_document;

fn raw_move(x: f64, y: f64) -> RawEvent {
    RawEvent::MouseMove { x: x.to_bits(), y: y.to_bits() }
}

fn moved(x: f64, y: f64, timestamp: u64) -> CanonicalEvent {
    CanonicalEvent::PointerMove { x: x.to_bits(), y: y.to_bits(), timestamp }
}

fn tracking(label: &str) -> AppState {
    let mut state = AppState::new();
    state.set_task_name(label.to_string());
    state.start_tracking();
    state
}

#[test]
fn gate_starts_stopped_and_label_defaults() {
    let state = AppState::new();
    assert_eq!(state.gate(), Gate::Stopped);
    assert!(!state.is_tracking());
    assert_eq!(state.active_label(), "default");
}

#[test]
fn start_and_stop_are_idempotent() {
    let mut state = AppState::new();
    state.stop_tracking();
    assert_eq!(state.gate(), Gate::Stopped);
    state.start_tracking();
    assert_eq!(state.gate(), Gate::Tracking);
    state.start_tracking();
    assert_eq!(state.gate(), Gate::Tracking);
    assert!(state.is_tracking());
    state.stop_tracking();
    state.stop_tracking();
    assert_eq!(state.gate(), Gate::Stopped);
}

#[test]
fn set_task_name_replaces_the_label_and_keeps_gate_state() {
    let mut state = AppState::new();
    state.set_task_name("one".to_string());
    assert_eq!(state.active_label(), "one");
    assert!(!state.is_tracking());
    state.start_tracking();
    state.set_task_name("two".to_string());
    assert_eq!(state.active_label(), "two");
    assert!(state.is_tracking());
    state.stop_tracking();
    assert_eq!(state.active_label(), "two");
}

#[test]
fn events_before_any_label_land_under_default() {
    let mut state = AppState::new();
    state.start_tracking();
    let mut doc = Document::new();
    assert_eq!(on_raw_event(&state, &mut doc, raw_move(1.0, 2.0), 10), Ok(Outcome::Recorded));
    assert_eq!(doc.events("default"), Some(&vec![moved(1.0, 2.0, 10)]));
    assert_eq!(doc.len(), 1);
}

#[test]
fn tracked_events_are_stored_in_arrival_order() {
    let state = tracking("run");
    let mut doc = Document::new();
    let raws = vec![
        raw_move(1.0, 1.0),
        RawEvent::ButtonPress { button: "Left".to_string() },
        RawEvent::ButtonRelease { button: "Left".to_string() },
        RawEvent::Wheel { delta_x: 0.0f64.to_bits(), delta_y: 1.0f64.to_bits() },
        RawEvent::KeyPress { key: "KeyZ".to_string() },
    ];
    let mut stamp = 1000;
    for raw in raws {
        assert_eq!(on_raw_event(&state, &mut doc, raw, stamp), Ok(Outcome::Recorded));
        stamp += 5;
    }
    let expected = vec![
        moved(1.0, 1.0, 1000),
        CanonicalEvent::PointerButton {
            descriptor: "Left".to_string(),
            pressed: true,
            timestamp: 1005,
        },
        CanonicalEvent::PointerButton {
            descriptor: "Left".to_string(),
            pressed: false,
            timestamp: 1010,
        },
        CanonicalEvent::Wheel {
            delta_x: 0.0f64.to_bits(),
            delta_y: 1.0f64.to_bits(),
            timestamp: 1015,
        },
        CanonicalEvent::Key { descriptor: "KeyZ".to_string(), pressed: true, timestamp: 1020 },
    ];
    let stored = doc.events("run").unwrap();
    assert_eq!(stored, &expected);
    for pair in stored.windows(2) {
        assert!(pair[0].timestamp() <= pair[1].timestamp());
    }
}

#[test]
fn stopped_gate_discards_events() {
    let mut state = AppState::new();
    state.set_task_name("quiet".to_string());
    let mut doc = Document::new();
    assert_eq!(on_raw_event(&state, &mut doc, raw_move(1.0, 2.0), 1), Ok(Outcome::Discarded));
    let press = RawEvent::KeyPress { key: "KeyA".to_string() };
    assert_eq!(on_raw_event(&state, &mut doc, press, 2), Ok(Outcome::Discarded));
    assert_eq!(doc.len(), 0);
    assert_eq!(doc.events("quiet"), None);
    assert_eq!(doc.events("default"), None);
    assert!(!state.is_tracking());
    assert_eq!(state.active_label(), "quiet");
}

#[test]
fn unmapped_event_is_reported_while_stopped_too() {
    let state = AppState::new();
    let mut doc = Document::new();
    assert_eq!(
        on_raw_event(&state, &mut doc, RawEvent::Unmapped, 2),
        Err(NormalizeError::UnmappedKind)
    );
    assert_eq!(
        track_event(RawEvent::Unmapped, &state, &mut doc, 3),
        Err(NormalizeError::UnmappedKind)
    );
    assert_eq!(decide(&state, RawEvent::Unmapped, 4), Err(NormalizeError::UnmappedKind));
    assert_eq!(doc.len(), 0);
}

#[test]
fn stop_then_start_keeps_what_was_stored() {
    let mut state = tracking("keep");
    let mut doc = Document::new();
    on_raw_event(&state, &mut doc, raw_move(1.0, 1.0), 1).unwrap();
    on_raw_event(&state, &mut doc, raw_move(2.0, 2.0), 2).unwrap();
    state.stop_tracking();
    state.start_tracking();
    assert_eq!(state.active_label(), "keep");
    assert_eq!(doc.events("keep"), Some(&vec![moved(1.0, 1.0, 1), moved(2.0, 2.0, 2)]));
    on_raw_event(&state, &mut doc, raw_move(3.0, 3.0), 3).unwrap();
    assert_eq!(
        doc.events("keep"),
        Some(&vec![moved(1.0, 1.0, 1), moved(2.0, 2.0, 2), moved(3.0, 3.0, 3)])
    );
    assert_eq!(doc.len(), 1);
}

#[test]
fn label_change_moves_only_later_events() {
    let mut state = tracking("old");
    let mut doc = Document::new();
    on_raw_event(&state, &mut doc, raw_move(1.0, 1.0), 1).unwrap();
    state.set_task_name("new".to_string());
    on_raw_event(&state, &mut doc, raw_move(2.0, 2.0), 2).unwrap();
    on_raw_event(&state, &mut doc, raw_move(3.0, 3.0), 3).unwrap();
    assert_eq!(doc.events("old"), Some(&vec![moved(1.0, 1.0, 1)]));
    assert_eq!(doc.events("new"), Some(&vec![moved(2.0, 2.0, 2), moved(3.0, 3.0, 3)]));
    state.set_task_name("old".to_string());
    on_raw_event(&state, &mut doc, raw_move(4.0, 4.0), 4).unwrap();
    assert_eq!(doc.events("old"), Some(&vec![moved(1.0, 1.0, 1), moved(4.0, 4.0, 4)]));
    assert_eq!(doc.label_at(0), Some(&"old".to_string()));
    assert_eq!(doc.label_at(1), Some(&"new".to_string()));
}

#[test]
fn unmapped_event_is_reported_and_changes_nothing() {
    let state = tracking("t");
    let mut doc = Document::new();
    on_raw_event(&state, &mut doc, raw_move(1.0, 1.0), 1).unwrap();
    assert_eq!(
        on_raw_event(&state, &mut doc, RawEvent::Unmapped, 2),
        Err(NormalizeError::UnmappedKind)
    );
    assert_eq!(doc.events("t"), Some(&vec![moved(1.0, 1.0, 1)]));
}

#[test]
fn track_event_records_while_tracking() {
    let state = tracking("direct");
    let mut doc = Document::new();
    assert_eq!(track_event(raw_move(5.0, 6.0), &state, &mut doc, 77), Ok(()));
    assert_eq!(doc.events("direct"), Some(&vec![moved(5.0, 6.0, 77)]));
    assert_eq!(
        track_event(RawEvent::Unmapped, &state, &mut doc, 78),
        Err(NormalizeError::UnmappedKind)
    );
    assert_eq!(doc.events("direct").map(|events| events.len()), Some(1));
}

#[test]
fn track_event_changes_nothing_while_stopped() {
    let mut state = AppState::new();
    state.set_task_name("direct".to_string());
    let mut doc = Document::new();
    assert_eq!(track_event(raw_move(5.0, 6.0), &state, &mut doc, 77), Ok(()));
    assert_eq!(doc.len(), 0);
    assert_eq!(doc.events("direct"), None);

    state.start_tracking();
    assert_eq!(track_event(raw_move(1.0, 1.0), &state, &mut doc, 80), Ok(()));
    state.stop_tracking();
    let before = write_document(&doc);
    let kinds = vec![
        raw_move(2.0, 2.0),
        RawEvent::ButtonPress { button: "Left".to_string() },
        RawEvent::ButtonRelease { button: "Left".to_string() },
        RawEvent::KeyPress { key: "KeyA".to_string() },
        RawEvent::KeyRelease { key: "KeyA".to_string() },
        RawEvent::Wheel { delta_x: 0.0f64.to_bits(), delta_y: 1.0f64.to_bits() },
    ];
    for (place, raw) in kinds.into_iter().enumerate() {
        assert_eq!(track_event(raw, &state, &mut doc, 90 + place as u64), Ok(()));
        assert_eq!(write_document(&doc), before);
    }
    assert_eq!(doc.events("direct"), Some(&vec![moved(1.0, 1.0, 80)]));
    assert!(!state.is_tracking());
    assert_eq!(state.active_label(), "direct");
}

#[test]
fn demo_session_through_track_event() {
    let mut state = AppState::new();
    let mut doc = Document::new();
    state.set_task_name("demo".to_string());
    state.start_tracking();
    assert_eq!(track_event(raw_move(10.0, 20.0), &state, &mut doc, 100), Ok(()));
    let press = RawEvent::KeyPress { key: "KeyA".to_string() };
    assert_eq!(track_event(press, &state, &mut doc, 150), Ok(()));
    state.stop_tracking();
    let before = write_document(&doc);
    assert_eq!(track_event(raw_move(30.0, 40.0), &state, &mut doc, 200), Ok(()));
    assert_eq!(write_document(&doc), before);
    assert_eq!(doc.len(), 1);
    assert_eq!(doc.label_at(0), Some(&"demo".to_string()));
    let stored = doc.events("demo").unwrap();
    assert_eq!(
        stored,
        &vec![
            moved(10.0, 20.0, 100),
            CanonicalEvent::Key { descriptor: "KeyA".to_string(), pressed: true, timestamp: 150 },
        ]
    );
    assert!(stored.iter().all(|event| event.timestamp() != 200));
}

#[test]
fn decide_appends_under_the_active_label_while_tracking() {
    let state = tracking("pick");
    assert_eq!(
        decide(&state, raw_move(1.0, 2.0), 5),
        Ok(Decision::Append { label: "pick".to_string(), event: moved(1.0, 2.0, 5) })
    );
    let mut unnamed = AppState::new();
    unnamed.start_tracking();
    assert_eq!(
        decide(&unnamed, RawEvent::KeyRelease { key: "KeyB".to_string() }, 6),
        Ok(Decision::Append {
            label: "default".to_string(),
            event: CanonicalEvent::Key {
                descriptor: "KeyB".to_string(),
                pressed: false,
                timestamp: 6
            },
        })
    );
    assert_eq!(decide(&state, RawEvent::Unmapped, 7), Err(NormalizeError::UnmappedKind));
}

#[test]
fn decide_discards_while_stopped() {
    let mut state = tracking("pick");
    state.stop_tracking();
    assert_eq!(decide(&state, raw_move(1.0, 2.0), 5), Ok(Decision::Discard));
    assert_eq!(decide(&AppState::new(), raw_move(1.0, 2.0), 5), Ok(Decision::Discard));
}

#[test]
fn timestamps_are_stored_as_given_even_when_the_clock_steps_back() {
    let state = tracking("clock");
    let mut doc = Document::new();
    on_raw_event(&state, &mut doc, raw_move(1.0, 1.0), 100).unwrap();
    on_raw_event(&state, &mut doc, raw_move(2.0, 2.0), 50).unwrap();
    assert_eq!(doc.events("clock"), Some(&vec![moved(1.0, 1.0, 100), moved(2.0, 2.0, 50)]));
}

#[test]
fn demo_session() {
    let mut state = AppState::new();
    state.set_task_name("demo".to_string());
    state.start_tracking();
    let mut doc = Document::new();

    assert_eq!(on_raw_event(&state, &mut doc, raw_move(10.0, 20.0), 100), Ok(Outcome::Recorded));
    assert_eq!(doc.len(), 1);
    let first = doc.events("demo").unwrap();
    assert_eq!(first, &vec![moved(10.0, 20.0, 100)]);
    assert_eq!(first[0].event_type(), "MouseMove");
    assert_eq!(first[0].timestamp(), 100);
    let written = write_document(&doc);
    assert_eq!(written.len(), 1);
    assert_eq!(written[0].0, "demo");
    assert_eq!(written[0].1.len(), 1);
    let record = &written[0].1[0];
    assert_eq!(record.event_type, "MouseMove");
    assert_eq!(record.x.map(f64::from_bits), Some(10.0));
    assert_eq!(record.y.map(f64::from_bits), Some(20.0));
    assert_eq!(record.timestamp, 100);
    assert!(record.button.is_none() && record.pressed.is_none());
    assert!(record.key.is_none() && record.code.is_none());
    assert!(record.delta_x.is_none() && record.delta_y.is_none());

    let press = RawEvent::KeyPress { key: "KeyA".to_string() };
    assert_eq!(on_raw_event(&state, &mut doc, press, 150), Ok(Outcome::Recorded));
    assert_eq!(
        doc.events("demo"),
        Some(&vec![
            moved(10.0, 20.0, 100),
            CanonicalEvent::Key { descriptor: "KeyA".to_string(), pressed: true, timestamp: 150 },
        ])
    );

    state.stop_tracking();
    assert_eq!(on_raw_event(&state, &mut doc, raw_move(30.0, 40.0), 200), Ok(Outcome::Discarded));
    assert_eq!(doc.len(), 1);
    assert_eq!(doc.events("demo").map(|events| events.len()), Some(2));
    let written = write_document(&doc);
    assert_eq!(written.len(), 1);
    assert_eq!(written[0].1.len(), 2);
    assert_eq!(written[0].1[1].event_type, "KeyPress(KeyA)");
    assert_eq!(written[0].1[1].timestamp, 150);
}

#[test]
fn cloned_state_is_a_snapshot() {
    let mut state = AppState::new();
    state.set_task_name("snap".to_string());
    state.start_tracking();
    let copy = state.clone();
    state.stop_tracking();
    state.set_task_name("later".to_string());
    assert!(copy.is_tracking());
    assert_eq!(copy.active_label(), "snap");
    assert!(!state.is_tracking());
    assert_eq!(state.active_label(), "later");
}
