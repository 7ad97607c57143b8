//! The event object of the persisted document, field by field, and the two
//! ways between it and the canonical event.

use crate::document::events_view;
use crate::event::{CanonicalEvent, EventModel};
use vstd::prelude::*;
use vstd::string::*;

verus! {

/// One event object as it is persisted: the discriminant text, the capture
/// time, and of the other fields those that the event's variant has.
#[derive(Debug, PartialEq, Eq)]
pub struct EventRecord {
    pub event_type: String,
    pub x: Option<u64>,
    pub y: Option<u64>,
    pub button: Option<String>,
    pub pressed: Option<bool>,
    pub key: Option<String>,
    pub code: Option<String>,
    pub delta_x: Option<u64>,
    pub delta_y: Option<u64>,
    pub timestamp: u64,
}

/// What an `EventRecord` is, with its strings as sequences of characters.
pub struct RecordModel {
    pub event_type: Seq<char>,
    pub x: Option<u64>,
    pub y: Option<u64>,
    pub button: Option<Seq<char>>,
    pub pressed: Option<bool>,
    pub key: Option<Seq<char>>,
    pub code: Option<Seq<char>>,
    pub delta_x: Option<u64>,
    pub delta_y: Option<u64>,
    pub timestamp: u64,
}

/// An optional string by its characters.
pub open spec fn text_view(text: Option<String>) -> Option<Seq<char>> {
    match text {
        Some(s) => Some(s@),
        None => None,
    }
}

impl View for EventRecord {
    type V = RecordModel;

    open spec fn view(&self) -> RecordModel {
        RecordModel {
            event_type: self.event_type@,
            x: self.x,
            y: self.y,
            button: text_view(self.button),
            pressed: self.pressed,
            key: text_view(self.key),
            code: text_view(self.code),
            delta_x: self.delta_x,
            delta_y: self.delta_y,
            timestamp: self.timestamp,
        }
    }
}

/// The record of an event: its discriminant text, its capture time, and the
/// fields of its variant. A pointer move has `x` and `y`; a button event
/// `button` and `pressed`; a key event `key` and `code`, both the key's
/// descriptor; a wheel event `delta_x` and `delta_y`.
pub open spec fn spec_record(event: EventModel) -> RecordModel {
    let blank = RecordModel {
        event_type: event.event_type(),
        x: None,
        y: None,
        button: None,
        pressed: None,
        key: None,
        code: None,
        delta_x: None,
        delta_y: None,
        timestamp: event.timestamp(),
    };
    match event {
        EventModel::PointerMove { x, y, .. } => RecordModel { x: Some(x), y: Some(y), ..blank },
        EventModel::PointerButton { descriptor, pressed, .. } => RecordModel {
            button: Some(descriptor),
            pressed: Some(pressed),
            ..blank
        },
        EventModel::Key { descriptor, .. } => RecordModel {
            key: Some(descriptor),
            code: Some(descriptor),
            ..blank
        },
        EventModel::Wheel { delta_x, delta_y, .. } => RecordModel {
            delta_x: Some(delta_x),
            delta_y: Some(delta_y),
            ..blank
        },
    }
}

impl RecordModel {
    /// Of the variant fields, exactly `x` and `y` are there.
    pub open spec fn is_move_shaped(self) -> bool {
        self.x.is_some() && self.y.is_some() && self.button.is_none() && self.pressed.is_none()
            && self.key.is_none() && self.code.is_none() && self.delta_x.is_none()
            && self.delta_y.is_none()
    }

    /// Of the variant fields, exactly `button` and `pressed` are there.
    pub open spec fn is_button_shaped(self) -> bool {
        self.x.is_none() && self.y.is_none() && self.button.is_some() && self.pressed.is_some()
            && self.key.is_none() && self.code.is_none() && self.delta_x.is_none()
            && self.delta_y.is_none()
    }

    /// Of the variant fields, exactly `key` and `code` are there.
    pub open spec fn is_key_shaped(self) -> bool {
        self.x.is_none() && self.y.is_none() && self.button.is_none() && self.pressed.is_none()
            && self.key.is_some() && self.code.is_some() && self.delta_x.is_none()
            && self.delta_y.is_none()
    }

    /// Of the variant fields, exactly `delta_x` and `delta_y` are there.
    pub open spec fn is_wheel_shaped(self) -> bool {
        self.x.is_none() && self.y.is_none() && self.button.is_none() && self.pressed.is_none()
            && self.key.is_none() && self.code.is_none() && self.delta_x.is_some()
            && self.delta_y.is_some()
    }

    /// The event that the record is the record of, if there is one.
    pub open spec fn event(self) -> Option<EventModel> {
        let timestamp = self.timestamp;
        if self.is_move_shaped() && self.event_type == "MouseMove"@ {
            Some(EventModel::PointerMove { x: self.x.unwrap(), y: self.y.unwrap(), timestamp })
        } else if self.is_button_shaped() && self.event_type == "MouseButton "@
            + self.button.unwrap() {
            Some(
                EventModel::PointerButton {
                    descriptor: self.button.unwrap(),
                    pressed: self.pressed.unwrap(),
                    timestamp,
                },
            )
        } else if self.is_key_shaped() && self.key == self.code && self.event_type == "KeyPress("@
            + self.key.unwrap() + ")"@ {
            Some(EventModel::Key { descriptor: self.key.unwrap(), pressed: true, timestamp })
        } else if self.is_key_shaped() && self.key == self.code && self.event_type
            == "KeyRelease("@ + self.key.unwrap() + ")"@ {
            Some(EventModel::Key { descriptor: self.key.unwrap(), pressed: false, timestamp })
        } else if self.is_wheel_shaped() && self.event_type == "Wheel"@ {
            Some(
                EventModel::Wheel {
                    delta_x: self.delta_x.unwrap(),
                    delta_y: self.delta_y.unwrap(),
                    timestamp,
                },
            )
        } else {
            None
        }
    }
}

impl CanonicalEvent {
    /// The event as the record that is persisted for it.
    pub fn to_record(&self) -> (record: EventRecord)
        ensures
            record@ == spec_record(self@),
    {
        let mut record = EventRecord {
            event_type: self.event_type(),
            x: None,
            y: None,
            button: None,
            pressed: None,
            key: None,
            code: None,
            delta_x: None,
            delta_y: None,
            timestamp: self.timestamp(),
        };
        match self {
            CanonicalEvent::PointerMove { x, y, .. } => {
                record.x = Some(*x);
                record.y = Some(*y);
            },
            CanonicalEvent::PointerButton { descriptor, pressed, .. } => {
                record.button = Some(descriptor.clone());
                record.pressed = Some(*pressed);
            },
            CanonicalEvent::Key { descriptor, .. } => {
                record.key = Some(descriptor.clone());
                record.code = Some(descriptor.clone());
            },
            CanonicalEvent::Wheel { delta_x, delta_y, .. } => {
                record.delta_x = Some(*delta_x);
                record.delta_y = Some(*delta_y);
            },
        }
        record
    }
}

impl EventRecord {
    /// Reads the record back as an event. A record that is the record of no
    /// event (fields of two variants, a field missing, a discriminant text
    /// that does not fit the fields) gives `None`.
    pub fn to_event(&self) -> (event: Option<CanonicalEvent>)
        ensures
            match event {
                Some(found) => self@.event() == Some(found@),
                None => self@.event().is_none(),
            },
    {
        let timestamp = self.timestamp;
        match (
            &self.x,
            &self.y,
            &self.button,
            &self.pressed,
            &self.key,
            &self.code,
            &self.delta_x,
            &self.delta_y,
        ) {
            (Some(x), Some(y), None, None, None, None, None, None) => {
                if self.event_type == String::from_str("MouseMove") {
                    Some(CanonicalEvent::PointerMove { x: *x, y: *y, timestamp })
                } else {
                    None
                }
            },
            (None, None, Some(button), Some(pressed), None, None, None, None) => {
                if self.event_type == String::from_str("MouseButton ").concat(button.as_str()) {
                    Some(
                        CanonicalEvent::PointerButton {
                            descriptor: button.clone(),
                            pressed: *pressed,
                            timestamp,
                        },
                    )
                } else {
                    None
                }
            },
            (None, None, None, None, Some(key), Some(code), None, None) => {
                if *key != *code {
                    None
                } else if self.event_type == String::from_str("KeyPress(").concat(
                    key.as_str(),
                ).concat(")") {
                    Some(CanonicalEvent::Key { descriptor: key.clone(), pressed: true, timestamp })
                } else if self.event_type == String::from_str("KeyRelease(").concat(
                    key.as_str(),
                ).concat(")") {
                    Some(
                        CanonicalEvent::Key { descriptor: key.clone(), pressed: false, timestamp },
                    )
                } else {
                    None
                }
            },
            (None, None, None, None, None, None, Some(delta_x), Some(delta_y)) => {
                if self.event_type == String::from_str("Wheel") {
                    Some(CanonicalEvent::Wheel { delta_x: *delta_x, delta_y: *delta_y, timestamp })
                } else {
                    None
                }
            },
            _ => None,
        }
    }
}

/// The records of a sequence, each by its model.
pub open spec fn records_view(records: Seq<EventRecord>) -> Seq<RecordModel> {
    records.map_values(|record: EventRecord| record@)
}

/// The records of a sequence of events, in the same order.
pub open spec fn spec_records(events: Seq<EventModel>) -> Seq<RecordModel> {
    events.map_values(|event: EventModel| spec_record(event))
}

/// Every record of the sequence is the record of an event.
pub open spec fn all_readable(records: Seq<RecordModel>) -> bool {
    forall|i: int| 0 <= i < records.len() ==> (#[trigger] records[i]).event().is_some()
}

/// The events that a sequence of readable records stands for, in the same
/// order.
pub open spec fn spec_events(records: Seq<RecordModel>) -> Seq<EventModel> {
    records.map_values(|record: RecordModel| record.event().unwrap())
}

/// The records of `events`, one for each and in the same order.
pub fn to_records(events: &Vec<CanonicalEvent>) -> (records: Vec<EventRecord>)
    ensures
        records_view(records@) == spec_records(events_view(events@)),
{
    let mut records: Vec<EventRecord> = Vec::new();
    let mut i: usize = 0;
    while i < events.len()
        invariant
            i <= events.len(),
            records@.len() == i,
            forall|k: int| 0 <= k < i ==> (#[trigger] records@[k])@ == spec_record(events@[k]@),
        decreases events.len() - i,
    {
        records.push(events[i].to_record());
        i += 1;
    }
    assert(records_view(records@) =~= spec_records(events_view(events@)));
    records
}

/// The events of `records`, one for each and in the same order; `None`
/// where one of the records is the record of no event.
pub fn to_events(records: &Vec<EventRecord>) -> (events: Option<Vec<CanonicalEvent>>)
    ensures
        match events {
            Some(list) => all_readable(records_view(records@)) && events_view(
                list@,
            ) == spec_events(records_view(records@)),
            None => !all_readable(records_view(records@)),
        },
{
    let mut events: Vec<CanonicalEvent> = Vec::new();
    let mut i: usize = 0;
    while i < records.len()
        invariant
            i <= records.len(),
            events@.len() == i,
            forall|k: int|
                0 <= k < i ==> (#[trigger] records@[k])@.event() == Some(events@[k]@),
        decreases records.len() - i,
    {
        match records[i].to_event() {
            Some(event) => {
                events.push(event);
            },
            None => {
                assert(records_view(records@)[i as int].event().is_none());
                return None;
            },
        }
        i += 1;
    }
    assert(all_readable(records_view(records@))) by {
        assert forall|k: int| 0 <= k < records@.len() implies (#[trigger] records_view(
            records@,
        )[k]).event().is_some() by {
            assert(records@[k]@.event().is_some());
        }
    }
    assert(events_view(events@) =~= spec_events(records_view(records@)));
    Some(events)
}

/// The texts that open the discriminant of a key event differ in length.
proof fn lemma_key_texts_differ(descriptor: Seq<char>)
    ensures
        "KeyPress("@ + descriptor + ")"@ != "KeyRelease("@ + descriptor + ")"@,
{
    reveal_strlit("KeyPress(");
    reveal_strlit("KeyRelease(");
    reveal_strlit(")");
    assert(("KeyPress("@ + descriptor + ")"@).len() == 10 + descriptor.len());
    assert(("KeyRelease("@ + descriptor + ")"@).len() == 12 + descriptor.len());
}

/// Reading back the record of an event gives that event: nothing of it is
/// lost or changed on the way through its persisted form.
pub proof fn lemma_record_round_trip(event: EventModel)
    ensures
        spec_record(event).event() == Some(event),
{
    match event {
        EventModel::Key { descriptor, .. } => {
            lemma_key_texts_differ(descriptor);
        },
        _ => {},
    }
}

/// Two events with the same record are the same event.
pub proof fn lemma_record_is_injective(first: EventModel, second: EventModel)
    requires
        spec_record(first) == spec_record(second),
    ensures
        first == second,
{
    lemma_record_round_trip(first);
    lemma_record_round_trip(second);
}

/// A record that reads back as an event is the record of that event, so
/// writing the event out again gives the record that was read.
pub proof fn lemma_reread_record_is_identical(record: RecordModel)
    requires
        record.event().is_some(),
    ensures
        spec_record(record.event().unwrap()) == record,
{
}

/// Reading back the records of a sequence of events gives that sequence:
/// every record is readable, and the events come back in the same order.
pub proof fn lemma_records_round_trip(events: Seq<EventModel>)
    ensures
        all_readable(spec_records(events)),
        spec_events(spec_records(events)) == events,
{
    assert forall|i: int| 0 <= i < events.len() implies (#[trigger] spec_records(
        events,
    )[i]).event() == Some(events[i]) by {
        lemma_record_round_trip(events[i]);
    }
    assert(spec_events(spec_records(events)) =~= events);
}

} // verus!
