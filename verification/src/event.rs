//! The canonical event schema and the normalizer that maps raw input onto it.
//!
//! Coordinates and wheel deltas are real-valued on the wire. Here each is
//! carried as the 64-bit pattern of its IEEE-754 binary64 encoding, so that a
//! value passes through unchanged and two values can be compared exactly.

use vstd::prelude::*;
use vstd::string::*;

verus! {

/// Why a raw event could not be normalized.
#[derive(Clone, Copy, Debug, PartialEq, Eq, Structural)]
pub enum NormalizeError {
    /// The raw event is of a kind that the canonical schema has no variant for.
    UnmappedKind,
}

/// An input event as the platform hook reports it, before normalization.
#[derive(Debug, PartialEq, Eq)]
pub enum RawEvent {
    /// The pointer moved to the position `(x, y)`.
    MouseMove { x: u64, y: u64 },
    /// A pointer button, named by `button`, went down.
    ButtonPress { button: String },
    /// A pointer button, named by `button`, came up.
    ButtonRelease { button: String },
    /// A key, named by `key`, went down.
    KeyPress { key: String },
    /// A key, named by `key`, came up.
    KeyRelease { key: String },
    /// The wheel turned by `(delta_x, delta_y)`.
    Wheel { delta_x: u64, delta_y: u64 },
    /// Anything else the hook may report.
    Unmapped,
}

/// A normalized event together with the time of its capture, in milliseconds
/// since the epoch.
#[derive(Debug, PartialEq, Eq)]
pub enum CanonicalEvent {
    PointerMove { x: u64, y: u64, timestamp: u64 },
    PointerButton { descriptor: String, pressed: bool, timestamp: u64 },
    Key { descriptor: String, pressed: bool, timestamp: u64 },
    Wheel { delta_x: u64, delta_y: u64, timestamp: u64 },
}

/// What a `CanonicalEvent` is, with its strings as sequences of characters.
pub enum EventModel {
    PointerMove { x: u64, y: u64, timestamp: u64 },
    PointerButton { descriptor: Seq<char>, pressed: bool, timestamp: u64 },
    Key { descriptor: Seq<char>, pressed: bool, timestamp: u64 },
    Wheel { delta_x: u64, delta_y: u64, timestamp: u64 },
}

impl EventModel {
    /// The capture time that every variant carries.
    pub open spec fn timestamp(self) -> u64 {
        match self {
            EventModel::PointerMove { timestamp, .. } => timestamp,
            EventModel::PointerButton { timestamp, .. } => timestamp,
            EventModel::Key { timestamp, .. } => timestamp,
            EventModel::Wheel { timestamp, .. } => timestamp,
        }
    }

    /// The discriminant text under which the event is persisted.
    pub open spec fn event_type(self) -> Seq<char> {
        match self {
            EventModel::PointerMove { .. } => "MouseMove"@,
            EventModel::PointerButton { descriptor, .. } => "MouseButton "@ + descriptor,
            EventModel::Key { descriptor, pressed, .. } => if pressed {
                "KeyPress("@ + descriptor + ")"@
            } else {
                "KeyRelease("@ + descriptor + ")"@
            },
            EventModel::Wheel { .. } => "Wheel"@,
        }
    }
}

impl View for CanonicalEvent {
    type V = EventModel;

    open spec fn view(&self) -> EventModel {
        match *self {
            CanonicalEvent::PointerMove { x, y, timestamp } => EventModel::PointerMove {
                x,
                y,
                timestamp,
            },
            CanonicalEvent::PointerButton {
                descriptor,
                pressed,
                timestamp,
            } => EventModel::PointerButton { descriptor: descriptor@, pressed, timestamp },
            CanonicalEvent::Key { descriptor, pressed, timestamp } => EventModel::Key {
                descriptor: descriptor@,
                pressed,
                timestamp,
            },
            CanonicalEvent::Wheel { delta_x, delta_y, timestamp } => EventModel::Wheel {
                delta_x,
                delta_y,
                timestamp,
            },
        }
    }
}

impl Clone for CanonicalEvent {
    fn clone(&self) -> (copy: Self)
        ensures
            copy@ == self@,
    {
        match self {
            CanonicalEvent::PointerMove { x, y, timestamp } => CanonicalEvent::PointerMove {
                x: *x,
                y: *y,
                timestamp: *timestamp,
            },
            CanonicalEvent::PointerButton {
                descriptor,
                pressed,
                timestamp,
            } => CanonicalEvent::PointerButton {
                descriptor: descriptor.clone(),
                pressed: *pressed,
                timestamp: *timestamp,
            },
            CanonicalEvent::Key { descriptor, pressed, timestamp } => CanonicalEvent::Key {
                descriptor: descriptor.clone(),
                pressed: *pressed,
                timestamp: *timestamp,
            },
            CanonicalEvent::Wheel { delta_x, delta_y, timestamp } => CanonicalEvent::Wheel {
                delta_x: *delta_x,
                delta_y: *delta_y,
                timestamp: *timestamp,
            },
        }
    }
}

impl CanonicalEvent {
    /// The capture time of the event, in milliseconds since the epoch.
    pub fn timestamp(&self) -> (t: u64)
        ensures
            t == self@.timestamp(),
    {
        match self {
            CanonicalEvent::PointerMove { timestamp, .. } => *timestamp,
            CanonicalEvent::PointerButton { timestamp, .. } => *timestamp,
            CanonicalEvent::Key { timestamp, .. } => *timestamp,
            CanonicalEvent::Wheel { timestamp, .. } => *timestamp,
        }
    }

    /// The discriminant text under which the event is persisted:
    /// `MouseMove`, `MouseButton ` followed by the button's descriptor,
    /// `KeyPress(..)` or `KeyRelease(..)` around the key's descriptor, `Wheel`.
    pub fn event_type(&self) -> (text: String)
        ensures
            text@ == self@.event_type(),
    {
        match self {
            CanonicalEvent::PointerMove { .. } => String::from_str("MouseMove"),
            CanonicalEvent::PointerButton { descriptor, .. } => {
                String::from_str("MouseButton ").concat(descriptor.as_str())
            },
            CanonicalEvent::Key { descriptor, pressed, .. } => {
                let open = if *pressed {
                    String::from_str("KeyPress(")
                } else {
                    String::from_str("KeyRelease(")
                };
                open.concat(descriptor.as_str()).concat(")")
            },
            CanonicalEvent::Wheel { .. } => String::from_str("Wheel"),
        }
    }
}

/// The canonical event that a raw event of a mapped kind becomes when it is
/// captured at `timestamp`; `None` for a kind that has no canonical variant.
pub open spec fn spec_normalize(raw: RawEvent, timestamp: u64) -> Option<EventModel> {
    match raw {
        RawEvent::MouseMove { x, y } => Some(EventModel::PointerMove { x, y, timestamp }),
        RawEvent::ButtonPress { button } => Some(
            EventModel::PointerButton { descriptor: button@, pressed: true, timestamp },
        ),
        RawEvent::ButtonRelease { button } => Some(
            EventModel::PointerButton { descriptor: button@, pressed: false, timestamp },
        ),
        RawEvent::KeyPress { key } => Some(
            EventModel::Key { descriptor: key@, pressed: true, timestamp },
        ),
        RawEvent::KeyRelease { key } => Some(
            EventModel::Key { descriptor: key@, pressed: false, timestamp },
        ),
        RawEvent::Wheel { delta_x, delta_y } => Some(
            EventModel::Wheel { delta_x, delta_y, timestamp },
        ),
        RawEvent::Unmapped => None,
    }
}

/// Maps a raw event onto the canonical schema and stamps it with the time at
/// which its processing began. A raw event of an unmapped kind is an error; it
/// is never dropped in silence.
pub fn normalize(raw: RawEvent, timestamp: u64) -> (result: Result<
    CanonicalEvent,
    NormalizeError,
>)
    ensures
        match result {
            Ok(event) => spec_normalize(raw, timestamp) == Some(event@),
            Err(error) => spec_normalize(raw, timestamp).is_none()
                && error == NormalizeError::UnmappedKind,
        },
{
    match raw {
        RawEvent::MouseMove { x, y } => Ok(CanonicalEvent::PointerMove { x, y, timestamp }),
        RawEvent::ButtonPress { button } => Ok(
            CanonicalEvent::PointerButton { descriptor: button, pressed: true, timestamp },
        ),
        RawEvent::ButtonRelease { button } => Ok(
            CanonicalEvent::PointerButton { descriptor: button, pressed: false, timestamp },
        ),
        RawEvent::KeyPress { key } => Ok(
            CanonicalEvent::Key { descriptor: key, pressed: true, timestamp },
        ),
        RawEvent::KeyRelease { key } => Ok(
            CanonicalEvent::Key { descriptor: key, pressed: false, timestamp },
        ),
        RawEvent::Wheel { delta_x, delta_y } => Ok(
            CanonicalEvent::Wheel { delta_x, delta_y, timestamp },
        ),
        RawEvent::Unmapped => Err(NormalizeError::UnmappedKind),
    }
}

/// A normalized event keeps the capture time it was given.
pub proof fn lemma_normalize_keeps_timestamp(raw: RawEvent, timestamp: u64)
    requires
        spec_normalize(raw, timestamp).is_some(),
    ensures
        spec_normalize(raw, timestamp).unwrap().timestamp() == timestamp,
{
}

} // verus!
