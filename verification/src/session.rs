//! The tracking gate and the task context, and the path of one raw event
//! from the hook to the document.

use crate::document::{spec_append, spec_append_task, Document};
use crate::event::{
    normalize, spec_normalize, CanonicalEvent, EventModel, NormalizeError, RawEvent,
};
use vstd::prelude::*;
use vstd::string::*;

verus! {

/// The switch that decides whether captured events reach the document.
#[derive(Clone, Copy, Debug, PartialEq, Eq, Structural)]
pub enum Gate {
    /// Events are captured and thrown away. This is the state at start.
    Stopped,
    /// Events are captured and recorded.
    Tracking,
}

/// What became of a raw event that was handed to the session.
#[derive(Clone, Copy, Debug, PartialEq, Eq, Structural)]
pub enum Outcome {
    /// Tracking was off: the document is as it was.
    Discarded,
    /// The event stands at the end of the active task's sequence.
    Recorded,
}

/// What is to be done with a raw event that has a canonical form.
#[derive(Debug, PartialEq, Eq)]
pub enum Decision {
    /// Tracking is off: the event goes nowhere, and the document is neither
    /// read nor written on its account.
    Discard,
    /// Tracking is on: `event` is to be appended under `label`.
    Append { label: String, event: CanonicalEvent },
}

/// The state shared by the capture side and the command side: the switch and
/// the label of the task that is active.
pub struct AppState {
    gate: Gate,
    task_name: Option<String>,
}

/// What an `AppState` is: whether tracking is on, and the label if one
/// was set.
pub struct SessionModel {
    pub tracking: bool,
    pub task_name: Option<Seq<char>>,
}

impl SessionModel {
    /// The session with its gate open.
    pub open spec fn start(self) -> SessionModel {
        SessionModel { tracking: true, task_name: self.task_name }
    }

    /// The session with its gate closed.
    pub open spec fn stop(self) -> SessionModel {
        SessionModel { tracking: false, task_name: self.task_name }
    }

    /// The session with `label` as the active task.
    pub open spec fn set_task(self, label: Seq<char>) -> SessionModel {
        SessionModel { tracking: self.tracking, task_name: Some(label) }
    }

    /// The label under which the next event lands: the one that was set
    /// last, or `default` while none was set.
    pub open spec fn active_label(self) -> Seq<char> {
        match self.task_name {
            Some(label) => label,
            None => "default"@,
        }
    }
}

/// The document after one raw event, captured at `timestamp`, went through
/// the session: unchanged while tracking is off or where the event has no
/// canonical form, else grown by the normalized event under the active label.
pub open spec fn spec_track(
    session: SessionModel,
    doc: Map<Seq<char>, Seq<EventModel>>,
    raw: RawEvent,
    timestamp: u64,
) -> Map<Seq<char>, Seq<EventModel>> {
    if !session.tracking {
        doc
    } else {
        match spec_normalize(raw, timestamp) {
            Some(event) => spec_append(doc, session.active_label(), event),
            None => doc,
        }
    }
}

/// The list of tasks after one raw event went through the session: as
/// `spec_track` says of the mapping, with each task keeping its place.
pub open spec fn spec_track_tasks(
    session: SessionModel,
    tasks: Seq<(Seq<char>, Seq<EventModel>)>,
    raw: RawEvent,
    timestamp: u64,
) -> Seq<(Seq<char>, Seq<EventModel>)> {
    if !session.tracking {
        tasks
    } else {
        match spec_normalize(raw, timestamp) {
            Some(event) => spec_append_task(tasks, session.active_label(), event),
            None => tasks,
        }
    }
}

/// The document after the raw events `raws`, captured at the times `stamps`,
/// went through an unchanging session one after the other.
pub open spec fn spec_track_all(
    session: SessionModel,
    doc: Map<Seq<char>, Seq<EventModel>>,
    raws: Seq<RawEvent>,
    stamps: Seq<u64>,
) -> Map<Seq<char>, Seq<EventModel>>
    decreases raws.len(),
{
    if raws.len() == 0 || stamps.len() != raws.len() {
        doc
    } else {
        spec_track(
            session,
            spec_track_all(session, doc, raws.drop_last(), stamps.drop_last()),
            raws.last(),
            stamps.last(),
        )
    }
}

/// The canonical events of `raws`, each stamped with its own capture time,
/// in arrival order.
pub open spec fn spec_normalize_all(raws: Seq<RawEvent>, stamps: Seq<u64>) -> Seq<EventModel> {
    Seq::new(raws.len(), |i: int| spec_normalize(raws[i], stamps[i]).unwrap())
}

/// Every raw event of `raws` is of a kind that the canonical schema maps.
pub open spec fn all_mapped(raws: Seq<RawEvent>, stamps: Seq<u64>) -> bool {
    &&& raws.len() == stamps.len()
    &&& forall|i: int| 0 <= i < raws.len() ==> (#[trigger] spec_normalize(raws[i], stamps[i])).is_some()
}

/// What is stored under `label`, the empty sequence where the label is new.
pub open spec fn stored(doc: Map<Seq<char>, Seq<EventModel>>, label: Seq<char>) -> Seq<
    EventModel,
> {
    if doc.dom().contains(label) {
        doc[label]
    } else {
        Seq::empty()
    }
}

impl View for AppState {
    type V = SessionModel;

    closed spec fn view(&self) -> SessionModel {
        SessionModel {
            tracking: self.gate == Gate::Tracking,
            task_name: match self.task_name {
                Some(label) => Some(label@),
                None => None,
            },
        }
    }
}

impl Clone for AppState {
    fn clone(&self) -> (copy: Self)
        ensures
            copy@ == self@,
    {
        AppState {
            gate: self.gate,
            task_name: match &self.task_name {
                Some(label) => Some(label.clone()),
                None => None,
            },
        }
    }
}

impl AppState {
    /// The state at start: the tracking gate closed, no task label set.
    pub fn new() -> (state: AppState)
        ensures
            state@ == (SessionModel { tracking: false, task_name: None }),
    {
        AppState { gate: Gate::Stopped, task_name: None }
    }

    /// Opens the tracking gate. Opening an open gate changes nothing.
    pub fn start_tracking(&mut self)
        ensures
            final(self)@ == old(self)@.start(),
    {
        self.gate = Gate::Tracking;
    }

    /// Closes the tracking gate. Closing a closed gate changes nothing.
    pub fn stop_tracking(&mut self)
        ensures
            final(self)@ == old(self)@.stop(),
    {
        self.gate = Gate::Stopped;
    }

    /// Makes `task` the active label. No label is refused, and nothing that
    /// was recorded before moves.
    pub fn set_task_name(&mut self, task: String)
        ensures
            final(self)@ == old(self)@.set_task(task@),
    {
        self.task_name = Some(task);
    }

    /// The state of the tracking gate.
    pub fn gate(&self) -> (gate: Gate)
        ensures
            gate == (if self@.tracking {
                Gate::Tracking
            } else {
                Gate::Stopped
            }),
    {
        self.gate
    }

    /// Whether the tracking gate is open.
    pub fn is_tracking(&self) -> (open: bool)
        ensures
            open == self@.tracking,
    {
        match self.gate {
            Gate::Tracking => true,
            Gate::Stopped => false,
        }
    }

    /// The label under which the next event lands.
    pub fn active_label(&self) -> (label: String)
        ensures
            label@ == self@.active_label(),
    {
        match &self.task_name {
            Some(label) => label.clone(),
            None => String::from_str("default"),
        }
    }
}

/// Decides what becomes of one raw event, before the document is touched.
/// The event is normalized first, with the capture time `timestamp`: one of
/// an unmapped kind is reported whether tracking is on or off. A mapped
/// event is discarded while tracking is off, and is to be appended under the
/// active label while it is on.
pub fn decide(state: &AppState, raw: RawEvent, timestamp: u64) -> (result: Result<
    Decision,
    NormalizeError,
>)
    ensures
        match result {
            Ok(Decision::Append { label, event }) => state@.tracking && spec_normalize(
                raw,
                timestamp,
            ) == Some(event@) && label@ == state@.active_label(),
            Ok(Decision::Discard) => !state@.tracking && spec_normalize(raw, timestamp).is_some(),
            Err(error) => spec_normalize(raw, timestamp).is_none() && error
                == NormalizeError::UnmappedKind,
        },
{
    match normalize(raw, timestamp) {
        Ok(event) => {
            if state.is_tracking() {
                Ok(Decision::Append { label: state.active_label(), event })
            } else {
                Ok(Decision::Discard)
            }
        },
        Err(error) => Err(error),
    }
}

/// Takes one raw event through the session into the document: normalizes
/// it with the capture time `timestamp`, tests the switch, and appends the
/// event under the label that is active in `state`. While tracking is off
/// the document stays as it was. An event of an unmapped kind is reported,
/// whatever the switch, and leaves the document as it was.
pub fn track_event(raw: RawEvent, state: &AppState, doc: &mut Document, timestamp: u64) -> (result:
    Result<(), NormalizeError>)
    requires
        old(doc).wf(),
    ensures
        final(doc).wf(),
        final(doc)@ == spec_track(state@, old(doc)@, raw, timestamp),
        final(doc).spec_tasks() == spec_track_tasks(state@, old(doc).spec_tasks(), raw, timestamp),
        result.is_ok() <==> spec_normalize(raw, timestamp).is_some(),
        result.is_err() ==> result == Err::<(), NormalizeError>(NormalizeError::UnmappedKind),
{
    match decide(state, raw, timestamp) {
        Ok(Decision::Append { label, event }) => {
            doc.append(label.as_str(), event);
            Ok(())
        },
        Ok(Decision::Discard) => Ok(()),
        Err(error) => Err(error),
    }
}

/// Takes one raw event from the hook, as `track_event` does, and says what
/// became of it: an event of an unmapped kind is an error whether tracking
/// is on or off; a mapped event is discarded while tracking is off and
/// recorded while it is on.
pub fn on_raw_event(state: &AppState, doc: &mut Document, raw: RawEvent, timestamp: u64) -> (result:
    Result<Outcome, NormalizeError>)
    requires
        old(doc).wf(),
    ensures
        final(doc).wf(),
        final(doc)@ == spec_track(state@, old(doc)@, raw, timestamp),
        final(doc).spec_tasks() == spec_track_tasks(state@, old(doc).spec_tasks(), raw, timestamp),
        spec_normalize(raw, timestamp).is_none() ==> result == Err::<Outcome, NormalizeError>(
            NormalizeError::UnmappedKind,
        ) && final(doc)@ == old(doc)@,
        spec_normalize(raw, timestamp).is_some() && !state@.tracking ==> result == Ok::<
            Outcome,
            NormalizeError,
        >(Outcome::Discarded) && final(doc)@ == old(doc)@,
        spec_normalize(raw, timestamp).is_some() && state@.tracking ==> result == Ok::<
            Outcome,
            NormalizeError,
        >(Outcome::Recorded),
{
    let tracking = state.is_tracking();
    match track_event(raw, state, doc, timestamp) {
        Ok(()) => if tracking {
            Ok(Outcome::Recorded)
        } else {
            Ok(Outcome::Discarded)
        },
        Err(error) => Err(error),
    }
}

} // verus!
