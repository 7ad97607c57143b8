//! What holds of every run of the session over a document.

use crate::document::{distinct_labels, spec_append, tasks_model, Document};
use crate::event::{spec_normalize, CanonicalEvent, EventModel, RawEvent};
use crate::session::{
    all_mapped, spec_normalize_all, spec_track, spec_track_all, stored, SessionModel,
};
use crate::store::{lemma_rewrite_is_identical, spec_read, spec_written};
use vstd::prelude::*;

verus! {

/// An append touches one label: the sequence under it grows by the event at
/// its end, and every other label has what it had.
pub proof fn lemma_append_touches_one_label(
    doc: Map<Seq<char>, Seq<EventModel>>,
    label: Seq<char>,
    event: EventModel,
)
    ensures
        spec_append(doc, label, event).dom() == doc.dom().insert(label),
        stored(spec_append(doc, label, event), label) == stored(doc, label).push(event),
        forall|other: Seq<char>|
            other != label ==> #[trigger] stored(spec_append(doc, label, event), other) == stored(
                doc,
                other,
            ),
{
    let after = spec_append(doc, label, event);
    assert(after.dom() =~= doc.dom().insert(label));
    assert(stored(after, label) =~= stored(doc, label).push(event));
}

/// While tracking is on, the events of a run are stored under the active
/// label after what was there, normalized and in arrival order; no other
/// label gains, loses or changes anything.
pub proof fn lemma_tracking_records_in_arrival_order(
    session: SessionModel,
    doc: Map<Seq<char>, Seq<EventModel>>,
    raws: Seq<RawEvent>,
    stamps: Seq<u64>,
)
    requires
        session.tracking,
        all_mapped(raws, stamps),
    ensures
        stored(spec_track_all(session, doc, raws, stamps), session.active_label()) == stored(
            doc,
            session.active_label(),
        ) + spec_normalize_all(raws, stamps),
        forall|other: Seq<char>|
            other != session.active_label() ==> #[trigger] spec_track_all(
                session,
                doc,
                raws,
                stamps,
            ).dom().contains(other) == doc.dom().contains(other),
        forall|other: Seq<char>|
            other != session.active_label() ==> #[trigger] stored(
                spec_track_all(session, doc, raws, stamps),
                other,
            ) == stored(doc, other),
        raws.len() > 0 ==> spec_track_all(session, doc, raws, stamps).dom().contains(
            session.active_label(),
        ),
    decreases raws.len(),
{
    let label = session.active_label();
    if raws.len() == 0 {
        assert(stored(doc, label) + spec_normalize_all(raws, stamps) =~= stored(doc, label));
    } else {
        let head = raws.drop_last();
        let head_stamps = stamps.drop_last();
        assert forall|i: int| 0 <= i < head.len() implies (#[trigger] spec_normalize(
            head[i],
            head_stamps[i],
        )).is_some() by {
            assert(spec_normalize(raws[i], stamps[i]).is_some());
        }
        lemma_tracking_records_in_arrival_order(session, doc, head, head_stamps);
        let middle = spec_track_all(session, doc, head, head_stamps);
        let last = raws.len() - 1;
        assert(spec_normalize(raws[last], stamps[last]).is_some());
        let event = spec_normalize(raws.last(), stamps.last()).unwrap();
        assert(spec_track_all(session, doc, raws, stamps) == spec_append(middle, label, event));
        lemma_append_touches_one_label(middle, label, event);
        assert(spec_normalize_all(raws, stamps) =~= spec_normalize_all(head, head_stamps).push(
            event,
        ));
        assert((stored(doc, label) + spec_normalize_all(head, head_stamps)).push(event) =~= stored(
            doc,
            label,
        ) + spec_normalize_all(raws, stamps));
        let after = spec_track_all(session, doc, raws, stamps);
        assert forall|other: Seq<char>| other != label implies #[trigger] after.dom().contains(
            other,
        ) == doc.dom().contains(other) by {
            assert(middle.dom().contains(other) == doc.dom().contains(other));
        }
        assert forall|other: Seq<char>| other != label implies #[trigger] stored(after, other)
            == stored(doc, other) by {
            assert(stored(spec_append(middle, label, event), other) == stored(middle, other));
            assert(stored(middle, other) == stored(doc, other));
        }
    }
}

/// Each recorded event carries the capture time it was given, so where the
/// clock never ran backwards during a run, the timestamps of what the run
/// recorded never decrease.
pub proof fn lemma_recorded_timestamps_follow_clock(raws: Seq<RawEvent>, stamps: Seq<u64>)
    requires
        all_mapped(raws, stamps),
    ensures
        spec_normalize_all(raws, stamps).len() == raws.len(),
        forall|i: int|
            0 <= i < raws.len() ==> (#[trigger] spec_normalize_all(raws, stamps)[i]).timestamp()
                == stamps[i],
        (forall|i: int, j: int| 0 <= i <= j < stamps.len() ==> stamps[i] <= stamps[j]) ==> (forall|
            i: int,
            j: int,
        |
            0 <= i <= j < raws.len() ==> (#[trigger] spec_normalize_all(
                raws,
                stamps,
            )[i]).timestamp() <= (#[trigger] spec_normalize_all(raws, stamps)[j]).timestamp()),
{
    assert forall|i: int| 0 <= i < raws.len() implies (#[trigger] spec_normalize_all(
        raws,
        stamps,
    )[i]).timestamp() == stamps[i] by {
        assert(spec_normalize(raws[i], stamps[i]).is_some());
    }
}

/// While tracking is off, no run of events changes the document.
pub proof fn lemma_stopped_changes_nothing(
    session: SessionModel,
    doc: Map<Seq<char>, Seq<EventModel>>,
    raws: Seq<RawEvent>,
    stamps: Seq<u64>,
)
    requires
        !session.tracking,
    ensures
        spec_track_all(session, doc, raws, stamps) == doc,
    decreases raws.len(),
{
    if raws.len() > 0 && stamps.len() == raws.len() {
        lemma_stopped_changes_nothing(session, doc, raws.drop_last(), stamps.drop_last());
    }
}

/// Stopping and then starting leaves a tracking session as it was:
/// the same label is active, and the document, which neither command is
/// handed, takes the next events exactly as it would have without the two.
pub proof fn lemma_stop_then_start_restores(
    session: SessionModel,
    doc: Map<Seq<char>, Seq<EventModel>>,
    raw: RawEvent,
    timestamp: u64,
)
    ensures
        session.stop().start() == session.start(),
        session.tracking ==> session.stop().start() == session,
        session.start().start() == session.start(),
        session.stop().stop() == session.stop(),
        spec_track(session.stop().start(), doc, raw, timestamp) == spec_track(
            session.start(),
            doc,
            raw,
            timestamp,
        ),
{
}

/// After the task label changes, a run of events accumulates under the new
/// label, and what stands under any other label, the previous one among
/// them, is neither altered nor moved.
pub proof fn lemma_relabel_leaves_earlier_tasks(
    session: SessionModel,
    new_label: Seq<char>,
    doc: Map<Seq<char>, Seq<EventModel>>,
    raws: Seq<RawEvent>,
    stamps: Seq<u64>,
)
    requires
        session.tracking,
        all_mapped(raws, stamps),
    ensures
        session.set_task(new_label).active_label() == new_label,
        stored(spec_track_all(session.set_task(new_label), doc, raws, stamps), new_label) == stored(
            doc,
            new_label,
        ) + spec_normalize_all(raws, stamps),
        forall|other: Seq<char>|
            other != new_label ==> #[trigger] spec_track_all(
                session.set_task(new_label),
                doc,
                raws,
                stamps,
            ).dom().contains(other) == doc.dom().contains(other),
        forall|other: Seq<char>|
            other != new_label ==> #[trigger] stored(
                spec_track_all(session.set_task(new_label), doc, raws, stamps),
                other,
            ) == stored(doc, other),
{
    lemma_tracking_records_in_arrival_order(session.set_task(new_label), doc, raws, stamps);
}

/// A document that is listed task by task and read back from that list,
/// with no event in between, is the document it was: the reading succeeds,
/// the tasks stand in the same order with the same events in the same order,
/// and the mapping is the same.
pub proof fn lemma_read_back_is_identity(
    doc: Document,
    listed: Seq<(String, Vec<CanonicalEvent>)>,
    back: Document,
)
    requires
        doc.wf(),
        back.wf(),
        tasks_model(listed) == doc.spec_tasks(),
        back.spec_tasks() == (if distinct_labels(tasks_model(listed)) {
            tasks_model(listed)
        } else {
            Seq::empty()
        }),
    ensures
        distinct_labels(tasks_model(listed)),
        back.spec_tasks() == doc.spec_tasks(),
        back@ == doc@,
{
    doc.lemma_tasks_are_the_document();
    back.lemma_same_tasks_same_document(&doc);
}

/// What is written for a document reads back as that document, and so a
/// second writing, with no event in between, lists exactly what the first
/// one listed: the same tasks, records and fields in the same order.
pub proof fn lemma_document_rewrite_is_identical(doc: Document)
    requires
        doc.wf(),
    ensures
        spec_read(Some(spec_written(doc.spec_tasks()))) == doc.spec_tasks(),
        spec_written(spec_read(Some(spec_written(doc.spec_tasks())))) == spec_written(
            doc.spec_tasks(),
        ),
{
    doc.lemma_tasks_are_the_document();
    lemma_rewrite_is_identical(doc.spec_tasks());
}

} // verus!
