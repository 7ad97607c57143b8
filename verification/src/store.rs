//! The document as it is persisted: every task with its records, and the
//! way back from what was read.

use crate::document::{distinct_labels, events_view, tasks_model, Document};
use crate::event::{CanonicalEvent, EventModel};
use crate::record::{
    all_readable, lemma_records_round_trip, records_view, spec_events, spec_records, to_events,
    to_records, EventRecord, RecordModel,
};
use vstd::prelude::*;
use vstd::string::*;

verus! {

/// A persisted list of tasks, each by its label's characters and its
/// records' models.
pub open spec fn persisted_view(tasks: Seq<(String, Vec<EventRecord>)>) -> Seq<
    (Seq<char>, Seq<RecordModel>),
> {
    tasks.map_values(|task: (String, Vec<EventRecord>)| (task.0@, records_view(task.1@)))
}

/// What is persisted for a list of tasks: each task under its label, with
/// the records of its events, all in the same order.
pub open spec fn spec_written(tasks: Seq<(Seq<char>, Seq<EventModel>)>) -> Seq<
    (Seq<char>, Seq<RecordModel>),
> {
    tasks.map_values(|task: (Seq<char>, Seq<EventModel>)| (task.0, spec_records(task.1)))
}

/// Every record of every persisted task is the record of an event.
pub open spec fn all_tasks_readable(persisted: Seq<(Seq<char>, Seq<RecordModel>)>) -> bool {
    forall|i: int| 0 <= i < persisted.len() ==> all_readable((#[trigger] persisted[i]).1)
}

/// The tasks that a persisted list stands for, record by record.
pub open spec fn spec_decoded(persisted: Seq<(Seq<char>, Seq<RecordModel>)>) -> Seq<
    (Seq<char>, Seq<EventModel>),
> {
    persisted.map_values(|task: (Seq<char>, Seq<RecordModel>)| (task.0, spec_events(task.1)))
}

/// The tasks of the document that is read from `parsed`: those that the
/// persisted list stands for, where there is a list, each of its records is
/// readable and no label comes twice; no task at all otherwise.
pub open spec fn spec_read(parsed: Option<Seq<(Seq<char>, Seq<RecordModel>)>>) -> Seq<
    (Seq<char>, Seq<EventModel>),
> {
    match parsed {
        Some(persisted) => if all_tasks_readable(persisted) && distinct_labels(
            spec_decoded(persisted),
        ) {
            spec_decoded(persisted)
        } else {
            Seq::empty()
        },
        None => Seq::empty(),
    }
}

/// The view of what was parsed, if anything was.
pub open spec fn parsed_view(parsed: Option<Vec<(String, Vec<EventRecord>)>>) -> Option<
    Seq<(Seq<char>, Seq<RecordModel>)>,
> {
    match parsed {
        Some(list) => Some(persisted_view(list@)),
        None => None,
    }
}

/// Lists the document for writing: every task in order of first use, with
/// the records of its events in the order of capture.
pub fn write_document(doc: &Document) -> (persisted: Vec<(String, Vec<EventRecord>)>)
    ensures
        persisted_view(persisted@) == spec_written(doc.spec_tasks()),
{
    let mut persisted: Vec<(String, Vec<EventRecord>)> = Vec::new();
    let mut i: usize = 0;
    while i < doc.len()
        invariant
            i <= doc.spec_tasks().len(),
            persisted@.len() == i,
            forall|k: int|
                0 <= k < i ==> (#[trigger] persisted@[k]).0@ == doc.spec_tasks()[k].0
                    && records_view(persisted@[k].1@) == spec_records(doc.spec_tasks()[k].1),
        decreases doc.spec_tasks().len() - i,
    {
        match (doc.label_at(i), doc.events_at(i)) {
            (Some(label), Some(events)) => {
                persisted.push((label.clone(), to_records(events)));
            },
            _ => {},
        }
        i += 1;
    }
    assert(persisted_view(persisted@) =~= spec_written(doc.spec_tasks()));
    persisted
}

/// Builds the document from what was read. `parsed` is the persisted list
/// of tasks, or `None` where the text did not parse. Where nothing parsed,
/// a record is the record of no event, or a label comes twice, the result
/// is the empty document: what was there is given up, and capture goes on.
pub fn read_document(parsed: Option<Vec<(String, Vec<EventRecord>)>>) -> (doc: Document)
    ensures
        doc.wf(),
        doc.spec_tasks() == spec_read(parsed_view(parsed)),
{
    let list = match parsed {
        Some(list) => list,
        None => {
            return Document::new();
        },
    };
    let ghost persisted = persisted_view(list@);
    let mut tasks: Vec<(String, Vec<CanonicalEvent>)> = Vec::new();
    let mut i: usize = 0;
    while i < list.len()
        invariant
            i <= list.len(),
            tasks@.len() == i,
            persisted == persisted_view(list@),
            parsed_view(parsed) == Some(persisted),
            forall|k: int| 0 <= k < i ==> all_readable((#[trigger] persisted[k]).1),
            forall|k: int|
                0 <= k < i ==> (#[trigger] tasks@[k]).0@ == persisted[k].0 && events_view(
                    tasks@[k].1@,
                ) == spec_events(persisted[k].1),
        decreases list.len() - i,
    {
        match to_events(&list[i].1) {
            Some(events) => {
                tasks.push((list[i].0.clone(), events));
            },
            None => {
                assert(!all_readable(persisted[i as int].1));
                return Document::new();
            },
        }
        i += 1;
    }
    assert(tasks_model(tasks@) =~= spec_decoded(persisted));
    Document::recover(Some(tasks))
}

/// Writing a document and reading back what was written, with no event in
/// between, gives the same tasks in the same order, each with the same
/// events in the same order; so writing once more gives the same list.
pub proof fn lemma_rewrite_is_identical(tasks: Seq<(Seq<char>, Seq<EventModel>)>)
    requires
        distinct_labels(tasks),
    ensures
        spec_read(Some(spec_written(tasks))) == tasks,
        spec_written(spec_read(Some(spec_written(tasks)))) == spec_written(tasks),
{
    let persisted = spec_written(tasks);
    assert forall|i: int| 0 <= i < persisted.len() implies all_readable(
        (#[trigger] persisted[i]).1,
    ) by {
        lemma_records_round_trip(tasks[i].1);
    }
    assert forall|i: int| 0 <= i < tasks.len() implies (#[trigger] spec_decoded(persisted)[i])
        == tasks[i] by {
        lemma_records_round_trip(tasks[i].1);
    }
    assert(spec_decoded(persisted) =~= tasks);
}

} // verus!
