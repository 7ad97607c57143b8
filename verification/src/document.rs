//! The document: every task's captured events, keyed by task label.

use crate::event::{CanonicalEvent, EventModel};
use vstd::prelude::*;
use vstd::string::*;

verus! {

/// The events of a sequence, each by its model.
pub open spec fn events_view(events: Seq<CanonicalEvent>) -> Seq<EventModel> {
    events.map_values(|event: CanonicalEvent| event@)
}

/// What appending `event` under `label` makes of a document: the label's
/// sequence grows by the event at its end, a label seen for the first time
/// starts a sequence of that one event, and every other label keeps its own.
pub open spec fn spec_append(
    doc: Map<Seq<char>, Seq<EventModel>>,
    label: Seq<char>,
    event: EventModel,
) -> Map<Seq<char>, Seq<EventModel>> {
    if doc.dom().contains(label) {
        doc.insert(label, doc[label].push(event))
    } else {
        doc.insert(label, seq![event])
    }
}

/// One task as a plain value: its label and its events, oldest first.
pub open spec fn task_model(task: (String, Vec<CanonicalEvent>)) -> (Seq<char>, Seq<EventModel>) {
    (task.0@, events_view(task.1@))
}

/// A list of tasks, each by its model.
pub open spec fn tasks_model(tasks: Seq<(String, Vec<CanonicalEvent>)>) -> Seq<
    (Seq<char>, Seq<EventModel>),
> {
    tasks.map_values(|task: (String, Vec<CanonicalEvent>)| task_model(task))
}

/// No two tasks of the list carry the same label.
pub open spec fn distinct_labels(tasks: Seq<(Seq<char>, Seq<EventModel>)>) -> bool {
    forall|i: int, j: int| 0 <= i < j < tasks.len() ==> tasks[i].0 != tasks[j].0
}

/// What appending `event` under `label` makes of a list of tasks: the task
/// that carries the label gets the event at the end of its events and stays
/// where it is; where no task carries the label, a new task of that one
/// event comes last.
pub open spec fn spec_append_task(
    tasks: Seq<(Seq<char>, Seq<EventModel>)>,
    label: Seq<char>,
    event: EventModel,
) -> Seq<(Seq<char>, Seq<EventModel>)> {
    if exists|i: int| 0 <= i < tasks.len() && (#[trigger] tasks[i]).0 == label {
        let at = choose|i: int| 0 <= i < tasks.len() && (#[trigger] tasks[i]).0 == label;
        tasks.update(at, (label, tasks[at].1.push(event)))
    } else {
        tasks.push((label, seq![event]))
    }
}

/// The task log as a whole: a mapping from task label to the ordered
/// sequence of events captured under that label.
pub struct Document {
    tasks: Vec<(String, Vec<CanonicalEvent>)>,
}

impl View for Document {
    type V = Map<Seq<char>, Seq<EventModel>>;

    closed spec fn view(&self) -> Map<Seq<char>, Seq<EventModel>> {
        Map::new(
            |label: Seq<char>| self.holds(label),
            |label: Seq<char>| events_view(self.tasks[self.position(label)].1@),
        )
    }
}

impl Document {
    /// Some task of the document carries `label`.
    spec fn holds(&self, label: Seq<char>) -> bool {
        exists|i: int| 0 <= i < self.tasks.len() && #[trigger] self.tasks[i].0@ == label
    }

    /// Where the task that carries `label` stands.
    spec fn position(&self, label: Seq<char>) -> int {
        choose|i: int| 0 <= i < self.tasks.len() && #[trigger] self.tasks[i].0@ == label
    }

    /// No two tasks carry the same label.
    pub closed spec fn wf(&self) -> bool {
        forall|i: int, j: int|
            0 <= i < j < self.tasks.len() ==> #[trigger] self.tasks[i].0@
                != #[trigger] self.tasks[j].0@
    }

    /// The tasks of the document, in the order in which each label was
    /// first used.
    pub closed spec fn spec_tasks(&self) -> Seq<(Seq<char>, Seq<EventModel>)> {
        tasks_model(self.tasks@)
    }

    proof fn lemma_position(&self, i: int)
        requires
            self.wf(),
            0 <= i < self.tasks.len(),
        ensures
            self.holds(self.tasks[i].0@),
            self.position(self.tasks[i].0@) == i,
            self@.dom().contains(self.tasks[i].0@),
            self@[self.tasks[i].0@] == events_view(self.tasks[i].1@),
    {
        let label = self.tasks[i].0@;
        assert(self.holds(label));
        let p = self.position(label);
        assert(0 <= p < self.tasks.len() && self.tasks[p].0@ == label);
        if p < i {
            assert(self.tasks[p].0@ != self.tasks[i].0@);
        } else if i < p {
            assert(self.tasks[i].0@ != self.tasks[p].0@);
        }
    }

    /// The tasks listed are the document: their labels are its keys, each
    /// once, and each task's events are what the document holds under its
    /// label.
    pub proof fn lemma_tasks_are_the_document(&self)
        requires
            self.wf(),
        ensures
            distinct_labels(self.spec_tasks()),
            forall|label: Seq<char>|
                self@.dom().contains(label) <==> exists|i: int|
                    0 <= i < self.spec_tasks().len() && (#[trigger] self.spec_tasks()[i]).0
                        == label,
            forall|i: int|
                0 <= i < self.spec_tasks().len() ==> self@.dom().contains(
                    (#[trigger] self.spec_tasks()[i]).0,
                ) && self@[self.spec_tasks()[i].0] == self.spec_tasks()[i].1,
    {
        let tasks = self.spec_tasks();
        assert forall|i: int, j: int| 0 <= i < j < tasks.len() implies tasks[i].0
            != tasks[j].0 by {
            assert(self.tasks[i].0@ != self.tasks[j].0@);
        }
        assert forall|label: Seq<char>| self@.dom().contains(label) implies exists|i: int|
            0 <= i < tasks.len() && (#[trigger] tasks[i]).0 == label by {
            let p = self.position(label);
            assert(tasks[p].0 == label);
        }
        assert forall|label: Seq<char>|
            (exists|i: int|
                0 <= i < tasks.len() && (#[trigger] tasks[i]).0 == label) implies self@.dom().contains(
            label,
        ) by {
            let p = choose|p: int| 0 <= p < tasks.len() && (#[trigger] tasks[p]).0 == label;
            assert(self.tasks[p].0@ == label);
        }
        assert forall|i: int| 0 <= i < tasks.len() implies self@.dom().contains(
            (#[trigger] tasks[i]).0,
        ) && self@[tasks[i].0] == tasks[i].1 by {
            self.lemma_position(i);
        }
    }

    /// Two documents that list the same tasks are the same mapping.
    pub proof fn lemma_same_tasks_same_document(&self, other: &Document)
        requires
            self.wf(),
            other.wf(),
            self.spec_tasks() == other.spec_tasks(),
        ensures
            self@ == other@,
    {
        self.lemma_tasks_are_the_document();
        other.lemma_tasks_are_the_document();
        assert forall|label: Seq<char>| self@.dom().contains(label) implies self@[label]
            == other@[label] by {
            let p = self.position(label);
            assert(self.spec_tasks()[p].0 == label);
            assert(other.spec_tasks()[p].0 == label);
        }
        assert(self@ =~= other@);
    }

    /// The empty document: no task has an event yet.
    pub fn new() -> (doc: Document)
        ensures
            doc.wf(),
            doc@ == Map::<Seq<char>, Seq<EventModel>>::empty(),
            doc.spec_tasks() == Seq::<(Seq<char>, Seq<EventModel>)>::empty(),
    {
        let doc = Document { tasks: Vec::new() };
        assert(doc@ =~= Map::<Seq<char>, Seq<EventModel>>::empty());
        assert(doc.spec_tasks() =~= Seq::<(Seq<char>, Seq<EventModel>)>::empty());
        doc
    }

    /// The number of task labels in the document.
    pub fn len(&self) -> (count: usize)
        ensures
            count == self.spec_tasks().len(),
    {
        self.tasks.len()
    }

    /// The label at place `index` in order of first use, if there is one.
    pub fn label_at(&self, index: usize) -> (label: Option<&String>)
        ensures
            match label {
                Some(text) => index < self.spec_tasks().len() && text@
                    == self.spec_tasks()[index as int].0,
                None => index >= self.spec_tasks().len(),
            },
    {
        if index < self.tasks.len() {
            Some(&self.tasks[index].0)
        } else {
            None
        }
    }

    /// The events of the task at place `index` in order of first use, oldest
    /// first, if there is such a task.
    pub fn events_at(&self, index: usize) -> (events: Option<&Vec<CanonicalEvent>>)
        ensures
            match events {
                Some(list) => index < self.spec_tasks().len() && events_view(list@)
                    == self.spec_tasks()[index as int].1,
                None => index >= self.spec_tasks().len(),
            },
    {
        if index < self.tasks.len() {
            Some(&self.tasks[index].1)
        } else {
            None
        }
    }

    /// The document that lists exactly `tasks`, in their order; `None` where
    /// two of them carry the same label. A task without events is kept.
    pub fn from_tasks(tasks: Vec<(String, Vec<CanonicalEvent>)>) -> (result: Option<Document>)
        ensures
            match result {
                Some(doc) => distinct_labels(tasks_model(tasks@)) && doc.wf() && doc.spec_tasks()
                    == tasks_model(tasks@),
                None => !distinct_labels(tasks_model(tasks@)),
            },
    {
        let ghost models = tasks_model(tasks@);
        let mut i: usize = 0;
        while i < tasks.len()
            invariant
                i <= tasks.len(),
                models == tasks_model(tasks@),
                forall|a: int, b: int| 0 <= a < b < i ==> models[a].0 != models[b].0,
            decreases tasks.len() - i,
        {
            let mut j: usize = 0;
            while j < i
                invariant
                    j <= i < tasks.len(),
                    models == tasks_model(tasks@),
                    forall|a: int| 0 <= a < j ==> models[a].0 != models[i as int].0,
                decreases i - j,
            {
                if tasks[j].0 == tasks[i].0 {
                    assert(models[j as int].0 == models[i as int].0);
                    return None;
                }
                j += 1;
            }
            i += 1;
        }
        let doc = Document { tasks };
        assert(doc.wf()) by {
            assert forall|a: int, b: int| 0 <= a < b < doc.tasks.len() implies doc.tasks[a].0@
                != doc.tasks[b].0@ by {
                assert(models[a].0 != models[b].0);
            }
        }
        Some(doc)
    }

    /// Gives the document up as the list of its tasks, in order of first use.
    pub fn into_tasks(self) -> (tasks: Vec<(String, Vec<CanonicalEvent>)>)
        ensures
            tasks_model(tasks@) == self.spec_tasks(),
    {
        self.tasks
    }

    /// The document read back: the one that lists `tasks` where there are
    /// tasks to list and their labels differ, else the empty document.
    pub fn recover(tasks: Option<Vec<(String, Vec<CanonicalEvent>)>>) -> (doc: Document)
        ensures
            doc.wf(),
            doc.spec_tasks() == (match tasks {
                Some(list) if distinct_labels(tasks_model(list@)) => tasks_model(list@),
                _ => Seq::empty(),
            }),
    {
        match tasks {
            Some(list) => match Document::from_tasks(list) {
                Some(doc) => doc,
                None => Document::new(),
            },
            None => Document::new(),
        }
    }

    /// The events captured under `label`, oldest first; `None` where the
    /// document has no such label.
    pub fn events(&self, label: &str) -> (found: Option<&Vec<CanonicalEvent>>)
        requires
            self.wf(),
        ensures
            match found {
                Some(events) => self@.dom().contains(label@) && events_view(events@)
                    == self@[label@],
                None => !self@.dom().contains(label@),
            },
    {
        let wanted = String::from_str(label);
        let mut i: usize = 0;
        while i < self.tasks.len()
            invariant
                i <= self.tasks.len(),
                self.wf(),
                wanted@ == label@,
                forall|k: int| 0 <= k < i ==> #[trigger] self.tasks[k].0@ != label@,
            decreases self.tasks.len() - i,
        {
            if self.tasks[i].0 == wanted {
                proof {
                    self.lemma_position(i as int);
                }
                return Some(&self.tasks[i].1);
            }
            i += 1;
        }
        None
    }

    /// Appends `event` at the end of the sequence kept under `label`, which
    /// is created if the label is new. Nothing stored before is moved,
    /// changed or removed.
    pub fn append(&mut self, label: &str, event: CanonicalEvent)
        requires
            old(self).wf(),
        ensures
            final(self).wf(),
            final(self)@ == spec_append(old(self)@, label@, event@),
            final(self).spec_tasks() == spec_append_task(old(self).spec_tasks(), label@, event@),
    {
        let wanted = String::from_str(label);
        let mut i: usize = 0;
        while i < self.tasks.len()
            invariant
                i <= self.tasks.len(),
                wanted@ == label@,
                *self == *old(self),
                old(self).wf(),
                forall|k: int| 0 <= k < i ==> #[trigger] self.tasks[k].0@ != label@,
            decreases self.tasks.len() - i,
        {
            if self.tasks[i].0 == wanted {
                self.tasks[i].1.push(event);
                proof {
                    self.lemma_same_labels(*old(self), i as int, event);
                }
                return ;
            }
            i += 1;
        }
        self.tasks.push((wanted, vec![event]));
        proof {
            self.lemma_new_label(*old(self));
        }
    }

    proof fn lemma_same_labels(&self, before: Document, i: int, event: CanonicalEvent)
        requires
            before.wf(),
            0 <= i < before.tasks.len(),
            self.tasks.len() == before.tasks.len(),
            forall|k: int|
                0 <= k < self.tasks.len() ==> #[trigger] self.tasks[k].0 == before.tasks[k].0,
            forall|k: int|
                0 <= k < self.tasks.len() && k != i ==> #[trigger] self.tasks[k].1
                    == before.tasks[k].1,
            self.tasks[i].1@ == before.tasks[i].1@.push(event),
        ensures
            self.wf(),
            self@ == spec_append(before@, before.tasks[i].0@, event@),
            self.spec_tasks() == spec_append_task(before.spec_tasks(), before.tasks[i].0@, event@),
    {
        assert(self.spec_tasks() == spec_append_task(
            before.spec_tasks(),
            before.tasks[i].0@,
            event@,
        )) by {
            let label = before.tasks[i].0@;
            let listed = before.spec_tasks();
            assert(listed[i].0 == label);
            let at = choose|k: int| 0 <= k < listed.len() && (#[trigger] listed[k]).0 == label;
            assert(before.tasks[at].0@ == label);
            if at < i {
                assert(before.tasks[at].0@ != before.tasks[i].0@);
            } else if i < at {
                assert(before.tasks[i].0@ != before.tasks[at].0@);
            }
            assert(events_view(before.tasks[i].1@.push(event)) =~= events_view(
                before.tasks[i].1@,
            ).push(event@));
            assert(self.spec_tasks() =~= listed.update(i, (label, listed[i].1.push(event@))));
        }
        assert(self.wf()) by {
            assert forall|a: int, b: int| 0 <= a < b < self.tasks.len() implies self.tasks[a].0@
                != self.tasks[b].0@ by {
                assert(before.tasks[a].0@ != before.tasks[b].0@);
            }
        }
        {
            let label = before.tasks[i].0@;
            let target = spec_append(before@, label, event@);
            before.lemma_position(i);
            self.lemma_position(i);
            assert(events_view(before.tasks[i].1@.push(event)) =~= events_view(
                before.tasks[i].1@,
            ).push(event@));
            assert forall|l: Seq<char>| self@.dom().contains(l) <==> target.dom().contains(l) by {
                if self.holds(l) {
                    let p = self.position(l);
                    assert(before.tasks[p].0@ == l);
                }
                if before.holds(l) {
                    let p = before.position(l);
                    assert(self.tasks[p].0@ == l);
                }
            }
            assert forall|l: Seq<char>| self@.dom().contains(l) implies self@[l] == target[l] by {
                let p = self.position(l);
                self.lemma_position(p);
                assert(before.tasks[p].0@ == l);
                before.lemma_position(p);
            }
            assert(self@ =~= target);
        }
    }

    proof fn lemma_new_label(&self, before: Document)
        requires
            before.wf(),
            self.tasks.len() == before.tasks.len() + 1,
            forall|k: int| 0 <= k < before.tasks.len() ==> #[trigger] self.tasks[k] == before.tasks[k],
            forall|k: int|
                0 <= k < before.tasks.len() ==> #[trigger] before.tasks[k].0@
                    != self.tasks[before.tasks.len() as int].0@,
            self.tasks[before.tasks.len() as int].1@.len() == 1,
        ensures
            self.wf(),
            self@ == spec_append(
                before@,
                self.tasks[before.tasks.len() as int].0@,
                self.tasks[before.tasks.len() as int].1@[0]@,
            ),
            self.spec_tasks() == spec_append_task(
                before.spec_tasks(),
                self.tasks[before.tasks.len() as int].0@,
                self.tasks[before.tasks.len() as int].1@[0]@,
            ),
    {
        assert(self.spec_tasks() == spec_append_task(
            before.spec_tasks(),
            self.tasks[before.tasks.len() as int].0@,
            self.tasks[before.tasks.len() as int].1@[0]@,
        )) by {
            let n = before.tasks.len() as int;
            let label = self.tasks[n].0@;
            let listed = before.spec_tasks();
            assert forall|k: int| 0 <= k < listed.len() implies (#[trigger] listed[k]).0
                != label by {
                assert(before.tasks[k].0@ != label);
            }
            assert(events_view(self.tasks[n].1@) =~= seq![self.tasks[n].1@[0]@]);
            assert(self.spec_tasks() =~= listed.push((label, seq![self.tasks[n].1@[0]@])));
        }
        let n = before.tasks.len() as int;
        let label = self.tasks[n].0@;
        let event = self.tasks[n].1@[0];
        let target = spec_append(before@, label, event@);
        assert(self.wf()) by {
            assert forall|a: int, b: int| 0 <= a < b < self.tasks.len() implies self.tasks[a].0@
                != self.tasks[b].0@ by {
                if b < n {
                    assert(before.tasks[a].0@ != before.tasks[b].0@);
                } else {
                    assert(before.tasks[a].0@ != label);
                }
            }
        }
        assert(!before.holds(label));
        self.lemma_position(n);
        assert(events_view(self.tasks[n].1@) =~= seq![event@]);
        assert forall|l: Seq<char>| self@.dom().contains(l) <==> target.dom().contains(l) by {
            if self.holds(l) {
                let p = self.position(l);
                if p < n {
                    assert(before.tasks[p].0@ == l);
                }
            }
            if before.holds(l) {
                let p = before.position(l);
                assert(self.tasks[p].0@ == l);
            }
        }
        assert forall|l: Seq<char>| self@.dom().contains(l) implies self@[l] == target[l] by {
            let p = self.position(l);
            self.lemma_position(p);
            if p < n {
                assert(before.tasks[p].0@ == l);
                before.lemma_position(p);
            }
        }
        assert(self@ =~= target);
    }
}

} // verus!
