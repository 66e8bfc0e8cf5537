//! Handing the events of a plan to the input services, one by one.
//!
//! The program that owns the services runs the loop: it asks for the next
//! event, sends it, and reports whether the service accepted it. The
//! [`Dispatch`] decides what comes next. An event that a service refuses ends
//! the dispatch: nothing that was planned after it is sent, and nothing that
//! was sent before it is taken back.

use vstd::prelude::*;

use crate::event::InputEvent;

verus! {

/// How far a dispatch has come.
#[derive(Clone, Copy, Debug, PartialEq, Eq, Hash)]
pub enum Status {
    /// An event is waiting to be sent.
    Pending,
    /// Every event was sent, and each was accepted.
    Completed,
    /// An event was refused; none after it is sent.
    Aborted,
}

/// What a dispatch is, as a value: the plan, how many of its events the
/// services have accepted, and whether the event after those was refused.
pub struct Progress {
    pub plan: Seq<InputEvent>,
    pub accepted: nat,
    pub refused: bool,
}

impl Progress {
    /// A dispatch never runs past its plan, and the event that was refused is
    /// one of the plan.
    pub open spec fn well_formed(self) -> bool {
        &&& self.accepted <= self.plan.len()
        &&& self.refused ==> self.accepted < self.plan.len()
    }

    /// The dispatch of `plan` of which nothing has been sent yet.
    pub open spec fn start(plan: Seq<InputEvent>) -> Progress {
        Progress { plan, accepted: 0, refused: false }
    }

    /// The event to send next, if there is one.
    pub open spec fn next(self) -> Option<InputEvent> {
        if !self.refused && self.accepted < self.plan.len() {
            Some(self.plan[self.accepted as int])
        } else {
            None
        }
    }

    /// The dispatch after the service has answered for the event that was
    /// waiting. Where none was waiting the answer changes nothing.
    pub open spec fn after(self, accepted: bool) -> Progress {
        if self.next() is None {
            self
        } else if accepted {
            Progress { accepted: self.accepted + 1, ..self }
        } else {
            Progress { refused: true, ..self }
        }
    }

    /// The dispatch after the services have given `answers`, one after the
    /// other.
    pub open spec fn after_all(self, answers: Seq<bool>) -> Progress
        decreases answers.len(),
    {
        if answers.len() == 0 {
            self
        } else {
            self.after(answers.first()).after_all(answers.drop_first())
        }
    }

    /// How far the dispatch has come: aborted once an event was refused,
    /// completed once every event was accepted, pending until then.
    pub open spec fn status(self) -> Status {
        if self.refused {
            Status::Aborted
        } else if self.accepted < self.plan.len() {
            Status::Pending
        } else {
            Status::Completed
        }
    }

    /// The events that were handed to the services so far, the refused one
    /// included.
    pub open spec fn sent(self) -> Seq<InputEvent> {
        if self.refused {
            self.plan.take(self.accepted as int + 1)
        } else {
            self.plan.take(self.accepted as int)
        }
    }
}

/// The supervision of one plan.
#[derive(Debug)]
pub struct Dispatch {
    events: Vec<InputEvent>,
    accepted: usize,
    refused: bool,
}

impl View for Dispatch {
    type V = Progress;

    closed spec fn view(&self) -> Progress {
        Progress { plan: self.events@, accepted: self.accepted as nat, refused: self.refused }
    }
}

impl Dispatch {
    #[verifier::type_invariant]
    spec fn inv(self) -> bool {
        self@.well_formed()
    }

    /// Starts the dispatch of `events`.
    pub fn new(events: Vec<InputEvent>) -> (dispatch: Dispatch)
        ensures
            dispatch@ == Progress::start(events@),
    {
        Dispatch { events, accepted: 0, refused: false }
    }

    /// The event to send next. `None` once every event was accepted or one was
    /// refused.
    pub fn next_event(&self) -> (event: Option<&InputEvent>)
        ensures
            self@.well_formed(),
            match event {
                Some(event) => self@.next() == Some(*event),
                None => self@.next() is None,
            },
    {
        proof {
            use_type_invariant(self);
        }
        if !self.refused && self.accepted < self.events.len() {
            Some(&self.events[self.accepted])
        } else {
            None
        }
    }

    /// Takes note of the service's answer for the event that `next_event`
    /// gave. Where no event was waiting the answer is ignored.
    pub fn acknowledge(&mut self, accepted: bool)
        ensures
            final(self)@ == old(self)@.after(accepted),
            final(self)@.well_formed(),
    {
        proof {
            use_type_invariant(&*self);
        }
        if !self.refused && self.accepted < self.events.len() {
            if accepted {
                self.accepted = self.accepted + 1;
            } else {
                self.refused = true;
            }
        }
    }

    /// How far the dispatch has come.
    pub fn status(&self) -> (status: Status)
        ensures
            self@.well_formed(),
            status == self@.status(),
    {
        proof {
            use_type_invariant(self);
        }
        if self.refused {
            Status::Aborted
        } else if self.accepted < self.events.len() {
            Status::Pending
        } else {
            Status::Completed
        }
    }

    /// The number of events that the services have accepted.
    pub fn accepted(&self) -> (count: usize)
        ensures
            self@.well_formed(),
            count == self@.accepted,
    {
        proof {
            use_type_invariant(self);
        }
        self.accepted
    }
}

/// Answers given one after the other can be given in two parts.
pub proof fn lemma_after_all_split(progress: Progress, first: Seq<bool>, second: Seq<bool>)
    ensures
        progress.after_all(first + second) == progress.after_all(first).after_all(second),
    decreases first.len(),
{
    if first.len() > 0 {
        assert((first + second).drop_first() =~= first.drop_first() + second);
        lemma_after_all_split(progress.after(first.first()), first.drop_first(), second);
    }
}

/// Whatever the services answer, a dispatch keeps its plan and stays within
/// it, never takes back an event that it has sent, and sends the events of
/// the plan in the plan's order, leaving none out.
pub proof fn lemma_dispatch_follows_plan(progress: Progress, answers: Seq<bool>)
    requires
        progress.well_formed(),
    ensures
        progress.after_all(answers).well_formed(),
        progress.after_all(answers).plan == progress.plan,
        progress.sent().is_prefix_of(progress.after_all(answers).sent()),
        progress.after_all(answers).sent().is_prefix_of(progress.plan),
        progress.after_all(answers).sent().len() <= progress.sent().len() + answers.len(),
    decreases answers.len(),
{
    if answers.len() > 0 {
        let next = progress.after(answers.first());
        lemma_dispatch_follows_plan(next, answers.drop_first());
    }
}

/// A dispatch that has completed or aborted does not move again: no answer
/// makes it send another event.
pub proof fn lemma_dispatch_settles(progress: Progress, answers: Seq<bool>)
    requires
        progress.well_formed(),
        progress.status() != Status::Pending,
    ensures
        progress.after_all(answers) == progress,
    decreases answers.len(),
{
    if answers.len() > 0 {
        lemma_dispatch_settles(progress, answers.drop_first());
    }
}

/// As long as the services accept, the dispatch sends one event of the plan
/// after the other.
pub proof fn lemma_dispatch_advances(progress: Progress, answers: Seq<bool>)
    requires
        progress.well_formed(),
        !progress.refused,
        progress.accepted + answers.len() <= progress.plan.len(),
        forall|i: int| 0 <= i < answers.len() ==> answers[i],
    ensures
        progress.after_all(answers) == (Progress {
            accepted: progress.accepted + answers.len(),
            ..progress
        }),
    decreases answers.len(),
{
    if answers.len() > 0 {
        lemma_dispatch_advances(progress.after(answers.first()), answers.drop_first());
    }
}

/// A plan of which every event is accepted is sent whole, and the dispatch
/// completes.
pub proof fn lemma_dispatch_completes(plan: Seq<InputEvent>, answers: Seq<bool>)
    requires
        plan.len() <= answers.len(),
        forall|i: int| 0 <= i < plan.len() ==> answers[i],
    ensures
        Progress::start(plan).after_all(answers).status() == Status::Completed,
        Progress::start(plan).after_all(answers).sent() == plan,
        Progress::start(plan).after_all(answers).accepted == plan.len(),
{
    let needed = answers.take(plan.len() as int);
    let spare = answers.skip(plan.len() as int);
    assert(answers =~= needed + spare);
    lemma_after_all_split(Progress::start(plan), needed, spare);
    lemma_dispatch_advances(Progress::start(plan), needed);
    lemma_dispatch_settles(Progress::start(plan).after_all(needed), spare);
}

/// The first refusal ends the dispatch. Where the event at `refused` is the
/// first that a service refuses, the events before it and that event itself
/// are all that is ever sent; whatever was planned after it is not, however
/// the services would have answered.
pub proof fn lemma_dispatch_aborts(plan: Seq<InputEvent>, answers: Seq<bool>, refused: int)
    requires
        0 <= refused < plan.len(),
        refused < answers.len(),
        !answers[refused],
        forall|i: int| 0 <= i < refused ==> answers[i],
    ensures
        Progress::start(plan).after_all(answers).status() == Status::Aborted,
        Progress::start(plan).after_all(answers).accepted == refused,
        Progress::start(plan).after_all(answers).sent() == plan.take(refused + 1),
{
    let before = answers.take(refused);
    let from = answers.skip(refused);
    assert(answers =~= before + from);
    lemma_after_all_split(Progress::start(plan), before, from);
    lemma_dispatch_advances(Progress::start(plan), before);
    let reached = Progress::start(plan).after_all(before);
    lemma_dispatch_settles(reached.after(false), from.drop_first());
}

} // verus!
