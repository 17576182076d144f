//! Evaluation pipeline: the judging of submissions, one evaluation at a
//! time per submission.
//!
//! The pipeline decides and records; its caller launches the judge, hands
//! the judge's events over one by one in the order in which they came, and
//! makes each award durable as it is returned. An evaluation goes from
//! pending to running to succeeded or failed, and stays there.

use crate::clock::ContestStatus;
use crate::clock::Timestamp;
use crate::evaluation::Awards;
use crate::evaluation::AwardValue;
use crate::evaluation::CriterionAward;
use crate::evaluation::Event;
use crate::evaluation::folded;
use crate::evaluation::folded_all;
use crate::problem::ProblemName;
use crate::store::ArchivePack;
use crate::store::ResolveError;
use crate::user::UserId;
use vstd::prelude::*;

verus! {

/// One file of a submission.
#[derive(Debug)]
pub struct SubmittedFile {
    /// The field of the submission form that the file answers.
    pub field: String,
    /// The name under which the file was handed in.
    pub name: String,
    pub content: Vec<u8>,
}

/// One attempt by one user at one problem. A new attempt is a new
/// submission: this one never changes.
#[derive(Debug)]
pub struct Submission {
    pub id: String,
    pub user: UserId,
    pub problem: ProblemName,
    pub files: Vec<SubmittedFile>,
    pub created_at: Timestamp,
}

/// Why an evaluation failed.
#[derive(Clone, Copy, Debug, PartialEq, Eq, Structural)]
pub enum FailureReason {
    /// It was cancelled on request.
    Cancelled,
    /// The judge reported a fatal error, or crashed.
    JudgeCrashed,
    /// It was still going at its deadline.
    Timeout,
}

/// Where an evaluation stands.
#[derive(Clone, Copy, Debug, PartialEq, Eq, Structural)]
pub enum EvaluationStatus {
    /// Accepted; the judge is not launched yet.
    Pending,
    /// The judge is at work.
    Running,
    /// The judge ended normally.
    Succeeded,
    /// The evaluation ended otherwise.
    Failed(FailureReason),
}

impl EvaluationStatus {
    /// Whether an evaluation in this status is over.
    pub open spec fn spec_is_terminal(self) -> bool {
        self is Succeeded || self is Failed
    }

    /// Tells whether an evaluation in this status is over.
    #[verifier::when_used_as_spec(spec_is_terminal)]
    pub fn is_terminal(self) -> (terminal: bool)
        ensures
            terminal == self.spec_is_terminal(),
    {
        match self {
            EvaluationStatus::Pending => false,
            EvaluationStatus::Running => false,
            EvaluationStatus::Succeeded => true,
            EvaluationStatus::Failed(_) => true,
        }
    }
}

/// An event, with the instant at which it was taken in.
#[derive(Debug)]
pub struct TimedEvent {
    pub at: Timestamp,
    pub event: Event,
}

/// The record of one judging of one submission.
#[derive(Debug)]
pub struct Evaluation {
    /// The identifier of the submission that is judged.
    pub submission: String,
    pub status: EvaluationStatus,
    /// The pack of the problem that the judge runs against.
    pub pack: ArchivePack,
    /// The instant from which on the evaluation counts as timed out.
    pub deadline: Timestamp,
    /// The events taken in so far, in order.
    pub events: Vec<TimedEvent>,
}

/// What an evaluation holds.
pub struct EvaluationView {
    pub submission: Seq<char>,
    pub status: EvaluationStatus,
    pub pack: Seq<char>,
    pub deadline: Timestamp,
    pub events: Seq<TimedEvent>,
}

impl View for Evaluation {
    type V = EvaluationView;

    open spec fn view(&self) -> EvaluationView {
        EvaluationView {
            submission: self.submission@,
            status: self.status,
            pack: self.pack.path@,
            deadline: self.deadline,
            events: self.events@,
        }
    }
}

/// The name by which the caller speaks of one evaluation: its place
/// among all the evaluations of the pipeline.
#[derive(Clone, Copy, Debug, PartialEq, Eq, Structural)]
pub struct EvaluationHandle {
    pub index: usize,
}

/// Why an evaluation was not started.
#[derive(Clone, Copy, Debug, PartialEq, Eq, Structural)]
pub enum StartError {
    /// The contest has not started.
    ContestNotOpen,
    /// The submission has an evaluation that is not over.
    AlreadyEvaluating,
    /// The pack of the problem could not be had.
    Archive(ResolveError),
}

/// What became of an event handed to the pipeline.
#[derive(Debug)]
pub enum Processed {
    /// The evaluation is not running: the event was dropped.
    Ignored,
    /// The event was recorded; it sets no award.
    Recorded,
    /// The event was recorded and set this award, which is now to be made
    /// durable.
    Folded(CriterionAward),
    /// The event was recorded and reports that the judge gave up: the
    /// evaluation has failed.
    Failed,
}

/// Whether the evaluation at `index` exists and is not over.
pub open spec fn is_live(evaluations: Seq<EvaluationView>, index: int) -> bool {
    0 <= index < evaluations.len() && !evaluations[index].status.spec_is_terminal()
}

/// Whether the evaluation at `index` exists and is running.
pub open spec fn is_running(evaluations: Seq<EvaluationView>, index: int) -> bool {
    0 <= index < evaluations.len() && evaluations[index].status == EvaluationStatus::Running
}

/// Whether `submission` has an evaluation that is not over.
pub open spec fn is_being_evaluated(evaluations: Seq<EvaluationView>, submission: Seq<char>) -> bool {
    exists|i: int| #[trigger] is_live(evaluations, i) && evaluations[i].submission == submission
}

/// Whether no submission has two evaluations that are not over.
pub open spec fn one_at_a_time(evaluations: Seq<EvaluationView>) -> bool {
    forall|i: int, j: int|
        #[trigger] is_live(evaluations, i) && #[trigger] is_live(evaluations, j) && evaluations[i].submission
            == evaluations[j].submission ==> i == j
}

/// Why a start is refused, if it is: the contest must have started, the
/// submission must have no evaluation that is not over, and the pack must
/// have been had; what fails first in this order is the reason.
pub open spec fn start_refusal(
    evaluations: Seq<EvaluationView>,
    submission: Seq<char>,
    contest: ContestStatus,
    pack: Result<ArchivePack, ResolveError>,
) -> Option<StartError> {
    if !contest.spec_exposes_problems() {
        Some(StartError::ContestNotOpen)
    } else if is_being_evaluated(evaluations, submission) {
        Some(StartError::AlreadyEvaluating)
    } else {
        match pack {
            Ok(_) => None,
            Err(error) => Some(StartError::Archive(error)),
        }
    }
}

/// The evaluations with that at `index` moved to `status`.
pub open spec fn with_status(evaluations: Seq<EvaluationView>, index: int, status: EvaluationStatus) -> Seq<
    EvaluationView,
> {
    evaluations.update(index, EvaluationView { status, ..evaluations[index] })
}

/// The evaluations after a start was accepted: a pending one is added.
pub open spec fn after_start(
    evaluations: Seq<EvaluationView>,
    submission: Seq<char>,
    pack: Seq<char>,
    deadline: Timestamp,
) -> Seq<EvaluationView> {
    evaluations.push(
        EvaluationView {
            submission,
            status: EvaluationStatus::Pending,
            pack,
            deadline,
            events: Seq::empty(),
        },
    )
}

/// The evaluations after the judge was launched for that at `index`: a
/// pending one is running, anything else is as it was.
pub open spec fn after_launch(evaluations: Seq<EvaluationView>, index: int) -> Seq<EvaluationView> {
    if 0 <= index < evaluations.len() && evaluations[index].status == EvaluationStatus::Pending {
        with_status(evaluations, index, EvaluationStatus::Running)
    } else {
        evaluations
    }
}

/// The evaluations after `event` arrived at `at` for that at `index`: a
/// running one records it, and has failed if the event is fatal; anything
/// else is as it was.
pub open spec fn after_event(evaluations: Seq<EvaluationView>, index: int, at: Timestamp, event: Event) -> Seq<
    EvaluationView,
> {
    if is_running(evaluations, index) {
        evaluations.update(
            index,
            EvaluationView {
                status: if event.spec_is_fatal() {
                    EvaluationStatus::Failed(FailureReason::JudgeCrashed)
                } else {
                    EvaluationStatus::Running
                },
                events: evaluations[index].events.push(TimedEvent { at, event }),
                ..evaluations[index]
            },
        )
    } else {
        evaluations
    }
}

/// The awards after `event` arrived for the evaluation at `index`: folded in
/// if the evaluation is running, as they were if not.
pub open spec fn awards_after_event(
    evaluations: Seq<EvaluationView>,
    index: int,
    event: Event,
    awards: Map<Seq<char>, AwardValue>,
) -> Map<Seq<char>, AwardValue> {
    if is_running(evaluations, index) {
        folded(awards, event)
    } else {
        awards
    }
}

/// The evaluations after the judge ended normally for that at `index`: a
/// running one has succeeded, anything else is as it was.
pub open spec fn after_completion(evaluations: Seq<EvaluationView>, index: int) -> Seq<EvaluationView> {
    if is_running(evaluations, index) {
        with_status(evaluations, index, EvaluationStatus::Succeeded)
    } else {
        evaluations
    }
}

/// The evaluations after that at `index` was given up for `reason`: one
/// that was not over has failed, anything else is as it was.
pub open spec fn after_failure(evaluations: Seq<EvaluationView>, index: int, reason: FailureReason) -> Seq<
    EvaluationView,
> {
    if is_live(evaluations, index) {
        with_status(evaluations, index, EvaluationStatus::Failed(reason))
    } else {
        evaluations
    }
}

/// The evaluations after `events` arrived at `at`, one after the other,
/// for that at `index`.
pub open spec fn after_events(evaluations: Seq<EvaluationView>, index: int, at: Timestamp, events: Seq<Event>) -> Seq<
    EvaluationView,
>
    decreases events.len(),
{
    if events.len() == 0 {
        evaluations
    } else {
        after_event(after_events(evaluations, index, at, events.drop_last()), index, at, events.last())
    }
}

/// The awards after `events` arrived, one after the other, for the
/// evaluation at `index`.
pub open spec fn awards_after_events(
    evaluations: Seq<EvaluationView>,
    index: int,
    at: Timestamp,
    events: Seq<Event>,
    awards: Map<Seq<char>, AwardValue>,
) -> Map<Seq<char>, AwardValue>
    decreases events.len(),
{
    if events.len() == 0 {
        awards
    } else {
        awards_after_event(
            after_events(evaluations, index, at, events.drop_last()),
            index,
            events.last(),
            awards_after_events(evaluations, index, at, events.drop_last(), awards),
        )
    }
}

/// The awards that were set, in order, as `events` arrived one after the
/// other for the evaluation at `index`: those of the events that found it
/// running.
pub open spec fn awards_set_by(evaluations: Seq<EvaluationView>, index: int, at: Timestamp, events: Seq<Event>) -> Seq<
    (Seq<char>, AwardValue),
>
    decreases events.len(),
{
    if events.len() == 0 {
        Seq::empty()
    } else if is_running(after_events(evaluations, index, at, events.drop_last()), index) && events.last().award()
        is Some {
        awards_set_by(evaluations, index, at, events.drop_last()).push(events.last().award()->Some_0)
    } else {
        awards_set_by(evaluations, index, at, events.drop_last())
    }
}

/// Whether `set` holds the awards `expected`, one for one and in order.
pub open spec fn holds_awards(set: Seq<CriterionAward>, expected: Seq<(Seq<char>, AwardValue)>) -> bool {
    set.len() == expected.len() && forall|i: int|
        0 <= i < set.len() ==> (#[trigger] set[i]).criterion@ == expected[i].0 && set[i].value == expected[i].1
}

/// Whether the evaluation at `index` is not over at `now` though its
/// deadline has come.
pub open spec fn is_overdue(evaluations: Seq<EvaluationView>, index: int, now: Timestamp) -> bool {
    is_live(evaluations, index) && !now.spec_is_before(evaluations[index].deadline)
}

/// The views of `evaluations`, in order.
pub open spec fn views_of(evaluations: Seq<Evaluation>) -> Seq<EvaluationView> {
    evaluations.map_values(|evaluation: Evaluation| evaluation@)
}

/// The evaluations of all submissions, in the order in which they were
/// started.
#[derive(Debug)]
pub struct EvaluationPipeline {
    evaluations: Vec<Evaluation>,
}

impl View for EvaluationPipeline {
    type V = Seq<EvaluationView>;

    closed spec fn view(&self) -> Seq<EvaluationView> {
        views_of(self.evaluations@)
    }
}

/// Moves the evaluation at `index` to `status`.
fn move_to(evaluations: &mut Vec<Evaluation>, index: usize, status: EvaluationStatus)
    requires
        index < old(evaluations)@.len(),
    ensures
        views_of(final(evaluations)@) == with_status(views_of(old(evaluations)@), index as int, status),
{
    evaluations[index].status = status;
    assert(views_of(evaluations@) =~= with_status(views_of(old(evaluations)@), index as int, status));
}

/// Moving an evaluation on, from pending to running or to an end, keeps
/// every submission at one evaluation at a time.
proof fn lemma_moving_on_keeps_one_at_a_time(
    evaluations: Seq<EvaluationView>,
    index: int,
    status: EvaluationStatus,
)
    requires
        one_at_a_time(evaluations),
        is_live(evaluations, index),
    ensures
        one_at_a_time(with_status(evaluations, index, status)),
{
    let moved = with_status(evaluations, index, status);
    assert forall|i: int, j: int|
        #[trigger] is_live(moved, i) && #[trigger] is_live(moved, j) && moved[i].submission
            == moved[j].submission implies i == j by {
        assert(is_live(evaluations, i));
        assert(is_live(evaluations, j));
    }
}

impl EvaluationPipeline {
    #[verifier::type_invariant]
    spec fn one_evaluation_at_a_time(self) -> bool {
        one_at_a_time(views_of(self.evaluations@))
    }

    /// A pipeline with no evaluations.
    pub fn new() -> (pipeline: EvaluationPipeline)
        ensures
            pipeline@ == Seq::<EvaluationView>::empty(),
    {
        let pipeline = EvaluationPipeline { evaluations: Vec::new() };
        assert(pipeline@ =~= Seq::<EvaluationView>::empty());
        pipeline
    }

    /// The number of evaluations started so far; and no submission has two
    /// of them that are not over.
    pub fn len(&self) -> (count: usize)
        ensures
            count == self@.len(),
            one_at_a_time(self@),
    {
        proof {
            use_type_invariant(self);
        }
        self.evaluations.len()
    }

    /// Tells whether `submission` has an evaluation that is not over.
    pub fn is_evaluating(&self, submission: &Submission) -> (evaluating: bool)
        ensures
            evaluating == is_being_evaluated(self@, submission.id@),
    {
        let mut i: usize = 0;
        while i < self.evaluations.len()
            invariant
                i <= self.evaluations.len(),
                forall|k: int|
                    0 <= k < i ==> !(#[trigger] is_live(views_of(self.evaluations@), k) && views_of(
                        self.evaluations@,
                    )[k].submission == submission.id@),
            decreases self.evaluations.len() - i,
        {
            if !self.evaluations[i].status.is_terminal() && self.evaluations[i].submission == submission.id {
                assert(is_live(self@, i as int) && self@[i as int].submission == submission.id@);
                return true;
            }
            i += 1;
        }
        false
    }

    /// Starts an evaluation of `submission`, where `contest` is the status
    /// of the contest now, `pack` is what resolving the archive of the
    /// submission's problem gave, and `deadline` is the instant from which
    /// on the evaluation counts as timed out.
    ///
    /// The start is refused with `ContestNotOpen` before the contest has
    /// started, else with `AlreadyEvaluating` while the submission has an
    /// evaluation that is not over, else with the error of `pack` if it is
    /// one; the pipeline is then as it was. Otherwise a pending evaluation
    /// is added, and its handle returned. The judge is then for the caller
    /// to launch.
    pub fn start(
        &mut self,
        submission: &Submission,
        contest: ContestStatus,
        pack: Result<ArchivePack, ResolveError>,
        deadline: Timestamp,
    ) -> (started: Result<EvaluationHandle, StartError>)
        ensures
            match start_refusal(old(self)@, submission.id@, contest, pack) {
                Some(error) => started == Err::<EvaluationHandle, StartError>(error) && final(self)@ == old(
                    self,
                )@,
                None => started == Ok::<EvaluationHandle, StartError>(
                    EvaluationHandle { index: old(self)@.len() as usize },
                ) && final(self)@ == after_start(old(self)@, submission.id@, pack->Ok_0.path@, deadline),
            },
            started matches Ok(handle) ==> handle.index == old(self)@.len(),
    {
        proof {
            use_type_invariant(&*self);
        }
        if !contest.exposes_problems() {
            return Err(StartError::ContestNotOpen);
        }
        if self.is_evaluating(submission) {
            return Err(StartError::AlreadyEvaluating);
        }
        match pack {
            Err(error) => Err(StartError::Archive(error)),
            Ok(pack) => {
                let index = self.evaluations.len();
                let evaluation = Evaluation {
                    submission: submission.id.clone(),
                    status: EvaluationStatus::Pending,
                    pack,
                    deadline,
                    events: Vec::new(),
                };
                let ghost before = views_of(self.evaluations@);
                let mut evaluations: Vec<Evaluation> = Vec::new();
                core::mem::swap(&mut self.evaluations, &mut evaluations);
                assert(views_of(self.evaluations@) =~= Seq::<EvaluationView>::empty());
                evaluations.push(evaluation);
                proof {
                    let after = after_start(before, submission.id@, pack.path@, deadline);
                    assert(views_of(evaluations@) =~= after);
                    assert forall|i: int, j: int|
                        #[trigger] is_live(after, i) && #[trigger] is_live(after, j) && after[i].submission
                            == after[j].submission implies i == j by {
                        if i < before.len() {
                            assert(is_live(before, i));
                        }
                        if j < before.len() {
                            assert(is_live(before, j));
                        }
                    }
                }
                core::mem::swap(&mut self.evaluations, &mut evaluations);
                Ok(EvaluationHandle { index })
            },
        }
    }

    /// Records that the judge was launched for `handle`: a pending
    /// evaluation is now running. Returns whether that was so; if not,
    /// nothing has changed.
    pub fn launched(&mut self, handle: EvaluationHandle) -> (moved: bool)
        ensures
            final(self)@ == after_launch(old(self)@, handle.index as int),
            moved == (handle.index < old(self)@.len() && old(self)@[handle.index as int].status
                == EvaluationStatus::Pending),
    {
        proof {
            use_type_invariant(&*self);
        }
        if handle.index < self.evaluations.len() && self.evaluations[handle.index].status
            == EvaluationStatus::Pending {
            proof {
                lemma_moving_on_keeps_one_at_a_time(self@, handle.index as int, EvaluationStatus::Running);
            }
            let mut evaluations: Vec<Evaluation> = Vec::new();
            core::mem::swap(&mut self.evaluations, &mut evaluations);
            assert(views_of(self.evaluations@) =~= Seq::<EvaluationView>::empty());
            move_to(&mut evaluations, handle.index, EvaluationStatus::Running);
            core::mem::swap(&mut self.evaluations, &mut evaluations);
            true
        } else {
            false
        }
    }

    /// Takes in `event`, which the judge emitted for `handle` and which
    /// arrived at `at`, and folds it into `awards`, the current awards of
    /// the submission's user on its problem.
    ///
    /// While the evaluation is running, the event is recorded after those
    /// before it and folded in; a fatal event also fails the evaluation,
    /// with `JudgeCrashed`. An event for an evaluation that is not running
    /// is dropped: neither the evaluation nor the awards change.
    pub fn process(&mut self, handle: EvaluationHandle, at: Timestamp, event: Event, awards: &mut Awards) -> (done:
        Processed)
        ensures
            final(self)@ == after_event(old(self)@, handle.index as int, at, event),
            final(awards)@ == awards_after_event(old(self)@, handle.index as int, event, old(awards)@),
            !is_running(old(self)@, handle.index as int) ==> done is Ignored,
            is_running(old(self)@, handle.index as int) ==> match event.award() {
                Some(set) => done matches Processed::Folded(award) && award.criterion@ == set.0 && award.value
                    == set.1,
                None => if event.spec_is_fatal() {
                    done is Failed
                } else {
                    done is Recorded
                },
            },
    {
        proof {
            use_type_invariant(&*self);
        }
        if !(handle.index < self.evaluations.len() && self.evaluations[handle.index].status
            == EvaluationStatus::Running) {
            return Processed::Ignored;
        }
        let fatal = event.is_fatal();
        let set = awards.fold(&event);
        let ghost before = views_of(self.evaluations@);
        let mut evaluations: Vec<Evaluation> = Vec::new();
        core::mem::swap(&mut self.evaluations, &mut evaluations);
        assert(views_of(self.evaluations@) =~= Seq::<EvaluationView>::empty());
        evaluations[handle.index].events.push(TimedEvent { at, event });
        if fatal {
            evaluations[handle.index].status = EvaluationStatus::Failed(FailureReason::JudgeCrashed);
        }
        proof {
            let after = after_event(before, handle.index as int, at, event);
            assert(views_of(evaluations@) =~= after);
            assert forall|i: int, j: int|
                #[trigger] is_live(after, i) && #[trigger] is_live(after, j) && after[i].submission
                    == after[j].submission implies i == j by {
                assert(is_live(before, i));
                assert(is_live(before, j));
            }
        }
        core::mem::swap(&mut self.evaluations, &mut evaluations);
        match set {
            Some(award) => Processed::Folded(award),
            None => if fatal {
                Processed::Failed
            } else {
                Processed::Recorded
            },
        }
    }

    /// Records that the judge ended normally for `handle`: a running
    /// evaluation has now succeeded. Returns whether that was so; if not,
    /// nothing has changed.
    pub fn complete(&mut self, handle: EvaluationHandle) -> (moved: bool)
        ensures
            final(self)@ == after_completion(old(self)@, handle.index as int),
            moved == is_running(old(self)@, handle.index as int),
    {
        proof {
            use_type_invariant(&*self);
        }
        if handle.index < self.evaluations.len() && self.evaluations[handle.index].status
            == EvaluationStatus::Running {
            proof {
                lemma_moving_on_keeps_one_at_a_time(self@, handle.index as int, EvaluationStatus::Succeeded);
            }
            let mut evaluations: Vec<Evaluation> = Vec::new();
            core::mem::swap(&mut self.evaluations, &mut evaluations);
            assert(views_of(self.evaluations@) =~= Seq::<EvaluationView>::empty());
            move_to(&mut evaluations, handle.index, EvaluationStatus::Succeeded);
            core::mem::swap(&mut self.evaluations, &mut evaluations);
            true
        } else {
            false
        }
    }

    /// Gives the evaluation of `handle` up for `reason`: if it was not
    /// over, it has now failed with that reason. What was folded before
    /// stays folded. Returns whether the evaluation was not over; if it
    /// was, nothing has changed.
    pub fn fail(&mut self, handle: EvaluationHandle, reason: FailureReason) -> (moved: bool)
        ensures
            final(self)@ == after_failure(old(self)@, handle.index as int, reason),
            moved == is_live(old(self)@, handle.index as int),
    {
        proof {
            use_type_invariant(&*self);
        }
        if handle.index < self.evaluations.len() && !self.evaluations[handle.index].status.is_terminal() {
            proof {
                lemma_moving_on_keeps_one_at_a_time(
                    self@,
                    handle.index as int,
                    EvaluationStatus::Failed(reason),
                );
            }
            let mut evaluations: Vec<Evaluation> = Vec::new();
            core::mem::swap(&mut self.evaluations, &mut evaluations);
            assert(views_of(self.evaluations@) =~= Seq::<EvaluationView>::empty());
            move_to(&mut evaluations, handle.index, EvaluationStatus::Failed(reason));
            core::mem::swap(&mut self.evaluations, &mut evaluations);
            true
        } else {
            false
        }
    }

    /// Cancels the evaluation of `handle`: if it was not over, it has now
    /// failed with `Cancelled`, and the judge is for the caller to stop.
    /// Returns whether the evaluation was not over.
    pub fn cancel(&mut self, handle: EvaluationHandle) -> (moved: bool)
        ensures
            final(self)@ == after_failure(old(self)@, handle.index as int, FailureReason::Cancelled),
            moved == is_live(old(self)@, handle.index as int),
    {
        self.fail(handle, FailureReason::Cancelled)
    }

    /// Holds the evaluation of `handle` to its deadline: if it is not over
    /// at `now` though its deadline has come, it has now failed with
    /// `Timeout`. Returns whether that was so; if not, nothing has changed.
    pub fn check_deadline(&mut self, handle: EvaluationHandle, now: Timestamp) -> (moved: bool)
        ensures
            moved == is_overdue(old(self)@, handle.index as int, now),
            moved ==> final(self)@ == after_failure(old(self)@, handle.index as int, FailureReason::Timeout),
            !moved ==> final(self)@ == old(self)@,
    {
        if handle.index < self.evaluations.len() && !self.evaluations[handle.index].status.is_terminal()
            && !now.is_before(self.evaluations[handle.index].deadline) {
            self.fail(handle, FailureReason::Timeout)
        } else {
            false
        }
    }

    /// The status of the evaluation of `handle`, if there is one.
    pub fn status(&self, handle: EvaluationHandle) -> (status: Option<EvaluationStatus>)
        ensures
            status == if handle.index < self@.len() {
                Some(self@[handle.index as int].status)
            } else {
                None
            },
    {
        if handle.index < self.evaluations.len() {
            Some(self.evaluations[handle.index].status)
        } else {
            None
        }
    }

    /// The evaluation of `handle`, if there is one: its status, its pack
    /// and its events so far, in order.
    pub fn evaluation(&self, handle: EvaluationHandle) -> (evaluation: Option<&Evaluation>)
        ensures
            evaluation is Some <==> handle.index < self@.len(),
            evaluation matches Some(found) ==> found@ == self@[handle.index as int],
    {
        if handle.index < self.evaluations.len() {
            Some(&self.evaluations[handle.index])
        } else {
            None
        }
    }
}

/// One evaluation at a time: once a start was accepted for a submission,
/// a second start for it is refused with `AlreadyEvaluating` while the
/// first evaluation is pending and while it is running; and when the first
/// has succeeded or failed, a start for the submission is accepted again.
pub proof fn lemma_second_start_waits_for_the_first(
    evaluations: Seq<EvaluationView>,
    submission: Seq<char>,
    first_pack: Seq<char>,
    deadline: Timestamp,
    contest: ContestStatus,
    pack: Result<ArchivePack, ResolveError>,
    reason: FailureReason,
)
    requires
        contest.spec_exposes_problems(),
        !is_being_evaluated(evaluations, submission),
    ensures
        ({
            let first = evaluations.len() as int;
            let pending = after_start(evaluations, submission, first_pack, deadline);
            let running = after_launch(pending, first);
            &&& start_refusal(pending, submission, contest, pack) == Some(StartError::AlreadyEvaluating)
            &&& start_refusal(running, submission, contest, pack) == Some(StartError::AlreadyEvaluating)
            &&& pack is Ok ==> start_refusal(after_completion(running, first), submission, contest, pack) is None
            &&& pack is Ok ==> start_refusal(after_failure(running, first, reason), submission, contest, pack) is None
            &&& pack is Ok ==> start_refusal(after_failure(pending, first, reason), submission, contest, pack) is None
        }),
{
    let first = evaluations.len() as int;
    let pending = after_start(evaluations, submission, first_pack, deadline);
    let running = after_launch(pending, first);
    assert(is_live(pending, first) && pending[first].submission == submission);
    assert(is_live(running, first) && running[first].submission == submission);
    let succeeded = after_completion(running, first);
    let failed = after_failure(running, first, reason);
    let given_up = after_failure(pending, first, reason);
    assert forall|i: int| #[trigger] is_live(succeeded, i) implies succeeded[i].submission != submission by {
        assert(is_live(evaluations, i));
    }
    assert forall|i: int| #[trigger] is_live(failed, i) implies failed[i].submission != submission by {
        assert(is_live(evaluations, i));
    }
    assert forall|i: int| #[trigger] is_live(given_up, i) implies given_up[i].submission != submission by {
        assert(is_live(evaluations, i));
    }
}

/// An evaluation that is over stays as it is: neither a launch, an event,
/// a normal end, a failure nor a deadline changes it, and an event that
/// arrives for it leaves the awards as they are.
pub proof fn lemma_terminal_status_is_final(
    evaluations: Seq<EvaluationView>,
    index: int,
    at: Timestamp,
    event: Event,
    reason: FailureReason,
    awards: Map<Seq<char>, AwardValue>,
)
    requires
        0 <= index < evaluations.len(),
        evaluations[index].status.spec_is_terminal(),
    ensures
        after_launch(evaluations, index) == evaluations,
        after_event(evaluations, index, at, event) == evaluations,
        awards_after_event(evaluations, index, event, awards) == awards,
        after_completion(evaluations, index) == evaluations,
        after_failure(evaluations, index, reason) == evaluations,
        !is_overdue(evaluations, index, at),
{
}

/// Cancelling keeps what was folded and folds no more: an evaluation that
/// is cancelled while it is not over has failed with `Cancelled` and holds
/// the events that it held; an event that arrives for it afterwards is not
/// recorded and leaves the awards as they are.
pub proof fn lemma_cancelled_evaluation_folds_no_more(
    evaluations: Seq<EvaluationView>,
    index: int,
    at: Timestamp,
    event: Event,
    awards: Map<Seq<char>, AwardValue>,
)
    requires
        is_live(evaluations, index),
    ensures
        ({
            let cancelled = after_failure(evaluations, index, FailureReason::Cancelled);
            &&& cancelled[index].status == EvaluationStatus::Failed(FailureReason::Cancelled)
            &&& cancelled[index].events == evaluations[index].events
            &&& after_event(cancelled, index, at, event) == cancelled
            &&& awards_after_event(cancelled, index, event, awards) == awards
        }),
{
}

/// Every step keeps every submission at one evaluation at a time.
pub proof fn lemma_steps_keep_one_at_a_time(
    evaluations: Seq<EvaluationView>,
    index: int,
    at: Timestamp,
    event: Event,
    reason: FailureReason,
    submission: Seq<char>,
    pack: Seq<char>,
    deadline: Timestamp,
)
    requires
        one_at_a_time(evaluations),
    ensures
        !is_being_evaluated(evaluations, submission) ==> one_at_a_time(
            after_start(evaluations, submission, pack, deadline),
        ),
        one_at_a_time(after_launch(evaluations, index)),
        one_at_a_time(after_event(evaluations, index, at, event)),
        one_at_a_time(after_completion(evaluations, index)),
        one_at_a_time(after_failure(evaluations, index, reason)),
{
    if !is_being_evaluated(evaluations, submission) {
        let after = after_start(evaluations, submission, pack, deadline);
        assert forall|i: int, j: int|
            #[trigger] is_live(after, i) && #[trigger] is_live(after, j) && after[i].submission
                == after[j].submission implies i == j by {
            if i < evaluations.len() {
                assert(is_live(evaluations, i));
            }
            if j < evaluations.len() {
                assert(is_live(evaluations, j));
            }
        }
    }
    if is_live(evaluations, index) {
        lemma_moving_on_keeps_one_at_a_time(evaluations, index, EvaluationStatus::Running);
        lemma_moving_on_keeps_one_at_a_time(evaluations, index, EvaluationStatus::Succeeded);
        lemma_moving_on_keeps_one_at_a_time(evaluations, index, EvaluationStatus::Failed(reason));
    }
    let after = after_event(evaluations, index, at, event);
    assert forall|i: int, j: int|
        #[trigger] is_live(after, i) && #[trigger] is_live(after, j) && after[i].submission
            == after[j].submission implies i == j by {
        assert(is_live(evaluations, i));
        assert(is_live(evaluations, j));
    }
}

/// Judges in one go: takes in `events`, the whole of what the judge emitted
/// for `handle`, in order and all at `at`, folds them into `awards`, and
/// records that the judge ended normally. Events that find the evaluation
/// not running, as all do that come after a fatal one, are dropped. Returns
/// the awards that were set, in order.
pub fn evaluate(
    pipeline: &mut EvaluationPipeline,
    handle: EvaluationHandle,
    at: Timestamp,
    events: &Vec<Event>,
    awards: &mut Awards,
) -> (set: Vec<CriterionAward>)
    ensures
        final(pipeline)@ == after_completion(
            after_events(old(pipeline)@, handle.index as int, at, events@),
            handle.index as int,
        ),
        final(awards)@ == awards_after_events(old(pipeline)@, handle.index as int, at, events@, old(awards)@),
        holds_awards(set@, awards_set_by(old(pipeline)@, handle.index as int, at, events@)),
{
    let mut set: Vec<CriterionAward> = Vec::new();
    let mut i: usize = 0;
    while i < events.len()
        invariant
            i <= events.len(),
            pipeline@ == after_events(old(pipeline)@, handle.index as int, at, events@.take(i as int)),
            awards@ == awards_after_events(
                old(pipeline)@,
                handle.index as int,
                at,
                events@.take(i as int),
                old(awards)@,
            ),
            holds_awards(set@, awards_set_by(old(pipeline)@, handle.index as int, at, events@.take(i as int))),
        decreases events.len() - i,
    {
        proof {
            assert(events@.take(i + 1).drop_last() =~= events@.take(i as int));
            assert(events@.take(i + 1).last() == events@[i as int]);
        }
        match pipeline.process(handle, at, events[i].clone(), awards) {
            Processed::Folded(award) => {
                set.push(award);
            },
            Processed::Recorded => {},
            Processed::Failed => {},
            Processed::Ignored => {},
        }
        i += 1;
    }
    assert(events@.take(i as int) =~= events@);
    pipeline.complete(handle);
    set
}

/// A running evaluation folds every event of a judge that does not give
/// up: its awards end as the events, folded in order, leave them, and when
/// the judge has ended it has succeeded.
pub proof fn lemma_running_evaluation_folds_every_event(
    evaluations: Seq<EvaluationView>,
    index: int,
    at: Timestamp,
    events: Seq<Event>,
    awards: Map<Seq<char>, AwardValue>,
)
    requires
        is_running(evaluations, index),
        forall|i: int| 0 <= i < events.len() ==> !(#[trigger] events[i]).spec_is_fatal(),
    ensures
        is_running(after_events(evaluations, index, at, events), index),
        awards_after_events(evaluations, index, at, events, awards) == folded_all(awards, events),
        after_completion(after_events(evaluations, index, at, events), index)[index].status
            == EvaluationStatus::Succeeded,
    decreases events.len(),
{
    if events.len() > 0 {
        let rest = events.drop_last();
        assert forall|i: int| 0 <= i < rest.len() implies !(#[trigger] rest[i]).spec_is_fatal() by {
            assert(!events[i].spec_is_fatal());
        }
        lemma_running_evaluation_folds_every_event(evaluations, index, at, rest, awards);
        assert(!events[events.len() - 1].spec_is_fatal());
    }
}

} // verus!
