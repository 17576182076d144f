use turingarena::award::AwardName;
use turingarena::clock::ContestStatus;
use turingarena::clock::Timestamp;
use turingarena::evaluation::AwardValue;
use turingarena::evaluation::Awards;
use turingarena::evaluation::Event;
use turingarena::evaluation::ScoreAward;
use turingarena::pipeline::evaluate;
use turingarena::pipeline::EvaluationHandle;
use turingarena::pipeline::EvaluationPipeline;
use turingarena::pipeline::EvaluationStatus;
use turingarena::pipeline::FailureReason;
use turingarena::pipeline::Processed;
use turingarena::pipeline::StartError;
use turingarena::pipeline::Submission;
use turingarena::problem::ProblemName;
use turingarena::score::Score;
use turingarena::store::ArchivePack;
use turingarena::store::ResolveError;
use turingarena::user::UserId;

fn at(seconds: i64) -> Timestamp {
    Timestamp { seconds, nanos: 0 }
}

fn submission(id: &str) -> Submission {
    Submission {
        id: id.to_owned(),
        user: UserId("alice".to_owned()),
        problem: ProblemName("sum".to_owned()),
        files: vec![],
        created_at: at(10),
    }
}

fn pack() -> Result<ArchivePack, ResolveError> {
    Ok(ArchivePack { path: "problem/abc".to_owned() })
}

fn score_event(criterion: &str, points: u32) -> Event {
    Event::Score { criterion: AwardName(criterion.to_owned()), score: Score::from_points(points) }
}

fn scored(points: u32) -> Option<AwardValue> {
    Some(AwardValue::Score(ScoreAward { score: Score::from_points(points) }))
}

fn name(text: &str) -> AwardName {
    AwardName(text.to_owned())
}

fn running(pipeline: &mut EvaluationPipeline, id: &str) -> EvaluationHandle {
    let handle = pipeline.start(&submission(id), ContestStatus::Running, pack(), at(1_000)).expect("it starts");
    assert!(pipeline.launched(handle));
    handle
}

#[test]
fn an_evaluation_goes_from_pending_to_running_to_succeeded() {
    let mut pipeline = EvaluationPipeline::new();
    assert_eq!(pipeline.len(), 0);
    let handle = pipeline.start(&submission("s1"), ContestStatus::Running, pack(), at(1_000)).expect("it starts");
    assert_eq!(handle, EvaluationHandle { index: 0 });
    assert_eq!(pipeline.len(), 1);
    assert_eq!(pipeline.status(handle), Some(EvaluationStatus::Pending));
    assert!(pipeline.launched(handle));
    assert_eq!(pipeline.status(handle), Some(EvaluationStatus::Running));
    assert!(pipeline.complete(handle));
    assert_eq!(pipeline.status(handle), Some(EvaluationStatus::Succeeded));
    let evaluation = pipeline.evaluation(handle).expect("it is there");
    assert_eq!(evaluation.submission, "s1");
    assert_eq!(evaluation.pack.path, "problem/abc");
    assert_eq!(evaluation.deadline, at(1_000));
    assert!(evaluation.events.is_empty());
}

#[test]
fn a_second_start_is_refused_until_the_first_evaluation_is_over() {
    let mut pipeline = EvaluationPipeline::new();
    let first = pipeline.start(&submission("s1"), ContestStatus::Running, pack(), at(1_000)).expect("it starts");
    assert!(pipeline.is_evaluating(&submission("s1")));
    assert_eq!(
        pipeline.start(&submission("s1"), ContestStatus::Running, pack(), at(1_000)),
        Err(StartError::AlreadyEvaluating)
    );
    assert!(pipeline.launched(first));
    assert_eq!(
        pipeline.start(&submission("s1"), ContestStatus::Ended, pack(), at(1_000)),
        Err(StartError::AlreadyEvaluating)
    );
    assert_eq!(pipeline.len(), 1);
    assert!(pipeline.complete(first));
    assert!(!pipeline.is_evaluating(&submission("s1")));
    let second = pipeline.start(&submission("s1"), ContestStatus::Running, pack(), at(2_000));
    assert_eq!(second, Ok(EvaluationHandle { index: 1 }));
    assert_eq!(pipeline.status(first), Some(EvaluationStatus::Succeeded));
    assert_eq!(pipeline.status(EvaluationHandle { index: 1 }), Some(EvaluationStatus::Pending));
}

#[test]
fn a_start_is_accepted_again_after_a_failure() {
    let mut pipeline = EvaluationPipeline::new();
    let first = running(&mut pipeline, "s1");
    assert!(pipeline.fail(first, FailureReason::JudgeCrashed));
    assert_eq!(pipeline.status(first), Some(EvaluationStatus::Failed(FailureReason::JudgeCrashed)));
    assert!(pipeline.start(&submission("s1"), ContestStatus::Running, pack(), at(1_000)).is_ok());
}

#[test]
fn submissions_are_evaluated_side_by_side() {
    let mut pipeline = EvaluationPipeline::new();
    let first = running(&mut pipeline, "s1");
    let second = running(&mut pipeline, "s2");
    assert_eq!(second, EvaluationHandle { index: 1 });
    assert!(pipeline.complete(second));
    assert_eq!(pipeline.status(first), Some(EvaluationStatus::Running));
    assert_eq!(pipeline.status(second), Some(EvaluationStatus::Succeeded));
}

#[test]
fn no_evaluation_starts_before_the_contest() {
    let mut pipeline = EvaluationPipeline::new();
    assert_eq!(
        pipeline.start(&submission("s1"), ContestStatus::NotStarted, pack(), at(1_000)),
        Err(StartError::ContestNotOpen)
    );
    assert_eq!(pipeline.len(), 0);
    assert!(pipeline.start(&submission("s1"), ContestStatus::Ended, pack(), at(1_000)).is_ok());
}

#[test]
fn no_evaluation_starts_without_the_pack() {
    let mut pipeline = EvaluationPipeline::new();
    assert_eq!(
        pipeline.start(&submission("s1"), ContestStatus::Running, Err(ResolveError::NotFound), at(1_000)),
        Err(StartError::Archive(ResolveError::NotFound))
    );
    assert_eq!(
        pipeline.start(&submission("s1"), ContestStatus::Running, Err(ResolveError::CorruptArchive), at(1_000)),
        Err(StartError::Archive(ResolveError::CorruptArchive))
    );
    assert_eq!(pipeline.len(), 0);
}

#[test]
fn the_reasons_to_refuse_a_start_come_in_order() {
    let mut pipeline = EvaluationPipeline::new();
    running(&mut pipeline, "s1");
    assert_eq!(
        pipeline.start(&submission("s1"), ContestStatus::NotStarted, Err(ResolveError::NotFound), at(1_000)),
        Err(StartError::ContestNotOpen)
    );
    assert_eq!(
        pipeline.start(&submission("s1"), ContestStatus::Running, Err(ResolveError::NotFound), at(1_000)),
        Err(StartError::AlreadyEvaluating)
    );
}

#[test]
fn events_are_recorded_and_folded_in_order() {
    let mut pipeline = EvaluationPipeline::new();
    let mut awards = Awards::new();
    let handle = running(&mut pipeline, "s1");
    match pipeline.process(handle, at(11), score_event("A", 30), &mut awards) {
        Processed::Folded(award) => {
            assert_eq!(award.criterion.0, "A");
            assert_eq!(Some(award.value), scored(30));
        }
        other => panic!("not folded: {:?}", other),
    }
    assert!(matches!(
        pipeline.process(handle, at(12), Event::Message { text: "half way".to_owned() }, &mut awards),
        Processed::Recorded
    ));
    assert!(matches!(pipeline.process(handle, at(13), score_event("A", 45), &mut awards), Processed::Folded(_)));
    assert_eq!(awards.get(&name("A")), scored(45));
    assert_eq!(awards.len(), 1);
    let evaluation = pipeline.evaluation(handle).expect("it is there");
    assert_eq!(evaluation.events.len(), 3);
    assert_eq!(evaluation.events[0].at, at(11));
    assert_eq!(evaluation.events[2].at, at(13));
    assert!(matches!(&evaluation.events[1].event, Event::Message { text } if text == "half way"));
    assert_eq!(evaluation.status, EvaluationStatus::Running);
}

#[test]
fn events_for_a_pending_evaluation_are_dropped() {
    let mut pipeline = EvaluationPipeline::new();
    let mut awards = Awards::new();
    let handle = pipeline.start(&submission("s1"), ContestStatus::Running, pack(), at(1_000)).expect("it starts");
    assert!(matches!(pipeline.process(handle, at(11), score_event("A", 30), &mut awards), Processed::Ignored));
    assert_eq!(awards.len(), 0);
    assert!(pipeline.evaluation(handle).expect("it is there").events.is_empty());
    assert!(!pipeline.complete(handle));
    assert_eq!(pipeline.status(handle), Some(EvaluationStatus::Pending));
}

#[test]
fn cancelling_keeps_what_was_folded_and_folds_no_more() {
    let mut pipeline = EvaluationPipeline::new();
    let mut awards = Awards::new();
    let handle = running(&mut pipeline, "s1");
    pipeline.process(handle, at(11), score_event("A", 30), &mut awards);
    pipeline.process(handle, at(12), score_event("B", 5), &mut awards);
    assert!(pipeline.cancel(handle));
    assert_eq!(pipeline.status(handle), Some(EvaluationStatus::Failed(FailureReason::Cancelled)));
    assert_eq!(awards.len(), 2);
    assert_eq!(awards.get(&name("A")), scored(30));
    assert_eq!(awards.get(&name("B")), scored(5));
    assert!(matches!(pipeline.process(handle, at(13), score_event("C", 9), &mut awards), Processed::Ignored));
    assert!(matches!(pipeline.process(handle, at(14), score_event("A", 50), &mut awards), Processed::Ignored));
    assert_eq!(awards.len(), 2);
    assert_eq!(awards.get(&name("A")), scored(30));
    assert_eq!(awards.get(&name("C")), None);
    assert_eq!(pipeline.evaluation(handle).expect("it is there").events.len(), 2);
}

#[test]
fn a_pending_evaluation_can_be_cancelled() {
    let mut pipeline = EvaluationPipeline::new();
    let handle = pipeline.start(&submission("s1"), ContestStatus::Running, pack(), at(1_000)).expect("it starts");
    assert!(pipeline.cancel(handle));
    assert_eq!(pipeline.status(handle), Some(EvaluationStatus::Failed(FailureReason::Cancelled)));
    assert!(!pipeline.launched(handle));
    assert_eq!(pipeline.status(handle), Some(EvaluationStatus::Failed(FailureReason::Cancelled)));
}

#[test]
fn an_evaluation_that_is_over_stays_as_it_is() {
    let mut pipeline = EvaluationPipeline::new();
    let done = running(&mut pipeline, "s1");
    assert!(pipeline.complete(done));
    assert!(!pipeline.cancel(done));
    assert!(!pipeline.fail(done, FailureReason::Timeout));
    assert!(!pipeline.launched(done));
    assert!(!pipeline.complete(done));
    assert!(!pipeline.check_deadline(done, at(9_999)));
    assert_eq!(pipeline.status(done), Some(EvaluationStatus::Succeeded));
    let failed = running(&mut pipeline, "s2");
    assert!(pipeline.fail(failed, FailureReason::Timeout));
    assert!(!pipeline.cancel(failed));
    assert!(!pipeline.complete(failed));
    assert_eq!(pipeline.status(failed), Some(EvaluationStatus::Failed(FailureReason::Timeout)));
}

#[test]
fn a_fatal_event_fails_the_evaluation() {
    let mut pipeline = EvaluationPipeline::new();
    let mut awards = Awards::new();
    let handle = running(&mut pipeline, "s1");
    pipeline.process(handle, at(11), score_event("A", 30), &mut awards);
    assert!(matches!(
        pipeline.process(handle, at(12), Event::Fatal { reason: "sandbox died".to_owned() }, &mut awards),
        Processed::Failed
    ));
    assert_eq!(pipeline.status(handle), Some(EvaluationStatus::Failed(FailureReason::JudgeCrashed)));
    assert!(matches!(pipeline.process(handle, at(13), score_event("A", 45), &mut awards), Processed::Ignored));
    assert_eq!(awards.get(&name("A")), scored(30));
    assert_eq!(pipeline.evaluation(handle).expect("it is there").events.len(), 2);
    assert!(!pipeline.complete(handle));
}

#[test]
fn an_evaluation_times_out_at_its_deadline() {
    let mut pipeline = EvaluationPipeline::new();
    let handle = running(&mut pipeline, "s1");
    assert!(!pipeline.check_deadline(handle, at(999)));
    assert_eq!(pipeline.status(handle), Some(EvaluationStatus::Running));
    assert!(pipeline.check_deadline(handle, at(1_000)));
    assert_eq!(pipeline.status(handle), Some(EvaluationStatus::Failed(FailureReason::Timeout)));
    assert!(!pipeline.check_deadline(handle, at(1_001)));
    let pending = pipeline.start(&submission("s2"), ContestStatus::Running, pack(), at(1_000)).expect("it starts");
    assert!(pipeline.check_deadline(pending, at(1_001)));
    assert_eq!(pipeline.status(pending), Some(EvaluationStatus::Failed(FailureReason::Timeout)));
}

#[test]
fn a_handle_that_names_no_evaluation_changes_nothing() {
    let mut pipeline = EvaluationPipeline::new();
    let mut awards = Awards::new();
    let nobody = EvaluationHandle { index: 3 };
    assert_eq!(pipeline.status(nobody), None);
    assert!(pipeline.evaluation(nobody).is_none());
    assert!(!pipeline.launched(nobody));
    assert!(!pipeline.complete(nobody));
    assert!(!pipeline.cancel(nobody));
    assert!(!pipeline.check_deadline(nobody, at(0)));
    assert!(matches!(pipeline.process(nobody, at(0), score_event("A", 1), &mut awards), Processed::Ignored));
    assert_eq!(awards.len(), 0);
    assert_eq!(pipeline.len(), 0);
}

#[test]
fn judging_in_one_go_folds_all_events_and_succeeds() {
    let mut pipeline = EvaluationPipeline::new();
    let mut awards = Awards::new();
    let handle = running(&mut pipeline, "s1");
    let events = vec![
        score_event("A", 30),
        Event::Message { text: "next".to_owned() },
        score_event("A", 45),
        Event::Badge { criterion: name("fast"), badge: true },
    ];
    let set = evaluate(&mut pipeline, handle, at(20), &events, &mut awards);
    assert_eq!(set.len(), 3);
    assert_eq!(set[0].criterion.0, "A");
    assert_eq!(Some(set[0].value), scored(30));
    assert_eq!(Some(set[1].value), scored(45));
    assert_eq!(set[2].criterion.0, "fast");
    assert_eq!(awards.get(&name("A")), scored(45));
    assert_eq!(awards.len(), 2);
    assert_eq!(pipeline.status(handle), Some(EvaluationStatus::Succeeded));
    assert_eq!(pipeline.evaluation(handle).expect("it is there").events.len(), 4);
}

#[test]
fn judging_in_one_go_stops_folding_at_a_fatal_event() {
    let mut pipeline = EvaluationPipeline::new();
    let mut awards = Awards::new();
    let handle = running(&mut pipeline, "s1");
    let events = vec![score_event("A", 30), Event::Fatal { reason: "crash".to_owned() }, score_event("A", 45)];
    let set = evaluate(&mut pipeline, handle, at(20), &events, &mut awards);
    assert_eq!(set.len(), 1);
    assert_eq!(awards.get(&name("A")), scored(30));
    assert_eq!(pipeline.status(handle), Some(EvaluationStatus::Failed(FailureReason::JudgeCrashed)));
    assert_eq!(pipeline.evaluation(handle).expect("it is there").events.len(), 2);
}

#[test]
fn only_succeeded_and_failed_are_terminal() {
    assert!(!EvaluationStatus::Pending.is_terminal());
    assert!(!EvaluationStatus::Running.is_terminal());
    assert!(EvaluationStatus::Succeeded.is_terminal());
    assert!(EvaluationStatus::Failed(FailureReason::Cancelled).is_terminal());
    assert!(EvaluationStatus::Failed(FailureReason::JudgeCrashed).is_terminal());
    assert!(EvaluationStatus::Failed(FailureReason::Timeout).is_terminal());
}
