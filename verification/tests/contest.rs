use turingarena::clock::ContestStatus;
use turingarena::clock::Timestamp;
use turingarena::contest::Contest;
use turingarena::contest::ContestChangeset;
use turingarena::contest::ContestData;
use turingarena::contest::ContestError;
use turingarena::contest::ContestInput;
use turingarena::contest::ContestUpdateInput;
use turingarena::contest::ContestView;
use turingarena::contest::FileContentInput;
use turingarena::contest::ProblemSet;
use turingarena::contest::INITIAL_CONTEST_HOURS;
use turingarena::problem::ProblemData;
use turingarena::score::Score;
use turingarena::score::ScoreDomain;
use turingarena::score::ScoreGrade;
use turingarena::score::ScoreRange;
use turingarena::score::ScoreValue;
use turingarena::store::blob_ref;
use turingarena::store::ContentStore;
use turingarena::store::Resolution;
use turingarena::store::ResolveError;
use turingarena::user::UserId;

const HELLO: &str = "2cf24dba5fb0a30e26e83b2ac5b9e29e1b161e5c1fa7425e73043362938b9824";
const NEW_YEAR: i64 = 1_577_836_800;

fn at(seconds: i64) -> Timestamp {
    Timestamp { seconds, nanos: 0 }
}

fn row(start: &str, end: &str) -> ContestData {
    ContestData::new(HELLO.to_owned(), start.to_owned(), end.to_owned())
}

fn contest() -> Contest {
    Contest::current(&vec![row("2020-01-01T00:00:00Z", "2020-01-01T04:00:00Z")]).expect("the times are well formed")
}

fn base64(text: &str) -> FileContentInput {
    FileContentInput { base64: text.to_owned() }
}

fn range(points: u32) -> ScoreRange {
    ScoreRange { precision: 0, max: Score::from_points(points), allow_partial: true }
}

fn value(points: u32) -> ScoreValue {
    ScoreValue { score: Score::from_points(points) }
}

fn alice() -> Option<UserId> {
    Some(UserId("alice".to_owned()))
}

#[test]
fn a_contest_that_was_never_set_up_cannot_be_loaded() {
    assert_eq!(Contest::current(&vec![]).err(), Some(ContestError::NotInitialized));
}

#[test]
fn a_malformed_time_is_found_when_the_contest_is_loaded() {
    let bad_start = Contest::current(&vec![row("yesterday", "2020-01-01T04:00:00Z")]);
    assert_eq!(bad_start.err(), Some(ContestError::MalformedStartTime));
    let bad_end = Contest::current(&vec![row("2020-01-01T00:00:00Z", "2020-01-01 04:00:00")]);
    assert_eq!(bad_end.err(), Some(ContestError::MalformedEndTime));
    let both = Contest::current(&vec![row("", "")]);
    assert_eq!(both.err(), Some(ContestError::MalformedStartTime));
    let no_zone = Contest::current(&vec![row("2020-01-01T00:00:00", "2020-01-01T04:00:00Z")]);
    assert_eq!(no_zone.err(), Some(ContestError::MalformedStartTime));
}

#[test]
fn the_first_row_is_the_contest() {
    let rows = vec![row("2020-01-01T00:00:00Z", "2020-01-01T04:00:00Z"), row("never", "never")];
    let contest = Contest::current(&rows).expect("the first row is well formed");
    assert_eq!(contest.start_time(), "2020-01-01T00:00:00Z");
    assert_eq!(contest.end_time(), "2020-01-01T04:00:00Z");
}

#[test]
fn the_row_of_a_contest_has_the_key_zero() {
    let data = row("a", "b");
    assert_eq!(data.id, 0);
    assert_eq!(data.archive_integrity, HELLO);
    assert_eq!(data.start_time, "a");
    assert_eq!(data.end_time, "b");
}

#[test]
fn status_follows_the_times_of_the_contest() {
    let contest = contest();
    assert_eq!(contest.status_at(at(NEW_YEAR - 1)), ContestStatus::NotStarted);
    assert_eq!(contest.status_at(at(NEW_YEAR)), ContestStatus::Running);
    assert_eq!(contest.status_at(at(NEW_YEAR + 4 * 3600 - 1)), ContestStatus::Running);
    assert_eq!(contest.status_at(at(NEW_YEAR + 4 * 3600)), ContestStatus::Ended);
}

#[test]
fn times_are_compared_as_instants_whatever_their_zones() {
    let rows = vec![row("2020-01-01T01:00:00+01:00", "2019-12-31T23:00:00.5-05:00")];
    let contest = Contest::current(&rows).expect("the times are well formed");
    assert_eq!(contest.status_at(at(NEW_YEAR - 1)), ContestStatus::NotStarted);
    assert_eq!(contest.status_at(at(NEW_YEAR)), ContestStatus::Running);
    assert_eq!(contest.status_at(Timestamp { seconds: NEW_YEAR + 4 * 3600, nanos: 499_999_999 }), ContestStatus::Running);
    assert_eq!(contest.status_at(Timestamp { seconds: NEW_YEAR + 4 * 3600, nanos: 500_000_000 }), ContestStatus::Ended);
}

#[test]
fn status_by_the_clock_of_the_server() {
    let long = Contest::current(&vec![row("1980-01-01T00:00:00Z", "9000-01-01T00:00:00Z")]).expect("well formed");
    assert_eq!(long.status(), ContestStatus::Running);
    let past = Contest::current(&vec![row("1980-01-01T00:00:00Z", "1990-01-01T00:00:00Z")]).expect("well formed");
    assert_eq!(past.status(), ContestStatus::Ended);
    let future = Contest::current(&vec![row("9000-01-01T00:00:00Z", "9001-01-01T00:00:00Z")]).expect("well formed");
    assert_eq!(future.status(), ContestStatus::NotStarted);
}

#[test]
fn a_contest_is_set_up_with_its_archive_decoded_and_stored() {
    let mut store = ContentStore::new();
    let input = ContestInput {
        archive_content: base64("aGVsbG8="),
        start_time: "whenever".to_owned(),
        end_time: "2020-01-01T04:00:00Z".to_owned(),
    };
    let data = Contest::insert(&mut store, input, true).expect("the archive is stored");
    assert_eq!(data.archive_integrity, HELLO);
    assert_eq!(data.start_time, "whenever");
    assert_eq!(data.end_time, "2020-01-01T04:00:00Z");
    assert_eq!(store.blob_count(), 1);
    assert!(store.contains(&blob_ref(b"hello")));
}

#[test]
fn a_contest_is_not_set_up_with_a_malformed_archive() {
    let mut store = ContentStore::new();
    let input = ContestInput {
        archive_content: base64("not base64!"),
        start_time: "2020-01-01T00:00:00Z".to_owned(),
        end_time: "2020-01-01T04:00:00Z".to_owned(),
    };
    assert_eq!(Contest::insert(&mut store, input, true).err(), Some(ContestError::MalformedArchive));
    assert_eq!(store.blob_count(), 0);
}

#[test]
fn a_contest_is_not_set_up_when_the_medium_fails() {
    let mut store = ContentStore::new();
    let input = ContestInput {
        archive_content: base64("aGVsbG8="),
        start_time: "2020-01-01T00:00:00Z".to_owned(),
        end_time: "2020-01-01T04:00:00Z".to_owned(),
    };
    assert_eq!(Contest::insert(&mut store, input, false).err(), Some(ContestError::IoError));
    assert_eq!(store.blob_count(), 0);
}

#[test]
fn file_content_is_decoded_from_base64() {
    assert_eq!(base64("aGVsbG8gd29ybGQ=").decode(), Some(b"hello world".to_vec()));
    assert_eq!(base64("").decode(), Some(vec![]));
    assert_eq!(base64("a").decode(), None);
    assert_eq!(base64("aGVsbG8=aGVsbG8=").decode(), None);
    assert_eq!(base64("****").decode(), None);
}

#[test]
fn a_contest_without_configuration_lasts_four_hours_from_now() {
    let mut store = ContentStore::new();
    let data = Contest::init(&mut store, b"hello", true).expect("the archive is stored");
    assert_eq!(INITIAL_CONTEST_HOURS, 4);
    assert_eq!(data.archive_integrity, HELLO);
    assert!(store.contains(&blob_ref(b"hello")));
    let start = chrono::DateTime::parse_from_rfc3339(&data.start_time).expect("a date");
    let end = chrono::DateTime::parse_from_rfc3339(&data.end_time).expect("a date");
    assert_eq!(end.timestamp() - start.timestamp(), 4 * 3600);
    assert_eq!(end.timestamp_subsec_nanos(), start.timestamp_subsec_nanos());
    assert_eq!(data.start_time, start.to_rfc3339());
    assert_eq!(data.end_time, end.to_rfc3339());
    let local = chrono::Local::now().with_timezone(&start.timezone());
    assert_eq!(start.offset(), chrono::Local::now().fixed_offset().offset());
    assert_eq!(end.offset(), (chrono::Local::now() + chrono::Duration::hours(4)).fixed_offset().offset());
    assert!((local.timestamp() - start.timestamp()).abs() < 600);
    let now = chrono::Utc::now().timestamp();
    assert!((now - start.timestamp()).abs() < 600);
    let contest = Contest::current(&vec![ContestData::new(data.archive_integrity, data.start_time, data.end_time)])
        .expect("the times are well formed");
    assert_eq!(contest.status(), ContestStatus::Running);
}

#[test]
fn a_contest_without_configuration_is_not_set_up_when_the_medium_fails() {
    let mut store = ContentStore::new();
    assert_eq!(Contest::init(&mut store, b"hello", false).err(), Some(ContestError::IoError));
    assert_eq!(store.blob_count(), 0);
}

#[test]
fn a_contest_set_up_with_given_times_keeps_them_as_they_are() {
    let mut store = ContentStore::new();
    let start = "2020-01-01T01:00:00+01:00".to_owned();
    let end = "2020-01-01T05:00:00+01:00".to_owned();
    let data = Contest::init_at(&mut store, b"hello", true, start, end).expect("the archive is stored");
    assert_eq!(data.archive_integrity, HELLO);
    assert_eq!(data.start_time, "2020-01-01T01:00:00+01:00");
    assert_eq!(data.end_time, "2020-01-01T05:00:00+01:00");
    let start = "1969-12-31T23:59:59.25Z".to_owned();
    let end = "1970-01-01T05:59:59.250+02:00".to_owned();
    let data = Contest::init_at(&mut store, b"hello", false, start, end).expect("the archive is stored already");
    assert_eq!(data.start_time, "1969-12-31T23:59:59.25Z");
    assert_eq!(data.end_time, "1970-01-01T05:59:59.250+02:00");
    assert_eq!(store.blob_count(), 1);
    let contest = Contest::current(&vec![ContestData::new(data.archive_integrity, data.start_time, data.end_time)])
        .expect("what was set up can be loaded");
    assert_eq!(contest.status_at(Timestamp { seconds: -1, nanos: 249_999_999 }), ContestStatus::NotStarted);
    assert_eq!(contest.status_at(Timestamp { seconds: -1, nanos: 250_000_000 }), ContestStatus::Running);
    assert_eq!(contest.status_at(Timestamp { seconds: 14_399, nanos: 249_999_999 }), ContestStatus::Running);
    assert_eq!(contest.status_at(Timestamp { seconds: 14_399, nanos: 250_000_000 }), ContestStatus::Ended);
}

#[test]
fn a_contest_is_not_set_up_with_times_that_cannot_be_read_back() {
    let mut store = ContentStore::new();
    let late = Contest::init_at(
        &mut store,
        b"hello",
        true,
        "9999-12-31T22:00:00+00:00".to_owned(),
        "+10000-01-01T02:00:00+00:00".to_owned(),
    );
    assert_eq!(late.err(), Some(ContestError::TimeOutOfRange));
    assert_eq!(store.blob_count(), 1);
    let never = Contest::init_at(&mut store, b"abc", true, "now".to_owned(), "2020-01-01T04:00:00Z".to_owned());
    assert_eq!(never.err(), Some(ContestError::TimeOutOfRange));
    assert_eq!(store.blob_count(), 2);
    let both = Contest::init_at(&mut store, b"abc", true, "now".to_owned(), "later".to_owned());
    assert_eq!(both.err(), Some(ContestError::TimeOutOfRange));
}

#[test]
fn a_contest_is_not_set_up_with_a_window_of_another_length() {
    let mut store = ContentStore::new();
    let start = || "2020-01-01T00:00:00Z".to_owned();
    let short = Contest::init_at(&mut store, b"hello", true, start(), "2020-01-01T03:59:59Z".to_owned());
    assert_eq!(short.err(), Some(ContestError::WrongWindow));
    let long = Contest::init_at(&mut store, b"hello", true, start(), "2020-01-01T04:00:00.000000001Z".to_owned());
    assert_eq!(long.err(), Some(ContestError::WrongWindow));
    let backwards = Contest::init_at(&mut store, b"hello", true, "2020-01-01T04:00:00Z".to_owned(), start());
    assert_eq!(backwards.err(), Some(ContestError::WrongWindow));
    let unread = Contest::init_at(&mut store, b"hello", true, "then".to_owned(), "2020-01-01T03:00:00Z".to_owned());
    assert_eq!(unread.err(), Some(ContestError::TimeOutOfRange));
    assert!(Contest::init_at(&mut store, b"hello", true, start(), "2020-01-01T05:00:00+01:00".to_owned()).is_ok());
    assert_eq!(store.blob_count(), 1);
}

#[test]
fn a_contest_is_not_set_up_with_given_times_when_the_medium_fails() {
    let mut store = ContentStore::new();
    let refused = Contest::init_at(&mut store, b"xyz", false, "now".to_owned(), "later".to_owned());
    assert_eq!(refused.err(), Some(ContestError::IoError));
    let refused = Contest::init_at(
        &mut store,
        b"xyz",
        false,
        "2020-01-01T00:00:00Z".to_owned(),
        "2020-01-01T04:00:00Z".to_owned(),
    );
    assert_eq!(refused.err(), Some(ContestError::IoError));
    assert_eq!(store.blob_count(), 0);
}

#[test]
fn an_update_keeps_what_is_left_out() {
    let mut store = ContentStore::new();
    let input = ContestUpdateInput { archive_content: None, start_time: None, end_time: None };
    let changes = contest().update(&mut store, input, true).expect("nothing can fail");
    assert_eq!(changes.archive_integrity, None);
    assert_eq!(changes.start_time, None);
    assert_eq!(changes.end_time, None);
    assert_eq!(store.blob_count(), 0);
}

#[test]
fn an_update_writes_times_out_in_full() {
    let mut store = ContentStore::new();
    let input = ContestUpdateInput {
        archive_content: Some(base64("aGVsbG8=")),
        start_time: Some("2020-01-01T10:00:00Z".to_owned()),
        end_time: Some("2020-01-01t12:30:00.250-08:00".to_owned()),
    };
    let changes = contest().update(&mut store, input, true).expect("all is well formed");
    assert_eq!(changes.archive_integrity.as_deref(), Some(HELLO));
    assert_eq!(changes.start_time.as_deref(), Some("2020-01-01T10:00:00+00:00"));
    assert_eq!(changes.end_time.as_deref(), Some("2020-01-01T12:30:00.250-08:00"));
    assert_eq!(store.blob_count(), 1);
}

#[test]
fn an_update_stops_at_what_is_malformed() {
    let mut store = ContentStore::new();
    let bad_archive = ContestUpdateInput {
        archive_content: Some(base64("?")),
        start_time: Some("never".to_owned()),
        end_time: None,
    };
    assert_eq!(contest().update(&mut store, bad_archive, true).err(), Some(ContestError::MalformedArchive));
    let no_medium = ContestUpdateInput {
        archive_content: Some(base64("aGVsbG8=")),
        start_time: Some("never".to_owned()),
        end_time: None,
    };
    assert_eq!(contest().update(&mut store, no_medium, false).err(), Some(ContestError::IoError));
    assert_eq!(store.blob_count(), 0);
    let bad_start = ContestUpdateInput {
        archive_content: Some(base64("aGVsbG8=")),
        start_time: Some("never".to_owned()),
        end_time: Some("never".to_owned()),
    };
    assert_eq!(contest().update(&mut store, bad_start, true).err(), Some(ContestError::MalformedStartTime));
    assert_eq!(store.blob_count(), 1);
    let bad_end = ContestUpdateInput {
        archive_content: None,
        start_time: Some("2020-01-01T10:00:00Z".to_owned()),
        end_time: Some("2020-13-01T10:00:00Z".to_owned()),
    };
    assert_eq!(contest().update(&mut store, bad_end, true).err(), Some(ContestError::MalformedEndTime));
}

#[test]
fn the_pack_of_the_contest_is_asked_of_the_store() {
    let mut store = ContentStore::new();
    assert!(matches!(contest().contest_path(&mut store, false), Err(ResolveError::NotFound)));
    store.store(b"hello", true).expect("the medium took it");
    match contest().contest_path(&mut store, false) {
        Ok(Resolution::Extract(pack)) => assert_eq!(pack.path, format!("contest/{}", HELLO)),
        other => panic!("not told to unpack: {:?}", other),
    }
    assert!(matches!(contest().contest_path(&mut store, false), Ok(Resolution::Busy(_))));
}

#[test]
fn the_problem_set_is_for_administrators() {
    assert!(contest().problem_set(true).is_ok());
    assert_eq!(contest().problem_set(false).err(), Some(ContestError::Forbidden));
    assert_eq!(contest().problems(false, vec![]).err(), Some(ContestError::Forbidden));
    assert_eq!(contest().problems(true, vec![]).expect("an administrator asks").len(), 0);
}

#[test]
fn the_view_of_a_user_is_for_those_who_may_act_for_them() {
    let view = contest().view(true, alice()).expect("the caller may");
    assert_eq!(view.user_id().as_ref().map(|id| id.0.as_str()), Some("alice"));
    assert_eq!(view.contest.start_time(), "2020-01-01T00:00:00Z");
    assert_eq!(contest().view(false, alice()).err(), Some(ContestError::Forbidden));
    assert_eq!(contest().view(false, None).err(), Some(ContestError::Forbidden));
}

#[test]
fn a_view_is_made_of_a_contest_and_maybe_a_user() {
    let view = ContestView::new(contest(), None).expect("nothing can fail");
    assert!(view.user_id().is_none());
    assert!(!view.can_send_message());
    let view = ContestView::new(contest(), alice()).expect("nothing can fail");
    assert!(view.can_send_message());
}

#[test]
fn the_problem_set_is_withheld_before_the_start() {
    let view = ContestView::new(contest(), alice()).expect("nothing can fail");
    assert!(view.problem_set_at(at(NEW_YEAR - 1)).is_none());
    assert!(view.problem_set_at(at(NEW_YEAR)).is_some());
    assert!(view.problem_set_at(at(NEW_YEAR + 4 * 3600)).is_some());
    let shown = view.problem_set_at(at(NEW_YEAR + 1)).expect("the contest runs");
    assert_eq!(shown.contest.end_time(), "2020-01-01T04:00:00Z");
}

#[test]
fn the_problem_set_by_the_clock_of_the_server() {
    let future = Contest::current(&vec![row("9000-01-01T00:00:00Z", "9001-01-01T00:00:00Z")]).expect("well formed");
    assert!(ContestView::new(future, None).expect("nothing can fail").problem_set().is_none());
    let past = Contest::current(&vec![row("1980-01-01T00:00:00Z", "1990-01-01T00:00:00Z")]).expect("well formed");
    assert!(ContestView::new(past, None).expect("nothing can fail").problem_set().is_some());
}

#[test]
fn the_range_of_the_contest_is_the_total_of_its_problems() {
    let total = ScoreRange { precision: 0, max: Score::from_points(150), allow_partial: true };
    assert_eq!(contest().score_range(true, vec![range(100), range(50)]), Ok(total));
    assert_eq!(contest().score_domain(true, vec![range(100), range(50)]), Ok(ScoreDomain { range: total }));
    assert_eq!(contest().score_range(false, vec![range(100)]), Err(ContestError::Forbidden));
    assert_eq!(contest().score_domain(false, vec![range(100)]), Err(ContestError::Forbidden));
    let huge = ScoreRange { precision: 0, max: Score(u64::MAX), allow_partial: true };
    assert_eq!(contest().score_range(true, vec![huge, range(1)]), Err(ContestError::ScoreTooLarge));
    assert_eq!(contest().score_range(false, vec![huge, range(1)]), Err(ContestError::Forbidden));
    assert_eq!(contest().score_domain(true, vec![huge, range(1)]), Err(ContestError::ScoreTooLarge));
}

#[test]
fn the_problem_set_has_the_total_range_of_its_problems() {
    let set = ProblemSet { contest: contest() };
    let total = ScoreRange { precision: 0, max: Score::from_points(150), allow_partial: true };
    assert_eq!(set.score_range(vec![range(100), range(50)]), Ok(total));
    assert_eq!(set.score_domain(vec![range(100), range(50)]), Ok(ScoreDomain { range: total }));
    let huge = ScoreRange { precision: 0, max: Score(u64::MAX), allow_partial: true };
    assert_eq!(set.score_range(vec![huge, huge]), Err(ContestError::ScoreTooLarge));
    assert_eq!(set.problems(vec![]).len(), 0);
}

#[test]
fn the_view_of_the_problem_set_is_for_those_who_may_act_for_the_user() {
    let set = ProblemSet { contest: contest() };
    assert_eq!(set.view(false, alice()).err(), Some(ContestError::Forbidden));
    let view = set.view(true, alice()).expect("the caller may");
    assert_eq!(view.user_id.as_ref().map(|id| id.0.as_str()), Some("alice"));
    let tackling = view.tackling().expect("a user looks");
    assert_eq!(tackling.user_id.0, "alice");
    let nobody = set.view(true, None).expect("the caller may");
    assert!(nobody.tackling().is_none());
}

#[test]
fn the_grade_on_the_problem_set_pairs_domain_and_total_score() {
    let set = ProblemSet { contest: contest() };
    let view = set.view(true, alice()).expect("the caller may");
    let tackling = view.tackling().expect("a user looks");
    assert_eq!(tackling.score(vec![value(30), value(45)]), Ok(value(75)));
    let domain = ScoreDomain { range: ScoreRange { precision: 0, max: Score::from_points(150), allow_partial: true } };
    let grade = ScoreGrade { domain, value: value(75) };
    assert_eq!(tackling.grade(vec![range(100), range(50)], vec![value(30), value(45)]), Ok(grade));
    assert!(grade.is_valid());
    let grading = view.grading(vec![range(100), range(50)], vec![value(30), value(45)]).expect("all fits");
    assert_eq!(grading.domain, domain);
    assert_eq!(grading.grade, Some(grade));
    let nobody = set.view(true, None).expect("the caller may");
    let grading = nobody.grading(vec![range(100), range(50)], vec![]).expect("all fits");
    assert_eq!(grading.domain, domain);
    assert_eq!(grading.grade, None);
}

#[test]
fn scores_too_large_to_sum_are_refused() {
    let set = ProblemSet { contest: contest() };
    let view = set.view(true, alice()).expect("the caller may");
    let tackling = view.tackling().expect("a user looks");
    let huge = ScoreValue { score: Score(u64::MAX) };
    let wide = ScoreRange { precision: 0, max: Score(u64::MAX), allow_partial: true };
    assert_eq!(tackling.score(vec![huge, value(1)]), Err(ContestError::ScoreTooLarge));
    assert_eq!(tackling.grade(vec![wide], vec![huge, value(1)]), Err(ContestError::ScoreTooLarge));
    assert_eq!(tackling.grade(vec![wide, range(1)], vec![value(1)]), Err(ContestError::ScoreTooLarge));
    assert_eq!(view.grading(vec![wide, range(1)], vec![]), Err(ContestError::ScoreTooLarge));
    assert_eq!(view.grading(vec![wide], vec![huge, value(1)]), Err(ContestError::ScoreTooLarge));
    let nobody = set.view(true, None).expect("the caller may");
    assert!(nobody.grading(vec![wide], vec![huge, value(1)]).is_ok());
}

#[test]
fn problems_are_viewed_with_the_user_who_looks() {
    let set = ProblemSet { contest: contest() };
    let view = set.view(true, alice()).expect("the caller may");
    let problems = vec![
        ProblemData { name: "sum".to_owned(), archive_integrity: HELLO.to_owned() },
        ProblemData { name: "sort".to_owned(), archive_integrity: HELLO.to_owned() },
    ];
    let views = view.problem_views(&problems);
    assert_eq!(views.len(), 2);
    assert_eq!(views[0].data.name, "sum");
    assert_eq!(views[1].data.name, "sort");
    assert_eq!(views[1].user_id.as_ref().map(|id| id.0.as_str()), Some("alice"));
}

#[test]
fn changes_are_made_to_the_fields_that_they_name() {
    let data = row("2020-01-01T00:00:00Z", "2020-01-01T04:00:00Z");
    let nothing = ContestChangeset { archive_integrity: None, start_time: None, end_time: None };
    let same = data.changed(nothing);
    assert_eq!(same.id, 0);
    assert_eq!(same.archive_integrity, HELLO);
    assert_eq!(same.start_time, "2020-01-01T00:00:00Z");
    assert_eq!(same.end_time, "2020-01-01T04:00:00Z");
    let later = ContestChangeset {
        archive_integrity: Some("0".to_owned()),
        start_time: None,
        end_time: Some("2020-01-01T05:00:00+00:00".to_owned()),
    };
    let changed = same.changed(later);
    assert_eq!(changed.id, 0);
    assert_eq!(changed.archive_integrity, "0");
    assert_eq!(changed.start_time, "2020-01-01T00:00:00Z");
    assert_eq!(changed.end_time, "2020-01-01T05:00:00+00:00");
}

#[test]
fn an_update_with_bytes_stored_before_gives_the_earlier_reference() {
    let mut store = ContentStore::new();
    let earlier = store.store(b"hello", true).expect("the medium took it");
    let input = ContestUpdateInput {
        archive_content: Some(base64("aGVsbG8=")),
        start_time: None,
        end_time: Some("2020-01-01T05:00:00Z".to_owned()),
    };
    let changes = contest().update(&mut store, input, false).expect("the bytes are stored already");
    assert_eq!(changes.archive_integrity, Some(earlier.0));
    assert_eq!(store.blob_count(), 1);
    assert_eq!(contest().archive_integrity(), HELLO);
}
