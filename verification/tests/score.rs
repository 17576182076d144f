use turingarena::score::Score;
use turingarena::score::ScoreDomain;
use turingarena::score::ScoreGrade;
use turingarena::score::ScoreRange;
use turingarena::score::ScoreValue;
use turingarena::score::MICROS_PER_POINT;

fn range(precision: u8, points: u32, allow_partial: bool) -> ScoreRange {
    ScoreRange { precision, max: Score::from_points(points), allow_partial }
}

fn value(points: u32) -> ScoreValue {
    ScoreValue { score: Score::from_points(points) }
}

#[test]
fn it_works() {
    assert_eq!(2 + 2, 4);
}

#[test]
fn points_are_millions_of_micros() {
    assert_eq!(MICROS_PER_POINT, 1_000_000);
    assert_eq!(Score::from_points(50), Score(50_000_000));
    assert_eq!(Score::from_points(0), Score(0));
    assert_eq!(Score::from_points(u32::MAX), Score(4_294_967_295_000_000));
    assert_eq!(Score::from_micros(1_500_000), Score(1_500_000));
}

#[test]
fn score_splits_into_points_and_fraction() {
    let score = Score::from_micros(12_345_678);
    assert_eq!(score.whole_points(), 12);
    assert_eq!(score.fraction_micros(), 345_678);
    assert_eq!(Score(999_999).whole_points(), 0);
    assert_eq!(Score(1_000_000).fraction_micros(), 0);
}

#[test]
fn total_of_a_partial_and_an_all_or_nothing_range() {
    let total = ScoreRange::total(vec![range(2, 50, true), range(0, 1, false)]);
    assert_eq!(total, ScoreRange { precision: 2, max: Score::from_points(51), allow_partial: true });
}

#[test]
fn total_of_no_ranges_is_the_empty_range() {
    let total = ScoreRange::total(vec![]);
    assert_eq!(total, ScoreRange { precision: 0, max: Score(0), allow_partial: false });
}

#[test]
fn total_of_one_range_is_that_range() {
    assert_eq!(ScoreRange::total(vec![range(3, 7, false)]), range(3, 7, false));
    assert_eq!(ScoreRange::total(vec![range(1, 7, true)]), range(1, 7, true));
}

#[test]
fn total_of_several_all_or_nothing_ranges_allows_partial() {
    let total = ScoreRange::total(vec![range(0, 1, false), range(0, 1, false)]);
    assert_eq!(total, ScoreRange { precision: 0, max: Score::from_points(2), allow_partial: true });
}

#[test]
fn total_takes_the_widest_precision_wherever_it_stands() {
    let total = ScoreRange::total(vec![range(1, 10, false), range(4, 10, false), range(2, 10, false)]);
    assert_eq!(total.precision, 4);
    assert_eq!(total.max, Score::from_points(30));
}

#[test]
fn try_total_of_ranges_refuses_an_overflow() {
    let huge = ScoreRange { precision: 0, max: Score(u64::MAX), allow_partial: false };
    let one = ScoreRange { precision: 0, max: Score(1), allow_partial: false };
    assert_eq!(ScoreRange::try_total(&vec![huge, one]), None);
    assert_eq!(
        ScoreRange::try_total(&vec![huge]),
        Some(ScoreRange { precision: 0, max: Score(u64::MAX), allow_partial: false })
    );
    let nothing = ScoreRange { precision: 0, max: Score(0), allow_partial: false };
    assert_eq!(
        ScoreRange::try_total(&vec![huge, nothing]),
        Some(ScoreRange { precision: 0, max: Score(u64::MAX), allow_partial: true })
    );
}

#[test]
fn total_of_values_is_their_sum() {
    assert_eq!(ScoreValue::total(vec![value(30), value(12), value(0)]), value(42));
    assert_eq!(ScoreValue::total(vec![]), value(0));
    let parts = vec![ScoreValue { score: Score(1) }, ScoreValue { score: Score(999_999) }];
    assert_eq!(ScoreValue::total(parts), value(1));
}

#[test]
fn total_of_values_is_not_clamped() {
    let total = ScoreValue::total(vec![value(60), value(70)]);
    assert_eq!(total, value(130));
}

#[test]
fn try_total_of_values_refuses_an_overflow() {
    let huge = ScoreValue { score: Score(u64::MAX) };
    let one = ScoreValue { score: Score(1) };
    assert_eq!(ScoreValue::try_total(&vec![one, huge]), None);
    assert_eq!(ScoreValue::try_total(&vec![huge]), Some(huge));
}

#[test]
fn a_partial_range_admits_everything_up_to_its_maximum() {
    let partial = range(2, 50, true);
    assert!(partial.admits(Score(0)));
    assert!(partial.admits(Score::from_points(45)));
    assert!(partial.admits(Score::from_points(50)));
    assert!(!partial.admits(Score(50_000_001)));
}

#[test]
fn an_all_or_nothing_range_admits_its_two_ends_only() {
    let strict = range(0, 1, false);
    assert!(strict.admits(Score(0)));
    assert!(strict.admits(Score::from_points(1)));
    assert!(!strict.admits(Score(500_000)));
    assert!(!strict.admits(Score::from_points(2)));
}

#[test]
fn a_grade_is_made_without_being_held_to_its_domain() {
    let domain = ScoreDomain { range: range(0, 10, false) };
    let grade = ScoreGrade::new(domain, value(11));
    assert_eq!(grade.domain, domain);
    assert_eq!(grade.value, value(11));
    assert!(!grade.is_valid());
    assert!(ScoreGrade::new(domain, value(10)).is_valid());
    assert!(ScoreGrade::new(domain, value(0)).is_valid());
    assert!(!ScoreGrade::new(domain, value(5)).is_valid());
}

#[test]
fn the_total_of_admitted_values_is_admitted_by_the_total_range() {
    let ranges = vec![range(0, 1, false), range(0, 1, false), range(2, 50, true)];
    let values = vec![value(1), value(0), ScoreValue { score: Score(12_250_000) }];
    for (r, v) in ranges.iter().zip(values.iter()) {
        assert!(r.admits(v.score));
    }
    let total_range = ScoreRange::total(ranges);
    let total_value = ScoreValue::total(values);
    assert_eq!(total_value.score, Score(13_250_000));
    assert!(total_range.admits(total_value.score));
}
