use turingarena::award::AwardName;
use turingarena::evaluation::fold;
use turingarena::evaluation::AwardValue;
use turingarena::evaluation::Awards;
use turingarena::evaluation::BadgeAward;
use turingarena::evaluation::Event;
use turingarena::evaluation::ScoreAward;
use turingarena::score::Score;
use turingarena::score::ScoreRange;

fn name(text: &str) -> AwardName {
    AwardName(text.to_owned())
}

fn score_event(criterion: &str, points: u32) -> Event {
    Event::Score { criterion: name(criterion), score: Score::from_points(points) }
}

fn scored(points: u32) -> Option<AwardValue> {
    Some(AwardValue::Score(ScoreAward { score: Score::from_points(points) }))
}

#[test]
fn the_last_score_of_a_criterion_wins() {
    let awards = Awards::new();
    let awards = fold(awards, &score_event("A", 30));
    let awards = fold(awards, &score_event("A", 45));
    assert_eq!(awards.get(&name("A")), scored(45));
    assert_eq!(awards.len(), 1);
    let range = ScoreRange { precision: 0, max: Score::from_points(50), allow_partial: true };
    match awards.get(&name("A")) {
        Some(AwardValue::Score(award)) => assert!(range.admits(award.score)),
        _ => panic!("no score for A"),
    }
}

#[test]
fn a_later_lower_score_overwrites_a_higher_one() {
    let awards = fold(Awards::new(), &score_event("A", 45));
    let awards = fold(awards, &score_event("A", 30));
    assert_eq!(awards.get(&name("A")), scored(30));
}

#[test]
fn criteria_are_folded_apart() {
    let awards = fold(Awards::new(), &score_event("A", 30));
    let awards = fold(awards, &score_event("B", 7));
    let awards = fold(awards, &score_event("A", 31));
    assert_eq!(awards.get(&name("A")), scored(31));
    assert_eq!(awards.get(&name("B")), scored(7));
    assert_eq!(awards.get(&name("C")), None);
    assert_eq!(awards.len(), 2);
}

#[test]
fn a_badge_is_folded_as_a_score_is() {
    let awards = fold(Awards::new(), &Event::Badge { criterion: name("solved"), badge: true });
    assert_eq!(awards.get(&name("solved")), Some(AwardValue::Badge(BadgeAward { badge: true })));
    let awards = fold(awards, &Event::Badge { criterion: name("solved"), badge: false });
    assert_eq!(awards.get(&name("solved")), Some(AwardValue::Badge(BadgeAward { badge: false })));
    assert_eq!(awards.len(), 1);
}

#[test]
fn a_score_overwrites_a_badge_of_the_same_criterion() {
    let awards = fold(Awards::new(), &Event::Badge { criterion: name("A"), badge: true });
    let awards = fold(awards, &score_event("A", 3));
    assert_eq!(awards.get(&name("A")), scored(3));
    assert_eq!(awards.len(), 1);
}

#[test]
fn messages_and_fatal_errors_set_no_award() {
    let awards = fold(Awards::new(), &score_event("A", 30));
    let awards = fold(awards, &Event::Message { text: "compiled".to_owned() });
    let awards = fold(awards, &Event::Fatal { reason: "out of memory".to_owned() });
    assert_eq!(awards.get(&name("A")), scored(30));
    assert_eq!(awards.len(), 1);
}

#[test]
fn folding_in_place_returns_the_award_that_was_set() {
    let mut awards = Awards::new();
    let set = awards.fold(&score_event("A", 30)).expect("an award is set");
    assert_eq!(set.criterion.0, "A");
    assert_eq!(set.value, AwardValue::Score(ScoreAward { score: Score::from_points(30) }));
    assert!(awards.fold(&Event::Message { text: "ok".to_owned() }).is_none());
    assert!(awards.fold(&Event::Fatal { reason: "crash".to_owned() }).is_none());
    assert_eq!(awards.get(&name("A")), scored(30));
}

#[test]
fn awards_start_empty_and_are_set_by_name() {
    let mut awards = Awards::new();
    assert_eq!(awards.len(), 0);
    assert_eq!(awards.get(&name("A")), None);
    awards.set(name("A"), AwardValue::Badge(BadgeAward { badge: true }));
    awards.set(name(""), AwardValue::Badge(BadgeAward { badge: false }));
    assert_eq!(awards.len(), 2);
    assert_eq!(awards.get(&name("")), Some(AwardValue::Badge(BadgeAward { badge: false })));
    assert_eq!(awards.get(&name("a")), None);
}

#[test]
fn only_a_fatal_event_is_fatal() {
    assert!(Event::Fatal { reason: "crash".to_owned() }.is_fatal());
    assert!(!Event::Message { text: "crash".to_owned() }.is_fatal());
    assert!(!score_event("A", 0).is_fatal());
    assert!(!Event::Badge { criterion: name("A"), badge: false }.is_fatal());
}
