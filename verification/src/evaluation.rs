//! What judging produces: the events of an evaluation, and the awards that
//! a user currently holds on a problem, kept up to date by folding each
//! event in as it arrives. For one criterion the last event wins.

use crate::award::AwardName;
use crate::score::Score;
use vstd::prelude::*;

verus! {

/// A score reached on one criterion.
#[derive(Clone, Copy, Debug, PartialEq, Eq, Structural)]
pub struct ScoreAward {
    pub score: Score,
}

/// Whether the badge of one criterion was achieved.
#[derive(Clone, Copy, Debug, PartialEq, Eq, Structural)]
pub struct BadgeAward {
    pub badge: bool,
}

/// The outcome on one criterion.
#[derive(Clone, Copy, Debug, PartialEq, Eq, Structural)]
pub enum AwardValue {
    Score(ScoreAward),
    Badge(BadgeAward),
}

/// The outcome on one criterion, with the criterion's name.
#[derive(Debug)]
pub struct CriterionAward {
    pub criterion: AwardName,
    pub value: AwardValue,
}

impl Clone for CriterionAward {
    fn clone(&self) -> (copy: Self)
        ensures
            copy == *self,
    {
        CriterionAward { criterion: self.criterion.clone(), value: self.value }
    }
}

/// One fact emitted while a submission is judged.
#[derive(Debug)]
pub enum Event {
    /// The score on a criterion is now `score`.
    Score { criterion: AwardName, score: Score },
    /// The badge of a criterion is now achieved or not.
    Badge { criterion: AwardName, badge: bool },
    /// Feedback in words.
    Message { text: String },
    /// The judge gave up.
    Fatal { reason: String },
}

impl Clone for Event {
    fn clone(&self) -> (copy: Self)
        ensures
            copy == *self,
    {
        match self {
            Event::Score { criterion, score } => Event::Score { criterion: criterion.clone(), score: *score },
            Event::Badge { criterion, badge } => Event::Badge { criterion: criterion.clone(), badge: *badge },
            Event::Message { text } => Event::Message { text: text.clone() },
            Event::Fatal { reason } => Event::Fatal { reason: reason.clone() },
        }
    }
}

impl Event {
    /// The criterion and outcome that this event sets, if it sets one.
    pub open spec fn award(self) -> Option<(Seq<char>, AwardValue)> {
        match self {
            Event::Score { criterion, score } => Some((criterion@, AwardValue::Score(ScoreAward { score }))),
            Event::Badge { criterion, badge } => Some((criterion@, AwardValue::Badge(BadgeAward { badge }))),
            Event::Message { text } => None,
            Event::Fatal { reason } => None,
        }
    }

    /// Whether this event sets the outcome on `criterion`.
    pub open spec fn concerns(self, criterion: Seq<char>) -> bool {
        self.award() matches Some(set) && set.0 == criterion
    }

    /// Whether this event reports that the judge gave up.
    pub open spec fn spec_is_fatal(&self) -> bool {
        self is Fatal
    }

    /// Tells whether this event reports that the judge gave up.
    #[verifier::when_used_as_spec(spec_is_fatal)]
    pub fn is_fatal(&self) -> (fatal: bool)
        ensures
            fatal == self.spec_is_fatal(),
    {
        match self {
            Event::Score { .. } => false,
            Event::Badge { .. } => false,
            Event::Message { .. } => false,
            Event::Fatal { .. } => true,
        }
    }
}

/// The awards after `event`, given those before it: an event that sets an
/// outcome overwrites what its criterion held, any other changes nothing.
pub open spec fn folded(current: Map<Seq<char>, AwardValue>, event: Event) -> Map<Seq<char>, AwardValue> {
    match event.award() {
        Some(set) => current.insert(set.0, set.1),
        None => current,
    }
}

/// The awards after `events`, folded in order, given those before them.
pub open spec fn folded_all(current: Map<Seq<char>, AwardValue>, events: Seq<Event>) -> Map<
    Seq<char>,
    AwardValue,
>
    decreases events.len(),
{
    if events.len() == 0 {
        current
    } else {
        folded(folded_all(current, events.drop_last()), events.last())
    }
}

/// Whether no two of `entries` name the same criterion.
pub open spec fn criteria_distinct(entries: Seq<CriterionAward>) -> bool {
    forall|i: int, j: int| 0 <= i < j < entries.len() ==> entries[i].criterion@ != entries[j].criterion@
}

/// The outcome per criterion that `entries` hold; of two entries for one
/// criterion the later counts.
pub open spec fn awards_of(entries: Seq<CriterionAward>) -> Map<Seq<char>, AwardValue>
    decreases entries.len(),
{
    if entries.len() == 0 {
        Map::empty()
    } else {
        awards_of(entries.drop_last()).insert(entries.last().criterion@, entries.last().value)
    }
}

proof fn lemma_awards_domain(entries: Seq<CriterionAward>)
    ensures
        awards_of(entries).dom().finite(),
        forall|name: Seq<char>|
            awards_of(entries).dom().contains(name) <==> exists|i: int|
                0 <= i < entries.len() && (#[trigger] entries[i]).criterion@ == name,
    decreases entries.len(),
{
    if entries.len() > 0 {
        let rest = entries.drop_last();
        lemma_awards_domain(rest);
        assert forall|name: Seq<char>|
            awards_of(entries).dom().contains(name) <==> exists|i: int|
                0 <= i < entries.len() && (#[trigger] entries[i]).criterion@ == name by {
            if awards_of(entries).dom().contains(name) {
                if name == entries.last().criterion@ {
                    assert(entries[entries.len() - 1].criterion@ == name);
                } else {
                    let i = choose|i: int| 0 <= i < rest.len() && (#[trigger] rest[i]).criterion@ == name;
                    assert(entries[i].criterion@ == name);
                }
            }
            if exists|i: int| 0 <= i < entries.len() && (#[trigger] entries[i]).criterion@ == name {
                let i = choose|i: int| 0 <= i < entries.len() && (#[trigger] entries[i]).criterion@ == name;
                if i < rest.len() {
                    assert(rest[i].criterion@ == name);
                }
            }
        }
    }
}

proof fn lemma_awards_lookup(entries: Seq<CriterionAward>, i: int)
    requires
        criteria_distinct(entries),
        0 <= i < entries.len(),
    ensures
        awards_of(entries).contains_key(entries[i].criterion@),
        awards_of(entries)[entries[i].criterion@] == entries[i].value,
    decreases entries.len(),
{
    if i < entries.len() - 1 {
        let rest = entries.drop_last();
        assert(criteria_distinct(rest)) by {
            assert forall|a: int, b: int| 0 <= a < b < rest.len() implies rest[a].criterion@
                != rest[b].criterion@ by {
                assert(entries[a].criterion@ != entries[b].criterion@);
            }
        }
        lemma_awards_lookup(rest, i);
        assert(entries[i].criterion@ != entries[entries.len() - 1].criterion@);
    }
}

proof fn lemma_awards_count(entries: Seq<CriterionAward>)
    requires
        criteria_distinct(entries),
    ensures
        awards_of(entries).dom().finite(),
        awards_of(entries).dom().len() == entries.len(),
    decreases entries.len(),
{
    lemma_awards_domain(entries);
    if entries.len() > 0 {
        let rest = entries.drop_last();
        assert(criteria_distinct(rest)) by {
            assert forall|a: int, b: int| 0 <= a < b < rest.len() implies rest[a].criterion@
                != rest[b].criterion@ by {
                assert(entries[a].criterion@ != entries[b].criterion@);
            }
        }
        lemma_awards_count(rest);
        lemma_awards_domain(rest);
        let name = entries.last().criterion@;
        if awards_of(rest).dom().contains(name) {
            let i = choose|i: int| 0 <= i < rest.len() && (#[trigger] rest[i]).criterion@ == name;
            assert(entries[i].criterion@ != entries[entries.len() - 1].criterion@);
        }
        assert(awards_of(entries).dom() =~= awards_of(rest).dom().insert(name));
    }
}

proof fn lemma_awards_replace(entries: Seq<CriterionAward>, i: int, entry: CriterionAward)
    requires
        criteria_distinct(entries),
        0 <= i < entries.len(),
        entry.criterion@ == entries[i].criterion@,
    ensures
        criteria_distinct(entries.update(i, entry)),
        awards_of(entries.update(i, entry)) == awards_of(entries).insert(entry.criterion@, entry.value),
    decreases entries.len(),
{
    let changed = entries.update(i, entry);
    assert(criteria_distinct(changed)) by {
        assert forall|a: int, b: int| 0 <= a < b < changed.len() implies changed[a].criterion@
            != changed[b].criterion@ by {
            assert(entries[a].criterion@ != entries[b].criterion@);
        }
    }
    let rest = entries.drop_last();
    if i == entries.len() - 1 {
        assert(changed.drop_last() =~= rest);
        assert(awards_of(changed) =~= awards_of(entries).insert(entry.criterion@, entry.value));
    } else {
        assert(criteria_distinct(rest)) by {
            assert forall|a: int, b: int| 0 <= a < b < rest.len() implies rest[a].criterion@
                != rest[b].criterion@ by {
                assert(entries[a].criterion@ != entries[b].criterion@);
            }
        }
        lemma_awards_replace(rest, i, entry);
        assert(changed.drop_last() =~= rest.update(i, entry));
        assert(changed.last() == entries.last());
        assert(entries[i].criterion@ != entries[entries.len() - 1].criterion@);
        assert(awards_of(changed) =~= awards_of(entries).insert(entry.criterion@, entry.value));
    }
}

/// The awards that one user currently holds on one problem: at most one
/// outcome per criterion.
#[derive(Debug)]
pub struct Awards {
    entries: Vec<CriterionAward>,
}

impl View for Awards {
    type V = Map<Seq<char>, AwardValue>;

    closed spec fn view(&self) -> Map<Seq<char>, AwardValue> {
        awards_of(self.entries@)
    }
}

impl Awards {
    #[verifier::type_invariant]
    spec fn criteria_kept_distinct(self) -> bool {
        criteria_distinct(self.entries@)
    }

    /// No awards yet.
    pub fn new() -> (awards: Awards)
        ensures
            awards@ == Map::<Seq<char>, AwardValue>::empty(),
    {
        Awards { entries: Vec::new() }
    }

    /// The number of criteria with an outcome.
    pub fn len(&self) -> (count: usize)
        ensures
            self@.dom().finite(),
            count == self@.dom().len(),
    {
        proof {
            use_type_invariant(self);
            lemma_awards_count(self.entries@);
        }
        self.entries.len()
    }

    /// The outcome on `criterion`, if it has one.
    pub fn get(&self, criterion: &AwardName) -> (value: Option<AwardValue>)
        ensures
            value is Some <==> self@.contains_key(criterion@),
            value is Some ==> value->Some_0 == self@[criterion@],
    {
        proof {
            use_type_invariant(self);
            lemma_awards_domain(self.entries@);
        }
        let mut i: usize = 0;
        while i < self.entries.len()
            invariant
                i <= self.entries.len(),
                criteria_distinct(self.entries@),
                forall|k: int| 0 <= k < i ==> (#[trigger] self.entries@[k]).criterion@ != criterion@,
            decreases self.entries.len() - i,
        {
            if self.entries[i].criterion.0 == criterion.0 {
                proof {
                    lemma_awards_lookup(self.entries@, i as int);
                }
                return Some(self.entries[i].value);
            }
            i += 1;
        }
        None
    }

    /// Sets the outcome on `criterion` to `value`, in place of what it held.
    pub fn set(&mut self, criterion: AwardName, value: AwardValue)
        ensures
            final(self)@ == old(self)@.insert(criterion@, value),
    {
        proof {
            use_type_invariant(&*self);
        }
        let mut entries: Vec<CriterionAward> = Vec::new();
        core::mem::swap(&mut self.entries, &mut entries);
        let entry = CriterionAward { criterion, value };
        let mut i: usize = 0;
        let mut found = false;
        while i < entries.len() && !found
            invariant
                i <= entries.len(),
                found ==> i < entries.len() && entries@[i as int].criterion@ == entry.criterion@,
                forall|k: int| 0 <= k < i ==> (#[trigger] entries@[k]).criterion@ != entry.criterion@,
            decreases entries.len() - i + if found { 0int } else { 1int },
        {
            if entries[i].criterion.0 == entry.criterion.0 {
                found = true;
            } else {
                i += 1;
            }
        }
        if found {
            proof {
                lemma_awards_replace(entries@, i as int, entry);
            }
            entries[i] = entry;
        } else {
            proof {
                assert(entries@.push(entry).drop_last() =~= entries@);
                assert(criteria_distinct(entries@.push(entry)));
            }
            entries.push(entry);
        }
        core::mem::swap(&mut self.entries, &mut entries);
    }

    /// Folds `event` in, and returns the award that it set, if it set one:
    /// that award is what has to be made durable before the event counts as
    /// processed.
    pub fn fold(&mut self, event: &Event) -> (set: Option<CriterionAward>)
        ensures
            final(self)@ == folded(old(self)@, *event),
            set is Some <==> event.award() is Some,
            set matches Some(award) ==> award.criterion@ == event.award()->Some_0.0 && award.value
                == event.award()->Some_0.1,
    {
        match event {
            Event::Score { criterion, score } => {
                let value = AwardValue::Score(ScoreAward { score: *score });
                self.set(criterion.clone(), value);
                Some(CriterionAward { criterion: criterion.clone(), value })
            },
            Event::Badge { criterion, badge } => {
                let value = AwardValue::Badge(BadgeAward { badge: *badge });
                self.set(criterion.clone(), value);
                Some(CriterionAward { criterion: criterion.clone(), value })
            },
            Event::Message { .. } => None,
            Event::Fatal { .. } => None,
        }
    }
}

/// Folds `event` into `current`: an event that sets the outcome on a
/// criterion overwrites what the criterion held, whatever it was; any other
/// event leaves the awards as they are.
pub fn fold(current: Awards, event: &Event) -> (updated: Awards)
    ensures
        updated@ == folded(current@, *event),
{
    let mut updated = current;
    updated.fold(event);
    updated
}

/// Last write wins: after a run of events, a criterion that none of them
/// concerns holds what it held before, and any other holds what the last
/// event that concerns it set.
pub proof fn lemma_last_event_wins(current: Map<Seq<char>, AwardValue>, events: Seq<Event>, criterion: Seq<char>)
    ensures
        (forall|i: int| 0 <= i < events.len() ==> !(#[trigger] events[i]).concerns(criterion)) ==> (folded_all(
            current,
            events,
        ).contains_key(criterion) <==> current.contains_key(criterion)) && folded_all(current, events)[criterion]
            == current[criterion],
        forall|i: int|
            0 <= i < events.len() && (#[trigger] events[i]).concerns(criterion) && (forall|j: int|
                i < j < events.len() ==> !(#[trigger] events[j]).concerns(criterion)) ==> folded_all(
                current,
                events,
            ).contains_key(criterion) && folded_all(current, events)[criterion] == events[i].award()->Some_0.1,
    decreases events.len(),
{
    if events.len() > 0 {
        let rest = events.drop_last();
        let last = events.last();
        lemma_last_event_wins(current, rest, criterion);
        if forall|i: int| 0 <= i < events.len() ==> !(#[trigger] events[i]).concerns(criterion) {
            assert forall|i: int| 0 <= i < rest.len() implies !(#[trigger] rest[i]).concerns(criterion) by {
                assert(!events[i].concerns(criterion));
            }
            assert(!events[events.len() - 1].concerns(criterion));
        }
        assert forall|i: int|
            0 <= i < events.len() && (#[trigger] events[i]).concerns(criterion) && (forall|j: int|
                i < j < events.len() ==> !(#[trigger] events[j]).concerns(criterion)) implies folded_all(
            current,
            events,
        ).contains_key(criterion) && folded_all(current, events)[criterion] == events[i].award()->Some_0.1 by {
            if i < rest.len() {
                assert(rest[i] == events[i]);
                assert forall|j: int| i < j < rest.len() implies !(#[trigger] rest[j]).concerns(criterion) by {
                    assert(!events[j].concerns(criterion));
                }
                assert(!events[events.len() - 1].concerns(criterion));
            }
        }
    }
}

} // verus!
