//! Awards as a problem declares them: the criteria on which a submission is
//! judged, each worth a score within a range or a badge.

use crate::content::Text;
use crate::score::ScoreRange;
use vstd::prelude::*;

verus! {

/// The name that identifies an award within its problem. Never shown to
/// users who are not administrators.
#[derive(Debug)]
pub struct AwardName(pub String);

impl Clone for AwardName {
    fn clone(&self) -> (copy: Self)
        ensures
            copy == *self,
    {
        AwardName(self.0.clone())
    }
}

impl View for AwardName {
    type V = Seq<char>;

    open spec fn view(&self) -> Seq<char> {
        self.0@
    }
}

/// An award that carries a score.
#[derive(Clone, Copy, Debug, PartialEq, Eq, Structural)]
pub struct ScoreAwardContent {
    pub range: ScoreRange,
}

/// An award that is either achieved or not.
#[derive(Clone, Copy, Debug, PartialEq, Eq, Structural)]
pub struct BadgeAwardContent;

/// The nature of an award.
#[derive(Clone, Copy, Debug, PartialEq, Eq, Structural)]
pub enum AwardContent {
    Score(ScoreAwardContent),
    Badge(BadgeAwardContent),
}

/// An item to which a score or a badge can be assigned.
#[derive(Clone, Debug)]
pub struct Award {
    /// Name of this award, by which it is found.
    pub name: AwardName,
    /// Name of this award as shown to users.
    pub title: Text,
    /// What can be assigned to it.
    pub content: AwardContent,
}

/// The ranges of the awards among `awards` that carry a score, in order.
pub open spec fn score_ranges_of(awards: Seq<Award>) -> Seq<ScoreRange>
    decreases awards.len(),
{
    if awards.len() == 0 {
        Seq::empty()
    } else {
        match awards.last().content {
            AwardContent::Score(content) => score_ranges_of(awards.drop_last()).push(content.range),
            AwardContent::Badge(_) => score_ranges_of(awards.drop_last()),
        }
    }
}

/// Collects the ranges of the awards among `awards` that carry a score.
pub fn score_ranges(awards: &Vec<Award>) -> (ranges: Vec<ScoreRange>)
    ensures
        ranges@ == score_ranges_of(awards@),
{
    let mut ranges: Vec<ScoreRange> = Vec::new();
    let mut i: usize = 0;
    while i < awards.len()
        invariant
            i <= awards.len(),
            ranges@ == score_ranges_of(awards@.take(i as int)),
        decreases awards.len() - i,
    {
        proof {
            assert(awards@.take(i + 1).drop_last() =~= awards@.take(i as int));
            assert(awards@.take(i + 1).last() == awards@[i as int]);
        }
        match awards[i].content {
            AwardContent::Score(content) => {
                ranges.push(content.range);
            },
            AwardContent::Badge(_) => {},
        }
        i += 1;
    }
    assert(awards@.take(i as int) =~= awards@);
    ranges
}

} // verus!
