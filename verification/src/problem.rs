//! Problems of the contest: what identifies them, what their packs declare,
//! and what a user has reached on them.

use crate::award::Award;
use crate::award::AwardContent;
use crate::award::score_ranges;
use crate::award::score_ranges_of;
use crate::clock::ContestStatus;
use crate::clock::Timestamp;
use crate::content::Text;
use crate::evaluation::AwardValue;
use crate::evaluation::Awards;
use crate::evaluation::BadgeAward;
use crate::pipeline::after_start;
use crate::pipeline::start_refusal;
use crate::pipeline::EvaluationHandle;
use crate::pipeline::EvaluationPipeline;
use crate::pipeline::StartError;
use crate::pipeline::Submission;
use crate::pipeline::SubmittedFile;
use crate::score::lemma_total_of_admitted_is_admitted;
use crate::score::sum_of_maxima;
use crate::score::sum_of_values;
use crate::score::Score;
use crate::score::ScoreRange;
use crate::score::ScoreValue;
use crate::store::after_resolve;
use crate::store::answer_of;
use crate::store::gives_answer;
use crate::store::pack_path;
use crate::store::pack_path_of;
use crate::store::ArchivePack;
use crate::store::BlobRef;
use crate::store::ContentStore;
use crate::store::Resolution;
use crate::store::ResolveError;
use crate::user::UserId;
use vstd::prelude::*;

verus! {

/// The name that identifies a problem within the contest, much as a package
/// name does. Never shown to users who are not administrators.
#[derive(Debug)]
pub struct ProblemName(pub String);

impl View for ProblemName {
    type V = Seq<char>;

    open spec fn view(&self) -> Seq<char> {
        self.0@
    }
}

impl Clone for ProblemName {
    fn clone(&self) -> (copy: Self)
        ensures
            copy == *self,
    {
        ProblemName(self.0.clone())
    }
}

/// A problem as the contest keeps it. Once entered it stays as it is, but
/// for its archive, which can be replaced.
#[derive(Debug)]
pub struct ProblemData {
    /// The name of the problem: no two problems of the contest share it.
    pub name: String,
    /// The reference of the blob that holds the problem's archive: its
    /// statement, its data and its grading.
    pub archive_integrity: String,
}

impl Clone for ProblemData {
    fn clone(&self) -> (copy: Self)
        ensures
            copy == *self,
    {
        ProblemData { name: self.name.clone(), archive_integrity: self.archive_integrity.clone() }
    }
}

/// A problem of the contest, as seen by a user or by nobody in particular.
#[derive(Debug)]
pub struct Problem {
    /// The problem as the contest keeps it.
    pub data: ProblemData,
    /// The user who looks at it, if any.
    pub user_id: Option<UserId>,
}

impl Clone for Problem {
    fn clone(&self) -> (copy: Self)
        ensures
            copy == *self,
    {
        Problem {
            data: self.data.clone(),
            user_id: match &self.user_id {
                Some(user_id) => Some(user_id.clone()),
                None => None,
            },
        }
    }
}

/// What the pack of a problem declares of it.
#[derive(Debug)]
pub struct Material {
    /// The title of the problem, as shown to users.
    pub title: Text,
    /// The awards that a submission can get, in order.
    pub awards: Vec<Award>,
}

/// The attempts of one user at one problem.
#[derive(Debug)]
pub struct ProblemTackling {
    /// The problem, as seen by that user.
    pub problem: Box<Problem>,
}

/// Why a problem could not be found or entered.
#[derive(Clone, Copy, Debug, PartialEq, Eq, Structural)]
pub enum ProblemError {
    /// The contest has no problem of that name.
    NotFound,
    /// The contest has a problem of that name already.
    AlreadyExists,
}

/// What a submission to a problem came to.
#[derive(Debug)]
pub struct Submitted {
    /// The submission, which is made whether or not its evaluation starts.
    pub submission: Submission,
    /// The handle of its evaluation, or why none was started.
    pub evaluation: Result<EvaluationHandle, StartError>,
}

/// The score that `current` holds for the award `name`: zero where it holds
/// none or holds a badge.
pub open spec fn current_score(current: Map<Seq<char>, AwardValue>, name: Seq<char>) -> ScoreValue {
    if current.contains_key(name) {
        match current[name] {
            AwardValue::Score(award) => ScoreValue { score: award.score },
            AwardValue::Badge(_) => ScoreValue { score: Score(0) },
        }
    } else {
        ScoreValue { score: Score(0) }
    }
}

/// Whether `current` holds the badge of the award `name` as achieved.
pub open spec fn current_badge(current: Map<Seq<char>, AwardValue>, name: Seq<char>) -> bool {
    current.contains_key(name) && current[name] == AwardValue::Badge(BadgeAward { badge: true })
}

/// The current scores on the awards among `declared` that carry a score,
/// in order.
pub open spec fn scores_of(declared: Seq<Award>, current: Map<Seq<char>, AwardValue>) -> Seq<ScoreValue>
    decreases declared.len(),
{
    if declared.len() == 0 {
        Seq::empty()
    } else {
        match declared.last().content {
            AwardContent::Score(_) => scores_of(declared.drop_last(), current).push(
                current_score(current, declared.last().name@),
            ),
            AwardContent::Badge(_) => scores_of(declared.drop_last(), current),
        }
    }
}

/// The current state of the badges among `declared`, in order.
pub open spec fn badges_of(declared: Seq<Award>, current: Map<Seq<char>, AwardValue>) -> Seq<bool>
    decreases declared.len(),
{
    if declared.len() == 0 {
        Seq::empty()
    } else {
        match declared.last().content {
            AwardContent::Score(_) => badges_of(declared.drop_last(), current),
            AwardContent::Badge(_) => badges_of(declared.drop_last(), current).push(
                current_badge(current, declared.last().name@),
            ),
        }
    }
}

/// Whether each score that `current` holds for an award among `declared`
/// lies within the range that the award declares.
pub open spec fn scores_within_ranges(declared: Seq<Award>, current: Map<Seq<char>, AwardValue>) -> bool {
    forall|i: int|
        0 <= i < declared.len() ==> match (#[trigger] declared[i]).content {
            AwardContent::Score(content) => content.range.spec_admits(
                current_score(current, declared[i].name@).score,
            ),
            AwardContent::Badge(_) => true,
        }
}

impl Material {
    /// The range of the problem: the total of the ranges of its awards
    /// that carry a score, or `None` when their maxima sum to more than a
    /// score can hold.
    pub fn score_range(&self) -> (range: Option<ScoreRange>)
        ensures
            range is Some <==> sum_of_maxima(score_ranges_of(self.awards@)) <= u64::MAX,
            range matches Some(total) ==> total == ScoreRange::spec_total(score_ranges_of(self.awards@)),
    {
        let ranges = score_ranges(&self.awards);
        ScoreRange::try_total(&ranges)
    }

    /// The scores that `awards` hold on the awards of the problem that
    /// carry a score, in the order in which the problem declares them.
    pub fn scores(&self, awards: &Awards) -> (scores: Vec<ScoreValue>)
        ensures
            scores@ == scores_of(self.awards@, awards@),
    {
        let mut scores: Vec<ScoreValue> = Vec::new();
        let mut i: usize = 0;
        while i < self.awards.len()
            invariant
                i <= self.awards.len(),
                scores@ == scores_of(self.awards@.take(i as int), awards@),
            decreases self.awards.len() - i,
        {
            proof {
                assert(self.awards@.take(i + 1).drop_last() =~= self.awards@.take(i as int));
                assert(self.awards@.take(i + 1).last() == self.awards@[i as int]);
            }
            match self.awards[i].content {
                AwardContent::Score(_) => {
                    let score = match awards.get(&self.awards[i].name) {
                        Some(AwardValue::Score(award)) => award.score,
                        Some(AwardValue::Badge(_)) => Score(0),
                        None => Score(0),
                    };
                    scores.push(ScoreValue { score });
                },
                AwardContent::Badge(_) => {},
            }
            i += 1;
        }
        assert(self.awards@.take(i as int) =~= self.awards@);
        scores
    }

    /// Checks that each score that `awards` hold for an award of the
    /// problem lies within the range that the award declares. Nothing else
    /// holds scores to their ranges: this is for callers who want to.
    pub fn admits(&self, awards: &Awards) -> (valid: bool)
        ensures
            valid == scores_within_ranges(self.awards@, awards@),
    {
        let mut i: usize = 0;
        while i < self.awards.len()
            invariant
                i <= self.awards.len(),
                forall|k: int|
                    0 <= k < i ==> match (#[trigger] self.awards@[k]).content {
                        AwardContent::Score(content) => content.range.spec_admits(
                            current_score(awards@, self.awards@[k].name@).score,
                        ),
                        AwardContent::Badge(_) => true,
                    },
            decreases self.awards.len() - i,
        {
            match self.awards[i].content {
                AwardContent::Score(content) => {
                    let score = match awards.get(&self.awards[i].name) {
                        Some(AwardValue::Score(award)) => award.score,
                        Some(AwardValue::Badge(_)) => Score(0),
                        None => Score(0),
                    };
                    if !content.range.admits(score) {
                        return false;
                    }
                },
                AwardContent::Badge(_) => {},
            }
            i += 1;
        }
        true
    }

    /// Whether each badge of the problem is achieved in `awards`, in the
    /// order in which the problem declares them.
    pub fn badges(&self, awards: &Awards) -> (badges: Vec<bool>)
        ensures
            badges@ == badges_of(self.awards@, awards@),
    {
        let mut badges: Vec<bool> = Vec::new();
        let mut i: usize = 0;
        while i < self.awards.len()
            invariant
                i <= self.awards.len(),
                badges@ == badges_of(self.awards@.take(i as int), awards@),
            decreases self.awards.len() - i,
        {
            proof {
                assert(self.awards@.take(i + 1).drop_last() =~= self.awards@.take(i as int));
                assert(self.awards@.take(i + 1).last() == self.awards@[i as int]);
            }
            match self.awards[i].content {
                AwardContent::Score(_) => {},
                AwardContent::Badge(_) => {
                    let achieved = match awards.get(&self.awards[i].name) {
                        Some(AwardValue::Badge(award)) => award.badge,
                        Some(AwardValue::Score(_)) => false,
                        None => false,
                    };
                    badges.push(achieved);
                },
            }
            i += 1;
        }
        assert(self.awards@.take(i as int) =~= self.awards@);
        badges
    }
}

impl Problem {
    /// Name of this problem, which no other problem of the contest has.
    pub fn name(&self) -> (name: ProblemName)
        ensures
            name@ == self.data.name@,
    {
        ProblemName(self.data.name.clone())
    }

    /// The attempts at this problem of the user who looks at it, if a user
    /// does.
    pub fn tackling(&self) -> (tackling: Option<ProblemTackling>)
        ensures
            tackling is Some <==> self.user_id is Some,
            tackling matches Some(found) ==> *found.problem == *self,
    {
        match &self.user_id {
            Some(_) => Some(ProblemTackling { problem: Box::new(self.clone()) }),
            None => None,
        }
    }

    /// Path of the problem: that of the pack of its archive, in the
    /// namespace `problem`, relative to the cache root.
    pub fn path(&self) -> (path: String)
        ensures
            path@ == pack_path_of("problem"@, self.data.archive_integrity@),
    {
        let reference = BlobRef(self.data.archive_integrity.clone());
        pack_path("problem", &reference).path
    }

    /// Asks the store for the pack of the problem's archive, in the
    /// namespace `problem`, where `on_disk` tells whether the pack's
    /// directory exists. The answer is that of the store.
    pub fn pack(&self, store: &mut ContentStore, on_disk: bool) -> (resolved: Result<Resolution, ResolveError>)
        ensures
            final(store)@ == after_resolve(old(store)@, self.data.archive_integrity@, on_disk),
            gives_answer(
                resolved,
                answer_of(old(store)@, self.data.archive_integrity@, on_disk),
                pack_path_of("problem"@, self.data.archive_integrity@),
            ),
    {
        let reference = BlobRef(self.data.archive_integrity.clone());
        store.resolve(&reference, "problem", on_disk)
    }
}

impl ProblemTackling {
    /// The user whose attempts these are.
    pub fn user_id(&self) -> (user_id: UserId)
        requires
            self.problem.user_id is Some,
        ensures
            Some(user_id) == self.problem.user_id,
    {
        match &self.problem.user_id {
            Some(user_id) => user_id.clone(),
            None => UserId(String::new()),
        }
    }

    /// The name of the problem.
    pub fn name(&self) -> (name: &str)
        ensures
            name@ == self.problem.data.name@,
    {
        self.problem.data.name.as_str()
    }

    /// Score awards of the user: what `awards`, the awards of the user on
    /// this problem, hold for each award that `material` declares with a
    /// score.
    pub fn scores(&self, material: &Material, awards: &Awards) -> (scores: Vec<ScoreValue>)
        ensures
            scores@ == scores_of(material.awards@, awards@),
    {
        material.scores(awards)
    }

    /// Badge awards of the user: what `awards` hold for each badge that
    /// `material` declares.
    pub fn badges(&self, material: &Material, awards: &Awards) -> (badges: Vec<bool>)
        ensures
            badges@ == badges_of(material.awards@, awards@),
    {
        material.badges(awards)
    }

    /// The score of the user on the problem: the sum of the scores on its
    /// awards, or `None` when it is more than a score can hold.
    pub fn score(&self, material: &Material, awards: &Awards) -> (score: Option<ScoreValue>)
        ensures
            score is Some <==> sum_of_values(scores_of(material.awards@, awards@)) <= u64::MAX,
            score matches Some(total) ==> total == ScoreValue::spec_total(scores_of(material.awards@, awards@)),
    {
        let scores = material.scores(awards);
        ScoreValue::try_total(&scores)
    }

    /// Submits a solution to the problem, and asks for its evaluation.
    /// The submission is made of `files`, under the identifier `id` and
    /// with `now` as its time; `contest`, `pack` and `deadline` are what
    /// the start of an evaluation takes. The submission stands whether or
    /// not the evaluation starts.
    pub fn submit(
        &self,
        pipeline: &mut EvaluationPipeline,
        id: String,
        files: Vec<SubmittedFile>,
        now: Timestamp,
        contest: ContestStatus,
        pack: Result<ArchivePack, ResolveError>,
        deadline: Timestamp,
    ) -> (submitted: Submitted)
        requires
            self.problem.user_id is Some,
        ensures
            submitted.submission.id == id,
            Some(submitted.submission.user) == self.problem.user_id,
            submitted.submission.problem@ == self.problem.data.name@,
            submitted.submission.files == files,
            submitted.submission.created_at == now,
            match start_refusal(old(pipeline)@, id@, contest, pack) {
                Some(error) => submitted.evaluation == Err::<EvaluationHandle, StartError>(error)
                    && final(pipeline)@ == old(pipeline)@,
                None => submitted.evaluation == Ok::<EvaluationHandle, StartError>(
                    EvaluationHandle { index: old(pipeline)@.len() as usize },
                ) && final(pipeline)@ == after_start(old(pipeline)@, id@, pack->Ok_0.path@, deadline),
            },
            submitted.evaluation matches Ok(handle) ==> handle.index == old(pipeline)@.len(),
    {
        let submission = Submission {
            id,
            user: self.user_id(),
            problem: self.problem.name(),
            files,
            created_at: now,
        };
        let evaluation = pipeline.start(&submission, contest, pack, deadline);
        Submitted { submission, evaluation }
    }

    /// Indicates if the user can submit to this problem.
    pub fn can_submit(&self) -> (allowed: bool)
        ensures
            allowed,
    {
        true
    }
}

/// The names of `problems`, in order.
pub open spec fn names_of(problems: Seq<ProblemData>) -> Seq<Seq<char>> {
    problems.map_values(|problem: ProblemData| problem.name@)
}

/// Whether `problem` is the first of `problems` that has the name `name`.
pub open spec fn is_first_named(problems: Seq<ProblemData>, name: Seq<char>, problem: ProblemData) -> bool {
    exists|k: int|
        0 <= k < problems.len() && #[trigger] problems[k] == problem && problem.name@ == name && forall|j: int|
            0 <= j < k ==> (#[trigger] problems[j]).name@ != name
}

/// Get a problem by its name: the first of `problems` that has it.
pub fn by_name(problems: &Vec<ProblemData>, name: ProblemName) -> (found: Result<ProblemData, ProblemError>)
    ensures
        found is Ok <==> names_of(problems@).contains(name@),
        found matches Ok(problem) ==> is_first_named(problems@, name@, problem),
        found matches Err(error) ==> error == ProblemError::NotFound,
{
    let mut i: usize = 0;
    while i < problems.len()
        invariant
            i <= problems.len(),
            forall|k: int| 0 <= k < i ==> (#[trigger] problems@[k]).name@ != name@,
        decreases problems.len() - i,
    {
        if problems[i].name == name.0 {
            proof {
                assert(names_of(problems@)[i as int] == name@);
                assert(problems@[i as int] == problems@[i as int]);
            }
            return Ok(problems[i].clone());
        }
        i += 1;
    }
    assert forall|k: int| 0 <= k < names_of(problems@).len() implies names_of(problems@)[k] != name@ by {
        assert(problems@[k].name@ != name@);
    }
    Err(ProblemError::NotFound)
}

/// Get all the problems, in order.
pub fn all(problems: &Vec<ProblemData>) -> (copies: Vec<ProblemData>)
    ensures
        copies@ == problems@,
{
    let mut copies: Vec<ProblemData> = Vec::new();
    let mut i: usize = 0;
    while i < problems.len()
        invariant
            i <= problems.len(),
            copies@ == problems@.take(i as int),
        decreases problems.len() - i,
    {
        copies.push(problems[i].clone());
        assert(copies@ =~= problems@.take(i + 1));
        i += 1;
    }
    assert(problems@.take(i as int) =~= problems@);
    copies
}

/// Insert a problem with its archive, at the end. A name that a problem has
/// already is refused, and the problems stay as they are.
pub fn insert(problems: &mut Vec<ProblemData>, name: ProblemName, archive: BlobRef) -> (inserted: Result<
    (),
    ProblemError,
>)
    ensures
        names_of(old(problems)@).contains(name@) ==> inserted == Err::<(), ProblemError>(
            ProblemError::AlreadyExists,
        ) && final(problems)@ == old(problems)@,
        !names_of(old(problems)@).contains(name@) ==> inserted is Ok && final(problems)@ == old(problems)@.push(
            ProblemData { name: name.0, archive_integrity: archive.0 },
        ),
        names_of(old(problems)@).no_duplicates() ==> names_of(final(problems)@).no_duplicates(),
{
    let mut i: usize = 0;
    while i < problems.len()
        invariant
            i <= problems.len(),
            problems@ == old(problems)@,
            forall|k: int| 0 <= k < i ==> names_of(problems@)[k] != name@,
        decreases problems.len() - i,
    {
        if problems[i].name == name.0 {
            assert(names_of(problems@)[i as int] == name@);
            return Err(ProblemError::AlreadyExists);
        }
        i += 1;
    }
    problems.push(ProblemData { name: name.0, archive_integrity: archive.0 });
    assert(names_of(problems@) =~= names_of(old(problems)@).push(name@));
    Ok(())
}

/// The problems with the archive of those named `name` replaced by
/// `archive`.
pub open spec fn with_archive(problems: Seq<ProblemData>, name: Seq<char>, archive: String) -> Seq<ProblemData> {
    problems.map_values(
        |problem: ProblemData|
            if problem.name@ == name {
                ProblemData { name: problem.name, archive_integrity: archive }
            } else {
                problem
            },
    )
}

/// Replace the archive of the problem of the given name. Nothing else of a
/// problem can change. Where the contest has no such problem the problems
/// stay as they are.
pub fn replace_archive(problems: &mut Vec<ProblemData>, name: &ProblemName, archive: BlobRef) -> (replaced: Result<
    (),
    ProblemError,
>)
    ensures
        replaced is Ok <==> names_of(old(problems)@).contains(name@),
        replaced matches Err(error) ==> error == ProblemError::NotFound,
        final(problems)@ == with_archive(old(problems)@, name@, archive.0),
{
    let mut found = false;
    let mut i: usize = 0;
    while i < problems.len()
        invariant
            i <= problems.len(),
            problems@.len() == old(problems)@.len(),
            found <==> exists|k: int| 0 <= k < i && (#[trigger] old(problems)@[k]).name@ == name@,
            forall|k: int|
                0 <= k < i ==> (#[trigger] problems@[k]) == with_archive(old(problems)@, name@, archive.0)[k],
            forall|k: int| i <= k < problems@.len() ==> (#[trigger] problems@[k]) == old(problems)@[k],
        decreases problems.len() - i,
    {
        let ghost here = old(problems)@[i as int];
        if problems[i].name == name.0 {
            problems[i].archive_integrity = archive.0.clone();
            found = true;
        }
        assert(here.name@ == name@ ==> found);
        i += 1;
    }
    proof {
        assert(problems@ =~= with_archive(old(problems)@, name@, archive.0));
        if found {
            let k = choose|k: int| 0 <= k < i && (#[trigger] old(problems)@[k]).name@ == name@;
            assert(names_of(old(problems)@)[k] == name@);
        }
        if names_of(old(problems)@).contains(name@) {
            let k = choose|k: int| 0 <= k < names_of(old(problems)@).len() && names_of(old(problems)@)[k] == name@;
            assert(old(problems)@[k].name@ == name@);
        }
    }
    if found {
        Ok(())
    } else {
        Err(ProblemError::NotFound)
    }
}

/// Delete the problem of the given name, if there is one; the others keep
/// their order.
pub fn delete(problems: &mut Vec<ProblemData>, name: ProblemName) -> (deleted: Result<(), ProblemError>)
    ensures
        deleted is Ok,
        final(problems)@ == old(problems)@.filter(|problem: ProblemData| problem.name@ != name@),
{
    let mut kept: Vec<ProblemData> = Vec::new();
    let mut i: usize = 0;
    while i < problems.len()
        invariant
            i <= problems.len(),
            problems@ == old(problems)@,
            kept@ == problems@.take(i as int).filter(|problem: ProblemData| problem.name@ != name@),
        decreases problems.len() - i,
    {
        proof {
            reveal(Seq::filter);
            assert(problems@.take(i + 1).drop_last() =~= problems@.take(i as int));
            assert(problems@.take(i + 1).last() == problems@[i as int]);
        }
        if problems[i].name != name.0 {
            kept.push(problems[i].clone());
        }
        i += 1;
    }
    assert(problems@.take(i as int) =~= problems@);
    *problems = kept;
    Ok(())
}

/// A user whose scores lie within the ranges of their awards has a score
/// on the problem that lies within the range of the problem.
pub proof fn lemma_problem_score_within_range(declared: Seq<Award>, current: Map<Seq<char>, AwardValue>)
    requires
        scores_within_ranges(declared, current),
        sum_of_maxima(score_ranges_of(declared)) <= u64::MAX,
    ensures
        sum_of_values(scores_of(declared, current)) <= sum_of_maxima(score_ranges_of(declared)),
        ScoreRange::spec_total(score_ranges_of(declared)).spec_admits(
            ScoreValue::spec_total(scores_of(declared, current)).score,
        ),
{
    lemma_scores_line_up(declared, current);
    lemma_total_of_admitted_is_admitted(score_ranges_of(declared), scores_of(declared, current));
}

/// The scores and the ranges of the awards that carry a score line up, one
/// for one.
proof fn lemma_scores_line_up(declared: Seq<Award>, current: Map<Seq<char>, AwardValue>)
    requires
        scores_within_ranges(declared, current),
    ensures
        score_ranges_of(declared).len() == scores_of(declared, current).len(),
        forall|i: int|
            0 <= i < score_ranges_of(declared).len() ==> (#[trigger] score_ranges_of(declared)[i]).spec_admits(
                scores_of(declared, current)[i].score,
            ),
    decreases declared.len(),
{
    if declared.len() > 0 {
        let rest = declared.drop_last();
        assert forall|i: int| 0 <= i < rest.len() implies match (#[trigger] rest[i]).content {
            AwardContent::Score(content) => content.range.spec_admits(
                current_score(current, rest[i].name@).score,
            ),
            AwardContent::Badge(_) => true,
        } by {
            assert(declared[i] == rest[i]);
        }
        lemma_scores_line_up(rest, current);
        assert(declared[declared.len() - 1] == declared.last());
    }
}

} // verus!
