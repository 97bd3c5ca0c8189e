//! Scoring engine: pure computation of the points one answer is worth,
//! from the question's difficulty, correctness and timing.

use vstd::prelude::*;

verus! {

/// Difficulty tier of a question; ordinal, used for point weighting.
#[derive(Clone, Copy, Debug, PartialEq, Eq, Structural)]
pub enum Difficulty {
    Beginner,
    Intermediate,
    Advanced,
    Expert,
}

/// Kind of a question.
#[derive(Clone, Copy, Debug, PartialEq, Eq, Structural)]
pub enum QuestionType {
    MultipleChoice,
    TrueFalse,
    CodePrediction,
}

/// Base points awarded for a correct answer at each difficulty tier.
pub open spec fn base_points(difficulty: Difficulty) -> u64 {
    match difficulty {
        Difficulty::Beginner => 5,
        Difficulty::Intermediate => 10,
        Difficulty::Advanced => 20,
        Difficulty::Expert => 30,
    }
}

/// An answer is fast when it took less than half the question's timer,
/// with the half truncated to whole seconds.
pub open spec fn fast_answer(time_taken_secs: u64, timer_secs: u64) -> bool {
    time_taken_secs < timer_secs / 2
}

/// Points for one answer: base points plus a bonus of 10 for a fast
/// answer when correct, and 0 when incorrect, regardless of timing.
pub open spec fn points_for(
    difficulty: Difficulty,
    correct: bool,
    time_taken_secs: u64,
    timer_secs: u64,
) -> u64 {
    if !correct {
        0
    } else if fast_answer(time_taken_secs, timer_secs) {
        (base_points(difficulty) + 10) as u64
    } else {
        base_points(difficulty)
    }
}

/// Largest number of points a single answer can be worth.
pub open spec fn max_answer_points() -> u64 {
    40
}

/// Computes the points one answer is worth.
pub fn compute_points(
    difficulty: Difficulty,
    correct: bool,
    time_taken_secs: u64,
    timer_secs: u64,
) -> (points: u64)
    ensures
        points == points_for(difficulty, correct, time_taken_secs, timer_secs),
        points <= max_answer_points(),
{
    if !correct {
        return 0;
    }
    let base: u64 = match difficulty {
        Difficulty::Beginner => 5,
        Difficulty::Intermediate => 10,
        Difficulty::Advanced => 20,
        Difficulty::Expert => 30,
    };
    if time_taken_secs < timer_secs / 2 {
        base + 10
    } else {
        base
    }
}

/// The score of an answer is a function of difficulty, correctness and
/// timing alone: any two values meeting `compute_points`'s contract on
/// the same inputs are equal.
pub proof fn lemma_points_deterministic(
    difficulty: Difficulty,
    correct: bool,
    time_taken_secs: u64,
    timer_secs: u64,
    points1: u64,
    points2: u64,
)
    requires
        points1 == points_for(difficulty, correct, time_taken_secs, timer_secs),
        points2 == points_for(difficulty, correct, time_taken_secs, timer_secs),
    ensures
        points1 == points2,
{
}

/// An incorrect answer is worth 0 points, whatever its timing.
pub proof fn lemma_incorrect_answer_scores_zero(
    difficulty: Difficulty,
    time_taken_secs: u64,
    timer_secs: u64,
)
    ensures
        points_for(difficulty, false, time_taken_secs, timer_secs) == 0,
{
}

/// No answer is worth more than `max_answer_points`.
pub proof fn lemma_points_bounded(
    difficulty: Difficulty,
    correct: bool,
    time_taken_secs: u64,
    timer_secs: u64,
)
    ensures
        points_for(difficulty, correct, time_taken_secs, timer_secs) <= max_answer_points(),
{
}

} // verus!
