//! The persisted entities of the quiz service: users, categories,
//! questions, quizzes with their submitted answers, and leaderboard
//! entries, together with the well-formedness of a quiz attempt.

use vstd::prelude::*;
use crate::ids::{Oid, Token};
use crate::scoring::{Difficulty, QuestionType, max_answer_points};

verus! {

/// Role of a registered user.
#[derive(Clone, Copy, Debug, PartialEq, Eq, Structural)]
pub enum Role {
    User,
    Admin,
}

/// Optional profile data of a user.
#[derive(Clone, Debug)]
pub struct Profile {
    pub avatar: Option<String>,
    pub bio: Option<String>,
    pub preferred_language: Option<String>,
    pub country: Option<String>,
}

/// A registered user. The phone number and username are unique across
/// the store; `xp` only ever grows, and `quiz_history` is append-only.
pub struct User {
    pub id: Oid,
    pub phone_number: String,
    pub username: String,
    pub password_hash: String,
    pub role: Role,
    pub profile: Profile,
    pub xp: u64,
    pub quiz_history: Vec<Token>,
}

/// A quiz category. `top_user_id` is a denormalized cache written by the
/// top-user tracker; it may lag behind the quizzes it is derived from.
pub struct Category {
    pub id: Oid,
    pub name: String,
    pub tags: Vec<String>,
    pub parent_id: Option<Oid>,
    pub image_url: Option<String>,
    pub top_user_id: Option<Oid>,
}

/// A quiz question, immutable once created.
pub struct Question {
    pub id: Oid,
    pub category_id: Oid,
    pub question: String,
    pub question_type: QuestionType,
    pub options: Vec<String>,
    pub correct_answer: String,
    pub explanation: String,
    pub difficulty: Difficulty,
    pub timer_secs: u64,
    pub tags: Vec<String>,
}

/// One submitted answer within a quiz, with the points it was awarded.
pub struct UserAnswer {
    pub question_id: Oid,
    pub answer: String,
    pub time_taken_secs: u64,
    pub correct: bool,
    pub points: u64,
}

/// One quiz attempt by one user in one category.
pub struct Quiz {
    pub id: Oid,
    pub uuid: Token,
    pub user_id: Oid,
    pub category_id: Oid,
    pub difficulty: Difficulty,
    pub questions: Vec<Oid>,
    pub answers: Vec<UserAnswer>,
    pub start_time: i64,
    pub end_time: Option<i64>,
    pub score: u64,
    pub paused: bool,
}

/// One leaderboard record: cumulative score and dense rank of a user
/// within a category.
#[derive(Clone, Copy, Debug, PartialEq, Eq, Structural)]
pub struct LeaderboardEntry {
    pub user_id: Oid,
    pub category_id: Oid,
    pub score: u64,
    pub rank: u64,
}

/// Total points awarded over a sequence of answers.
pub open spec fn sum_points(answers: Seq<UserAnswer>) -> int
    decreases answers.len(),
{
    if answers.len() == 0 {
        0
    } else {
        sum_points(answers.drop_last()) + answers.last().points
    }
}

/// A sequence of answers each worth at most `max_answer_points` sums to
/// at most that bound times its length.
pub proof fn lemma_sum_points_bounded(answers: Seq<UserAnswer>)
    requires
        forall|i: int| 0 <= i < answers.len() ==> #[trigger] answers[i].points
            <= max_answer_points(),
    ensures
        0 <= sum_points(answers) <= answers.len() * max_answer_points(),
    decreases answers.len(),
{
    if answers.len() > 0 {
        lemma_sum_points_bounded(answers.drop_last());
    }
}

impl Quiz {
    /// Whether the quiz has been sealed by `finish_quiz`.
    pub open spec fn finished(self) -> bool {
        self.end_time is Some
    }

    /// Whether `question_id` has already been answered in this quiz.
    pub open spec fn answered(self, question_id: Oid) -> bool {
        exists|i: int|
            0 <= i < self.answers@.len() && #[trigger] self.answers@[i].question_id == question_id
    }

    /// Well-formedness of a quiz attempt: the sampled questions are
    /// distinct; each answer refers to a distinct sampled question, so
    /// there are never more answers than questions; the score is the sum
    /// of the per-answer points; and a finished quiz is not paused.
    pub open spec fn wf(self) -> bool {
        &&& self.questions@.len() <= u32::MAX
        &&& self.questions@.no_duplicates()
        &&& self.answers@.len() <= self.questions@.len()
        &&& (forall|i: int|
            0 <= i < self.answers@.len() ==> self.questions@.contains(
                #[trigger] self.answers@[i].question_id,
            ))
        &&& (forall|i: int, j: int|
            0 <= i < j < self.answers@.len() ==> #[trigger] self.answers@[i].question_id
                != #[trigger] self.answers@[j].question_id)
        &&& (forall|i: int|
            0 <= i < self.answers@.len() ==> #[trigger] self.answers@[i].points
                <= max_answer_points())
        &&& self.score == sum_points(self.answers@)
        &&& (self.finished() ==> !self.paused)
    }
}

/// The ids of the questions a sequence of answers refers to.
pub open spec fn answer_ids(answers: Seq<UserAnswer>) -> Seq<Oid> {
    answers.map_values(|a: UserAnswer| a.question_id)
}

/// Distinct answers drawn from the quiz's question list can never
/// outnumber the questions.
pub proof fn lemma_distinct_answers_bounded(answers: Seq<UserAnswer>, questions: Seq<Oid>)
    requires
        forall|i: int| 0 <= i < answers.len() ==> questions.contains(
            #[trigger] answers[i].question_id,
        ),
        forall|i: int, j: int|
            0 <= i < j < answers.len() ==> #[trigger] answers[i].question_id
                != #[trigger] answers[j].question_id,
    ensures
        answers.len() <= questions.len(),
{
    broadcast use vstd::seq_lib::group_seq_properties;
    broadcast use vstd::set_lib::group_set_properties;
    broadcast use vstd::set::group_set_axioms;

    let ids = answer_ids(answers);
    assert(ids.no_duplicates());
    ids.unique_seq_to_set();
    questions.lemma_cardinality_of_set();
    assert forall|x: Oid| ids.to_set().contains(x) implies questions.to_set().contains(x) by {
        let i = choose|i: int| 0 <= i < ids.len() && ids[i] == x;
        assert(questions.contains(answers[i].question_id));
    }
    vstd::set_lib::lemma_len_subset(ids.to_set(), questions.to_set());
}

} // verus!
