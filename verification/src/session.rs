//! Quiz session engine: starting an attempt from sampled questions,
//! submitting answers, pausing and resuming.

use vstd::prelude::*;
use crate::errors::QuizError;
use crate::ids::{Oid, Token};
use crate::leaderboard::{has_pair, pair_score, ranks_valid};
use crate::model::{lemma_distinct_answers_bounded, lemma_sum_points_bounded, sum_points, Category,
    Quiz, Question, User, UserAnswer};
use crate::scoring::{compute_points, max_answer_points, points_for, Difficulty};
use crate::store::{category_at, has_category, has_question, has_quiz, has_user, question_at,
    quiz_at, user_at, Store};
use crate::top_user::{counts_for, has_finished_quiz, has_finished_quiz_by, user_total};
use crate::util::{spec_sat_add, string_eq};

verus! {

/// Whether `q` can be sampled for a quiz in `category_id` at
/// `difficulty`.
pub open spec fn eligible(q: Question, category_id: Oid, difficulty: Difficulty) -> bool {
    q.category_id == category_id && q.difficulty == difficulty
}

/// How many questions of `s` are eligible for (`category_id`,
/// `difficulty`).
pub open spec fn count_eligible(s: Seq<Question>, category_id: Oid, difficulty: Difficulty) -> int
    decreases s.len(),
{
    if s.len() == 0 {
        0
    } else {
        count_eligible(s.drop_last(), category_id, difficulty) + if eligible(
            s.last(),
            category_id,
            difficulty,
        ) {
            1int
        } else {
            0int
        }
    }
}

impl Store {
    /// The quiz with id `id`; meaningful when it exists and ids are
    /// unique.
    pub open spec fn quiz_of(self, id: Oid) -> Quiz {
        self.quizzes@[quiz_at(self.quizzes@, id)]
    }

    /// The question with id `id`; meaningful when it exists and ids are
    /// unique.
    pub open spec fn question_of(self, id: Oid) -> Question {
        self.questions@[question_at(self.questions@, id)]
    }

    /// The quiz with id `quiz_id`.
    pub fn get_quiz(&self, quiz_id: Oid) -> (r: Result<&Quiz, QuizError>)
        requires
            self.wf(),
        ensures
            match r {
                Ok(q) => has_quiz(self.quizzes@, quiz_id) && q.id == quiz_id
                    && self.quizzes@.contains(*q) && *q == self.quiz_of(quiz_id),
                Err(e) => e == QuizError::QuizNotFound && !has_quiz(self.quizzes@, quiz_id),
            },
    {
        match self.find_quiz(quiz_id) {
            Some(i) => {
                proof {
                    let w = quiz_at(self.quizzes@, quiz_id);
                    assert(0 <= w < self.quizzes@.len() && self.quizzes@[w].id == quiz_id);
                    assert(w == i as int);
                }
                Ok(&self.quizzes[i])
            },
            None => Err(QuizError::QuizNotFound),
        }
    }

    /// Starts a quiz for `user_id` in `category_id` at `difficulty`,
    /// sampling exactly `num_questions` distinct eligible questions; the
    /// window sampled is chosen by the entropy `pick`. Fails, creating
    /// nothing, when fewer eligible questions exist than were asked for.
    pub fn start_quiz(
        &mut self,
        user_id: Oid,
        category_id: Oid,
        difficulty: Difficulty,
        num_questions: u32,
        pick: u64,
        now: i64,
        token: Token,
    ) -> (r: Result<Oid, QuizError>)
        requires
            old(self).wf(),
            old(self).next_id < u64::MAX,
        ensures
            final(self).wf(),
            match r {
                Ok(id) => {
                    &&& count_eligible(old(self).questions@, category_id, difficulty)
                        >= num_questions
                    &&& id == old(self).next_id as Oid
                    &&& final(self).next_id == old(self).next_id + 1
                    &&& final(self).quizzes@.len() == old(self).quizzes@.len() + 1
                    &&& final(self).quizzes@.drop_last() == old(self).quizzes@
                    &&& {
                        let q = final(self).quizzes@.last();
                        &&& q.id == id
                        &&& q.uuid == token
                        &&& q.user_id == user_id
                        &&& q.category_id == category_id
                        &&& q.difficulty == difficulty
                        &&& q.start_time == now
                        &&& q.end_time is None
                        &&& !q.paused
                        &&& q.score == 0
                        &&& q.answers@.len() == 0
                        &&& q.questions@.len() == num_questions
                        &&& q.questions@.no_duplicates()
                        &&& (forall|k: int|
                            0 <= k < q.questions@.len() ==> has_question(
                                old(self).questions@,
                                #[trigger] q.questions@[k],
                            ) && eligible(
                                old(self).questions@[question_at(
                                    old(self).questions@,
                                    q.questions@[k],
                                )],
                                category_id,
                                difficulty,
                            ))
                    }
                },
                Err(e) => {
                    &&& e == QuizError::InsufficientContent
                    &&& count_eligible(old(self).questions@, category_id, difficulty)
                        < num_questions
                    &&& *final(self) == *old(self)
                },
            },
            final(self).users@ == old(self).users@,
            final(self).categories@ == old(self).categories@,
            final(self).questions@ == old(self).questions@,
            final(self).leaderboard == old(self).leaderboard,
    {
        // collect the indices of the eligible questions, in store order
        let mut elig: Vec<usize> = Vec::new();
        let mut i: usize = 0;
        proof {
            assert(self.questions@.take(0) =~= Seq::<Question>::empty());
        }
        while i < self.questions.len()
            invariant
                0 <= i <= self.questions@.len(),
                elig@.len() == count_eligible(self.questions@.take(i as int), category_id,
                    difficulty),
                forall|a: int|
                    0 <= a < elig@.len() ==> #[trigger] elig@[a] < i && eligible(
                        self.questions@[elig@[a] as int],
                        category_id,
                        difficulty,
                    ),
                forall|a: int, b: int| 0 <= a < b < elig@.len() ==> elig@[a] < elig@[b],
            decreases self.questions@.len() - i,
        {
            proof {
                assert(self.questions@.take(i + 1).drop_last() =~= self.questions@.take(i as int));
                assert(self.questions@.take(i + 1).last() == self.questions@[i as int]);
            }
            if self.questions[i].category_id == category_id && self.questions[i].difficulty
                == difficulty {
                elig.push(i);
            }
            i = i + 1;
        }
        proof {
            assert(self.questions@.take(self.questions@.len() as int) =~= self.questions@);
        }
        let n = num_questions as usize;
        let m = elig.len();
        if m < n {
            return Err(QuizError::InsufficientContent);
        }
        // choose a window of n eligible questions from the entropy
        let span = m - n;
        let pick_trunc: usize = #[verifier::truncate] (pick as usize);
        let offset: usize = if span == usize::MAX {
            0
        } else {
            pick_trunc % (span + 1)
        };
        let mut qids: Vec<Oid> = Vec::new();
        let mut k: usize = 0;
        while k < n
            invariant
                0 <= k <= n,
                m == elig@.len(),
                n <= m,
                offset + n <= m,
                self.wf(),
                qids@.len() == k,
                forall|a: int|
                    0 <= a < elig@.len() ==> #[trigger] elig@[a] < self.questions@.len()
                        && eligible(self.questions@[elig@[a] as int], category_id, difficulty),
                forall|a: int, b: int| 0 <= a < b < elig@.len() ==> elig@[a] < elig@[b],
                forall|a: int|
                    0 <= a < k ==> #[trigger] qids@[a] == self.questions@[elig@[offset + a] as int].id,
            decreases n - k,
        {
            let q_index = elig[offset + k];
            qids.push(self.questions[q_index].id);
            k = k + 1;
        }
        proof {
            // distinct source positions and unique question ids make the
            // sampled ids distinct
            assert forall|a: int, b: int| 0 <= a < b < qids@.len() implies qids@[a] != qids@[b] by {
                assert(elig@[offset + a] < elig@[offset + b]);
            }
            assert forall|a: int| 0 <= a < qids@.len() implies has_question(
                self.questions@,
                #[trigger] qids@[a],
            ) && eligible(
                self.questions@[question_at(self.questions@, qids@[a])],
                category_id,
                difficulty,
            ) by {
                let p = elig@[offset + a] as int;
                assert(self.questions@[p].id == qids@[a]);
                let w = question_at(self.questions@, qids@[a]);
                assert(0 <= w < self.questions@.len() && self.questions@[w].id == qids@[a]);
                assert(w == p);
            }
        }
        let id: Oid = self.next_id as Oid;
        self.next_id = self.next_id + 1;
        let quiz = Quiz {
            id,
            uuid: token,
            user_id,
            category_id,
            difficulty,
            questions: qids,
            answers: Vec::new(),
            start_time: now,
            end_time: None,
            score: 0,
            paused: false,
        };
        proof {
            assert(sum_points(quiz.answers@) == 0);
            assert(quiz.wf());
        }
        self.quizzes.push(quiz);
        proof {
            assert(final(self).quizzes@.drop_last() =~= old(self).quizzes@);
        }
        Ok(id)
    }

    /// Submits an answer to a live quiz: the answer is graded against
    /// the stored question, appended, and the score raised by the points
    /// awarded, which are returned. A paused or finished quiz, a
    /// question not part of the quiz, and a question already answered
    /// are all rejected.
    pub fn submit_answer(
        &mut self,
        quiz_id: Oid,
        question_id: Oid,
        answer: String,
        time_taken: u64,
    ) -> (r: Result<u64, QuizError>)
        requires
            old(self).wf(),
        ensures
            final(self).wf(),
            final(self).users@ == old(self).users@,
            final(self).categories@ == old(self).categories@,
            final(self).questions@ == old(self).questions@,
            final(self).leaderboard == old(self).leaderboard,
            final(self).next_id == old(self).next_id,
            match r {
                Err(QuizError::QuizNotFound) => !has_quiz(old(self).quizzes@, quiz_id) && final(self).quizzes@ == old(self).quizzes@,
                Err(QuizError::InvalidState) => has_quiz(old(self).quizzes@, quiz_id) && (old(self).quiz_of(quiz_id).paused || old(self).quiz_of(quiz_id).finished() || (has_question(
                    old(self).questions@,
                    question_id,
                ) && old(self).quiz_of(quiz_id).questions@.contains(question_id) && old(self).quiz_of(quiz_id).answered(question_id))) && final(self).quizzes@ == old(self).quizzes@,
                Err(QuizError::QuestionNotFound) => has_quiz(old(self).quizzes@, quiz_id) && !old(self).quiz_of(quiz_id).paused && !old(self).quiz_of(quiz_id).finished() && (
                !has_question(old(self).questions@, question_id) || !old(self).quiz_of(
                    quiz_id,
                ).questions@.contains(question_id)) && final(self).quizzes@ == old(self).quizzes@,
                Ok(points) => {
                    let q = old(self).quiz_of(quiz_id);
                    let question = old(self).question_of(question_id);
                    let correct = question.correct_answer@ == answer@;
                    &&& has_quiz(old(self).quizzes@, quiz_id)
                    &&& !q.paused
                    &&& !q.finished()
                    &&& has_question(old(self).questions@, question_id)
                    &&& q.questions@.contains(question_id)
                    &&& !q.answered(question_id)
                    &&& points == points_for(
                        question.difficulty,
                        correct,
                        time_taken,
                        question.timer_secs,
                    )
                    &&& final(self).quizzes@ == old(self).quizzes@.update(
                        quiz_at(old(self).quizzes@, quiz_id),
                        final(self).quiz_of(quiz_id),
                    )
                    &&& {
                        let q2 = final(self).quiz_of(quiz_id);
                        &&& q2.answers@.len() == q.answers@.len() + 1
                        &&& q2.answers@.drop_last() == q.answers@
                        &&& q2.answers@.last().question_id == question_id
                        &&& q2.answers@.last().answer@ == answer@
                        &&& q2.answers@.last().time_taken_secs == time_taken
                        &&& q2.answers@.last().correct == correct
                        &&& q2.answers@.last().points == points
                        &&& q2.score == q.score + points
                        &&& q2.id == q.id
                        &&& q2.uuid == q.uuid
                        &&& q2.user_id == q.user_id
                        &&& q2.category_id == q.category_id
                        &&& q2.difficulty == q.difficulty
                        &&& q2.questions == q.questions
                        &&& q2.start_time == q.start_time
                        &&& q2.end_time == q.end_time
                        &&& q2.paused == q.paused
                    }
                },
                _ => false,
            },
    {
        let qi = match self.find_quiz(quiz_id) {
            Some(i) => i,
            None => {
                return Err(QuizError::QuizNotFound);
            },
        };
        proof {
            let w = quiz_at(self.quizzes@, quiz_id);
            assert(0 <= w < self.quizzes@.len() && self.quizzes@[w].id == quiz_id);
            assert(w == qi as int);
        }
        if self.quizzes[qi].paused {
            return Err(QuizError::InvalidState);
        }
        if self.quizzes[qi].end_time.is_some() {
            return Err(QuizError::InvalidState);
        }
        let question_index = match self.find_question(question_id) {
            Some(i) => i,
            None => {
                return Err(QuizError::QuestionNotFound);
            },
        };
        proof {
            let w = question_at(self.questions@, question_id);
            assert(0 <= w < self.questions@.len() && self.questions@[w].id == question_id);
            assert(w == question_index as int);
        }
        if !quiz_includes(&self.quizzes[qi], question_id) {
            return Err(QuizError::QuestionNotFound);
        }
        if quiz_has_answered(&self.quizzes[qi], question_id) {
            return Err(QuizError::InvalidState);
        }
        let correct = string_eq(&self.questions[question_index].correct_answer, &answer);
        let points = compute_points(
            self.questions[question_index].difficulty,
            correct,
            time_taken,
            self.questions[question_index].timer_secs,
        );
        let ghost pre = self.quizzes@;
        let mut quiz = self.quizzes.remove(qi);
        let ghost old_answers = quiz.answers@;
        proof {
            lemma_sum_points_bounded(old_answers);
            assert(old_answers.len() * max_answer_points() <= 0x100000000u64 * 40) by (nonlinear_arith)
                requires
                    old_answers.len() <= 0x100000000u64,
        ;
        }
        quiz.answers.push(
            UserAnswer { question_id, answer, time_taken_secs: time_taken, correct, points },
        );
        quiz.score = quiz.score + points;
        proof {
            assert(quiz.answers@.drop_last() =~= old_answers);
            assert(sum_points(quiz.answers@) == sum_points(old_answers) + points);
            lemma_distinct_answers_bounded(quiz.answers@, quiz.questions@);
            assert(quiz.wf());
        }
        self.quizzes.insert(qi, quiz);
        proof {
            pre.remove_ensures(qi as int);
            pre.remove(qi as int).insert_ensures(qi as int, final(self).quizzes@[qi as int]);
            assert(final(self).quizzes@ =~= pre.update(qi as int, final(self).quizzes@[qi as int]));
            let w2 = quiz_at(final(self).quizzes@, quiz_id);
            assert(final(self).quizzes@[qi as int].id == quiz_id);
            assert(0 <= w2 < final(self).quizzes@.len() && final(self).quizzes@[w2].id == quiz_id);
            assert(w2 == qi as int);
        }
        Ok(points)
    }

    /// Sets the paused flag of a live quiz; idempotent. A finished quiz
    /// cannot be paused or resumed.
    pub fn pause_quiz(&mut self, quiz_id: Oid, paused: bool) -> (r: Result<(), QuizError>)
        requires
            old(self).wf(),
        ensures
            final(self).wf(),
            final(self).users@ == old(self).users@,
            final(self).categories@ == old(self).categories@,
            final(self).questions@ == old(self).questions@,
            final(self).leaderboard == old(self).leaderboard,
            final(self).next_id == old(self).next_id,
            match r {
                Err(QuizError::QuizNotFound) => !has_quiz(old(self).quizzes@, quiz_id) && final(self).quizzes@ == old(self).quizzes@,
                Err(QuizError::InvalidState) => has_quiz(old(self).quizzes@, quiz_id) && old(self).quiz_of(quiz_id).finished() && final(self).quizzes@ == old(self).quizzes@,
                Ok(()) => {
                    let q = old(self).quiz_of(quiz_id);
                    &&& has_quiz(old(self).quizzes@, quiz_id)
                    &&& !q.finished()
                    &&& final(self).quizzes@ == old(self).quizzes@.update(
                        quiz_at(old(self).quizzes@, quiz_id),
                        Quiz { paused, ..q },
                    )
                },
                _ => false,
            },
    {
        let qi = match self.find_quiz(quiz_id) {
            Some(i) => i,
            None => {
                return Err(QuizError::QuizNotFound);
            },
        };
        proof {
            let w = quiz_at(self.quizzes@, quiz_id);
            assert(0 <= w < self.quizzes@.len() && self.quizzes@[w].id == quiz_id);
            assert(w == qi as int);
        }
        if self.quizzes[qi].end_time.is_some() {
            return Err(QuizError::InvalidState);
        }
        let ghost pre = self.quizzes@;
        let mut quiz = self.quizzes.remove(qi);
        quiz.paused = paused;
        self.quizzes.insert(qi, quiz);
        proof {
            pre.remove_ensures(qi as int);
            pre.remove(qi as int).insert_ensures(qi as int, final(self).quizzes@[qi as int]);
            assert(final(self).quizzes@ =~= pre.update(
                qi as int,
                Quiz { paused, ..pre[qi as int] },
            ));
        }
        Ok(())
    }
}

impl Store {
    /// Seals a quiz: sets its end timestamp to `now` and clears the
    /// paused flag, regardless of its current state; then appends the
    /// quiz token to the owner's history, awards the score as XP when it
    /// is positive, recomputes the category's top user, and upserts the
    /// score into the category's leaderboard, re-ranking it. Returns the
    /// quiz's final score. A missing owner aborts the chain after the
    /// seal: the quiz stays finished, nothing else changes.
    pub fn finish_quiz(&mut self, quiz_id: Oid, now: i64) -> (r: Result<u64, QuizError>)
        requires
            old(self).wf(),
        ensures
            final(self).wf(),
            final(self).questions@ == old(self).questions@,
            final(self).next_id == old(self).next_id,
            match r {
                Err(QuizError::QuizNotFound) => !has_quiz(old(self).quizzes@, quiz_id) && *final(self) == *old(self),
                Err(QuizError::UserNotFound) => {
                    let q = old(self).quiz_of(quiz_id);
                    &&& has_quiz(old(self).quizzes@, quiz_id)
                    &&& !has_user(old(self).users@, q.user_id)
                    &&& final(self).quizzes@ == old(self).quizzes@.update(
                        quiz_at(old(self).quizzes@, quiz_id),
                        (Quiz { end_time: Some(now), paused: false, ..q }),
                    )
                    &&& final(self).users@ == old(self).users@
                    &&& final(self).categories@ == old(self).categories@
                    &&& final(self).leaderboard == old(self).leaderboard
                },
                Ok(score) => {
                    let q = old(self).quiz_of(quiz_id);
                    let ui = user_at(old(self).users@, q.user_id);
                    let u = old(self).users@[ui];
                    &&& has_quiz(old(self).quizzes@, quiz_id)
                    &&& has_user(old(self).users@, q.user_id)
                    &&& score == q.score
                    &&& final(self).quizzes@ == old(self).quizzes@.update(
                        quiz_at(old(self).quizzes@, quiz_id),
                        (Quiz { end_time: Some(now), paused: false, ..q }),
                    )
                    &&& final(self).quiz_of(quiz_id).end_time == Some(now)
                    &&& !final(self).quiz_of(quiz_id).paused
                    &&& final(self).users@.len() == old(self).users@.len()
                    &&& final(self).users@[ui].quiz_history@ == u.quiz_history@.push(q.uuid)
                    &&& final(self).users@[ui].xp == (if q.score > 0 {
                        spec_sat_add(u.xp, q.score)
                    } else {
                        u.xp
                    })
                    &&& final(self).users@[ui].id == u.id
                    &&& final(self).users@[ui].phone_number == u.phone_number
                    &&& final(self).users@[ui].username == u.username
                    &&& final(self).users@[ui].password_hash == u.password_hash
                    &&& final(self).users@[ui].role == u.role
                    &&& (forall|p: int|
                        0 <= p < old(self).users@.len() && p != ui ==> final(self).users@[p] == old(self).users@[p])
                    &&& (!has_category(old(self).categories@, q.category_id) ==> final(self).categories@ == old(self).categories@)
                    &&& (has_category(old(self).categories@, q.category_id) ==> (exists|w: Oid|
                        {
                            &&& #[trigger] has_finished_quiz_by(
                                final(self).quizzes@,
                                q.category_id,
                                w,
                            )
                            &&& (forall|v: Oid|
                                #[trigger] user_total(final(self).quizzes@, q.category_id, v)
                                    <= user_total(final(self).quizzes@, q.category_id, w))
                            &&& final(self).categories@ == old(self).categories@.update(
                                category_at(old(self).categories@, q.category_id),
                                (Category {
                                    top_user_id: Some(w),
                                    ..old(self).categories@[category_at(
                                        old(self).categories@,
                                        q.category_id,
                                    )]
                                }),
                            )
                        }))
                    &&& has_pair(final(self).leaderboard.entries@, q.user_id, q.category_id)
                    &&& pair_score(final(self).leaderboard.entries@, q.user_id, q.category_id)
                        == spec_sat_add(
                        if has_pair(old(self).leaderboard.entries@, q.user_id, q.category_id) {
                            pair_score(old(self).leaderboard.entries@, q.user_id, q.category_id)
                        } else {
                            0
                        },
                        q.score,
                    )
                    &&& ranks_valid(final(self).leaderboard.entries@, q.category_id)
                },
                _ => false,
            },
    {
        let qi = match self.find_quiz(quiz_id) {
            Some(i) => i,
            None => {
                return Err(QuizError::QuizNotFound);
            },
        };
        proof {
            let w = quiz_at(self.quizzes@, quiz_id);
            assert(0 <= w < self.quizzes@.len() && self.quizzes@[w].id == quiz_id);
            assert(w == qi as int);
        }
        // seal the quiz: end timestamp set, paused cleared
        let ghost pre = self.quizzes@;
        let mut quiz = self.quizzes.remove(qi);
        let user_id = quiz.user_id;
        let category_id = quiz.category_id;
        let score = quiz.score;
        let token = quiz.uuid;
        quiz.end_time = Some(now);
        quiz.paused = false;
        self.quizzes.insert(qi, quiz);
        proof {
            pre.remove_ensures(qi as int);
            pre.remove(qi as int).insert_ensures(qi as int, final(self).quizzes@[qi as int]);
            assert(self.quizzes@ =~= pre.update(
                qi as int,
                (Quiz { end_time: Some(now), paused: false, ..pre[qi as int] }),
            ));
        }
        let ghost s1 = *self;
        // (a) append the quiz token to the owner's history
        match self.add_quiz_history(user_id, token) {
            Ok(()) => {},
            Err(e) => {
                return Err(e);
            },
        }
        let ghost s2 = *self;
        proof {
            let ih = choose|i: int|
                0 <= i < s1.users@.len() && (#[trigger] s1.users@[i]).id == user_id && s2.users@
                    == s1.users@.update(
                    i,
                    (User { quiz_history: s2.users@[i].quiz_history, ..s1.users@[i] }),
                );
            assert(s2.users@[ih].id == user_id);
            assert(has_user(s2.users@, user_id));
        }
        // (b) award the score as XP, only when positive
        if score > 0 {
            match self.add_xp(user_id, score) {
                Ok(()) => {},
                Err(_) => {
                    proof {
                        assert(false);
                    }
                },
            }
        }
        let ghost s3 = *self;
        // (c) recompute the category's top user
        self.update_category_top_user(category_id);
        let ghost s4 = *self;
        // (d) upsert the score into the category's leaderboard
        self.leaderboard.update_leaderboard(user_id, category_id, score);
        proof {
            let q0 = old(self).quiz_of(quiz_id);
            assert(q0 == pre[qi as int]);
            // the owner's record: history appended, then XP awarded
            let ui = user_at(old(self).users@, q0.user_id);
            assert(0 <= ui < old(self).users@.len() && old(self).users@[ui].id == user_id);
            let ih = choose|i: int|
                0 <= i < s1.users@.len() && (#[trigger] s1.users@[i]).id == user_id && s2.users@
                    == s1.users@.update(
                    i,
                    (User { quiz_history: s2.users@[i].quiz_history, ..s1.users@[i] }),
                );
            assert(ih == ui);
            assert(s2.users@[ui].quiz_history@ == old(self).users@[ui].quiz_history@.push(token));
            if score > 0 {
                let ix = choose|i: int|
                    0 <= i < s2.users@.len() && (#[trigger] s2.users@[i]).id == user_id
                        && s3.users@ == s2.users@.update(
                        i,
                        (User { xp: spec_sat_add(s2.users@[i].xp, score), ..s2.users@[i] }),
                    );
                assert(ix == ui);
            } else {
                assert(s3.users@ == s2.users@);
            }
            assert(final(self).users@ == s3.users@);
            // the sealed quiz is a finished quiz of the category
            assert(final(self).quizzes@ == s1.quizzes@);
            assert(final(self).quizzes@[qi as int].category_id == category_id);
            assert(final(self).quizzes@[qi as int].finished());
            assert(counts_for(final(self).quizzes@[qi as int], category_id, user_id));
            assert(has_finished_quiz(final(self).quizzes@, category_id));
            let w2 = quiz_at(final(self).quizzes@, quiz_id);
            assert(final(self).quizzes@[qi as int].id == quiz_id);
            assert(0 <= w2 < final(self).quizzes@.len() && final(self).quizzes@[w2].id == quiz_id);
            assert(w2 == qi as int);
            // the categories were rewritten only by the top-user pass
            assert(s4.categories@ == final(self).categories@);
            assert(s3.categories@ == old(self).categories@);
            assert(s3.quizzes@ == final(self).quizzes@);
        }
        Ok(score)
    }
}

/// Whether `question_id` is one of the quiz's sampled questions.
fn quiz_includes(quiz: &Quiz, question_id: Oid) -> (r: bool)
    ensures
        r == quiz.questions@.contains(question_id),
{
    let mut i: usize = 0;
    while i < quiz.questions.len()
        invariant
            0 <= i <= quiz.questions@.len(),
            forall|j: int| 0 <= j < i ==> quiz.questions@[j] != question_id,
        decreases quiz.questions@.len() - i,
    {
        if quiz.questions[i] == question_id {
            return true;
        }
        i = i + 1;
    }
    false
}

/// Whether the quiz already holds an answer for `question_id`.
fn quiz_has_answered(quiz: &Quiz, question_id: Oid) -> (r: bool)
    ensures
        r == quiz.answered(question_id),
{
    let mut i: usize = 0;
    while i < quiz.answers.len()
        invariant
            0 <= i <= quiz.answers@.len(),
            forall|j: int| 0 <= j < i ==> (#[trigger] quiz.answers@[j]).question_id != question_id,
        decreases quiz.answers@.len() - i,
    {
        if quiz.answers[i].question_id == question_id {
            return true;
        }
        i = i + 1;
    }
    false
}

} // verus!
