//! The in-memory document store the engines run against: one collection
//! per entity, ids handed out by a counter, with uniqueness invariants.

use vstd::prelude::*;
use crate::errors::QuizError;
use crate::ids::Oid;
use crate::leaderboard::Leaderboard;
use crate::model::{Category, Question, Quiz, User};
use crate::util::sat_add;

verus! {

/// Whether some user in `s` has id `id`.
pub open spec fn has_user(s: Seq<User>, id: Oid) -> bool {
    exists|i: int| 0 <= i < s.len() && (#[trigger] s[i]).id == id
}

/// The index of the user with id `id`; meaningful when ids are unique.
pub open spec fn user_at(s: Seq<User>, id: Oid) -> int {
    choose|i: int| 0 <= i < s.len() && (#[trigger] s[i]).id == id
}

/// Whether some user in `s` has phone number `phone`.
pub open spec fn has_phone(s: Seq<User>, phone: Seq<char>) -> bool {
    exists|i: int| 0 <= i < s.len() && (#[trigger] s[i]).phone_number@ == phone
}

/// Whether some user in `s` has username `name`.
pub open spec fn has_username(s: Seq<User>, name: Seq<char>) -> bool {
    exists|i: int| 0 <= i < s.len() && (#[trigger] s[i]).username@ == name
}

/// Whether some category in `s` has id `id`.
pub open spec fn has_category(s: Seq<Category>, id: Oid) -> bool {
    exists|i: int| 0 <= i < s.len() && (#[trigger] s[i]).id == id
}

/// The index of the category with id `id`.
pub open spec fn category_at(s: Seq<Category>, id: Oid) -> int {
    choose|i: int| 0 <= i < s.len() && (#[trigger] s[i]).id == id
}

/// Whether some question in `s` has id `id`.
pub open spec fn has_question(s: Seq<Question>, id: Oid) -> bool {
    exists|i: int| 0 <= i < s.len() && (#[trigger] s[i]).id == id
}

/// The index of the question with id `id`.
pub open spec fn question_at(s: Seq<Question>, id: Oid) -> int {
    choose|i: int| 0 <= i < s.len() && (#[trigger] s[i]).id == id
}

/// Whether some quiz in `s` has id `id`.
pub open spec fn has_quiz(s: Seq<Quiz>, id: Oid) -> bool {
    exists|i: int| 0 <= i < s.len() && (#[trigger] s[i]).id == id
}

/// The index of the quiz with id `id`.
pub open spec fn quiz_at(s: Seq<Quiz>, id: Oid) -> int {
    choose|i: int| 0 <= i < s.len() && (#[trigger] s[i]).id == id
}

/// The questions of `s` that match the optional category filter, in
/// order.
pub open spec fn questions_matching(s: Seq<Question>, category_id: Option<Oid>) -> Seq<Question>
    decreases s.len(),
{
    if s.len() == 0 {
        Seq::empty()
    } else {
        let rest = questions_matching(s.drop_last(), category_id);
        if (match category_id {
            Some(cat) => s.last().category_id == cat,
            None => true,
        }) {
            rest.push(s.last())
        } else {
            rest
        }
    }
}

/// Users have unique ids, phone numbers and usernames, all ids below the
/// store's counter.
pub open spec fn users_wf(s: Seq<User>, bound: u64) -> bool {
    &&& (forall|i: int, j: int|
        0 <= i < j < s.len() ==> (#[trigger] s[i]).id != (#[trigger] s[j]).id)
    &&& (forall|i: int, j: int|
        0 <= i < j < s.len() ==> (#[trigger] s[i]).phone_number@ != (
        #[trigger] s[j]).phone_number@)
    &&& (forall|i: int, j: int|
        0 <= i < j < s.len() ==> (#[trigger] s[i]).username@ != (#[trigger] s[j]).username@)
    &&& (forall|i: int| 0 <= i < s.len() ==> (#[trigger] s[i]).id < bound)
}

/// Categories have unique ids, all below the store's counter.
pub open spec fn categories_wf(s: Seq<Category>, bound: u64) -> bool {
    &&& (forall|i: int, j: int|
        0 <= i < j < s.len() ==> (#[trigger] s[i]).id != (#[trigger] s[j]).id)
    &&& (forall|i: int| 0 <= i < s.len() ==> (#[trigger] s[i]).id < bound)
}

/// Questions have unique ids, all below the store's counter.
pub open spec fn questions_wf(s: Seq<Question>, bound: u64) -> bool {
    &&& (forall|i: int, j: int|
        0 <= i < j < s.len() ==> (#[trigger] s[i]).id != (#[trigger] s[j]).id)
    &&& (forall|i: int| 0 <= i < s.len() ==> (#[trigger] s[i]).id < bound)
}

/// Quizzes have unique ids below the store's counter and are each
/// well-formed.
pub open spec fn quizzes_wf(s: Seq<Quiz>, bound: u64) -> bool {
    &&& (forall|i: int, j: int|
        0 <= i < j < s.len() ==> (#[trigger] s[i]).id != (#[trigger] s[j]).id)
    &&& (forall|i: int| 0 <= i < s.len() ==> (#[trigger] s[i]).id < bound)
    &&& (forall|i: int| 0 <= i < s.len() ==> (#[trigger] s[i]).wf())
}

/// The in-memory document store: every collection the service persists,
/// plus the counter fresh ids are drawn from.
pub struct Store {
    pub users: Vec<User>,
    pub categories: Vec<Category>,
    pub questions: Vec<Question>,
    pub quizzes: Vec<Quiz>,
    pub leaderboard: Leaderboard,
    pub next_id: u64,
}

impl Store {
    /// Well-formedness of the whole store.
    pub open spec fn wf(self) -> bool {
        &&& users_wf(self.users@, self.next_id)
        &&& categories_wf(self.categories@, self.next_id)
        &&& questions_wf(self.questions@, self.next_id)
        &&& quizzes_wf(self.quizzes@, self.next_id)
        &&& self.leaderboard.wf()
    }

    /// An empty store.
    pub fn new() -> (s: Store)
        ensures
            s.wf(),
            s.users@.len() == 0,
            s.categories@.len() == 0,
            s.questions@.len() == 0,
            s.quizzes@.len() == 0,
            s.leaderboard.entries@.len() == 0,
    {
        Store {
            users: Vec::new(),
            categories: Vec::new(),
            questions: Vec::new(),
            quizzes: Vec::new(),
            leaderboard: Leaderboard::new(),
            next_id: 1,
        }
    }

    /// The index of the user with id `user_id`, if any.
    pub(crate) fn find_user(&self, user_id: Oid) -> (r: Option<usize>)
        ensures
            match r {
                Some(i) => i < self.users@.len() && self.users@[i as int].id == user_id,
                None => !has_user(self.users@, user_id),
            },
    {
        let mut i: usize = 0;
        while i < self.users.len()
            invariant
                0 <= i <= self.users@.len(),
                forall|j: int| 0 <= j < i ==> (#[trigger] self.users@[j]).id != user_id,
            decreases self.users@.len() - i,
        {
            if self.users[i].id == user_id {
                return Some(i);
            }
            i = i + 1;
        }
        None
    }

    /// The index of the category with id `category_id`, if any.
    pub(crate) fn find_category(&self, category_id: Oid) -> (r: Option<usize>)
        ensures
            match r {
                Some(i) => i < self.categories@.len() && self.categories@[i as int].id
                    == category_id,
                None => !has_category(self.categories@, category_id),
            },
    {
        let mut i: usize = 0;
        while i < self.categories.len()
            invariant
                0 <= i <= self.categories@.len(),
                forall|j: int| 0 <= j < i ==> (#[trigger] self.categories@[j]).id != category_id,
            decreases self.categories@.len() - i,
        {
            if self.categories[i].id == category_id {
                return Some(i);
            }
            i = i + 1;
        }
        None
    }

    /// The index of the question with id `question_id`, if any.
    pub(crate) fn find_question(&self, question_id: Oid) -> (r: Option<usize>)
        ensures
            match r {
                Some(i) => i < self.questions@.len() && self.questions@[i as int].id
                    == question_id,
                None => !has_question(self.questions@, question_id),
            },
    {
        let mut i: usize = 0;
        while i < self.questions.len()
            invariant
                0 <= i <= self.questions@.len(),
                forall|j: int| 0 <= j < i ==> (#[trigger] self.questions@[j]).id != question_id,
            decreases self.questions@.len() - i,
        {
            if self.questions[i].id == question_id {
                return Some(i);
            }
            i = i + 1;
        }
        None
    }

    /// The index of the quiz with id `quiz_id`, if any.
    pub(crate) fn find_quiz(&self, quiz_id: Oid) -> (r: Option<usize>)
        ensures
            match r {
                Some(i) => i < self.quizzes@.len() && self.quizzes@[i as int].id == quiz_id,
                None => !has_quiz(self.quizzes@, quiz_id),
            },
    {
        let mut i: usize = 0;
        while i < self.quizzes.len()
            invariant
                0 <= i <= self.quizzes@.len(),
                forall|j: int| 0 <= j < i ==> (#[trigger] self.quizzes@[j]).id != quiz_id,
            decreases self.quizzes@.len() - i,
        {
            if self.quizzes[i].id == quiz_id {
                return Some(i);
            }
            i = i + 1;
        }
        None
    }

    /// Creates a category; the store assigns the id, and the top-user
    /// cache starts empty.
    pub fn create_category(&mut self, category: Category) -> (id: Oid)
        requires
            old(self).wf(),
            old(self).next_id < u64::MAX,
        ensures
            final(self).wf(),
            id == old(self).next_id as Oid,
            final(self).categories@ == old(self).categories@.push(
                Category { id, top_user_id: None, ..category },
            ),
            final(self).users@ == old(self).users@,
            final(self).questions@ == old(self).questions@,
            final(self).quizzes@ == old(self).quizzes@,
            final(self).leaderboard == old(self).leaderboard,
            final(self).next_id == old(self).next_id + 1,
    {
        let id: Oid = self.next_id as Oid;
        self.next_id = self.next_id + 1;
        let mut category = category;
        category.id = id;
        category.top_user_id = None;
        self.categories.push(category);
        id
    }

    /// The category with id `category_id`.
    pub fn get_category(&self, category_id: Oid) -> (r: Result<&Category, QuizError>)
        ensures
            match r {
                Ok(c) => has_category(self.categories@, category_id) && c.id == category_id
                    && self.categories@.contains(*c),
                Err(e) => e == QuizError::CategoryNotFound && !has_category(
                    self.categories@,
                    category_id,
                ),
            },
    {
        match self.find_category(category_id) {
            Some(i) => Ok(&self.categories[i]),
            None => Err(QuizError::CategoryNotFound),
        }
    }

    /// All categories, in creation order.
    pub fn list_categories(&self) -> (r: &Vec<Category>)
        ensures
            r == &self.categories,
    {
        &self.categories
    }

    /// Deletes the category with id `category_id`.
    pub fn delete_category(&mut self, category_id: Oid) -> (r: Result<(), QuizError>)
        requires
            old(self).wf(),
        ensures
            final(self).wf(),
            match r {
                Ok(()) => exists|i: int|
                    0 <= i < old(self).categories@.len() && (#[trigger] old(
                        self,
                    ).categories@[i]).id == category_id && final(self).categories@ == old(
                        self,
                    ).categories@.remove(i),
                Err(e) => e == QuizError::CategoryNotFound && !has_category(
                    old(self).categories@,
                    category_id,
                ) && final(self).categories@ == old(self).categories@,
            },
            final(self).users@ == old(self).users@,
            final(self).questions@ == old(self).questions@,
            final(self).quizzes@ == old(self).quizzes@,
            final(self).leaderboard == old(self).leaderboard,
            final(self).next_id == old(self).next_id,
    {
        match self.find_category(category_id) {
            Some(i) => {
                let ghost pre = self.categories@;
                self.categories.remove(i);
                proof {
                    pre.remove_ensures(i as int);
                }
                Ok(())
            },
            None => Err(QuizError::CategoryNotFound),
        }
    }

    /// Creates a question; the store assigns the id.
    pub fn create_question(&mut self, question: Question) -> (id: Oid)
        requires
            old(self).wf(),
            old(self).next_id < u64::MAX,
        ensures
            final(self).wf(),
            id == old(self).next_id as Oid,
            final(self).questions@ == old(self).questions@.push(Question { id, ..question }),
            final(self).users@ == old(self).users@,
            final(self).categories@ == old(self).categories@,
            final(self).quizzes@ == old(self).quizzes@,
            final(self).leaderboard == old(self).leaderboard,
            final(self).next_id == old(self).next_id + 1,
    {
        let id: Oid = self.next_id as Oid;
        self.next_id = self.next_id + 1;
        let mut question = question;
        question.id = id;
        self.questions.push(question);
        id
    }

    /// The question with id `question_id`.
    pub fn get_question(&self, question_id: Oid) -> (r: Result<&Question, QuizError>)
        ensures
            match r {
                Ok(q) => has_question(self.questions@, question_id) && q.id == question_id
                    && self.questions@.contains(*q),
                Err(e) => e == QuizError::QuestionNotFound && !has_question(
                    self.questions@,
                    question_id,
                ),
            },
    {
        match self.find_question(question_id) {
            Some(i) => Ok(&self.questions[i]),
            None => Err(QuizError::QuestionNotFound),
        }
    }

    /// Lists questions, optionally only those of one category, in
    /// creation order.
    pub fn list_questions(&self, category_id: Option<Oid>) -> (r: Vec<&Question>)
        ensures
            r@.map_values(|q: &Question| *q) == questions_matching(self.questions@, category_id),
    {
        let mut r: Vec<&Question> = Vec::new();
        let mut i: usize = 0;
        proof {
            assert(self.questions@.take(0) =~= Seq::<Question>::empty());
            assert(r@.map_values(|q: &Question| *q) =~= questions_matching(
                self.questions@.take(0),
                category_id,
            ));
        }
        while i < self.questions.len()
            invariant
                0 <= i <= self.questions@.len(),
                r@.map_values(|q: &Question| *q) == questions_matching(
                    self.questions@.take(i as int),
                    category_id,
                ),
            decreases self.questions@.len() - i,
        {
            proof {
                assert(self.questions@.take(i + 1).drop_last() =~= self.questions@.take(i as int));
                assert(self.questions@.take(i + 1).last() == self.questions@[i as int]);
            }
            let ghost prev = r@.map_values(|q: &Question| *q);
            let keep = match category_id {
                Some(cat) => self.questions[i].category_id == cat,
                None => true,
            };
            if keep {
                r.push(&self.questions[i]);
                proof {
                    assert(r@.map_values(|q: &Question| *q) =~= prev.push(
                        self.questions@[i as int],
                    ));
                }
            }
            i = i + 1;
        }
        proof {
            assert(self.questions@.take(self.questions@.len() as int) =~= self.questions@);
        }
        r
    }

    /// Deletes the question with id `question_id`.
    pub fn delete_question(&mut self, question_id: Oid) -> (r: Result<(), QuizError>)
        requires
            old(self).wf(),
        ensures
            final(self).wf(),
            match r {
                Ok(()) => exists|i: int|
                    0 <= i < old(self).questions@.len() && (#[trigger] old(
                        self,
                    ).questions@[i]).id == question_id && final(self).questions@ == old(
                        self,
                    ).questions@.remove(i),
                Err(e) => e == QuizError::QuestionNotFound && !has_question(
                    old(self).questions@,
                    question_id,
                ) && final(self).questions@ == old(self).questions@,
            },
            final(self).users@ == old(self).users@,
            final(self).categories@ == old(self).categories@,
            final(self).quizzes@ == old(self).quizzes@,
            final(self).leaderboard == old(self).leaderboard,
            final(self).next_id == old(self).next_id,
    {
        match self.find_question(question_id) {
            Some(i) => {
                let ghost pre = self.questions@;
                self.questions.remove(i);
                proof {
                    pre.remove_ensures(i as int);
                }
                Ok(())
            },
            None => Err(QuizError::QuestionNotFound),
        }
    }

    /// The user with id `user_id`.
    pub fn get_user(&self, user_id: Oid) -> (r: Result<&User, QuizError>)
        ensures
            match r {
                Ok(u) => has_user(self.users@, user_id) && u.id == user_id && self.users@.contains(
                    *u,
                ),
                Err(e) => e == QuizError::UserNotFound && !has_user(self.users@, user_id),
            },
    {
        match self.find_user(user_id) {
            Some(i) => Ok(&self.users[i]),
            None => Err(QuizError::UserNotFound),
        }
    }

    /// Adds `xp` to the experience of user `user_id`, saturating.
    pub fn add_xp(&mut self, user_id: Oid, xp: u64) -> (r: Result<(), QuizError>)
        requires
            old(self).wf(),
        ensures
            final(self).wf(),
            match r {
                Ok(()) => exists|i: int|
                    0 <= i < old(self).users@.len() && (#[trigger] old(self).users@[i]).id
                        == user_id && final(self).users@ == old(self).users@.update(
                        i,
                        User {
                            xp: crate::util::spec_sat_add(old(self).users@[i].xp, xp),
                            ..old(self).users@[i]
                        },
                    ),
                Err(e) => e == QuizError::UserNotFound && !has_user(old(self).users@, user_id)
                    && final(self).users@ == old(self).users@,
            },
            final(self).categories@ == old(self).categories@,
            final(self).questions@ == old(self).questions@,
            final(self).quizzes@ == old(self).quizzes@,
            final(self).leaderboard == old(self).leaderboard,
            final(self).next_id == old(self).next_id,
    {
        match self.find_user(user_id) {
            Some(i) => {
                let ghost pre = self.users@;
                let mut u = self.users.remove(i);
                u.xp = sat_add(u.xp, xp);
                self.users.insert(i, u);
                proof {
                    pre.remove_ensures(i as int);
                    pre.remove(i as int).insert_ensures(i as int, final(self).users@[i as int]);
                    assert(final(self).users@ =~= pre.update(
                        i as int,
                        User { xp: crate::util::spec_sat_add(pre[i as int].xp, xp), ..pre[i as int] },
                    ));
                }
                Ok(())
            },
            None => Err(QuizError::UserNotFound),
        }
    }

    /// Appends `token` to the quiz history of user `user_id`.
    pub fn add_quiz_history(&mut self, user_id: Oid, token: crate::ids::Token) -> (r: Result<
        (),
        QuizError,
    >)
        requires
            old(self).wf(),
        ensures
            final(self).wf(),
            match r {
                Ok(()) => exists|i: int|
                    0 <= i < old(self).users@.len() && (#[trigger] old(self).users@[i]).id
                        == user_id && final(self).users@[i].quiz_history@ == old(
                        self,
                    ).users@[i].quiz_history@.push(token) && final(self).users@ == old(
                        self,
                    ).users@.update(
                        i,
                        User { quiz_history: final(self).users@[i].quiz_history, ..old(
                            self,
                        ).users@[i] },
                    ),
                Err(e) => e == QuizError::UserNotFound && !has_user(old(self).users@, user_id)
                    && final(self).users@ == old(self).users@,
            },
            final(self).categories@ == old(self).categories@,
            final(self).questions@ == old(self).questions@,
            final(self).quizzes@ == old(self).quizzes@,
            final(self).leaderboard == old(self).leaderboard,
            final(self).next_id == old(self).next_id,
    {
        match self.find_user(user_id) {
            Some(i) => {
                let ghost pre = self.users@;
                let mut u = self.users.remove(i);
                u.quiz_history.push(token);
                self.users.insert(i, u);
                proof {
                    pre.remove_ensures(i as int);
                    pre.remove(i as int).insert_ensures(i as int, final(self).users@[i as int]);
                    assert(final(self).users@ =~= pre.update(
                        i as int,
                        User {
                            quiz_history: final(self).users@[i as int].quiz_history,
                            ..pre[i as int]
                        },
                    ));
                }
                Ok(())
            },
            None => Err(QuizError::UserNotFound),
        }
    }

    /// Replaces the profile of user `user_id`.
    pub fn update_profile(&mut self, user_id: Oid, profile: crate::model::Profile) -> (r: Result<
        (),
        QuizError,
    >)
        requires
            old(self).wf(),
        ensures
            final(self).wf(),
            match r {
                Ok(()) => exists|i: int|
                    0 <= i < old(self).users@.len() && (#[trigger] old(self).users@[i]).id
                        == user_id && final(self).users@ == old(self).users@.update(
                        i,
                        User { profile, ..old(self).users@[i] },
                    ),
                Err(e) => e == QuizError::UserNotFound && !has_user(old(self).users@, user_id)
                    && final(self).users@ == old(self).users@,
            },
            final(self).categories@ == old(self).categories@,
            final(self).questions@ == old(self).questions@,
            final(self).quizzes@ == old(self).quizzes@,
            final(self).leaderboard == old(self).leaderboard,
            final(self).next_id == old(self).next_id,
    {
        match self.find_user(user_id) {
            Some(i) => {
                let ghost pre = self.users@;
                let mut u = self.users.remove(i);
                u.profile = profile;
                self.users.insert(i, u);
                proof {
                    pre.remove_ensures(i as int);
                    pre.remove(i as int).insert_ensures(i as int, final(self).users@[i as int]);
                    assert(final(self).users@ =~= pre.update(
                        i as int,
                        User { profile, ..pre[i as int] },
                    ));
                }
                Ok(())
            },
            None => Err(QuizError::UserNotFound),
        }
    }
}

} // verus!
