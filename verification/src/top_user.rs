//! Top-user tracker: recomputes, per category, the user with the highest
//! total score over all finished quizzes, and caches the winner on the
//! category record.

use vstd::prelude::*;
use crate::errors::QuizError;
use crate::ids::Oid;
use crate::model::{Category, Quiz, User};
use crate::store::{category_at, has_category, has_user, user_at, Store};

verus! {

/// Whether quiz `q` contributes to `user`'s total in `cat`: it is a
/// finished quiz by that user in that category.
pub open spec fn counts_for(q: Quiz, cat: Oid, user: Oid) -> bool {
    q.category_id == cat && q.finished() && q.user_id == user
}

/// The total score of `user` over all finished quizzes in `cat`.
pub open spec fn user_total(s: Seq<Quiz>, cat: Oid, user: Oid) -> int
    decreases s.len(),
{
    if s.len() == 0 {
        0
    } else {
        user_total(s.drop_last(), cat, user) + if counts_for(s.last(), cat, user) {
            s.last().score as int
        } else {
            0int
        }
    }
}

/// Whether some finished quiz exists in `cat`.
pub open spec fn has_finished_quiz(s: Seq<Quiz>, cat: Oid) -> bool {
    exists|i: int| 0 <= i < s.len() && (#[trigger] s[i]).category_id == cat && s[i].finished()
}

/// Whether `user` has some finished quiz in `cat`.
pub open spec fn has_finished_quiz_by(s: Seq<Quiz>, cat: Oid, user: Oid) -> bool {
    exists|i: int| 0 <= i < s.len() && counts_for(#[trigger] s[i], cat, user)
}

/// One step of the per-user total, unfolded at position `i`.
proof fn lemma_user_total_step(s: Seq<Quiz>, i: int, cat: Oid, user: Oid)
    requires
        0 <= i < s.len(),
    ensures
        user_total(s.take(i + 1), cat, user) == user_total(s.take(i), cat, user) + if counts_for(
            s[i],
            cat,
            user,
        ) {
            s[i].score as int
        } else {
            0int
        },
{
    assert(s.take(i + 1).drop_last() =~= s.take(i));
    assert(s.take(i + 1).last() == s[i]);
}

/// A total over `n` quizzes each scoring at most 40 * 2^32 is bounded by
/// n times that.
proof fn lemma_user_total_bounded(s: Seq<Quiz>, cat: Oid, user: Oid)
    requires
        forall|i: int| 0 <= i < s.len() ==> (#[trigger] s[i]).wf(),
    ensures
        0 <= user_total(s, cat, user) <= s.len() * 0x28_0000_0000,
    decreases s.len(),
{
    if s.len() > 0 {
        lemma_user_total_bounded(s.drop_last(), cat, user);
        assert(s.drop_last().len() == s.len() - 1);
        if counts_for(s.last(), cat, user) {
            let q = s.last();
            assert(q.wf());
            crate::model::lemma_sum_points_bounded(q.answers@);
        }
    }
}

impl Store {
    /// Recomputes the top user of `category_id` from all finished
    /// quizzes in that category and caches the winner on the category
    /// record. With no finished quiz, or no such category, nothing
    /// changes.
    pub(crate) fn update_category_top_user(&mut self, category_id: Oid)
        requires
            old(self).wf(),
        ensures
            final(self).wf(),
            final(self).users@ == old(self).users@,
            final(self).questions@ == old(self).questions@,
            final(self).quizzes@ == old(self).quizzes@,
            final(self).leaderboard == old(self).leaderboard,
            final(self).next_id == old(self).next_id,
            !has_finished_quiz(old(self).quizzes@, category_id) ==> final(self).categories@ == old(
                self,
            ).categories@,
            !has_category(old(self).categories@, category_id) ==> final(self).categories@ == old(
                self,
            ).categories@,
            (has_finished_quiz(old(self).quizzes@, category_id) && has_category(
                old(self).categories@,
                category_id,
            )) ==> (exists|w: Oid|
                {
                    &&& #[trigger] has_finished_quiz_by(old(self).quizzes@, category_id, w)
                    &&& (forall|v: Oid|
                        #[trigger] user_total(old(self).quizzes@, category_id, v) <= user_total(
                            old(self).quizzes@,
                            category_id,
                            w,
                        ))
                    &&& final(self).categories@ == old(self).categories@.update(
                        category_at(old(self).categories@, category_id),
                        Category {
                            top_user_id: Some(w),
                            ..old(self).categories@[category_at(
                                old(self).categories@,
                                category_id,
                            )]
                        },
                    )
                }),
    {
        let ghost qs = self.quizzes@;
        // 1. total the finished quizzes of the category, per user
        let mut totals: Vec<(Oid, u128)> = Vec::new();
        let mut i: usize = 0;
        proof {
            assert(qs.take(0) =~= Seq::<Quiz>::empty());
        }
        while i < self.quizzes.len()
            invariant
                self.wf(),
                qs == self.quizzes@,
                0 <= i <= qs.len(),
                forall|a: int, b: int|
                    0 <= a < b < totals@.len() ==> (#[trigger] totals@[a]).0 != (
                    #[trigger] totals@[b]).0,
                forall|a: int|
                    0 <= a < totals@.len() ==> (#[trigger] totals@[a]).1 == user_total(
                        qs.take(i as int),
                        category_id,
                        totals@[a].0,
                    ) && has_finished_quiz_by(qs.take(i as int), category_id, totals@[a].0),
                forall|u: Oid|
                    !has_finished_quiz_by(qs.take(i as int), category_id, u)
                        ==> #[trigger] user_total(qs.take(i as int), category_id, u) == 0,
                forall|u: Oid|
                    #[trigger] has_finished_quiz_by(qs.take(i as int), category_id, u) ==> exists|
                        a: int,
                    | 0 <= a < totals@.len() && (#[trigger] totals@[a]).0 == u,
            decreases qs.len() - i,
        {
            let q_cat = self.quizzes[i].category_id;
            let q_fin = self.quizzes[i].end_time.is_some();
            let q_user = self.quizzes[i].user_id;
            let q_score = self.quizzes[i].score;
            proof {
                assert(qs.take(i + 1).drop_last() =~= qs.take(i as int));
                assert(qs.take(i + 1).last() == qs[i as int]);
            }
            if q_cat == category_id && q_fin {
                proof {
                    lemma_user_total_bounded(qs.take(i as int), category_id, q_user);
                    assert(qs.take(i as int).len() * 0x28_0000_0000 <= 0xFFFF_FFFF_FFFF_FFFFu64
                        * 0x28_0000_0000) by (nonlinear_arith)
                        requires
                            qs.take(i as int).len() <= 0xFFFF_FFFF_FFFF_FFFFu64,
                    ;
                }
                // add this quiz's score to its user's running total
                let mut a: usize = 0;
                let mut found = false;
                while a < totals.len()
                    invariant
                        0 <= a <= totals@.len(),
                        !found ==> forall|b: int| 0 <= b < a ==> (#[trigger] totals@[b]).0
                            != q_user,
                        found ==> a < totals@.len() && totals@[a as int].0 == q_user,
                    ensures
                        found ==> a < totals@.len() && totals@[a as int].0 == q_user,
                        !found ==> forall|b: int|
                            0 <= b < totals@.len() ==> (#[trigger] totals@[b]).0 != q_user,
                    decreases totals@.len() - a + if found {
                        0int
                    } else {
                        1int
                    },
                {
                    if totals[a].0 == q_user {
                        found = true;
                        break ;
                    }
                    a = a + 1;
                }
                let ghost pre_totals = totals@;
                if found {
                    let e = totals[a];
                    proof {
                        assert(e.1 == user_total(qs.take(i as int), category_id, q_user));
                        lemma_user_total_bounded(qs.take(i as int), category_id, q_user);
                    }
                    totals.set(a, (e.0, e.1 + (q_score as u128)));
                } else {
                    totals.push((q_user, q_score as u128));
                }
                proof {
                    assert forall|u: Oid|
                        !has_finished_quiz_by(qs.take(i + 1), category_id, u)
                            implies #[trigger] user_total(qs.take(i + 1), category_id, u)
                        == 0 by {
                        lemma_user_total_step(qs, i as int, category_id, u);
                        if has_finished_quiz_by(qs.take(i as int), category_id, u) {
                            let w = choose|j: int|
                                0 <= j < qs.take(i as int).len() && counts_for(
                                    #[trigger] qs.take(i as int)[j],
                                    category_id,
                                    u,
                                );
                            assert(counts_for(qs.take(i + 1)[w], category_id, u));
                        }
                    }
                    assert forall|a2: int| 0 <= a2 < totals@.len() implies (
                    #[trigger] totals@[a2]).1 == user_total(
                        qs.take(i + 1),
                        category_id,
                        totals@[a2].0,
                    ) && has_finished_quiz_by(qs.take(i + 1), category_id, totals@[a2].0) by {
                        lemma_user_total_step(qs, i as int, category_id, totals@[a2].0);
                        if found {
                            if a2 != a {
                                assert(totals@[a2] == pre_totals[a2]);
                                assert(pre_totals[a2].0 != q_user);
                            }
                        } else {
                            if a2 < pre_totals.len() {
                                assert(totals@[a2] == pre_totals[a2]);
                                assert(pre_totals[a2].0 != q_user);
                            } else {
                                assert(totals@[a2] == (q_user, q_score as u128));
                                assert(!has_finished_quiz_by(
                                    qs.take(i as int),
                                    category_id,
                                    q_user,
                                ));
                                assert(user_total(qs.take(i as int), category_id, q_user) == 0);
                            }
                        }
                        if has_finished_quiz_by(qs.take(i as int), category_id, totals@[a2].0) {
                            let w = choose|j: int|
                                0 <= j < qs.take(i as int).len() && counts_for(
                                    #[trigger] qs.take(i as int)[j],
                                    category_id,
                                    totals@[a2].0,
                                );
                            assert(counts_for(qs.take(i + 1)[w], category_id, totals@[a2].0));
                        } else {
                            assert(counts_for(qs.take(i + 1)[i as int], category_id, q_user));
                        }
                    }
                    assert forall|u: Oid|
                        #[trigger] has_finished_quiz_by(qs.take(i + 1), category_id, u) implies
                        exists|a2: int| 0 <= a2 < totals@.len() && (#[trigger] totals@[a2]).0
                        == u by {
                        if u == q_user {
                            if found {
                                assert(totals@[a as int].0 == q_user);
                            } else {
                                assert(totals@[pre_totals.len() as int].0 == q_user);
                            }
                        } else {
                            let j = choose|j: int|
                                0 <= j < qs.take(i + 1).len() && counts_for(
                                    #[trigger] qs.take(i + 1)[j],
                                    category_id,
                                    u,
                                );
                            assert(j != i);
                            assert(counts_for(qs.take(i as int)[j], category_id, u));
                            assert(has_finished_quiz_by(qs.take(i as int), category_id, u));
                            let a3 = choose|a3: int|
                                0 <= a3 < pre_totals.len() && (#[trigger] pre_totals[a3]).0 == u;
                            assert(totals@[a3].0 == u);
                        }
                    }
                }
            } else {
                proof {
                    assert forall|u: Oid|
                        !has_finished_quiz_by(qs.take(i + 1), category_id, u)
                            implies #[trigger] user_total(qs.take(i + 1), category_id, u)
                        == 0 by {
                        lemma_user_total_step(qs, i as int, category_id, u);
                        if has_finished_quiz_by(qs.take(i as int), category_id, u) {
                            let w = choose|j: int|
                                0 <= j < qs.take(i as int).len() && counts_for(
                                    #[trigger] qs.take(i as int)[j],
                                    category_id,
                                    u,
                                );
                            assert(counts_for(qs.take(i + 1)[w], category_id, u));
                        }
                    }
                    assert forall|a2: int| 0 <= a2 < totals@.len() implies (
                    #[trigger] totals@[a2]).1 == user_total(
                        qs.take(i + 1),
                        category_id,
                        totals@[a2].0,
                    ) && has_finished_quiz_by(qs.take(i + 1), category_id, totals@[a2].0) by {
                        lemma_user_total_step(qs, i as int, category_id, totals@[a2].0);
                        let w = choose|j: int|
                            0 <= j < qs.take(i as int).len() && counts_for(
                                #[trigger] qs.take(i as int)[j],
                                category_id,
                                totals@[a2].0,
                            );
                        assert(counts_for(qs.take(i + 1)[w], category_id, totals@[a2].0));
                    }
                    assert forall|u: Oid|
                        #[trigger] has_finished_quiz_by(qs.take(i + 1), category_id, u) implies
                        exists|a2: int| 0 <= a2 < totals@.len() && (#[trigger] totals@[a2]).0
                        == u by {
                        let j = choose|j: int|
                            0 <= j < qs.take(i + 1).len() && counts_for(
                                #[trigger] qs.take(i + 1)[j],
                                category_id,
                                u,
                            );
                        assert(j != i);
                        assert(counts_for(qs.take(i as int)[j], category_id, u));
                        assert(has_finished_quiz_by(qs.take(i as int), category_id, u));
                    }
                }
            }
            i = i + 1;
        }
        proof {
            assert(qs.take(qs.len() as int) =~= qs);
        }
        // 2. pick the user with the highest total
        let mut best: Option<(Oid, u128)> = None;
        let mut a: usize = 0;
        while a < totals.len()
            invariant
                0 <= a <= totals@.len(),
                match best {
                    None => a == 0,
                    Some(b) => (exists|c: int| 0 <= c < a && #[trigger] totals@[c] == b) && (forall|
                        c: int,
                    | 0 <= c < a ==> (#[trigger] totals@[c]).1 <= b.1),
                },
            decreases totals@.len() - a,
        {
            let t = totals[a];
            match best {
                None => {
                    best = Some(t);
                },
                Some(b) => {
                    if t.1 > b.1 {
                        best = Some(t);
                    }
                },
            }
            a = a + 1;
        }
        // 3. cache the winner on the category record
        match best {
            None => {
                proof {
                    if has_finished_quiz(self.quizzes@, category_id) {
                        let j = choose|j: int|
                            0 <= j < qs.len() && (#[trigger] qs[j]).category_id == category_id
                                && qs[j].finished();
                        assert(counts_for(qs[j], category_id, qs[j].user_id));
                        assert(has_finished_quiz_by(qs, category_id, qs[j].user_id));
                        assert(false);
                    }
                }
            },
            Some(b) => {
                match self.find_category(category_id) {
                    None => {
                        proof {
                            assert(!has_category(self.categories@, category_id));
                        }
                    },
                    Some(ci) => {
                        let ghost pre_cats = self.categories@;
                        let mut c = self.categories.remove(ci);
                        c.top_user_id = Some(b.0);
                        self.categories.insert(ci, c);
                        proof {
                            pre_cats.remove_ensures(ci as int);
                            pre_cats.remove(ci as int).insert_ensures(
                                ci as int,
                                final(self).categories@[ci as int],
                            );
                            assert(final(self).categories@ =~= pre_cats.update(
                                ci as int,
                                Category { top_user_id: Some(b.0), ..pre_cats[ci as int] },
                            ));
                            let w = category_at(pre_cats, category_id);
                            assert(0 <= w < pre_cats.len() && pre_cats[w].id == category_id);
                            assert(w == ci as int);
                            // the winner is a user with a finished quiz whose
                            // total dominates every user's total
                            assert(has_finished_quiz_by(qs, category_id, b.0));
                            assert forall|v: Oid|
                                #[trigger] user_total(qs, category_id, v) <= user_total(
                                    qs,
                                    category_id,
                                    b.0,
                                ) by {
                                if has_finished_quiz_by(qs, category_id, v) {
                                    let a3 = choose|a3: int|
                                        0 <= a3 < totals@.len() && (#[trigger] totals@[a3]).0 == v;
                                    assert(totals@[a3].1 <= b.1);
                                }
                            }
                        }
                    },
                }
            },
        }
    }

    /// The cached top user of `category_id`, joined with the user
    /// record.
    pub fn top_user_for_category(&self, category_id: Oid) -> (r: Result<Option<&User>, QuizError>)
        requires
            self.wf(),
        ensures
            match r {
                Ok(Some(u)) => has_category(self.categories@, category_id) && {
                    let c = self.categories@[category_at(self.categories@, category_id)];
                    c.top_user_id == Some(u.id) && has_user(self.users@, u.id)
                        && self.users@.contains(*u)
                },
                Ok(None) => has_category(self.categories@, category_id)
                    && self.categories@[category_at(
                    self.categories@,
                    category_id,
                )].top_user_id is None,
                Err(QuizError::CategoryNotFound) => !has_category(self.categories@, category_id),
                Err(QuizError::UserNotFound) => has_category(self.categories@, category_id) && {
                    let c = self.categories@[category_at(self.categories@, category_id)];
                    c.top_user_id is Some && !has_user(self.users@, c.top_user_id->0)
                },
                _ => false,
            },
    {
        let ci = match self.find_category(category_id) {
            Some(i) => i,
            None => {
                return Err(QuizError::CategoryNotFound);
            },
        };
        proof {
            let w = category_at(self.categories@, category_id);
            assert(0 <= w < self.categories@.len() && self.categories@[w].id == category_id);
            assert(w == ci as int);
        }
        match self.categories[ci].top_user_id {
            None => Ok(None),
            Some(user_id) => {
                match self.find_user(user_id) {
                    Some(ui) => Ok(Some(&self.users[ui])),
                    None => Err(QuizError::UserNotFound),
                }
            },
        }
    }

    /// Every category, each joined with its cached top user where that
    /// user exists.
    pub fn get_categories_with_top_users(&self) -> (r: Vec<(&Category, Option<&User>)>)
        requires
            self.wf(),
        ensures
            r@.len() == self.categories@.len(),
            forall|i: int|
                0 <= i < r@.len() ==> *(#[trigger] r@[i]).0 == self.categories@[i] && (match self.categories@[i].top_user_id {
                    None => r@[i].1 is None,
                    Some(uid) => if has_user(self.users@, uid) {
                        r@[i].1 is Some && *r@[i].1->0 == self.users@[user_at(self.users@, uid)]
                    } else {
                        r@[i].1 is None
                    },
                }),
    {
        let mut r: Vec<(&Category, Option<&User>)> = Vec::new();
        let mut i: usize = 0;
        while i < self.categories.len()
            invariant
                self.wf(),
                0 <= i <= self.categories@.len(),
                r@.len() == i,
                forall|j: int|
                    0 <= j < i ==> *(#[trigger] r@[j]).0 == self.categories@[j] && (match self.categories@[j].top_user_id {
                        None => r@[j].1 is None,
                        Some(uid) => if has_user(self.users@, uid) {
                            r@[j].1 is Some && *r@[j].1->0 == self.users@[user_at(self.users@, uid)]
                        } else {
                            r@[j].1 is None
                        },
                    }),
            decreases self.categories@.len() - i,
        {
            let c = &self.categories[i];
            let top: Option<&User> = match c.top_user_id {
                None => None,
                Some(uid) => {
                    match self.find_user(uid) {
                        Some(ui) => {
                            proof {
                                let w = user_at(self.users@, uid);
                                assert(0 <= w < self.users@.len() && self.users@[w].id == uid);
                                assert(w == ui as int);
                            }
                            Some(&self.users[ui])
                        },
                        None => None,
                    }
                },
            };
            r.push((c, top));
            i = i + 1;
        }
        r
    }
}

} // verus!
