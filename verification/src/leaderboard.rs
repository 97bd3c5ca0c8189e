//! Leaderboard ranking engine: one cumulative-score entry per
//! (user, category) pair, re-ranked densely within a category whenever a
//! score changes.

use vstd::prelude::*;
use crate::ids::Oid;
use crate::model::LeaderboardEntry;
use crate::util::{sat_add, spec_sat_add};

verus! {

/// Number of entries of `s` that belong to category `cat`.
pub open spec fn count_in_category(s: Seq<LeaderboardEntry>, cat: Oid) -> int
    decreases s.len(),
{
    if s.len() == 0 {
        0
    } else {
        count_in_category(s.drop_last(), cat) + if s.last().category_id == cat {
            1int
        } else {
            0int
        }
    }
}

/// Some entry of category `cat` carries rank `r`.
pub open spec fn has_rank(s: Seq<LeaderboardEntry>, cat: Oid, r: int) -> bool {
    exists|i: int| 0 <= i < s.len() && (#[trigger] s[i]).category_id == cat && s[i].rank == r
}

/// Whether the pair (`user`, `cat`) has an entry in `s`.
pub open spec fn has_pair(s: Seq<LeaderboardEntry>, user: Oid, cat: Oid) -> bool {
    exists|i: int|
        0 <= i < s.len() && (#[trigger] s[i]).user_id == user && s[i].category_id == cat
}

/// The index of the entry of the pair (`user`, `cat`); meaningful only
/// when `has_pair` holds and the pair is unique.
pub open spec fn pair_index(s: Seq<LeaderboardEntry>, user: Oid, cat: Oid) -> int {
    choose|i: int|
        0 <= i < s.len() && (#[trigger] s[i]).user_id == user && s[i].category_id == cat
}

/// The cumulative score recorded for the pair (`user`, `cat`).
pub open spec fn pair_score(s: Seq<LeaderboardEntry>, user: Oid, cat: Oid) -> u64 {
    s[pair_index(s, user, cat)].score
}

/// Dense ranking of category `cat`: every entry of the category holds a
/// rank in 1..=K for K the number of its entries, no two entries share a
/// rank, every rank in 1..=K is held by some entry, and a strictly
/// higher score always means a strictly smaller (better) rank.
pub open spec fn ranks_valid(s: Seq<LeaderboardEntry>, cat: Oid) -> bool {
    let k = count_in_category(s, cat);
    &&& (forall|i: int|
        0 <= i < s.len() && (#[trigger] s[i]).category_id == cat ==> 1 <= s[i].rank <= k)
    &&& (forall|i: int, j: int|
        0 <= i < s.len() && 0 <= j < s.len() && i != j && (#[trigger] s[i]).category_id == cat && (
        #[trigger] s[j]).category_id == cat ==> s[i].rank != s[j].rank)
    &&& (forall|r: int| 1 <= r <= k ==> #[trigger] has_rank(s, cat, r))
    &&& (forall|i: int, j: int|
        0 <= i < s.len() && 0 <= j < s.len() && (#[trigger] s[i]).category_id == cat && (
        #[trigger] s[j]).category_id == cat && s[i].score > s[j].score ==> s[i].rank < s[j].rank)
}

/// The order the ranking pass sorts by: score descending, ties broken by
/// ascending user id.
pub open spec fn precedes(a: LeaderboardEntry, b: LeaderboardEntry) -> bool {
    a.score > b.score || (a.score == b.score && a.user_id <= b.user_id)
}

/// The per-category leaderboards, as one collection of entries keyed by
/// the unique (user, category) pair.
pub struct Leaderboard {
    pub entries: Vec<LeaderboardEntry>,
}

impl Leaderboard {
    /// Well-formedness: (user, category) pairs are unique, and every
    /// category is densely ranked.
    pub open spec fn wf(self) -> bool {
        &&& (forall|i: int, j: int|
            0 <= i < j < self.entries@.len() ==> !((#[trigger] self.entries@[i]).user_id == (
            #[trigger] self.entries@[j]).user_id && self.entries@[i].category_id
                == self.entries@[j].category_id))
        &&& (forall|cat: Oid| #[trigger] ranks_valid(self.entries@, cat))
    }

    /// An empty leaderboard.
    pub fn new() -> (r: Leaderboard)
        ensures
            r.wf(),
            r.entries@.len() == 0,
    {
        let r = Leaderboard { entries: Vec::new() };
        proof {
            assert forall|cat: Oid| #[trigger] ranks_valid(r.entries@, cat) by {
                assert(count_in_category(r.entries@, cat) == 0);
            }
        }
        r
    }

    /// The index of the entry for (`user_id`, `category_id`), if any.
    fn find_entry(&self, user_id: Oid, category_id: Oid) -> (r: Option<usize>)
        ensures
            match r {
                Some(i) => i < self.entries@.len() && self.entries@[i as int].user_id == user_id
                    && self.entries@[i as int].category_id == category_id,
                None => !has_pair(self.entries@, user_id, category_id),
            },
    {
        let mut i: usize = 0;
        while i < self.entries.len()
            invariant
                0 <= i <= self.entries@.len(),
                forall|j: int|
                    0 <= j < i ==> !((#[trigger] self.entries@[j]).user_id == user_id
                        && self.entries@[j].category_id == category_id),
            decreases self.entries@.len() - i,
        {
            if self.entries[i].user_id == user_id && self.entries[i].category_id == category_id {
                return Some(i);
            }
            i = i + 1;
        }
        None
    }
}

/// Where `e` belongs among the entries selected by `idxs`, all of which
/// precede each other in order: the first position whose entry does not
/// precede `e`.
fn insertion_point(entries: &Vec<LeaderboardEntry>, idxs: &Vec<usize>, e: LeaderboardEntry) -> (pos:
    usize)
    requires
        forall|a: int| 0 <= a < idxs@.len() ==> #[trigger] idxs@[a] < entries@.len(),
    ensures
        pos <= idxs@.len(),
        forall|a: int| 0 <= a < pos ==> precedes(entries@[#[trigger] idxs@[a] as int], e),
        pos < idxs@.len() ==> !precedes(entries@[idxs@[pos as int] as int], e),
{
    let mut pos: usize = 0;
    loop
        invariant
            0 <= pos <= idxs@.len(),
            forall|a: int| 0 <= a < idxs@.len() ==> #[trigger] idxs@[a] < entries@.len(),
            forall|a: int| 0 <= a < pos ==> precedes(entries@[#[trigger] idxs@[a] as int], e),
        ensures
            0 <= pos <= idxs@.len(),
            forall|a: int| 0 <= a < pos ==> precedes(entries@[#[trigger] idxs@[a] as int], e),
            pos < idxs@.len() ==> !precedes(entries@[idxs@[pos as int] as int], e),
        decreases idxs@.len() - pos,
    {
        if pos >= idxs.len() {
            break ;
        }
        let q = idxs[pos];
        let cand = entries[q];
        if !(cand.score > e.score || (cand.score == e.score && cand.user_id <= e.user_id)) {
            break ;
        }
        pos = pos + 1;
    }
    pos
}

/// The indices of the entries of category `cat`, sorted by score
/// descending with ties broken by ascending user id.
fn sorted_category_indices(entries: &Vec<LeaderboardEntry>, cat: Oid) -> (idxs: Vec<usize>)
    ensures
        idxs@.len() == count_in_category(entries@, cat),
        forall|a: int|
            0 <= a < idxs@.len() ==> #[trigger] idxs@[a] < entries@.len() && entries@[idxs@[
                a
            ] as int].category_id == cat,
        forall|a: int, b: int|
            0 <= a < idxs@.len() && 0 <= b < idxs@.len() && a != b ==> #[trigger] idxs@[a]
                != #[trigger] idxs@[b],
        forall|a: int, b: int|
            0 <= a < b < idxs@.len() ==> precedes(
                entries@[#[trigger] idxs@[a] as int],
                entries@[#[trigger] idxs@[b] as int],
            ),
        forall|p: int|
            0 <= p < entries@.len() && (#[trigger] entries@[p]).category_id == cat ==> exists|
                a: int,
            | 0 <= a < idxs@.len() && #[trigger] idxs@[a] == p,
{
    let mut idxs: Vec<usize> = Vec::new();
    let mut i: usize = 0;
    proof {
        assert(entries@.take(0) =~= Seq::<LeaderboardEntry>::empty());
    }
    while i < entries.len()
        invariant
            0 <= i <= entries@.len(),
            idxs@.len() == count_in_category(entries@.take(i as int), cat),
            forall|a: int|
                0 <= a < idxs@.len() ==> #[trigger] idxs@[a] < i && entries@[idxs@[
                    a
                ] as int].category_id == cat,
            forall|a: int, b: int|
                0 <= a < idxs@.len() && 0 <= b < idxs@.len() && a != b ==> #[trigger] idxs@[a]
                    != #[trigger] idxs@[b],
            forall|a: int, b: int|
                0 <= a < b < idxs@.len() ==> precedes(
                    entries@[#[trigger] idxs@[a] as int],
                    entries@[#[trigger] idxs@[b] as int],
                ),
            forall|p: int|
                0 <= p < i && (#[trigger] entries@[p]).category_id == cat ==> exists|a: int|
                    0 <= a < idxs@.len() && #[trigger] idxs@[a] == p,
        decreases entries@.len() - i,
    {
        let ghost prev_idxs = idxs@;
        let e = entries[i];
        if e.category_id == cat {
            let pos = insertion_point(entries, &idxs, e);
            idxs.insert(pos, i);
            proof {
                prev_idxs.insert_ensures(pos as int, i);
                // every previously selected index keeps a (possibly
                // shifted) position
                assert forall|p: int|
                    0 <= p < i + 1 && (#[trigger] entries@[p]).category_id == cat implies exists|
                    a: int,
                | 0 <= a < idxs@.len() && #[trigger] idxs@[a] == p by {
                    if p == i {
                        assert(idxs@[pos as int] == i);
                    } else {
                        let a0 = choose|a: int|
                            0 <= a < prev_idxs.len() && #[trigger] prev_idxs[a] == p;
                        if a0 < pos {
                            assert(idxs@[a0] == p);
                        } else {
                            assert(idxs@[a0 + 1] == p);
                        }
                    }
                }
                // sortedness across the insertion point
                assert forall|a: int, b: int| 0 <= a < b < idxs@.len() implies precedes(
                    entries@[#[trigger] idxs@[a] as int],
                    entries@[#[trigger] idxs@[b] as int],
                ) by {
                    let ea = entries@[idxs@[a] as int];
                    let eb = entries@[idxs@[b] as int];
                    if a == pos {
                        assert(ea == e);
                        if pos < prev_idxs.len() {
                            let enext = entries@[prev_idxs[pos as int] as int];
                            assert(!precedes(enext, e));
                            assert(idxs@[b] == prev_idxs[b - 1]);
                            if b - 1 > pos {
                                assert(precedes(enext, eb));
                            }
                        }
                    } else if b == pos {
                        assert(eb == e);
                        assert(idxs@[a] == prev_idxs[a]);
                        assert(precedes(ea, e));
                    } else if a < pos && b < pos {
                        assert(idxs@[a] == prev_idxs[a] && idxs@[b] == prev_idxs[b]);
                    } else if a < pos && b > pos {
                        assert(idxs@[a] == prev_idxs[a] && idxs@[b] == prev_idxs[b - 1]);
                        if !(a < b - 1) {
                            assert(precedes(ea, e) && precedes(e, eb));
                        }
                    } else {
                        assert(idxs@[a] == prev_idxs[a - 1] && idxs@[b] == prev_idxs[b - 1]);
                    }
                }
                assert(entries@.take(i + 1).drop_last() =~= entries@.take(i as int));
                assert(entries@.take(i + 1).last() == entries@[i as int]);
            }
        } else {
            proof {
                assert(entries@.take(i + 1).drop_last() =~= entries@.take(i as int));
                assert(entries@.take(i + 1).last() == entries@[i as int]);
            }
        }
        i = i + 1;
    }
    proof {
        assert(entries@.take(entries@.len() as int) =~= entries@);
    }
    idxs
}

/// Writes rank `a + 1` onto the entry at position `idxs[a]`, for every
/// `a`; every other field and every other entry is left as it was.
fn assign_ranks(entries: &mut Vec<LeaderboardEntry>, idxs: &Vec<usize>)
    requires
        forall|a: int| 0 <= a < idxs@.len() ==> #[trigger] idxs@[a] < old(entries)@.len(),
        forall|a: int, b: int|
            0 <= a < idxs@.len() && 0 <= b < idxs@.len() && a != b ==> #[trigger] idxs@[a]
                != #[trigger] idxs@[b],
    ensures
        final(entries)@.len() == old(entries)@.len(),
        forall|a: int|
            0 <= a < idxs@.len() ==> final(entries)@[#[trigger] idxs@[a] as int]
                == (LeaderboardEntry { rank: (a + 1) as u64, ..old(entries)@[idxs@[a] as int] }),
        forall|p: int|
            0 <= p < old(entries)@.len() && (forall|a: int|
                0 <= a < idxs@.len() ==> #[trigger] idxs@[a] != p) ==> final(entries)@[p] == old(
                entries,
            )@[p],
{
    let mut j: usize = 0;
    while j < idxs.len()
        invariant
            0 <= j <= idxs@.len(),
            entries@.len() == old(entries)@.len(),
            forall|a: int| 0 <= a < idxs@.len() ==> #[trigger] idxs@[a] < entries@.len(),
            forall|a: int, b: int|
                0 <= a < idxs@.len() && 0 <= b < idxs@.len() && a != b ==> #[trigger] idxs@[a]
                    != #[trigger] idxs@[b],
            forall|a: int|
                0 <= a < j ==> entries@[#[trigger] idxs@[a] as int] == (LeaderboardEntry {
                    rank: (a + 1) as u64,
                    ..old(entries)@[idxs@[a] as int]
                }),
            forall|p: int|
                0 <= p < entries@.len() && (forall|a: int| 0 <= a < j ==> #[trigger] idxs@[a] != p)
                    ==> entries@[p] == old(entries)@[p],
        decreases idxs@.len() - j,
    {
        let p = idxs[j];
        let mut e = entries[p];
        e.rank = (j + 1) as u64;
        entries.set(p, e);
        j = j + 1;
    }
}

impl Leaderboard {
    /// Upserts `score` onto the cumulative score of (`user_id`,
    /// `category_id`) — adding to the existing total, saturating, or
    /// creating the entry — then recomputes dense ranks 1..=K for the
    /// whole category, ordered by score descending. Entries of other
    /// categories are untouched.
    pub fn update_leaderboard(&mut self, user_id: Oid, category_id: Oid, score: u64)
        requires
            old(self).wf(),
        ensures
            final(self).wf(),
            ranks_valid(final(self).entries@, category_id),
            has_pair(final(self).entries@, user_id, category_id),
            pair_score(final(self).entries@, user_id, category_id) == spec_sat_add(
                if has_pair(old(self).entries@, user_id, category_id) {
                    pair_score(old(self).entries@, user_id, category_id)
                } else {
                    0
                },
                score,
            ),
            final(self).entries@.len() == old(self).entries@.len() + (if has_pair(
                old(self).entries@,
                user_id,
                category_id,
            ) {
                0int
            } else {
                1int
            }),
            forall|p: int|
                0 <= p < old(self).entries@.len() ==> (#[trigger] final(self).entries@[p]).user_id
                    == old(self).entries@[p].user_id && final(self).entries@[p].category_id == old(
                    self,
                ).entries@[p].category_id,
            forall|p: int|
                0 <= p < old(self).entries@.len() && !((#[trigger] old(
                    self,
                ).entries@[p]).user_id == user_id && old(self).entries@[p].category_id
                    == category_id) ==> final(self).entries@[p].score == old(
                    self,
                ).entries@[p].score,
            forall|p: int|
                0 <= p < old(self).entries@.len() && (#[trigger] old(
                    self,
                ).entries@[p]).category_id != category_id ==> final(self).entries@[p] == old(
                    self,
                ).entries@[p],
    {
        let ghost s0 = self.entries@;
        // 1. upsert the pair's cumulative score
        let found = self.find_entry(user_id, category_id);
        let ghost i0: int;
        match found {
            Some(i) => {
                let mut e = self.entries[i];
                e.score = sat_add(e.score, score);
                self.entries.set(i, e);
                proof {
                    i0 = i as int;
                }
            },
            None => {
                self.entries.push(
                    LeaderboardEntry { user_id, category_id, score, rank: 0 },
                );
                proof {
                    i0 = s0.len() as int;
                }
            },
        }
        let ghost s1 = self.entries@;
        proof {
            // the upsert touched only position i0, which is in this category
            assert(s1[i0].user_id == user_id && s1[i0].category_id == category_id);
            assert(forall|p: int| 0 <= p < s1.len() && p != i0 ==> s1[p] == s0[p]);
        }
        // 2. re-rank the whole category
        let idxs = sorted_category_indices(&self.entries, category_id);
        assign_ranks(&mut self.entries, &idxs);
        let sorted_len = idxs.len();
        let ghost s2 = self.entries@;
        proof {
            let k = idxs@.len() as int;
            assert(k == sorted_len as int);
            assert(count_in_category(s1, category_id) == k);
            // positions outside the category are exactly unchanged
            assert forall|p: int|
                0 <= p < s1.len() && (#[trigger] s1[p]).category_id != category_id implies s2[p]
                == s1[p] by {
                assert(forall|a: int| 0 <= a < k ==> #[trigger] idxs@[a] != p);
            }
            // ids and scores are everywhere unchanged by the rank pass
            assert forall|p: int| 0 <= p < s1.len() implies (#[trigger] s2[p]).user_id
                == s1[p].user_id && s2[p].category_id == s1[p].category_id && s2[p].score
                == s1[p].score by {
                if s1[p].category_id == category_id {
                    let a = choose|a: int| 0 <= a < k && #[trigger] idxs@[a] == p;
                    assert(s2[p] == (LeaderboardEntry { rank: (a + 1) as u64, ..s1[p] }));
                }
            }
            lemma_count_frame(s1, s2, category_id);
            assert(count_in_category(s2, category_id) == k);
            // every entry of the category sits at some sorted position,
            // and that position became its rank
            assert forall|i: int|
                0 <= i < s2.len() && (#[trigger] s2[i]).category_id == category_id implies exists|
                a: int,
            | 0 <= a < idxs@.len() && #[trigger] idxs@[a] == i && s2[i].rank == a + 1 by {
                assert(s1[i].category_id == category_id);
                let a = choose|a: int| 0 <= a < idxs@.len() && #[trigger] idxs@[a] == i;
                assert(s2[idxs@[a] as int] == (LeaderboardEntry {
                    rank: (a + 1) as u64,
                    ..s1[idxs@[a] as int]
                }));
                assert(0 <= a < idxs@.len() && idxs@[a] == i && s2[i].rank == a + 1);
            }
            // dense ranks for this category
            assert forall|i: int|
                0 <= i < s2.len() && (#[trigger] s2[i]).category_id == category_id implies 1 <= s2[i].rank <= k by {
                let a = choose|a: int|
                    0 <= a < idxs@.len() && #[trigger] idxs@[a] == i && s2[i].rank == a + 1;
            }
            assert forall|i: int, j: int|
                0 <= i < s2.len() && 0 <= j < s2.len() && i != j && (#[trigger] s2[i]).category_id == category_id && (#[trigger] s2[j]).category_id
                == category_id implies s2[i].rank != s2[j].rank by {
                let a = choose|a: int|
                    0 <= a < idxs@.len() && #[trigger] idxs@[a] == i && s2[i].rank == a + 1;
                let b = choose|b: int|
                    0 <= b < idxs@.len() && #[trigger] idxs@[b] == j && s2[j].rank == b + 1;
                assert(a != b);
            }
            assert forall|r: int| 1 <= r <= k implies #[trigger] has_rank(
                s2,
                category_id,
                r,
            ) by {
                let p = idxs@[r - 1] as int;
                assert(s2[p] == (LeaderboardEntry { rank: r as u64, ..s1[p] }));
                assert(s2[p].category_id == category_id && s2[p].rank == r);
            }
            assert forall|i: int, j: int|
                0 <= i < s2.len() && 0 <= j < s2.len() && (#[trigger] s2[i]).category_id
                    == category_id && (#[trigger] s2[j]).category_id == category_id && s2[i].score
                    > s2[j].score implies s2[i].rank < s2[j].rank by {
                let a = choose|a: int|
                    0 <= a < idxs@.len() && #[trigger] idxs@[a] == i && s2[i].rank == a + 1;
                let b = choose|b: int|
                    0 <= b < idxs@.len() && #[trigger] idxs@[b] == j && s2[j].rank == b + 1;
                if a > b {
                    assert(precedes(s1[idxs@[b] as int], s1[idxs@[a] as int]));
                    assert(precedes(s1[j], s1[i]));
                }
                assert(a != b);
            }
            assert(ranks_valid(s2, category_id));
            // other categories keep their membership, values and ranks
            assert forall|cat: Oid| #[trigger] ranks_valid(s2, cat) by {
                if cat != category_id {
                    if has_pair(s0, user_id, category_id) {
                        assert(s1.len() == s0.len());
                        lemma_ranks_valid_frame(s0, s1, cat);
                    } else {
                        assert(s1 =~= s0.push(s1[i0]));
                        lemma_ranks_valid_push(s0, s1[i0], cat);
                    }
                    lemma_ranks_valid_frame(s1, s2, cat);
                }
            }
            // pair uniqueness is preserved: ids never changed
            assert forall|i: int, j: int| 0 <= i < j < s2.len() implies !((#[trigger] s2[i]).user_id == (#[trigger] s2[j]).user_id && s2[i].category_id == s2[j].category_id) by {
                if j < s0.len() {
                } else {
                    assert(!has_pair(s0, user_id, category_id));
                    assert(s2[j].user_id == user_id && s2[j].category_id == category_id);
                    if s2[i].user_id == user_id && s2[i].category_id == category_id {
                        assert(s0[i].user_id == user_id && s0[i].category_id == category_id);
                        assert(has_pair(s0, user_id, category_id));
                    }
                }
            }
            // the reported pair score
            let w = pair_index(s2, user_id, category_id);
            assert(s2[i0].user_id == user_id && s2[i0].category_id == category_id);
            assert(has_pair(s2, user_id, category_id));
            assert(0 <= w < s2.len() && s2[w].user_id == user_id && s2[w].category_id
                == category_id);
            assert(w == i0);
            if has_pair(s0, user_id, category_id) {
                let w0 = pair_index(s0, user_id, category_id);
                assert(0 <= w0 < s0.len() && s0[w0].user_id == user_id && s0[w0].category_id
                    == category_id);
                assert(w0 == i0);
            }
        }
    }
}

impl Leaderboard {
    /// Number of entries of category `category_id`.
    fn count_category(&self, category_id: Oid) -> (n: usize)
        ensures
            n == count_in_category(self.entries@, category_id),
    {
        let mut n: usize = 0;
        let mut i: usize = 0;
        proof {
            assert(self.entries@.take(0) =~= Seq::<LeaderboardEntry>::empty());
        }
        while i < self.entries.len()
            invariant
                0 <= i <= self.entries@.len(),
                n <= i,
                n == count_in_category(self.entries@.take(i as int), category_id),
            decreases self.entries@.len() - i,
        {
            proof {
                assert(self.entries@.take(i + 1).drop_last() =~= self.entries@.take(i as int));
                assert(self.entries@.take(i + 1).last() == self.entries@[i as int]);
            }
            if self.entries[i].category_id == category_id {
                n = n + 1;
            }
            i = i + 1;
        }
        proof {
            assert(self.entries@.take(self.entries@.len() as int) =~= self.entries@);
        }
        n
    }

    /// The position of the entry of category `category_id` holding rank
    /// `rank`, if any.
    fn find_by_rank(&self, category_id: Oid, rank: u64) -> (r: Option<usize>)
        ensures
            match r {
                Some(i) => i < self.entries@.len() && self.entries@[i as int].category_id
                    == category_id && self.entries@[i as int].rank == rank,
                None => !has_rank(self.entries@, category_id, rank as int),
            },
    {
        let mut i: usize = 0;
        while i < self.entries.len()
            invariant
                0 <= i <= self.entries@.len(),
                forall|j: int|
                    0 <= j < i ==> !((#[trigger] self.entries@[j]).category_id == category_id
                        && self.entries@[j].rank == rank),
            decreases self.entries@.len() - i,
        {
            if self.entries[i].category_id == category_id && self.entries[i].rank == rank {
                return Some(i);
            }
            i = i + 1;
        }
        None
    }

    /// All entries of category `category_id`, ordered by ascending rank:
    /// the entry at position `p` of the result carries rank `p + 1`, and
    /// the result holds exactly the category's entries.
    pub fn get_leaderboard(&self, category_id: Oid) -> (r: Vec<LeaderboardEntry>)
        requires
            self.wf(),
        ensures
            r@.len() == count_in_category(self.entries@, category_id),
            forall|p: int|
                0 <= p < r@.len() ==> (#[trigger] r@[p]).category_id == category_id && r@[p].rank
                    == p + 1,
            forall|p: int| 0 <= p < r@.len() ==> #[trigger] self.entries@.contains(r@[p]),
            forall|i: int|
                0 <= i < self.entries@.len() && (#[trigger] self.entries@[i]).category_id
                    == category_id ==> r@.contains(self.entries@[i]),
    {
        let k = self.count_category(category_id);
        proof {
            assert(ranks_valid(self.entries@, category_id));
        }
        let mut r: Vec<LeaderboardEntry> = Vec::new();
        let mut p: usize = 0;
        while p < k
            invariant
                self.wf(),
                ranks_valid(self.entries@, category_id),
                k == count_in_category(self.entries@, category_id),
                0 <= p <= k,
                r@.len() == p,
                forall|q: int|
                    0 <= q < r@.len() ==> (#[trigger] r@[q]).category_id == category_id
                        && r@[q].rank == q + 1,
                forall|q: int| 0 <= q < r@.len() ==> #[trigger] self.entries@.contains(r@[q]),
            decreases k - p,
        {
            proof {
                assert(has_rank(self.entries@, category_id, p + 1));
            }
            match self.find_by_rank(category_id, (p + 1) as u64) {
                Some(i) => {
                    let e = self.entries[i];
                    r.push(e);
                    proof {
                        assert(self.entries@.contains(e));
                    }
                },
                None => {
                    proof {
                        assert(false);
                    }
                },
            }
            p = p + 1;
        }
        proof {
            assert(ranks_valid(self.entries@, category_id));
            // every entry of the category appears: its rank names the
            // position where it was collected
            assert forall|i: int|
                0 <= i < self.entries@.len() && (#[trigger] self.entries@[i]).category_id
                    == category_id implies r@.contains(self.entries@[i]) by {
                let e = self.entries@[i];
                assert(1 <= e.rank <= k);
                let q = e.rank - 1;
                assert(self.entries@.contains(r@[q]));
                let w = choose|w: int|
                    0 <= w < self.entries@.len() && #[trigger] self.entries@[w] == r@[q];
                assert(self.entries@[w].rank == e.rank);
                assert(self.entries@[w].category_id == category_id);
                assert(w == i);
                assert(r@[q] == e);
            }
        }
        r
    }
}

/// Two equally long entry sequences that agree on which positions lie in
/// `cat` hold equally many entries of `cat`.
proof fn lemma_count_frame(s1: Seq<LeaderboardEntry>, s2: Seq<LeaderboardEntry>, cat: Oid)
    requires
        s1.len() == s2.len(),
        forall|p: int|
            0 <= p < s1.len() ==> ((#[trigger] s1[p]).category_id == cat <==> (#[trigger] s2[
            p]).category_id == cat),
    ensures
        count_in_category(s1, cat) == count_in_category(s2, cat),
    decreases s1.len(),
{
    if s1.len() > 0 {
        lemma_count_frame(s1.drop_last(), s2.drop_last(), cat);
    }
}

/// Appending an entry of another category changes nothing about `cat`'s
/// count or ranking.
proof fn lemma_ranks_valid_push(s: Seq<LeaderboardEntry>, e: LeaderboardEntry, cat: Oid)
    requires
        e.category_id != cat,
        ranks_valid(s, cat),
    ensures
        count_in_category(s.push(e), cat) == count_in_category(s, cat),
        ranks_valid(s.push(e), cat),
{
    let s2 = s.push(e);
    assert(s2.drop_last() =~= s);
    assert(count_in_category(s2, cat) == count_in_category(s, cat));
    let k = count_in_category(s2, cat);
    assert forall|r: int| 1 <= r <= k implies #[trigger] has_rank(s2, cat, r) by {
        assert(has_rank(s, cat, r));
        let i = choose|i: int| 0 <= i < s.len() && (#[trigger] s[i]).category_id == cat && s[i].rank == r;
        assert(s2[i].category_id == cat && s2[i].rank == r);
    }
}

/// Ranking within `cat` only depends on the entries of `cat`: if two
/// equally long sequences agree on which positions lie in `cat` and on
/// the entries at those positions, validity of `cat`'s ranking carries
/// over.
proof fn lemma_ranks_valid_frame(s1: Seq<LeaderboardEntry>, s2: Seq<LeaderboardEntry>, cat: Oid)
    requires
        s1.len() == s2.len(),
        forall|p: int|
            0 <= p < s1.len() ==> ((#[trigger] s1[p]).category_id == cat <==> (#[trigger] s2[
            p]).category_id == cat),
        forall|p: int|
            0 <= p < s1.len() && (#[trigger] s1[p]).category_id == cat ==> s1[p] == s2[p],
        ranks_valid(s1, cat),
    ensures
        ranks_valid(s2, cat),
{
    lemma_count_frame(s1, s2, cat);
    let k = count_in_category(s2, cat);
    assert forall|i: int| 0 <= i < s2.len() && (#[trigger] s2[i]).category_id == cat implies 1
        <= s2[i].rank <= k by {
        assert(s1[i].category_id == cat);
        assert(s1[i] == s2[i]);
    }
    assert forall|i: int, j: int|
        0 <= i < s2.len() && 0 <= j < s2.len() && i != j && (#[trigger] s2[i]).category_id == cat
            && (#[trigger] s2[j]).category_id == cat implies s2[i].rank != s2[j].rank by {
        assert(s1[i] == s2[i] && s1[j] == s2[j]);
    }
    assert forall|r: int| 1 <= r <= k implies #[trigger] has_rank(s2, cat, r) by {
        assert(has_rank(s1, cat, r));
        let i = choose|i: int|
            0 <= i < s1.len() && (#[trigger] s1[i]).category_id == cat && s1[i].rank == r;
        assert(s2[i].category_id == cat && s2[i].rank == r);
    }
    assert forall|i: int, j: int|
        0 <= i < s2.len() && 0 <= j < s2.len() && (#[trigger] s2[i]).category_id == cat && (
        #[trigger] s2[j]).category_id == cat && s2[i].score > s2[j].score implies s2[i].rank < s2[j].rank by {
        assert(s1[i] == s2[i] && s1[j] == s2[j]);
    }
}

} // verus!
