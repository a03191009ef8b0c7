//! The bounded leaderboard: the top scores in descending order, earlier
//! entries ahead of later ones with the same score.

use vstd::prelude::*;
use crate::principal::Principal;

verus! {

/// One score on the leaderboard.
#[derive(Clone, Debug, PartialEq, Eq)]
pub struct UserScore {
    pub score: u64,
    pub nickname: String,
    pub user_address: Principal,
}

/// What became of a candidate score.
#[derive(Clone, Debug, PartialEq, Eq)]
pub enum AdmitResult {
    /// There was room: the candidate was placed and nothing left.
    Inserted,
    /// The board was full: the candidate was placed and the lowest entry left.
    Replaced(UserScore),
    /// The board was full and the candidate did not beat its lowest entry.
    Rejected,
}

/// At most `max_top_scores` entries, ranked.
#[derive(Debug)]
pub struct Leaderboard {
    pub max_top_scores: u8,
    pub top_users: Vec<UserScore>,
}

/// No entry with a lower score stands before one with a higher score.
pub open spec fn sorted_desc(s: Seq<UserScore>) -> bool {
    forall|i: int, j: int| 0 <= i < j < s.len() ==> s[i].score >= s[j].score
}

/// How many entries of `s` rank ahead of a new entry with this score: those
/// whose score is at least as high.
pub open spec fn rank(s: Seq<UserScore>, score: u64) -> int
    decreases s.len(),
{
    if s.len() == 0 {
        0
    } else {
        rank(s.drop_last(), score) + if s.last().score >= score { 1int } else { 0int }
    }
}

/// The ranking with `candidate` placed behind the entries that rank ahead of it.
pub open spec fn placed(s: Seq<UserScore>, candidate: UserScore) -> Seq<UserScore> {
    s.insert(rank(s, candidate.score), candidate)
}

/// The score is a strict maximum over every entry (any score is, on an empty board).
pub open spec fn is_new_highest(s: Seq<UserScore>, score: u64) -> bool {
    forall|i: int| 0 <= i < s.len() ==> (#[trigger] s[i]).score < score
}

/// Whether a board of capacity `cap` takes a new entry with this score: it
/// has room, or the score beats its lowest entry.
pub open spec fn admits(s: Seq<UserScore>, score: u64, cap: nat) -> bool {
    s.len() < cap || (s.len() > 0 && score > s.last().score)
}

/// The ranking after `candidate` was offered to a board of capacity `cap`.
pub open spec fn admitted(s: Seq<UserScore>, candidate: UserScore, cap: nat) -> Seq<UserScore> {
    if s.len() < cap {
        placed(s, candidate)
    } else if admits(s, candidate.score, cap) {
        placed(s.drop_last(), candidate)
    } else {
        s
    }
}

/// What `offer` reports for `candidate` on a board of capacity `cap`.
pub open spec fn admit_outcome(s: Seq<UserScore>, candidate: UserScore, cap: nat) -> AdmitResult {
    if s.len() < cap {
        AdmitResult::Inserted
    } else if admits(s, candidate.score, cap) {
        AdmitResult::Replaced(s.last())
    } else {
        AdmitResult::Rejected
    }
}

/// In a sorted ranking the entries that rank ahead of a score are exactly a prefix.
pub proof fn lemma_rank_splits(s: Seq<UserScore>, score: u64)
    requires
        sorted_desc(s),
    ensures
        0 <= rank(s, score) <= s.len(),
        forall|j: int| 0 <= j < rank(s, score) ==> (#[trigger] s[j]).score >= score,
        forall|j: int| rank(s, score) <= j < s.len() ==> (#[trigger] s[j]).score < score,
    decreases s.len(),
{
    if s.len() > 0 {
        let t = s.drop_last();
        assert(sorted_desc(t));
        lemma_rank_splits(t, score);
        if s.last().score >= score {
            // every earlier entry is at least as high as the last one
            assert forall|j: int| 0 <= j < t.len() implies (#[trigger] t[j]).score >= score by {
                assert(s[j].score >= s[s.len() - 1].score);
            }
            if rank(t, score) < t.len() {
                assert(t[rank(t, score)].score < score);
            }
        }
        assert forall|j: int| 0 <= j < rank(s, score) implies (#[trigger] s[j]).score >= score by {
            if j < t.len() {
                assert(s[j] == t[j]);
            }
        }
        assert forall|j: int| rank(s, score) <= j < s.len() implies (#[trigger] s[j]).score
            < score by {
            if j < t.len() {
                assert(s[j] == t[j]);
            }
        }
    }
}

/// A position that has only scores at least as high before it, and a lower
/// score at it (or nothing), is the rank.
pub proof fn lemma_rank_is(s: Seq<UserScore>, score: u64, i: int)
    requires
        sorted_desc(s),
        0 <= i <= s.len(),
        forall|j: int| 0 <= j < i ==> (#[trigger] s[j]).score >= score,
        i < s.len() ==> s[i].score < score,
    ensures
        rank(s, score) == i,
{
    lemma_rank_splits(s, score);
    let r = rank(s, score);
    if r < i {
        assert(s[r].score < score);
    } else if r > i {
        assert(s[i].score >= score);
    }
}

impl Leaderboard {
    /// The bound holds and the entries are ranked.
    pub open spec fn wf(&self) -> bool {
        &&& self.top_users@.len() <= self.max_top_scores
        &&& sorted_desc(self.top_users@)
    }

    /// An empty board of the given capacity.
    pub fn new(max_top_scores: u8) -> (board: Leaderboard)
        ensures
            board.wf(),
            board.max_top_scores == max_top_scores,
            board.top_users@ == Seq::<UserScore>::empty(),
    {
        Leaderboard { max_top_scores, top_users: Vec::new() }
    }

    /// Whether the board is within its bound and ranked.
    pub fn is_well_formed(&self) -> (r: bool)
        ensures
            r == self.wf(),
    {
        let n: usize = self.top_users.len();
        if n > self.max_top_scores as usize {
            return false;
        }
        let mut i: usize = 1;
        while i < n
            invariant
                n == self.top_users@.len(),
                1 <= i,
                forall|a: int, b: int|
                    0 <= a < b < i && b < n ==> self.top_users@[a].score >= self.top_users@[b].score,
            decreases n - i,
        {
            if self.top_users[i - 1].score < self.top_users[i].score {
                return false;
            }
            assert forall|a: int, b: int| 0 <= a < b < i + 1 && b < n implies self.top_users@[a].score
                >= self.top_users@[b].score by {
                if b == i && a < i - 1 {
                    assert(self.top_users@[a].score >= self.top_users@[i - 1].score);
                }
            }
            i += 1;
        }
        true
    }

    /// Where a new entry with this score goes.
    fn position_for(&self, score: u64) -> (pos: usize)
        requires
            sorted_desc(self.top_users@),
        ensures
            pos == rank(self.top_users@, score),
            pos <= self.top_users@.len(),
    {
        let n: usize = self.top_users.len();
        let mut i: usize = 0;
        while i < n && self.top_users[i].score >= score
            invariant
                n == self.top_users@.len(),
                i <= n,
                forall|j: int| 0 <= j < i ==> (#[trigger] self.top_users@[j]).score >= score,
            decreases n - i,
        {
            i += 1;
        }
        proof {
            lemma_rank_is(self.top_users@, score, i as int);
        }
        i
    }

    /// Whether the score beats every entry on the board.
    pub fn beats_all(&self, score: u64) -> (r: bool)
        requires
            self.wf(),
        ensures
            r == is_new_highest(self.top_users@, score),
    {
        if self.top_users.len() == 0 {
            true
        } else {
            let r: bool = score > self.top_users[0].score;
            proof {
                if r {
                    assert forall|i: int| 0 <= i < self.top_users@.len() implies (
                    #[trigger] self.top_users@[i]).score < score by {
                        if i > 0 {
                            assert(self.top_users@[0].score >= self.top_users@[i].score);
                        }
                    }
                } else {
                    assert(self.top_users@[0].score >= score);
                }
            }
            r
        }
    }

    /// Whether the board would take a new entry with this score.
    pub fn would_admit(&self, score: u64) -> (r: bool)
        ensures
            r == admits(self.top_users@, score, self.max_top_scores as nat),
    {
        let n: usize = self.top_users.len();
        n < self.max_top_scores as usize || (n > 0 && score > self.top_users[n - 1].score)
    }

    /// Offers a score to the board. With room left it is placed; on a full
    /// board it is placed only if it beats the lowest entry, which then leaves.
    pub fn offer(&mut self, candidate: UserScore) -> (r: AdmitResult)
        requires
            old(self).wf(),
        ensures
            final(self).wf(),
            final(self).max_top_scores == old(self).max_top_scores,
            final(self).top_users@ == admitted(
                old(self).top_users@,
                candidate,
                old(self).max_top_scores as nat,
            ),
            r == admit_outcome(old(self).top_users@, candidate, old(self).max_top_scores as nat),
    {
        let n: usize = self.top_users.len();
        if n < self.max_top_scores as usize {
            let pos: usize = self.position_for(candidate.score);
            proof {
                lemma_placed_sorted(self.top_users@, candidate);
            }
            self.top_users.insert(pos, candidate);
            AdmitResult::Inserted
        } else if n > 0 && candidate.score > self.top_users[n - 1].score {
            let evicted: UserScore = self.top_users.remove(n - 1);
            assert(self.top_users@ =~= old(self).top_users@.drop_last());
            let pos: usize = self.position_for(candidate.score);
            proof {
                lemma_placed_sorted(self.top_users@, candidate);
            }
            self.top_users.insert(pos, candidate);
            AdmitResult::Replaced(evicted)
        } else {
            AdmitResult::Rejected
        }
    }
}

/// Placing a candidate into a sorted ranking leaves it sorted and one longer.
pub proof fn lemma_placed_sorted(s: Seq<UserScore>, candidate: UserScore)
    requires
        sorted_desc(s),
    ensures
        sorted_desc(placed(s, candidate)),
        placed(s, candidate).len() == s.len() + 1,
{
    lemma_rank_splits(s, candidate.score);
    let k = rank(s, candidate.score);
    let t = placed(s, candidate);
    assert forall|i: int, j: int| 0 <= i < j < t.len() implies t[i].score >= t[j].score by {
        if i < k {
            assert(t[i] == s[i]);
        } else if i > k {
            assert(t[i] == s[i - 1]);
        }
        if j < k {
            assert(t[j] == s[j]);
        } else if j > k {
            assert(t[j] == s[j - 1]);
        }
    }
}

/// Offering a candidate to a ranked board within its bound leaves it ranked
/// and within its bound.
pub proof fn lemma_admitted_ranked(s: Seq<UserScore>, candidate: UserScore, cap: nat)
    requires
        sorted_desc(s),
        s.len() <= cap,
    ensures
        sorted_desc(admitted(s, candidate, cap)),
        admitted(s, candidate, cap).len() <= cap,
        admitted(s, candidate, cap).len() >= s.len(),
{
    if s.len() < cap {
        lemma_placed_sorted(s, candidate);
    } else if admits(s, candidate.score, cap) {
        assert(sorted_desc(s.drop_last()));
        lemma_placed_sorted(s.drop_last(), candidate);
    }
}

/// Ties go by insertion order: a placed candidate stands behind every entry
/// whose score is at least as high and ahead of every entry with a lower
/// score, and the entries that were there keep their order.
pub proof fn lemma_placed_stable(s: Seq<UserScore>, candidate: UserScore)
    requires
        sorted_desc(s),
    ensures
        0 <= rank(s, candidate.score) <= s.len(),
        placed(s, candidate)[rank(s, candidate.score)] == candidate,
        placed(s, candidate).remove(rank(s, candidate.score)) == s,
        forall|i: int|
            0 <= i < rank(s, candidate.score) ==> (#[trigger] placed(s, candidate)[i]).score
                >= candidate.score,
        forall|i: int|
            rank(s, candidate.score) < i <= s.len() ==> (#[trigger] placed(s, candidate)[i]).score
                < candidate.score,
{
    lemma_rank_splits(s, candidate.score);
    let k = rank(s, candidate.score);
    let t = placed(s, candidate);
    assert(t.remove(k) =~= s);
    assert forall|i: int| 0 <= i < k implies (#[trigger] t[i]).score >= candidate.score by {
        assert(t[i] == s[i]);
    }
    assert forall|i: int| k < i <= s.len() implies (#[trigger] t[i]).score < candidate.score by {
        assert(t[i] == s[i - 1]);
    }
}

/// A score that beats every entry goes to the head of the ranking.
pub proof fn lemma_new_highest_ranks_first(s: Seq<UserScore>, candidate: UserScore)
    requires
        sorted_desc(s),
        is_new_highest(s, candidate.score),
    ensures
        rank(s, candidate.score) == 0,
        placed(s, candidate)[0] == candidate,
{
    if s.len() > 0 {
        assert(s[0].score < candidate.score);
    }
    lemma_rank_is(s, candidate.score, 0);
}

} // verus!
