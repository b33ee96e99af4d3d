use vstd::prelude::*;
use crate::types::{Address, PlayerScore};

verus! {

/// Most entries a leaderboard keeps.
pub const LEADERBOARD_CAPACITY: usize = 10;

/// Entries stand in non-increasing order of score.
pub open spec fn is_ranked(b: Seq<PlayerScore>) -> bool {
    forall|i: int, j: int| 0 <= i < j < b.len() ==> b[i].score >= b[j].score
}

/// Number of leading entries whose score is at least `score`: where a new
/// entry with that score is placed, after every entry it does not beat.
pub open spec fn insertion_point(b: Seq<PlayerScore>, score: u32) -> nat
    decreases b.len(),
{
    if b.len() == 0 {
        0
    } else if b[0].score < score {
        0
    } else {
        1 + insertion_point(b.drop_first(), score)
    }
}

/// `b` with `e` placed at its insertion point.
pub open spec fn ranked_insert(b: Seq<PlayerScore>, e: PlayerScore) -> Seq<PlayerScore> {
    b.insert(insertion_point(b, e.score) as int, e)
}

/// The first `LEADERBOARD_CAPACITY` entries of `b`.
pub open spec fn capped(b: Seq<PlayerScore>) -> Seq<PlayerScore> {
    if b.len() > LEADERBOARD_CAPACITY {
        b.take(LEADERBOARD_CAPACITY as int)
    } else {
        b
    }
}

/// The leaderboard after `e` is submitted to `b`.
pub open spec fn board_after_submit(b: Seq<PlayerScore>, e: PlayerScore) -> Seq<PlayerScore> {
    capped(ranked_insert(b, e))
}

/// The player of the first entry, if any.
pub open spec fn top_player(b: Seq<PlayerScore>) -> Option<Address> {
    if b.len() > 0 {
        Some(b[0].player)
    } else {
        None
    }
}

/// The insertion point is the one position at which every entry before it has
/// at least `score` and the entry at it, if any, has less.
pub proof fn lemma_insertion_point_is(b: Seq<PlayerScore>, score: u32, k: int)
    requires
        0 <= k <= b.len(),
        forall|j: int| 0 <= j < k ==> b[j].score >= score,
        k < b.len() ==> b[k].score < score,
    ensures
        insertion_point(b, score) == k,
    decreases k,
{
    if k > 0 {
        let t = b.drop_first();
        assert forall|j: int| 0 <= j < k - 1 implies t[j].score >= score by {
            assert(t[j] == b[j + 1]);
        }
        if k - 1 < t.len() {
            assert(t[k - 1] == b[k]);
        }
        lemma_insertion_point_is(t, score, k - 1);
    }
}

/// What the insertion point of `b` guarantees for any `b`.
pub proof fn lemma_insertion_point_bounds(b: Seq<PlayerScore>, score: u32)
    ensures
        insertion_point(b, score) <= b.len(),
        forall|j: int| 0 <= j < insertion_point(b, score) ==> b[j].score >= score,
        insertion_point(b, score) < b.len() ==> b[insertion_point(b, score) as int].score < score,
    decreases b.len(),
{
    if b.len() > 0 && b[0].score >= score {
        let t = b.drop_first();
        lemma_insertion_point_bounds(t, score);
        assert forall|j: int| 0 <= j < insertion_point(b, score) implies b[j].score >= score by {
            if j > 0 {
                assert(b[j] == t[j - 1]);
            }
        }
        if insertion_point(b, score) < b.len() {
            assert(b[insertion_point(b, score) as int] == t[insertion_point(t, score) as int]);
        }
    }
}

/// Position at which an entry with `score` joins `board`.
fn find_insertion_point(board: &Vec<PlayerScore>, score: u32) -> (k: usize)
    ensures
        k == insertion_point(board@, score),
{
    let mut i: usize = 0;
    while i < board.len() && board[i].score >= score
        invariant
            i <= board@.len(),
            forall|j: int| 0 <= j < i ==> board@[j].score >= score,
        decreases board@.len() - i,
    {
        i = i + 1;
    }
    proof {
        lemma_insertion_point_is(board@, score, i as int);
    }
    i
}

/// Places `entry` after every entry whose score it does not exceed, then drops
/// whatever stands beyond the capacity.
pub fn rank_entry(board: &mut Vec<PlayerScore>, entry: PlayerScore)
    ensures
        final(board)@ == board_after_submit(old(board)@, entry),
{
    let k = find_insertion_point(board, entry.score);
    proof {
        lemma_insertion_point_bounds(old(board)@, entry.score);
    }
    board.insert(k, entry);
    if board.len() > LEADERBOARD_CAPACITY {
        board.truncate(LEADERBOARD_CAPACITY);
    }
}

} // verus!
