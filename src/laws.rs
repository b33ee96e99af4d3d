//! Laws of the leaderboard and of the claim flag, stated over the models that
//! the operations' contracts use.
use vstd::prelude::*;
use crate::types::{Address, PlayerScore};
use crate::leaderboard::{
    board_after_submit, capped, insertion_point, is_ranked, lemma_insertion_point_bounds,
    ranked_insert, top_player, LEADERBOARD_CAPACITY,
};
use crate::contract::{after_claim, after_submit, claim_succeeds, game_wf, GameState};

verus! {

/// A ranked leaderboard stays ranked after any submission.
pub proof fn lemma_submit_keeps_ranking(b: Seq<PlayerScore>, e: PlayerScore)
    requires
        is_ranked(b),
    ensures
        is_ranked(board_after_submit(b, e)),
{
    let k = insertion_point(b, e.score) as int;
    lemma_insertion_point_bounds(b, e.score);
    let r = ranked_insert(b, e);
    assert forall|i: int, j: int| 0 <= i < j < r.len() implies r[i].score >= r[j].score by {
        if j < k {
            assert(r[i] == b[i] && r[j] == b[j]);
        } else if j == k {
            assert(r[i] == b[i]);
        } else if i < k {
            assert(r[i] == b[i] && r[j] == b[j - 1]);
        } else if i == k {
            assert(r[j] == b[j - 1]);
            assert(b[k].score >= b[j - 1].score || k == j - 1);
        } else {
            assert(r[i] == b[i - 1] && r[j] == b[j - 1]);
        }
    }
    let c = capped(r);
    assert forall|i: int, j: int| 0 <= i < j < c.len() implies c[i].score >= c[j].score by {
        assert(c[i] == r[i] && c[j] == r[j]);
    }
}

/// Whatever the board held, after a submission it holds between one and
/// `LEADERBOARD_CAPACITY` entries.
pub proof fn lemma_submit_within_capacity(b: Seq<PlayerScore>, e: PlayerScore)
    ensures
        0 < board_after_submit(b, e).len() <= LEADERBOARD_CAPACITY,
{
    lemma_insertion_point_bounds(b, e.score);
}

/// A submission places the new entry after every entry that scores at least
/// as much and before every entry that scores less, and leaves the entries
/// already there in their order: among equal scores, earlier submissions
/// stay ahead.
pub proof fn lemma_submit_tie_order(b: Seq<PlayerScore>, e: PlayerScore)
    requires
        is_ranked(b),
    ensures
        ({
            let k = insertion_point(b, e.score) as int;
            let r = ranked_insert(b, e);
            &&& 0 <= k <= b.len()
            &&& r[k] == e
            &&& r.remove(k) == b
            &&& forall|j: int| 0 <= j < k ==> b[j].score >= e.score
            &&& forall|j: int| k <= j < b.len() ==> b[j].score < e.score
        }),
{
    let k = insertion_point(b, e.score) as int;
    lemma_insertion_point_bounds(b, e.score);
    let r = ranked_insert(b, e);
    assert(r.remove(k) =~= b);
    assert forall|j: int| k <= j < b.len() implies b[j].score < e.score by {
        assert(b[k].score >= b[j].score || j == k);
    }
}

/// Submissions keep a game in a reachable state.
pub proof fn lemma_submit_keeps_wf(st: GameState, e: PlayerScore)
    requires
        game_wf(st),
    ensures
        game_wf(after_submit(st, e)),
{
    lemma_submit_keeps_ranking(st.board, e);
    lemma_submit_within_capacity(st.board, e);
}

/// Claims keep a game in a reachable state.
pub proof fn lemma_claim_keeps_wf(st: GameState, player: Address)
    requires
        game_wf(st),
    ensures
        game_wf(after_claim(st, player)),
{
}

/// When a submission changes who leads, the claim flag is clear afterwards.
pub proof fn lemma_new_leader_clears_claim(st: GameState, e: PlayerScore)
    requires
        game_wf(st),
    ensures
        top_player(after_submit(st, e).board) != top_player(st.board) ==> !after_submit(st, e).claimed,
{
}

/// When a submission leaves the same player leading, the claim flag is as it was.
pub proof fn lemma_same_leader_keeps_claim(st: GameState, e: PlayerScore)
    ensures
        top_player(after_submit(st, e).board) == top_player(st.board) ==> after_submit(st, e).claimed
            == st.claimed,
{
}

/// After a successful claim no claim succeeds, by anyone, until the leader
/// changes: neither right away nor after a submission that keeps the leader.
pub proof fn lemma_single_claim(st: GameState, p: Address, q: Address, e: PlayerScore)
    requires
        game_wf(st),
        claim_succeeds(st, p),
    ensures
        !claim_succeeds(after_claim(st, p), q),
        top_player(after_submit(after_claim(st, p), e).board) == top_player(after_claim(st, p).board)
            ==> !claim_succeeds(after_submit(after_claim(st, p), e), q),
{
}

} // verus!
