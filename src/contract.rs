use vstd::prelude::*;
use crate::types::{Address, ContractError, DataKey, PlayerScore, Symbol};
use crate::leaderboard::{board_after_submit, is_ranked, rank_entry, top_player, LEADERBOARD_CAPACITY};
use crate::laws::{lemma_claim_keeps_wf, lemma_submit_keeps_wf};

verus! {

/// What the store holds for one game; an absent field reads as its default.
pub struct GameState {
    pub board: Seq<PlayerScore>,
    pub last_player: Option<Address>,
    pub claimed: bool,
}

/// The state of a game that has never been touched.
pub open spec fn untouched() -> GameState {
    GameState { board: Seq::empty(), last_player: None, claimed: false }
}

/// The state every reachable game is in: a ranked board within capacity, and
/// a claim flag that is only set while someone leads.
pub open spec fn game_wf(st: GameState) -> bool {
    &&& is_ranked(st.board)
    &&& st.board.len() <= LEADERBOARD_CAPACITY
    &&& st.claimed ==> st.board.len() > 0
}

/// A game after `e` is submitted: the entry is ranked in, its player becomes
/// the last player, and the claim flag is cleared when the leader changed.
pub open spec fn after_submit(st: GameState, e: PlayerScore) -> GameState {
    let board = board_after_submit(st.board, e);
    GameState {
        board: board,
        last_player: Some(e.player),
        claimed: if top_player(st.board) is Some && top_player(board) != top_player(st.board) {
            false
        } else {
            st.claimed
        },
    }
}

/// A claim by `player` succeeds when nobody has claimed and `player` leads.
pub open spec fn claim_succeeds(st: GameState, player: Address) -> bool {
    !st.claimed && top_player(st.board) == Some(player)
}

/// A game after `player` claims.
pub open spec fn after_claim(st: GameState, player: Address) -> GameState {
    if claim_succeeds(st, player) {
        GameState { claimed: true, ..st }
    } else {
        st
    }
}

/// The fields of one game that has received at least one submission.
struct GameRecord {
    game: Symbol,
    leaderboard: Vec<PlayerScore>,
    last_player: Option<Address>,
    reward_claimed: bool,
}

impl GameRecord {
    spec fn state(&self) -> GameState {
        GameState {
            board: self.leaderboard@,
            last_player: self.last_player,
            claimed: self.reward_claimed,
        }
    }
}

/// The store of every game's leaderboard, last player and claim flag.
pub struct ArcadeRewardContract {
    games: Vec<GameRecord>,
}

/// Player of the first entry of `board`, if any.
fn top_of(board: &Vec<PlayerScore>) -> (r: Option<Address>)
    ensures
        r == top_player(board@),
{
    if board.len() > 0 {
        Some(board[0].player)
    } else {
        None
    }
}

fn same_player(a: Option<Address>, b: Option<Address>) -> (r: bool)
    ensures
        r == (a == b),
{
    match (a, b) {
        (Some(x), Some(y)) => x == y,
        (None, None) => true,
        _ => false,
    }
}

impl ArcadeRewardContract {
    spec fn names_game(&self, i: int, g: Seq<char>) -> bool {
        0 <= i < self.games@.len() && self.games@[i].game@ == g
    }

    /// Each game has one record, and each record is a reachable, touched game.
    pub closed spec fn wf(&self) -> bool {
        &&& forall|i: int, j: int|
            0 <= i < j < self.games@.len() ==> self.games@[i].game@ != self.games@[j].game@
        &&& forall|i: int|
            0 <= i < self.games@.len() ==> {
                &&& game_wf(#[trigger] self.games@[i].state())
                &&& self.games@[i].leaderboard@.len() > 0
                &&& self.games@[i].last_player is Some
            }
    }

    /// What the store holds for the game named `g`.
    pub closed spec fn game_state(&self, g: Seq<char>) -> GameState {
        if exists|i: int| self.names_game(i, g) {
            self.games@[choose|i: int| self.names_game(i, g)].state()
        } else {
            untouched()
        }
    }

    proof fn lemma_state_at(&self, i: int)
        requires
            self.wf(),
            0 <= i < self.games@.len(),
        ensures
            self.game_state(self.games@[i].game@) == self.games@[i].state(),
    {
        let g = self.games@[i].game@;
        assert(self.names_game(i, g));
        let c = choose|c: int| self.names_game(c, g);
        if c != i {
            if c < i {
                assert(self.games@[c].game@ != self.games@[i].game@);
            } else {
                assert(self.games@[i].game@ != self.games@[c].game@);
            }
        }
    }

    /// In every store that `new`, `submit_score` and `claim_reward` can produce,
    /// each game's leaderboard is ranked and within capacity, and its claim
    /// flag is set only while someone leads.
    pub proof fn lemma_game_state_valid(&self, g: Seq<char>)
        requires
            self.wf(),
        ensures
            game_wf(self.game_state(g)),
    {
        if exists|i: int| self.names_game(i, g) {
            let c = choose|c: int| self.names_game(c, g);
            assert(game_wf(self.games@[c].state()));
        }
    }

    /// An empty store: no game has been touched.
    pub fn new() -> (r: ArcadeRewardContract)
        ensures
            r.wf(),
            forall|g: Seq<char>| r.game_state(g) == untouched(),
    {
        ArcadeRewardContract { games: Vec::new() }
    }

    fn find_game(&self, game: &Symbol) -> (r: Option<usize>)
        ensures
            match r {
                Some(i) => self.names_game(i as int, game@),
                None => forall|i: int| !self.names_game(i, game@),
            },
    {
        let mut i: usize = 0;
        while i < self.games.len()
            invariant
                i <= self.games@.len(),
                forall|j: int| 0 <= j < i ==> !self.names_game(j, game@),
            decreases self.games@.len() - i,
        {
            if self.games[i].game.name == game.name {
                return Some(i);
            }
            i = i + 1;
        }
        None
    }

    proof fn lemma_replace(&self, new: &Self, i: int, rec: GameRecord)
        requires
            self.wf(),
            0 <= i < self.games@.len(),
            rec.game@ == self.games@[i].game@,
            game_wf(rec.state()),
            rec.leaderboard@.len() > 0,
            rec.last_player is Some,
            new.games@ == self.games@.update(i, rec),
        ensures
            new.wf(),
            new.game_state(rec.game@) == rec.state(),
            forall|g: Seq<char>| g != rec.game@ ==> new.game_state(g) == self.game_state(g),
    {
        assert(new.games@[i] == rec);
        assert forall|a: int, b: int| 0 <= a < b < new.games@.len()
            implies new.games@[a].game@ != new.games@[b].game@ by {
            assert(self.games@[a].game@ != self.games@[b].game@);
        }
        assert forall|a: int| 0 <= a < new.games@.len() implies {
            &&& game_wf(#[trigger] new.games@[a].state())
            &&& new.games@[a].leaderboard@.len() > 0
            &&& new.games@[a].last_player is Some
        } by {
            if a != i {
                assert(new.games@[a] == self.games@[a]);
                assert(game_wf(self.games@[a].state()));
            }
        }
        new.lemma_state_at(i);
        assert forall|g: Seq<char>| g != rec.game@ implies new.game_state(g) == self.game_state(g) by {
            if exists|j: int| self.names_game(j, g) {
                let j = choose|j: int| self.names_game(j, g);
                assert(new.games@[j] == self.games@[j]);
                self.lemma_state_at(j);
                new.lemma_state_at(j);
            } else {
                assert forall|j: int| !new.names_game(j, g) by {
                    assert(!self.names_game(j, g));
                    if 0 <= j < new.games@.len() && j != i {
                        assert(new.games@[j] == self.games@[j]);
                    }
                }
            }
        }
    }

    proof fn lemma_push(&self, new: &Self, rec: GameRecord)
        requires
            self.wf(),
            forall|i: int| !self.names_game(i, rec.game@),
            game_wf(rec.state()),
            rec.leaderboard@.len() > 0,
            rec.last_player is Some,
            new.games@ == self.games@.push(rec),
        ensures
            new.wf(),
            new.game_state(rec.game@) == rec.state(),
            forall|g: Seq<char>| g != rec.game@ ==> new.game_state(g) == self.game_state(g),
    {
        let n = self.games@.len() as int;
        assert(new.games@[n] == rec);
        assert forall|a: int, b: int| 0 <= a < b < new.games@.len()
            implies new.games@[a].game@ != new.games@[b].game@ by {
            assert(new.games@[a] == self.games@[a]);
            if b < n {
                assert(self.games@[a].game@ != self.games@[b].game@);
            } else {
                assert(!self.names_game(a, rec.game@));
            }
        }
        assert forall|a: int| 0 <= a < new.games@.len() implies {
            &&& game_wf(#[trigger] new.games@[a].state())
            &&& new.games@[a].leaderboard@.len() > 0
            &&& new.games@[a].last_player is Some
        } by {
            if a != n {
                assert(new.games@[a] == self.games@[a]);
                assert(game_wf(self.games@[a].state()));
            }
        }
        new.lemma_state_at(n);
        assert forall|g: Seq<char>| g != rec.game@ implies new.game_state(g) == self.game_state(g) by {
            if exists|j: int| self.names_game(j, g) {
                let j = choose|j: int| self.names_game(j, g);
                assert(new.games@[j] == self.games@[j]);
                self.lemma_state_at(j);
                new.lemma_state_at(j);
            } else {
                assert forall|j: int| !new.names_game(j, g) by {
                    assert(!self.names_game(j, g));
                    if 0 <= j < n {
                        assert(new.games@[j] == self.games@[j]);
                    }
                }
            }
        }
    }

    /// The ranked entries of `game`, empty if it never received a submission.
    pub fn get_leaderboard(&self, game: &Symbol) -> (r: Vec<PlayerScore>)
        requires
            self.wf(),
        ensures
            r@ == self.game_state(game@).board,
    {
        match self.find_game(game) {
            Some(i) => {
                proof {
                    self.lemma_state_at(i as int);
                }
                let r = self.games[i].leaderboard.clone();
                assert(r@ =~= self.games@[i as int].leaderboard@);
                r
            },
            None => Vec::new(),
        }
    }

    /// The leading entry of `game`, if any.
    pub fn get_top_score(&self, game: &Symbol) -> (r: Option<PlayerScore>)
        requires
            self.wf(),
        ensures
            r == (if self.game_state(game@).board.len() > 0 {
                Some(self.game_state(game@).board[0])
            } else {
                None::<PlayerScore>
            }),
    {
        match self.find_game(game) {
            Some(i) => {
                proof {
                    self.lemma_state_at(i as int);
                }
                if self.games[i].leaderboard.len() > 0 {
                    Some(self.games[i].leaderboard[0].clone())
                } else {
                    None
                }
            },
            None => None,
        }
    }

    /// The most recent submitter to `game`, if any.
    pub fn get_last_player(&self, game: &Symbol) -> (r: Option<Address>)
        requires
            self.wf(),
        ensures
            r == self.game_state(game@).last_player,
    {
        match self.find_game(game) {
            Some(i) => {
                proof {
                    self.lemma_state_at(i as int);
                }
                self.games[i].last_player
            },
            None => None,
        }
    }

    /// Whether the current leader of `game` has claimed the reward.
    pub fn has_claimed_reward(&self, game: &Symbol) -> (r: bool)
        requires
            self.wf(),
        ensures
            r == self.game_state(game@).claimed,
    {
        match self.find_game(game) {
            Some(i) => {
                proof {
                    self.lemma_state_at(i as int);
                }
                self.games[i].reward_claimed
            },
            None => false,
        }
    }
    /// Records `score` of `player` under `username` for `game`, if the caller
    /// `invoker` is `player`: the entry is ranked into the game's leaderboard,
    /// `player` becomes its last player, and the claim flag is cleared when the
    /// leader changed. No other game is touched.
    pub fn submit_score(
        &mut self,
        invoker: &Address,
        player: Address,
        username: String,
        score: u32,
        game: &Symbol,
    ) -> (r: Result<(), ContractError>)
        requires
            old(self).wf(),
        ensures
            final(self).wf(),
            *invoker != player ==> r == Err::<(), ContractError>(ContractError::Unauthorized)
                && *final(self) == *old(self),
            *invoker == player ==> {
                &&& r == Ok::<(), ContractError>(())
                &&& final(self).game_state(game@) == after_submit(
                    old(self).game_state(game@),
                    (PlayerScore { player, username, score }),
                )
                &&& forall|g: Seq<char>| g != game@ ==> final(self).game_state(g) == old(self).game_state(g)
            },
    {
        if *invoker != player {
            return Err(ContractError::Unauthorized);
        }
        let ghost pre = *self;
        let entry = PlayerScore { player, username, score };
        let ghost e = entry;
        proof {
            pre.lemma_game_state_valid(game@);
            lemma_submit_keeps_wf(pre.game_state(game@), e);
        }
        match self.find_game(game) {
            Some(i) => {
                proof {
                    pre.lemma_state_at(i as int);
                }
                let old_top = top_of(&self.games[i].leaderboard);
                let mut board = self.games[i].leaderboard.clone();
                assert(board@ =~= self.games@[i as int].leaderboard@);
                rank_entry(&mut board, entry);
                let new_top = top_of(&board);
                let claimed = if old_top.is_some() && !same_player(old_top, new_top) {
                    false
                } else {
                    self.games[i].reward_claimed
                };
                let rec = GameRecord {
                    game: self.games[i].game.clone(),
                    leaderboard: board,
                    last_player: Some(player),
                    reward_claimed: claimed,
                };
                let ghost grec = rec;
                assert(grec.state() == after_submit(pre.game_state(game@), e));
                self.games[i] = rec;
                proof {
                    pre.lemma_replace(self, i as int, grec);
                }
            },
            None => {
                let mut board: Vec<PlayerScore> = Vec::new();
                rank_entry(&mut board, entry);
                let rec = GameRecord {
                    game: game.clone(),
                    leaderboard: board,
                    last_player: Some(player),
                    reward_claimed: false,
                };
                let ghost grec = rec;
                assert(board@ == board_after_submit(Seq::<PlayerScore>::empty(), e));
                assert(grec.state() == after_submit(pre.game_state(game@), e));
                self.games.push(rec);
                proof {
                    pre.lemma_push(self, grec);
                }
            },
        }
        Ok(())
    }

    /// Lets `player`, if the caller `invoker` is `player`, claim the reward of
    /// `game`: it succeeds, and sets the claim flag, only when the flag is clear
    /// and `player` leads the game. No other game is touched.
    pub fn claim_reward(&mut self, invoker: &Address, player: Address, game: &Symbol) -> (r: Result<
        bool,
        ContractError,
    >)
        requires
            old(self).wf(),
        ensures
            final(self).wf(),
            *invoker != player ==> r == Err::<bool, ContractError>(ContractError::Unauthorized)
                && *final(self) == *old(self),
            *invoker == player ==> {
                &&& r == Ok::<bool, ContractError>(claim_succeeds(old(self).game_state(game@), player))
                &&& final(self).game_state(game@) == after_claim(old(self).game_state(game@), player)
                &&& forall|g: Seq<char>| g != game@ ==> final(self).game_state(g) == old(self).game_state(g)
            },
    {
        if *invoker != player {
            return Err(ContractError::Unauthorized);
        }
        let ghost pre = *self;
        proof {
            pre.lemma_game_state_valid(game@);
            lemma_claim_keeps_wf(pre.game_state(game@), player);
        }
        match self.find_game(game) {
            Some(i) => {
                proof {
                    pre.lemma_state_at(i as int);
                }
                if self.games[i].reward_claimed {
                    return Ok(false);
                }
                let top = top_of(&self.games[i].leaderboard);
                if !same_player(top, Some(player)) {
                    return Ok(false);
                }
                let board = self.games[i].leaderboard.clone();
                assert(board@ =~= self.games@[i as int].leaderboard@);
                let rec = GameRecord {
                    game: self.games[i].game.clone(),
                    leaderboard: board,
                    last_player: self.games[i].last_player,
                    reward_claimed: true,
                };
                let ghost grec = rec;
                assert(grec.state() == after_claim(pre.game_state(game@), player));
                self.games[i] = rec;
                proof {
                    pre.lemma_replace(self, i as int, grec);
                }
                Ok(true)
            },
            None => Ok(false),
        }
    }
    /// Whether the store holds a value under `key`: a leaderboard once the game
    /// received a submission, a last player likewise, and a claim flag while
    /// the current leader's claim stands.
    pub fn has(&self, key: &DataKey) -> (r: bool)
        requires
            self.wf(),
        ensures
            r == match key {
                DataKey::Leaderboard(g) => self.game_state(g@).board.len() > 0,
                DataKey::LastPlayer(g) => self.game_state(g@).last_player is Some,
                DataKey::RewardClaimed(g) => self.game_state(g@).claimed,
            },
    {
        match key {
            DataKey::Leaderboard(g) => self.get_leaderboard(g).len() > 0,
            DataKey::LastPlayer(g) => self.get_last_player(g).is_some(),
            DataKey::RewardClaimed(g) => self.has_claimed_reward(g),
        }
    }
}

} // verus!
