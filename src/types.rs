use vstd::prelude::*;

verus! {

/// Identity of a player: an opaque handle that can only be compared.
#[derive(Clone, Copy, Debug, PartialEq, Eq, Structural)]
pub struct Address {
    pub id: u64,
}

impl Address {
    pub fn new(id: u64) -> (r: Address)
        ensures
            r.id == id,
    {
        Address { id }
    }
}

/// Identifier of a game; games are told apart by their names.
#[derive(Debug)]
pub struct Symbol {
    pub name: String,
}

impl Symbol {
    pub fn new(name: String) -> (r: Symbol)
        ensures
            r.name == name,
    {
        Symbol { name }
    }

    pub open spec fn view(&self) -> Seq<char> {
        self.name@
    }
}

impl Clone for Symbol {
    fn clone(&self) -> (r: Self)
        ensures
            r == *self,
    {
        Symbol { name: self.name.clone() }
    }
}

/// One leaderboard entry: who scored, under which display name, and how much.
#[derive(Debug)]
pub struct PlayerScore {
    pub player: Address,
    pub username: String,
    pub score: u32,
}

impl Clone for PlayerScore {
    fn clone(&self) -> (r: Self)
        ensures
            r == *self,
    {
        PlayerScore { player: self.player, username: self.username.clone(), score: self.score }
    }
}

/// The per-game fields of the store.
#[derive(Debug)]
pub enum DataKey {
    /// The ranked entries of a game.
    Leaderboard(Symbol),
    /// The most recent submitter of a game.
    LastPlayer(Symbol),
    /// Whether the current leader of a game has claimed the reward.
    RewardClaimed(Symbol),
}

/// Failure of a mutating operation.
#[derive(Clone, Copy, Debug, PartialEq, Eq, Structural)]
pub enum ContractError {
    /// The caller is not the player named in the call.
    Unauthorized,
}

} // verus!
