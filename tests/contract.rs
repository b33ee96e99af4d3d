use arcade_reward::{rank_entry, Address, ArcadeRewardContract, ContractError, DataKey, PlayerScore, Symbol};

fn sym(name: &str) -> Symbol {
    Symbol::new(String::from(name))
}

fn name(s: &str) -> String {
    String::from(s)
}

fn entry(id: u64, username: &str, score: u32) -> PlayerScore {
    PlayerScore { player: Address::new(id), username: name(username), score }
}

fn submit(c: &mut ArcadeRewardContract, player: Address, username: &str, score: u32, game: &Symbol) {
    assert_eq!(c.submit_score(&player, player, name(username), score, game), Ok(()));
}

fn claim(c: &mut ArcadeRewardContract, player: Address, game: &Symbol) -> bool {
    c.claim_reward(&player, player, game).unwrap()
}

fn scores(board: &[PlayerScore]) -> Vec<u32> {
    board.iter().map(|e| e.score).collect()
}

#[test]
fn test_submit_and_get_score() {
    let mut c = ArcadeRewardContract::new();
    let player1 = Address::new(1);
    let player2 = Address::new(2);
    let snake_game = sym("snake");

    submit(&mut c, player1, "Alice", 100, &snake_game);
    let top = c.get_top_score(&snake_game).unwrap();
    assert_eq!(top.score, 100);
    assert_eq!(top.player, player1);

    submit(&mut c, player2, "Bob", 200, &snake_game);
    let top = c.get_top_score(&snake_game).unwrap();
    assert_eq!(top.score, 200);
    assert_eq!(top.player, player2);

    let last = c.get_last_player(&snake_game).unwrap();
    assert_eq!(last, player2);

    let leaderboard = c.get_leaderboard(&snake_game);
    assert_eq!(leaderboard.len(), 2);
    assert_eq!(leaderboard[0].score, 200);
}

#[test]
fn test_claim_reward() {
    let mut c = ArcadeRewardContract::new();
    let player = Address::new(7);
    let pong_game = sym("pong");

    submit(&mut c, player, "Winner", 100, &pong_game);
    let can_claim = claim(&mut c, player, &pong_game);
    assert_eq!(can_claim, true);
}

#[test]
fn test_separate_leaderboards() {
    let mut c = ArcadeRewardContract::new();
    let player1 = Address::new(1);
    let player2 = Address::new(2);
    let snake_game = sym("snake");
    let pong_game = sym("pong");

    submit(&mut c, player1, "Alice", 100, &snake_game);
    submit(&mut c, player2, "Bob", 200, &pong_game);

    let snake_top = c.get_top_score(&snake_game).unwrap();
    assert_eq!(snake_top.score, 100);
    assert_eq!(snake_top.player, player1);

    let pong_top = c.get_top_score(&pong_game).unwrap();
    assert_eq!(pong_top.score, 200);
    assert_eq!(pong_top.player, player2);
}

#[test]
fn snake_scenario() {
    let mut c = ArcadeRewardContract::new();
    let p1 = Address::new(1);
    let p2 = Address::new(2);
    let snake = sym("snake");

    submit(&mut c, p1, "Alice", 100, &snake);
    let top = c.get_top_score(&snake).unwrap();
    assert_eq!((top.player, top.username.as_str(), top.score), (p1, "Alice", 100));

    submit(&mut c, p2, "Bob", 200, &snake);
    let top = c.get_top_score(&snake).unwrap();
    assert_eq!((top.player, top.username.as_str(), top.score), (p2, "Bob", 200));
    assert_eq!(c.get_last_player(&snake), Some(p2));
    let board = c.get_leaderboard(&snake);
    assert_eq!(board.len(), 2);
    assert_eq!((board[0].player, board[0].score), (p2, 200));
    assert_eq!((board[1].player, board[1].score), (p1, 100));

    assert!(claim(&mut c, p2, &snake));
    assert!(c.has_claimed_reward(&snake));

    submit(&mut c, p1, "Alice", 300, &snake);
    assert_eq!(c.get_top_score(&snake).unwrap().player, p1);
    assert!(!c.has_claimed_reward(&snake));

    assert!(!claim(&mut c, p2, &snake));
    assert!(!c.has_claimed_reward(&snake));
}

#[test]
fn pong_submissions_leave_snake_alone() {
    let mut c = ArcadeRewardContract::new();
    let p1 = Address::new(1);
    let p2 = Address::new(2);
    let snake = sym("snake");
    let pong = sym("pong");

    submit(&mut c, p1, "Alice", 100, &snake);
    assert!(claim(&mut c, p1, &snake));
    let before = c.get_leaderboard(&snake);

    submit(&mut c, p2, "Bob", 500, &pong);
    submit(&mut c, p2, "Bob", 50, &pong);
    assert!(claim(&mut c, p2, &pong));

    let after = c.get_leaderboard(&snake);
    assert_eq!(scores(&before), scores(&after));
    assert_eq!(after[0].player, p1);
    assert_eq!(c.get_last_player(&snake), Some(p1));
    assert!(c.has_claimed_reward(&snake));
    assert_eq!(c.get_last_player(&pong), Some(p2));
    assert_eq!(scores(&c.get_leaderboard(&pong)), vec![500, 50]);
}

#[test]
fn leaderboard_stays_sorted() {
    let mut c = ArcadeRewardContract::new();
    let g = sym("tetris");
    let input: [u32; 8] = [5, 90, 12, 90, 0, 4000, 7, 12];
    for (i, s) in input.iter().enumerate() {
        submit(&mut c, Address::new(i as u64), "p", *s, &g);
        let board = scores(&c.get_leaderboard(&g));
        assert!(board.windows(2).all(|w| w[0] >= w[1]));
    }
    assert_eq!(scores(&c.get_leaderboard(&g)), vec![4000, 90, 90, 12, 12, 7, 5, 0]);
}

#[test]
fn leaderboard_keeps_ten_best() {
    let mut c = ArcadeRewardContract::new();
    let g = sym("snake");
    for i in 0..15u32 {
        submit(&mut c, Address::new(i as u64), "p", i * 10, &g);
        assert!(c.get_leaderboard(&g).len() <= 10);
    }
    assert_eq!(scores(&c.get_leaderboard(&g)), vec![140, 130, 120, 110, 100, 90, 80, 70, 60, 50]);
    submit(&mut c, Address::new(99), "low", 1, &g);
    let board = c.get_leaderboard(&g);
    assert_eq!(board.len(), 10);
    assert!(board.iter().all(|e| e.player != Address::new(99)));
    assert_eq!(c.get_last_player(&g), Some(Address::new(99)));
}

#[test]
fn equal_scores_keep_submission_order() {
    let mut c = ArcadeRewardContract::new();
    let g = sym("snake");
    submit(&mut c, Address::new(1), "a", 50, &g);
    submit(&mut c, Address::new(2), "b", 70, &g);
    submit(&mut c, Address::new(3), "c", 50, &g);
    submit(&mut c, Address::new(4), "d", 50, &g);
    submit(&mut c, Address::new(5), "e", 70, &g);
    let order: Vec<u64> = c.get_leaderboard(&g).iter().map(|e| e.player.id).collect();
    assert_eq!(order, vec![2, 5, 1, 3, 4]);
    assert_eq!(c.get_top_score(&g).unwrap().player, Address::new(2));
}

#[test]
fn new_leader_clears_claim() {
    let mut c = ArcadeRewardContract::new();
    let g = sym("snake");
    let (p1, p2) = (Address::new(1), Address::new(2));
    submit(&mut c, p1, "Alice", 100, &g);
    assert!(claim(&mut c, p1, &g));
    assert!(c.has_claimed_reward(&g));
    submit(&mut c, p2, "Bob", 101, &g);
    assert!(!c.has_claimed_reward(&g));
    assert!(!c.has(&DataKey::RewardClaimed(sym("snake"))));
    assert!(claim(&mut c, p2, &g));
    assert!(c.has_claimed_reward(&g));
}

#[test]
fn same_leader_keeps_claim() {
    let mut c = ArcadeRewardContract::new();
    let g = sym("snake");
    let (p1, p2) = (Address::new(1), Address::new(2));
    submit(&mut c, p1, "Alice", 100, &g);
    assert!(claim(&mut c, p1, &g));
    submit(&mut c, p2, "Bob", 100, &g);
    assert!(c.has_claimed_reward(&g));
    submit(&mut c, p1, "Alice", 400, &g);
    assert!(c.has_claimed_reward(&g));
    assert_eq!(c.get_top_score(&g).unwrap().score, 400);

    let h = sym("pong");
    submit(&mut c, p1, "Alice", 10, &h);
    submit(&mut c, p1, "Alice", 20, &h);
    assert!(!c.has_claimed_reward(&h));
}

#[test]
fn second_claim_fails_while_leader_holds() {
    let mut c = ArcadeRewardContract::new();
    let g = sym("snake");
    let (p1, p2) = (Address::new(1), Address::new(2));
    submit(&mut c, p1, "Alice", 100, &g);
    assert!(claim(&mut c, p1, &g));
    assert!(!claim(&mut c, p1, &g));
    assert!(!claim(&mut c, p2, &g));
    submit(&mut c, p2, "Bob", 30, &g);
    assert!(!claim(&mut c, p1, &g));
    assert!(c.has_claimed_reward(&g));
}

#[test]
fn claim_needs_a_leader() {
    let mut c = ArcadeRewardContract::new();
    let g = sym("snake");
    let (p1, p2) = (Address::new(1), Address::new(2));
    assert!(!claim(&mut c, p1, &g));
    assert!(!c.has_claimed_reward(&g));
    submit(&mut c, p1, "Alice", 100, &g);
    submit(&mut c, p2, "Bob", 10, &g);
    assert!(!claim(&mut c, p2, &g));
    assert!(!c.has_claimed_reward(&g));
}

#[test]
fn untouched_game_reads_defaults() {
    let c = ArcadeRewardContract::new();
    let g = sym("snake");
    assert!(c.get_leaderboard(&g).is_empty());
    assert!(c.get_top_score(&g).is_none());
    assert_eq!(c.get_last_player(&g), None);
    assert!(!c.has_claimed_reward(&g));
    assert!(!c.has(&DataKey::Leaderboard(sym("snake"))));
    assert!(!c.has(&DataKey::LastPlayer(sym("snake"))));
    assert!(!c.has(&DataKey::RewardClaimed(sym("snake"))));
}

#[test]
fn store_keys_follow_operations() {
    let mut c = ArcadeRewardContract::new();
    let g = sym("snake");
    submit(&mut c, Address::new(3), "Cleo", 9, &g);
    assert!(c.has(&DataKey::Leaderboard(sym("snake"))));
    assert!(c.has(&DataKey::LastPlayer(sym("snake"))));
    assert!(!c.has(&DataKey::RewardClaimed(sym("snake"))));
    assert!(claim(&mut c, Address::new(3), &g));
    assert!(c.has(&DataKey::RewardClaimed(sym("snake"))));
    assert!(!c.has(&DataKey::Leaderboard(sym("pong"))));
}

#[test]
fn submit_by_someone_else_is_unauthorized() {
    let mut c = ArcadeRewardContract::new();
    let g = sym("snake");
    let (p1, p2) = (Address::new(1), Address::new(2));
    let r = c.submit_score(&p2, p1, name("Alice"), 100, &g);
    assert_eq!(r, Err(ContractError::Unauthorized));
    assert!(c.get_leaderboard(&g).is_empty());
    assert_eq!(c.get_last_player(&g), None);
}

#[test]
fn claim_by_someone_else_is_unauthorized() {
    let mut c = ArcadeRewardContract::new();
    let g = sym("snake");
    let (p1, p2) = (Address::new(1), Address::new(2));
    submit(&mut c, p1, "Alice", 100, &g);
    assert_eq!(c.claim_reward(&p2, p1, &g), Err(ContractError::Unauthorized));
    assert!(!c.has_claimed_reward(&g));
    assert!(claim(&mut c, p1, &g));
}

#[test]
fn rank_entry_places_after_equal_scores() {
    let mut board = vec![entry(1, "a", 90), entry(2, "b", 50), entry(3, "c", 50), entry(4, "d", 10)];
    rank_entry(&mut board, entry(5, "e", 50));
    let ids: Vec<u64> = board.iter().map(|e| e.player.id).collect();
    assert_eq!(ids, vec![1, 2, 3, 5, 4]);
    assert_eq!(board[3].username, "e");

    let mut empty: Vec<PlayerScore> = Vec::new();
    rank_entry(&mut empty, entry(6, "f", 0));
    assert_eq!(empty.len(), 1);
    assert_eq!(empty[0].player, Address::new(6));
}

#[test]
fn rank_entry_drops_beyond_capacity() {
    let mut board: Vec<PlayerScore> = (0..10u64).map(|i| entry(i, "x", 100 - i as u32)).collect();
    rank_entry(&mut board, entry(42, "top", u32::MAX));
    assert_eq!(board.len(), 10);
    assert_eq!(board[0].player, Address::new(42));
    assert_eq!(board[9].score, 92);

    rank_entry(&mut board, entry(43, "tail", 92));
    assert_eq!(board.len(), 10);
    assert!(board.iter().all(|e| e.player != Address::new(43)));
}
