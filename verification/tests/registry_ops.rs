use tic_tac_toe::game::{JoinError, MoveError, Player};
use tic_tac_toe::registry::{ApplyError, Intent, MoveFailure, Outcome, Registry};

fn id(s: &str) -> String {
    s.to_string()
}

#[test]
fn join_creates_session_lazily() {
    let mut reg = Registry::new(16);
    assert!(reg.get_game(&id("g1")).is_none());
    assert_eq!(reg.join_game(&id("g1"), "Alice".to_string(), 1), Ok(Player::X));
    let g = reg.get_game(&id("g1")).expect("session must exist after a join");
    assert_eq!(g.players, vec![Player::X]);
    assert_eq!(g.player_names.x.as_deref(), Some("Alice"));
    assert_eq!(g.last_activity, 1);
}

#[test]
fn move_on_unknown_id_is_not_found_and_broadcasts_nothing() {
    let mut reg = Registry::new(16);
    let mut rx = reg.tx.subscribe();
    assert_eq!(
        reg.make_move(&id("nowhere"), Player::X, 0, 0, 1),
        Err(MoveFailure::NotFound)
    );
    assert_eq!(
        reg.apply(&id("nowhere"), Intent::Move { player: Player::X, x: 0, y: 0 }, 2),
        Err(ApplyError::NotFound)
    );
    assert!(rx.try_recv().is_err(), "a refused move must not be broadcast");
}

#[test]
fn reset_on_unknown_id_is_not_found() {
    let mut reg = Registry::new(16);
    let mut rx = reg.tx.subscribe();
    assert!(!reg.reset_game(&id("nowhere"), 1));
    assert_eq!(reg.apply(&id("nowhere"), Intent::Reset, 2), Err(ApplyError::NotFound));
    assert!(rx.try_recv().is_err());
}

#[test]
fn third_join_is_capacity_error_and_changes_nothing() {
    let mut reg = Registry::new(16);
    assert_eq!(reg.join_game(&id("g1"), "Alice".to_string(), 1), Ok(Player::X));
    assert_eq!(reg.join_game(&id("g1"), "Bob".to_string(), 2), Ok(Player::O));
    let mut rx = reg.tx.subscribe();
    assert_eq!(
        reg.join_game(&id("g1"), "Carol".to_string(), 3),
        Err(JoinError::Full)
    );
    assert_eq!(
        reg.apply(&id("g1"), Intent::Join { name: "Carol".to_string() }, 4),
        Err(ApplyError::Capacity)
    );
    let g = reg.get_game(&id("g1")).unwrap();
    assert_eq!(g.players, vec![Player::X, Player::O]);
    assert_eq!(g.player_names.x.as_deref(), Some("Alice"));
    assert_eq!(g.player_names.o.as_deref(), Some("Bob"));
    assert!(rx.try_recv().is_err(), "a refused join must not be broadcast");
}

#[test]
fn move_by_stranger_is_rejected() {
    let mut reg = Registry::new(16);
    assert_eq!(reg.join_game(&id("g1"), "Alice".to_string(), 1), Ok(Player::X));
    // O never joined
    assert_eq!(
        reg.make_move(&id("g1"), Player::O, 0, 0, 2),
        Err(MoveFailure::Rejected(MoveError::PlayerNotInGame))
    );
}

#[test]
fn full_session_round_and_reset_after_win() {
    let mut reg = Registry::new(64);
    assert_eq!(reg.join_game(&id("g1"), "Alice".to_string(), 1), Ok(Player::X));
    assert_eq!(reg.join_game(&id("g1"), "Bob".to_string(), 2), Ok(Player::O));
    for (p, x, y) in [
        (Player::X, 0, 0),
        (Player::O, 1, 1),
        (Player::X, 0, 1),
        (Player::O, 2, 2),
        (Player::X, 0, 2),
    ] {
        assert_eq!(reg.make_move(&id("g1"), p, x, y, 3), Ok(()));
    }
    {
        let g = reg.get_game(&id("g1")).unwrap();
        assert!(g.game_over);
        assert_eq!(g.scores.x, 1);
    }
    assert!(reg.reset_game(&id("g1"), 9));
    let g = reg.get_game(&id("g1")).unwrap();
    assert!(!g.game_over);
    assert!(!g.draw);
    for x in 0..3 {
        for y in 0..3 {
            assert_eq!(g.board.get(x, y), None);
        }
    }
    // First had won and had moved first, so Second moves first now
    assert_eq!(g.current_turn, Player::O);
    assert_eq!(g.scores.x, 1);
    assert_eq!(g.scores.o, 0);
    assert_eq!(g.player_names.x.as_deref(), Some("Alice"));
}

#[test]
fn sessions_are_independent() {
    let mut reg = Registry::new(16);
    assert_eq!(reg.join_game(&id("a"), "Alice".to_string(), 1), Ok(Player::X));
    assert_eq!(reg.join_game(&id("b"), "Bob".to_string(), 2), Ok(Player::X));
    assert_eq!(reg.join_game(&id("b"), "Carol".to_string(), 3), Ok(Player::O));
    assert_eq!(reg.make_move(&id("b"), Player::X, 1, 1, 4), Ok(()));
    let a = reg.get_game(&id("a")).unwrap();
    assert_eq!(a.players, vec![Player::X]);
    assert_eq!(a.board.get(1, 1), None);
    let b = reg.get_game(&id("b")).unwrap();
    assert_eq!(b.board.get(1, 1), Some(Player::X));
}

#[test]
fn snapshots_arrive_in_commit_order_filtered_by_id() {
    let mut reg = Registry::new(64);
    let mut rx = reg.tx.subscribe();
    assert_eq!(reg.join_game(&id("g1"), "Alice".to_string(), 1), Ok(Player::X));
    assert_eq!(reg.join_game(&id("g2"), "Eve".to_string(), 2), Ok(Player::X));
    assert_eq!(reg.join_game(&id("g1"), "Bob".to_string(), 3), Ok(Player::O));
    assert_eq!(reg.make_move(&id("g1"), Player::X, 0, 0, 4), Ok(()));
    assert!(reg.reset_game(&id("g1"), 5));

    // every accepted mutation was broadcast, in commit order
    let mut seen = Vec::new();
    while let Ok((gid, snap)) = rx.try_recv() {
        seen.push((gid, snap));
    }
    assert_eq!(seen.len(), 5);
    let ids: Vec<&str> = seen.iter().map(|(gid, _)| gid.as_str()).collect();
    assert_eq!(ids, vec!["g1", "g2", "g1", "g1", "g1"]);

    // the per-session snapshots retell that session's history in order
    let g1: Vec<_> = seen.iter().filter(|(gid, _)| gid == "g1").collect();
    assert_eq!(g1[0].1.players, vec![Player::X]);
    assert_eq!(g1[1].1.players, vec![Player::X, Player::O]);
    assert_eq!(g1[2].1.board.get(0, 0), Some(Player::X));
    assert_eq!(g1[3].1.board.get(0, 0), None);
    // the turn had passed to O after the move, so the reset flips it back
    assert_eq!(g1[3].1.current_turn, Player::X);
}

#[test]
fn reap_evicts_stale_and_future_stamped_sessions() {
    let mut reg = Registry::new(16);
    assert_eq!(reg.join_game(&id("old"), "Alice".to_string(), 100), Ok(Player::X));
    assert_eq!(reg.join_game(&id("fresh"), "Bob".to_string(), 900), Ok(Player::X));
    assert_eq!(reg.join_game(&id("future"), "Eve".to_string(), 5000), Ok(Player::X));
    let removed = reg.reap(1000, 200);
    assert_eq!(removed, 2);
    assert!(reg.get_game(&id("old")).is_none());
    assert!(reg.get_game(&id("fresh")).is_some());
    assert!(reg.get_game(&id("future")).is_none());
}

#[test]
fn reap_keeps_everything_inside_timeout() {
    let mut reg = Registry::new(16);
    assert_eq!(reg.join_game(&id("a"), "Alice".to_string(), 1000), Ok(Player::X));
    assert_eq!(reg.join_game(&id("b"), "Bob".to_string(), 1100), Ok(Player::X));
    assert_eq!(reg.reap(1199, 200), 0);
    assert!(reg.get_game(&id("a")).is_some());
    assert!(reg.get_game(&id("b")).is_some());
}

#[test]
fn apply_dispatches_all_intents() {
    let mut reg = Registry::new(16);
    assert_eq!(
        reg.apply(&id("g"), Intent::Join { name: "Alice".to_string() }, 1),
        Ok(Outcome::Joined(Player::X))
    );
    assert_eq!(
        reg.apply(&id("g"), Intent::Join { name: "Bob".to_string() }, 2),
        Ok(Outcome::Joined(Player::O))
    );
    assert_eq!(
        reg.apply(&id("g"), Intent::Move { player: Player::X, x: 1, y: 1 }, 3),
        Ok(Outcome::Moved)
    );
    assert_eq!(
        reg.apply(&id("g"), Intent::Move { player: Player::X, x: 1, y: 1 }, 4),
        Err(ApplyError::Validation(MoveError::WrongTurn))
    );
    assert_eq!(
        reg.apply(&id("g"), Intent::Move { player: Player::O, x: 1, y: 1 }, 5),
        Err(ApplyError::Validation(MoveError::CellTaken))
    );
    assert_eq!(reg.apply(&id("g"), Intent::Reset, 6), Ok(Outcome::Reset));
    let g = reg.get_game(&id("g")).unwrap();
    assert_eq!(g.board.get(1, 1), None);
}
