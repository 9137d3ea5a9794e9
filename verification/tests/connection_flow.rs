use tic_tac_toe::connection::{handle_join_game, handle_make_move, handle_reset_game, Connection};
use tic_tac_toe::game::{MoveError, Player};
use tic_tac_toe::message::{move_error_message, ClientMessage, JoinGameRequest, MoveRequest, Reply};
use tic_tac_toe::registry::Registry;

fn some(s: &str) -> Option<String> {
    Some(s.to_string())
}

#[test]
fn join_replies_with_success_then_snapshot() {
    let mut reg = Registry::new(16);
    let replies = handle_join_game(&mut reg, some("g1"), some("Alice"), 1);
    assert_eq!(replies.len(), 2);
    match &replies[0] {
        Reply::JoinSuccess { player, game_id, name, scores, names } => {
            assert_eq!(*player, Player::X);
            assert_eq!(game_id, "g1");
            assert_eq!(name, "Alice");
            assert_eq!(scores.x, 0);
            assert_eq!(scores.o, 0);
            assert_eq!(names.x.as_deref(), Some("Alice"));
            assert_eq!(names.o, None);
        }
        other => panic!("expected JOIN_SUCCESS, got {}", reply_kind(other)),
    }
    match &replies[1] {
        Reply::UpdateState { game_id, game } => {
            assert_eq!(game_id.as_deref(), Some("g1"));
            assert_eq!(game.players, vec![Player::X]);
        }
        other => panic!("expected UPDATE_STATE, got {}", reply_kind(other)),
    }
}

fn reply_kind(r: &Reply) -> &'static str {
    match r {
        Reply::JoinSuccess { .. } => "JOIN_SUCCESS",
        Reply::UpdateState { .. } => "UPDATE_STATE",
        Reply::Error { .. } => "ERROR",
        Reply::MoveFailed { .. } => "MOVE_FAILED",
    }
}

#[test]
fn join_without_name_defaults_to_anonymous() {
    let mut reg = Registry::new(16);
    let replies = handle_join_game(&mut reg, some("g1"), None, 1);
    match &replies[0] {
        Reply::JoinSuccess { name, names, .. } => {
            assert_eq!(name, "Anonymous");
            assert_eq!(names.x.as_deref(), Some("Anonymous"));
        }
        other => panic!("expected JOIN_SUCCESS, got {}", reply_kind(other)),
    }
}

#[test]
fn join_without_id_uses_the_empty_id() {
    let mut reg = Registry::new(16);
    let replies = handle_join_game(&mut reg, None, some("Alice"), 1);
    assert_eq!(replies.len(), 2);
    assert!(reg.get_game(&String::new()).is_some());
}

#[test]
fn join_on_full_session_replies_error() {
    let mut reg = Registry::new(16);
    handle_join_game(&mut reg, some("g1"), some("Alice"), 1);
    handle_join_game(&mut reg, some("g1"), some("Bob"), 2);
    let replies = handle_join_game(&mut reg, some("g1"), some("Carol"), 3);
    assert_eq!(replies.len(), 1);
    match &replies[0] {
        Reply::Error { message } => assert_eq!(message, "Game is full"),
        other => panic!("expected ERROR, got {}", reply_kind(other)),
    }
}

#[test]
fn move_with_invalid_player_fails_before_the_registry() {
    let mut reg = Registry::new(16);
    let replies = handle_make_move(&mut reg, some("g1"), None, Some(0), Some(0), 1);
    assert_eq!(replies.len(), 1);
    match &replies[0] {
        Reply::MoveFailed { message } => assert_eq!(message, "Invalid player"),
        other => panic!("expected MOVE_FAILED, got {}", reply_kind(other)),
    }
    // nothing was created under "g1"
    assert!(reg.get_game(&"g1".to_string()).is_none());
}

#[test]
fn move_out_of_bounds_fails_before_lookup() {
    let mut reg = Registry::new(16);
    let replies = handle_make_move(&mut reg, some("g1"), Some(Player::X), Some(7), Some(0), 1);
    match &replies[0] {
        Reply::MoveFailed { message } => assert_eq!(message, "Coordinates out of bounds"),
        other => panic!("expected MOVE_FAILED, got {}", reply_kind(other)),
    }
    // a missing coordinate defaults to an out-of-bounds one
    let replies = handle_make_move(&mut reg, some("g1"), Some(Player::X), Some(0), None, 1);
    match &replies[0] {
        Reply::MoveFailed { message } => assert_eq!(message, "Coordinates out of bounds"),
        other => panic!("expected MOVE_FAILED, got {}", reply_kind(other)),
    }
}

#[test]
fn move_on_unknown_session_reports_not_found() {
    let mut reg = Registry::new(16);
    let replies = handle_make_move(&mut reg, some("g1"), Some(Player::X), Some(0), Some(0), 1);
    match &replies[0] {
        Reply::MoveFailed { message } => assert_eq!(message, "Game ID not found."),
        other => panic!("expected MOVE_FAILED, got {}", reply_kind(other)),
    }
}

#[test]
fn accepted_move_replies_with_snapshot_without_id() {
    let mut reg = Registry::new(16);
    handle_join_game(&mut reg, some("g1"), some("Alice"), 1);
    handle_join_game(&mut reg, some("g1"), some("Bob"), 2);
    let replies = handle_make_move(&mut reg, some("g1"), Some(Player::X), Some(2), Some(2), 3);
    assert_eq!(replies.len(), 1);
    match &replies[0] {
        Reply::UpdateState { game_id, game } => {
            assert_eq!(*game_id, None);
            assert_eq!(game.board.get(2, 2), Some(Player::X));
            assert_eq!(game.current_turn, Player::O);
        }
        other => panic!("expected UPDATE_STATE, got {}", reply_kind(other)),
    }
}

#[test]
fn rejected_move_texts_name_the_rule() {
    let mut reg = Registry::new(16);
    handle_join_game(&mut reg, some("g1"), some("Alice"), 1);
    handle_join_game(&mut reg, some("g1"), some("Bob"), 2);
    let replies = handle_make_move(&mut reg, some("g1"), Some(Player::O), Some(0), Some(0), 3);
    match &replies[0] {
        Reply::MoveFailed { message } => assert_eq!(message, "It's not O's turn."),
        other => panic!("expected MOVE_FAILED, got {}", reply_kind(other)),
    }
    assert_eq!(move_error_message(MoveError::GameOver, Player::X), "Game is over!");
    assert_eq!(move_error_message(MoveError::WrongTurn, Player::X), "It's not X's turn.");
    assert_eq!(move_error_message(MoveError::OutOfBounds, Player::O), "Out of bounds");
    assert_eq!(move_error_message(MoveError::CellTaken, Player::O), "Cell already taken");
    assert_eq!(
        move_error_message(MoveError::PlayerNotInGame, Player::O),
        "Player not in game"
    );
}

#[test]
fn reset_replies_nothing_but_broadcasts() {
    let mut reg = Registry::new(16);
    handle_join_game(&mut reg, some("g1"), some("Alice"), 1);
    let mut rx = reg.tx.subscribe();
    handle_reset_game(&mut reg, some("g1"), 2);
    let (gid, snap) = rx.try_recv().expect("reset must broadcast the new state");
    assert_eq!(gid, "g1");
    assert!(!snap.game_over);
    assert_eq!(snap.current_turn, Player::O);
}

#[test]
fn connection_subscribes_on_join_and_relays_only_its_session() {
    let mut reg = Registry::new(16);
    let mut conn = Connection::new();
    assert!(!conn.should_relay(&"g1".to_string()));
    let replies = conn.handle(
        &mut reg,
        ClientMessage::Join { game_id: some("g1"), name: some("Alice") },
        1,
    );
    assert_eq!(replies.len(), 2);
    assert_eq!(conn.subscribed.as_deref(), Some("g1"));
    assert!(conn.should_relay(&"g1".to_string()));
    assert!(!conn.should_relay(&"g2".to_string()));
}

#[test]
fn connection_follows_most_recent_join_or_move() {
    let mut reg = Registry::new(16);
    let mut conn = Connection::new();
    conn.handle(
        &mut reg,
        ClientMessage::Move {
            game_id: some("g1"),
            player: Some(Player::X),
            x: Some(0),
            y: Some(0),
        },
        1,
    );
    // a move subscribes the connection to its session, even when it failed
    assert_eq!(conn.subscribed.as_deref(), Some("g1"));
    conn.handle(
        &mut reg,
        ClientMessage::Move {
            game_id: some("g2"),
            player: Some(Player::X),
            x: Some(0),
            y: Some(0),
        },
        2,
    );
    // the most recent move wins: the connection now relays the new session
    assert_eq!(conn.subscribed.as_deref(), Some("g2"));
    // so does a later join
    conn.handle(
        &mut reg,
        ClientMessage::Join { game_id: some("g3"), name: some("Bob") },
        3,
    );
    assert_eq!(conn.subscribed.as_deref(), Some("g3"));
}

#[test]
fn unknown_message_is_ignored() {
    let mut reg = Registry::new(16);
    let mut conn = Connection::new();
    let replies = conn.handle(&mut reg, ClientMessage::Unknown, 1);
    assert!(replies.is_empty());
    assert_eq!(conn.subscribed, None);
}

#[test]
fn reset_message_leaves_subscription_alone() {
    let mut reg = Registry::new(16);
    let mut conn = Connection::new();
    conn.handle(
        &mut reg,
        ClientMessage::Join { game_id: some("g1"), name: some("Alice") },
        1,
    );
    let replies = conn.handle(&mut reg, ClientMessage::Reset { game_id: some("g1") }, 2);
    assert!(replies.is_empty());
    assert_eq!(conn.subscribed.as_deref(), Some("g1"));
}

#[test]
fn request_bodies_carry_their_fields() {
    let join = JoinGameRequest { game_id: "g1".to_string(), player: Some(Player::O) };
    assert_eq!(join.game_id, "g1");
    assert_eq!(join.player, Some(Player::O));
    let mv = MoveRequest { game_id: "g1".to_string(), player: Player::X, x: 1, y: 2 };
    assert_eq!(mv.game_id, "g1");
    assert_eq!(mv.player, Player::X);
    assert_eq!(mv.x, 1);
    assert_eq!(mv.y, 2);
}
