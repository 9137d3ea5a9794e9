//! The wire-level values: decoded client intents, the replies owed to the
//! requesting client, and the exact reply texts. JSON framing lives outside
//! the crate; it hands these plain values in and out.

use vstd::prelude::*;

use crate::game::{Game, MoveError, Player, PlayerNames, Scores};

verus! {

/// A `JOIN_GAME` request body.
#[derive(Debug)]
pub struct JoinGameRequest {
    pub game_id: String,
    pub player: Option<Player>,
}

/// A `MAKE_MOVE` request body.
#[derive(Debug)]
pub struct MoveRequest {
    pub game_id: String,
    pub player: Player,
    pub x: usize,
    pub y: usize,
}

/// One decoded inbound message. Fields a client may omit arrive as `None`;
/// the handlers apply the protocol's defaults. A message of an
/// unrecognized type decodes to `Unknown` and is ignored, not fatal.
pub enum ClientMessage {
    /// `JOIN_GAME`: seat a player in a session.
    Join { game_id: Option<String>, name: Option<String> },
    /// `MAKE_MOVE`: place a mark.
    Move { game_id: Option<String>, player: Option<Player>, x: Option<u64>, y: Option<u64> },
    /// `RESET_GAME`: start the session's next game.
    Reset { game_id: Option<String> },
    /// Anything else.
    Unknown,
}

/// A reply owed directly to the requesting client. Snapshots broadcast to
/// subscribers travel on the update bus instead.
#[allow(inconsistent_fields)]
pub enum Reply {
    /// `JOIN_SUCCESS`: the seated mark and the session's bookkeeping.
    JoinSuccess {
        player: Player,
        game_id: String,
        name: String,
        scores: Scores,
        names: PlayerNames,
    },
    /// `UPDATE_STATE`: a full snapshot; the id is echoed only on the join
    /// path.
    UpdateState { game_id: Option<String>, game: Game },
    /// `ERROR`: a rejected join.
    Error { message: String },
    /// `MOVE_FAILED`: a rejected move.
    MoveFailed { message: String },
}

/// The session id a message names: a missing id means the empty id, which
/// is an ordinary key.
pub open spec fn id_view(game_id: Option<String>) -> Seq<char> {
    match game_id {
        Some(s) => s@,
        None => Seq::<char>::empty(),
    }
}

/// The display name a join carries: a missing name defaults to
/// "Anonymous".
pub open spec fn name_view(name: Option<String>) -> Seq<char> {
    match name {
        Some(s) => s@,
        None => "Anonymous"@,
    }
}

/// The coordinate a move carries: a missing coordinate defaults to 100,
/// which no board accepts.
pub open spec fn xy_view(v: Option<u64>) -> u64 {
    match v {
        Some(n) => n,
        None => 100,
    }
}

/// The session id a message names.
pub fn id_value(game_id: Option<String>) -> (s: String)
    ensures
        s@ == id_view(game_id),
{
    match game_id {
        Some(s) => s,
        None => String::new(),
    }
}

/// The display name a join carries.
pub fn name_value(name: Option<String>) -> (s: String)
    ensures
        s@ == name_view(name),
{
    match name {
        Some(s) => s,
        None => "Anonymous".to_owned(),
    }
}

/// The `MOVE_FAILED` text for each rule a move can break; the turn text
/// names the mark that tried to move.
pub open spec fn move_error_text(e: MoveError, p: Player) -> Seq<char> {
    match e {
        MoveError::GameOver => "Game is over!"@,
        MoveError::WrongTurn => if p == Player::X {
            "It's not X's turn."@
        } else {
            "It's not O's turn."@
        },
        MoveError::OutOfBounds => "Out of bounds"@,
        MoveError::CellTaken => "Cell already taken"@,
        MoveError::PlayerNotInGame => "Player not in game"@,
    }
}

/// The `MOVE_FAILED` text for each rule a move can break.
pub fn move_error_message(e: MoveError, p: Player) -> (s: String)
    ensures
        s@ == move_error_text(e, p),
{
    match e {
        MoveError::GameOver => "Game is over!".to_owned(),
        MoveError::WrongTurn => match p {
            Player::X => "It's not X's turn.".to_owned(),
            Player::O => "It's not O's turn.".to_owned(),
        },
        MoveError::OutOfBounds => "Out of bounds".to_owned(),
        MoveError::CellTaken => "Cell already taken".to_owned(),
        MoveError::PlayerNotInGame => "Player not in game".to_owned(),
    }
}

} // verus!
