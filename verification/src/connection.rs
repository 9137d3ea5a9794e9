//! The per-connection dispatch layer: each handler turns one decoded
//! client message into registry work and the replies owed to that client,
//! and the connection state machine tracks which session's bus events the
//! connection relays.

use vstd::prelude::*;

use crate::game::{assigned_mark, name_of, same_game, JoinError, Player};
use crate::message::{
    id_value, id_view, move_error_message, move_error_text, name_value, name_view, xy_view,
    ClientMessage, Reply,
};
use crate::registry::{
    join_transition, move_failure_of, move_transition, reset_transition, sessions_unchanged,
    MoveFailure, Registry,
};

verus! {

/// The `MOVE_FAILED` text for each way the registry can refuse a move.
pub open spec fn failure_text(f: MoveFailure, p: Player) -> Seq<char> {
    match f {
        MoveFailure::NotFound => "Game ID not found."@,
        MoveFailure::Rejected(e) => move_error_text(e, p),
    }
}

/// What handling a `JOIN_GAME` means: the registry takes the join, and the
/// client is owed either `ERROR` (session full) or `JOIN_SUCCESS` carrying
/// the seated mark and bookkeeping, followed by an `UPDATE_STATE` snapshot
/// of the joined session.
pub open spec fn join_handled(
    r0: Registry,
    r1: Registry,
    replies: Seq<Reply>,
    idv: Seq<char>,
    nv: Seq<char>,
    now: u64,
) -> bool {
    if r0.has_game(idv) && r0.game_of(idv).players@.len() >= 2 {
        &&& join_transition(r0, r1, idv, nv, now, Err(JoinError::Full))
        &&& replies.len() == 1
        &&& (replies[0] matches Reply::Error { message } && message@ == "Game is full"@)
    } else {
        let p = if r0.has_game(idv) {
            assigned_mark(r0.game_of(idv))
        } else {
            Player::X
        };
        &&& join_transition(r0, r1, idv, nv, now, Ok(p))
        &&& replies.len() == 2
        &&& (replies[0] matches Reply::JoinSuccess { player, game_id, name, scores, names } && {
            &&& player == p
            &&& game_id@ == idv
            &&& name@ == nv
            &&& scores == r1.game_of(idv).scores
            &&& name_of(names, Player::X) == name_of(r1.game_of(idv).player_names, Player::X)
            &&& name_of(names, Player::O) == name_of(r1.game_of(idv).player_names, Player::O)
        })
        &&& (replies[1] matches Reply::UpdateState { game_id, game } && {
            &&& (game_id matches Some(s) && s@ == idv)
            &&& same_game(game, r1.game_of(idv))
        })
    }
}

/// What handling a `MAKE_MOVE` means: a missing mark or an out-of-grid
/// coordinate is refused before the registry is consulted; otherwise the
/// registry takes the move, and the client is owed either the new
/// snapshot or `MOVE_FAILED` naming the first broken rule.
pub open spec fn move_handled(
    r0: Registry,
    r1: Registry,
    replies: Seq<Reply>,
    idv: Seq<char>,
    player: Option<Player>,
    xv: u64,
    yv: u64,
    now: u64,
) -> bool {
    match player {
        None => {
            &&& sessions_unchanged(r0, r1)
            &&& replies.len() == 1
            &&& (replies[0] matches Reply::MoveFailed { message } && message@
                == "Invalid player"@)
        },
        Some(p) => {
            if xv >= 3 || yv >= 3 {
                &&& sessions_unchanged(r0, r1)
                &&& replies.len() == 1
                &&& (replies[0] matches Reply::MoveFailed { message } && message@
                    == "Coordinates out of bounds"@)
            } else {
                match move_failure_of(r0, idv, p, xv as int, yv as int) {
                    None => {
                        &&& move_transition(r0, r1, idv, p, xv as int, yv as int, now, Ok(()))
                        &&& replies.len() == 1
                        &&& (replies[0] matches Reply::UpdateState { game_id, game } && {
                            &&& game_id is None
                            &&& same_game(game, r1.game_of(idv))
                        })
                    },
                    Some(f) => {
                        &&& move_transition(
                            r0,
                            r1,
                            idv,
                            p,
                            xv as int,
                            yv as int,
                            now,
                            Err(f),
                        )
                        &&& replies.len() == 1
                        &&& (replies[0] matches Reply::MoveFailed { message } && message@
                            == failure_text(f, p))
                    },
                }
            }
        },
    }
}

/// Handles one `JOIN_GAME` request. The broadcast of the new snapshot
/// happens inside the registry; the returned replies go to the requesting
/// client alone.
pub fn handle_join_game(
    registry: &mut Registry,
    game_id: Option<String>,
    name: Option<String>,
    now: u64,
) -> (replies: Vec<Reply>)
    requires
        old(registry).wf(),
    ensures
        final(registry).wf(),
        join_handled(
            *old(registry),
            *final(registry),
            replies@,
            id_view(game_id),
            name_view(name),
            now,
        ),
{
    let id = id_value(game_id);
    let player_name = name_value(name);
    let mut replies: Vec<Reply> = Vec::new();
    match registry.join_game(&id, player_name.clone(), now) {
        Ok(p) => {
            let got = registry.get_game(&id);
            proof {
                assert(got is Some);
            }
            let snap = got.unwrap().clone();
            let names_copy = snap.player_names.clone();
            let scores_copy = snap.scores;
            replies.push(
                Reply::JoinSuccess {
                    player: p,
                    game_id: id.clone(),
                    name: player_name,
                    scores: scores_copy,
                    names: names_copy,
                },
            );
            replies.push(Reply::UpdateState { game_id: Some(id), game: snap });
        },
        Err(JoinError::Full) => {
            replies.push(Reply::Error { message: "Game is full".to_owned() });
        },
    }
    replies
}

/// Handles one `MAKE_MOVE` request.
pub fn handle_make_move(
    registry: &mut Registry,
    game_id: Option<String>,
    player: Option<Player>,
    x: Option<u64>,
    y: Option<u64>,
    now: u64,
) -> (replies: Vec<Reply>)
    requires
        old(registry).wf(),
        old(registry).has_game(id_view(game_id)) ==> forall|q: Player|
            old(registry).game_of(id_view(game_id)).scores.of(q) < u32::MAX,
    ensures
        final(registry).wf(),
        move_handled(
            *old(registry),
            *final(registry),
            replies@,
            id_view(game_id),
            player,
            xy_view(x),
            xy_view(y),
            now,
        ),
{
    let mut replies: Vec<Reply> = Vec::new();
    let p = match player {
        Some(p) => p,
        None => {
            replies.push(Reply::MoveFailed { message: "Invalid player".to_owned() });
            return replies;
        },
    };
    let xv: u64 = match x {
        Some(v) => v,
        None => 100,
    };
    let yv: u64 = match y {
        Some(v) => v,
        None => 100,
    };
    if xv >= 3 || yv >= 3 {
        replies.push(Reply::MoveFailed { message: "Coordinates out of bounds".to_owned() });
        return replies;
    }
    let id = id_value(game_id);
    match registry.make_move(&id, p, xv as usize, yv as usize, now) {
        Ok(()) => {
            let got = registry.get_game(&id);
            proof {
                assert(got is Some);
            }
            let snap = got.unwrap().clone();
            replies.push(Reply::UpdateState { game_id: None, game: snap });
        },
        Err(MoveFailure::NotFound) => {
            replies.push(Reply::MoveFailed { message: "Game ID not found.".to_owned() });
        },
        Err(MoveFailure::Rejected(e)) => {
            replies.push(Reply::MoveFailed { message: move_error_message(e, p) });
        },
    }
    replies
}

/// Handles one `RESET_GAME` request: the session restarts if it exists;
/// the requesting client is owed nothing either way, as the new state
/// travels on the bus.
pub fn handle_reset_game(registry: &mut Registry, game_id: Option<String>, now: u64)
    requires
        old(registry).wf(),
    ensures
        final(registry).wf(),
        reset_transition(
            *old(registry),
            *final(registry),
            id_view(game_id),
            now,
            old(registry).has_game(id_view(game_id)),
        ),
{
    let id = id_value(game_id);
    let _ = registry.reset_game(&id, now);
}

/// The subscription a connection holds, as the id's characters.
pub open spec fn sub_view(s: Option<String>) -> Option<Seq<char>> {
    match s {
        Some(id) => Some(id@),
        None => None,
    }
}

/// Per-connection state: the session whose bus events this connection
/// relays to its client. A connection relays one session at a time.
pub struct Connection {
    pub subscribed: Option<String>,
}

impl Connection {
    /// A connection that relays nothing yet.
    pub fn new() -> (c: Connection)
        ensures
            c.subscribed is None,
    {
        Connection { subscribed: None }
    }

    /// Whether a bus event for `event_id` is relayed to this connection's
    /// client: only when the connection is subscribed to exactly that id.
    pub fn should_relay(&self, event_id: &String) -> (r: bool)
        ensures
            r == (sub_view(self.subscribed) == Some(event_id@)),
    {
        match &self.subscribed {
            Some(id) => *id == *event_id,
            None => false,
        }
    }

    /// Applies one decoded message: dispatches to the matching handler and
    /// moves the subscription. The subscription follows the most recent
    /// join or move: either subscribes this connection to the id the
    /// message named (clearing it when the message named none); a reset or
    /// unrecognized message leaves it alone.
    pub fn handle(&mut self, registry: &mut Registry, msg: ClientMessage, now: u64) -> (replies:
        Vec<Reply>)
        requires
            old(registry).wf(),
            msg matches ClientMessage::Move { game_id, .. } ==> (old(registry).has_game(
                id_view(game_id),
            ) ==> forall|q: Player|
                old(registry).game_of(id_view(game_id)).scores.of(q) < u32::MAX),
        ensures
            final(registry).wf(),
            match msg {
                ClientMessage::Join { game_id, name } => {
                    &&& join_handled(
                        *old(registry),
                        *final(registry),
                        replies@,
                        id_view(game_id),
                        name_view(name),
                        now,
                    )
                    &&& sub_view(final(self).subscribed) == sub_view(game_id)
                },
                ClientMessage::Move { game_id, player, x, y } => {
                    &&& move_handled(
                        *old(registry),
                        *final(registry),
                        replies@,
                        id_view(game_id),
                        player,
                        xy_view(x),
                        xy_view(y),
                        now,
                    )
                    &&& sub_view(final(self).subscribed) == sub_view(game_id)
                },
                ClientMessage::Reset { game_id } => {
                    &&& reset_transition(
                        *old(registry),
                        *final(registry),
                        id_view(game_id),
                        now,
                        old(registry).has_game(id_view(game_id)),
                    )
                    &&& replies@.len() == 0
                    &&& final(self).subscribed == old(self).subscribed
                },
                ClientMessage::Unknown => {
                    &&& sessions_unchanged(*old(registry), *final(registry))
                    &&& replies@.len() == 0
                    &&& final(self).subscribed == old(self).subscribed
                },
            },
    {
        match msg {
            ClientMessage::Join { game_id, name } => {
                let sub: Option<String> = match &game_id {
                    Some(s) => Some(s.clone()),
                    None => None,
                };
                let replies = handle_join_game(registry, game_id, name, now);
                self.subscribed = sub;
                replies
            },
            ClientMessage::Move { game_id, player, x, y } => {
                let sub: Option<String> = match &game_id {
                    Some(s) => Some(s.clone()),
                    None => None,
                };
                let replies = handle_make_move(registry, game_id, player, x, y, now);
                self.subscribed = sub;
                replies
            },
            ClientMessage::Reset { game_id } => {
                handle_reset_game(registry, game_id, now);
                Vec::new()
            },
            ClientMessage::Unknown => Vec::new(),
        }
    }
}

} // verus!
