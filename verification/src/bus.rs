//! Trusted boundary to the update bus: a tokio broadcast channel that
//! carries `(session id, snapshot)` pairs from the registry to every
//! subscribed connection task.
//!
//! The channel is bounded. A subscriber that falls more than the channel's
//! capacity behind skips ahead to the oldest retained snapshot instead of
//! being disconnected; since every snapshot is self-contained, a subscriber
//! that skipped some resynchronizes on the next one it receives.

use vstd::prelude::*;

use crate::game::Game;
use tokio::sync::broadcast::Sender;

verus! {

#[verifier::external_type_specification]
#[verifier::external_body]
#[verifier::reject_recursive_types(T)]
pub struct ExSender<T>(Sender<T>);

/// Relies on `tokio::sync::broadcast::channel`: creates a channel with room
/// for `capacity` pending values and returns its sending half. It panics on
/// a capacity of zero or above `usize::MAX / 2`, which the precondition
/// rules out; nothing else is assumed of the result.
#[verifier::external_body]
pub(crate) fn new_bus(capacity: usize) -> Sender<(String, Game)>
    requires
        0 < capacity <= usize::MAX / 2,
{
    let (tx, _) = tokio::sync::broadcast::channel(capacity);
    tx
}

/// Relies on `tokio::sync::broadcast::Sender::send`: hands one
/// `(session id, snapshot)` pair to every receiver subscribed at this
/// moment. Receivers of one channel see the values they receive in send
/// order. The call never blocks and never panics; whether any receiver is
/// left only affects its ignored return value.
#[verifier::external_body]
pub(crate) fn publish(tx: &Sender<(String, Game)>, game_id: &String, game: &Game) {
    let _ = tx.send((game_id.clone(), game.clone()));
}

} // verus!
