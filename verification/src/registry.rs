//! The session registry: the authoritative map from session id to game
//! state. Every mutation goes through one of its operations, and every
//! accepted mutation publishes exactly one snapshot of the changed session
//! on the update bus, after the mutation is committed, so that per session
//! the publish order is the commit order.

use vstd::prelude::*;

use crate::bus;
use crate::game::{
    assigned_mark, empty_board, join_applied, move_applied, move_rejection, name_of,
    players_contain, reset_applied, Game, JoinError, MoveError, Player, Scores,
};
use tokio::sync::broadcast::Sender;

verus! {

/// One registered session: the client-supplied id and its state.
pub struct GameEntry {
    pub id: String,
    pub game: Game,
}

/// Why a move intent failed at the registry.
#[derive(Clone, Copy, PartialEq, Eq, Debug, Structural)]
pub enum MoveFailure {
    /// No session with the given id exists.
    NotFound,
    /// The session exists but refused the move.
    Rejected(MoveError),
}

/// One client intent against a session, as the registry takes it.
pub enum Intent {
    /// Seat a player under this display name.
    Join { name: String },
    /// Place `player`'s mark at `(x, y)`.
    Move { player: Player, x: usize, y: usize },
    /// Start the session's next game.
    Reset,
}

/// What an accepted intent did.
#[derive(Clone, Copy, PartialEq, Eq, Debug, Structural)]
pub enum Outcome {
    /// The joiner was seated as this mark.
    Joined(Player),
    /// The move was applied.
    Moved,
    /// The session restarted.
    Reset,
}

/// Why an intent was refused.
#[derive(Clone, Copy, PartialEq, Eq, Debug, Structural)]
pub enum ApplyError {
    /// A move or reset named an unknown session id.
    NotFound,
    /// A join hit a session that already has two players.
    Capacity,
    /// A move broke one of the session's rules.
    Validation(MoveError),
}

/// No two entries of `s` share an id.
pub open spec fn ids_distinct(s: Seq<GameEntry>) -> bool {
    forall|i: int, j: int| 0 <= i < j < s.len() ==> s[i].id@ != s[j].id@
}

/// Some entry of `s` carries the id.
pub open spec fn seq_has_id(s: Seq<GameEntry>, id: Seq<char>) -> bool {
    exists|i: int| 0 <= i < s.len() && s[i].id@ == id
}

/// The position of the entry carrying the id (unique when ids are distinct).
pub open spec fn entry_index(s: Seq<GameEntry>, id: Seq<char>) -> int {
    choose|i: int| 0 <= i < s.len() && s[i].id@ == id
}

/// The game stored under the id.
pub open spec fn game_at(s: Seq<GameEntry>, id: Seq<char>) -> Game {
    s[entry_index(s, id)].game
}

/// The registry: the sessions in creation order, the sending half of the
/// update bus, and the history of published snapshots.
pub struct Registry {
    games: Vec<GameEntry>,
    /// The update bus. Connection tasks subscribe here; the registry is the
    /// only publisher.
    pub tx: Sender<(String, Game)>,
    log: Ghost<Seq<(Seq<char>, Game)>>,
}

impl Registry {
    /// The registered entries, in creation order.
    pub closed spec fn entries(self) -> Seq<GameEntry> {
        self.games@
    }

    /// The snapshots published on the bus so far, oldest first, each as
    /// the pair of the session id and the state just committed.
    pub closed spec fn published(self) -> Seq<(Seq<char>, Game)> {
        self.log@
    }

    /// Whether a session with this id exists.
    pub open spec fn has_game(self, id: Seq<char>) -> bool {
        seq_has_id(self.entries(), id)
    }

    /// The state of the session with this id.
    pub open spec fn game_of(self, id: Seq<char>) -> Game {
        game_at(self.entries(), id)
    }

    /// Ids are unique and every session is well formed.
    pub open spec fn wf(self) -> bool {
        &&& ids_distinct(self.entries())
        &&& forall|i: int|
            0 <= i < self.entries().len() ==> (#[trigger] self.entries()[i]).game.wf()
    }
}

/// The sessions of `r1` are exactly those of `r0`, unchanged, and nothing
/// new was published.
pub open spec fn sessions_unchanged(r0: Registry, r1: Registry) -> bool {
    &&& forall|id: Seq<char>| (#[trigger] r1.has_game(id)) == r0.has_game(id)
    &&& forall|id: Seq<char>|
        r0.has_game(id) ==> (#[trigger] r1.game_of(id)) == r0.game_of(id)
    &&& r1.published() == r0.published()
}

/// Sessions other than `id` are exactly the same in `r1` as in `r0`.
pub open spec fn unchanged_except(r0: Registry, r1: Registry, id: Seq<char>) -> bool {
    &&& forall|id2: Seq<char>|
        id2 != id ==> (#[trigger] r1.has_game(id2)) == r0.has_game(id2)
    &&& forall|id2: Seq<char>|
        id2 != id && r0.has_game(id2) ==> (#[trigger] r1.game_of(id2)) == r0.game_of(id2)
}

/// Exactly one snapshot was published: the just-committed state of the
/// session `id`, after everything already on the bus.
pub open spec fn published_one(r0: Registry, r1: Registry, id: Seq<char>) -> bool {
    r1.published() == r0.published().push((id, r1.game_of(id)))
}

/// The session created by a first join under this id: a fresh game that
/// `X` has just joined under display name `name`.
pub open spec fn fresh_joined(g: Game, name: Seq<char>, now: u64) -> bool {
    &&& g.board@ == empty_board()
    &&& g.current_turn == Player::X
    &&& !g.game_over
    &&& !g.draw
    &&& g.last_activity == now
    &&& g.players@ == seq![Player::X]
    &&& g.scores == (Scores { x: 0, o: 0 })
    &&& name_of(g.player_names, Player::X) == Some(name)
    &&& name_of(g.player_names, Player::O) is None
}

/// What a join intent does to the registry. A join on an unseen id creates
/// the session and seats `X`; on an existing session it seats the free
/// mark, unless two players are already seated, in which case it is
/// rejected and nothing changes. Every accepted join publishes one
/// snapshot.
pub open spec fn join_transition(
    r0: Registry,
    r1: Registry,
    id: Seq<char>,
    name: Seq<char>,
    now: u64,
    r: Result<Player, JoinError>,
) -> bool {
    if r0.has_game(id) && r0.game_of(id).players@.len() >= 2 {
        &&& r == Err::<Player, JoinError>(JoinError::Full)
        &&& sessions_unchanged(r0, r1)
    } else {
        &&& r1.has_game(id)
        &&& if r0.has_game(id) {
            r == Ok::<Player, JoinError>(assigned_mark(r0.game_of(id))) && join_applied(
                r0.game_of(id),
                r1.game_of(id),
                name,
                now,
            )
        } else {
            r == Ok::<Player, JoinError>(Player::X) && fresh_joined(r1.game_of(id), name, now)
        }
        &&& unchanged_except(r0, r1, id)
        &&& published_one(r0, r1, id)
    }
}

/// The first reason a move intent fails at the registry, or `None` when it
/// is accepted: the session must exist and the mover must be seated in it
/// before the game's own rules are consulted.
pub open spec fn move_failure_of(
    r0: Registry,
    id: Seq<char>,
    p: Player,
    x: int,
    y: int,
) -> Option<MoveFailure> {
    if !r0.has_game(id) {
        Some(MoveFailure::NotFound)
    } else if !r0.game_of(id).players@.contains(p) {
        Some(MoveFailure::Rejected(MoveError::PlayerNotInGame))
    } else {
        match move_rejection(r0.game_of(id), p, x, y) {
            Some(e) => Some(MoveFailure::Rejected(e)),
            None => None,
        }
    }
}

/// What a move intent does to the registry: a failed move changes nothing
/// and reports the first broken rule; an accepted move applies the game's
/// move machine to that session alone and publishes one snapshot.
pub open spec fn move_transition(
    r0: Registry,
    r1: Registry,
    id: Seq<char>,
    p: Player,
    x: int,
    y: int,
    now: u64,
    r: Result<(), MoveFailure>,
) -> bool {
    match move_failure_of(r0, id, p, x, y) {
        Some(f) => r == Err::<(), MoveFailure>(f) && sessions_unchanged(r0, r1),
        None => {
            &&& r == Ok::<(), MoveFailure>(())
            &&& r1.has_game(id)
            &&& move_applied(r0.game_of(id), r1.game_of(id), p, x, y, now)
            &&& unchanged_except(r0, r1, id)
            &&& published_one(r0, r1, id)
        },
    }
}

/// What a reset intent does to the registry: on an unknown id nothing; on
/// an existing session the game's reset, and one published snapshot.
pub open spec fn reset_transition(
    r0: Registry,
    r1: Registry,
    id: Seq<char>,
    now: u64,
    found: bool,
) -> bool {
    if found {
        &&& r0.has_game(id)
        &&& r1.has_game(id)
        &&& reset_applied(r0.game_of(id), r1.game_of(id), now)
        &&& unchanged_except(r0, r1, id)
        &&& published_one(r0, r1, id)
    } else {
        &&& !r0.has_game(id)
        &&& sessions_unchanged(r0, r1)
    }
}

/// Whether a session is still fresh enough to survive a sweep at time
/// `now`: it was last touched no later than `now` and less than `timeout`
/// ago. A stamp in the future counts as stale, as a clock that moved
/// backwards gives no usable age.
pub open spec fn keep_session(g: Game, now: u64, timeout: u64) -> bool {
    g.last_activity <= now && now - g.last_activity < timeout
}

/// `e` stands somewhere in `s`.
spec fn entry_from(s: Seq<GameEntry>, e: GameEntry) -> bool {
    exists|j: int| 0 <= j < s.len() && s[j] == e
}

/// `filter` over a sequence extended by one element keeps the element
/// exactly when the predicate holds of it.
proof fn lemma_filter_push(s: Seq<GameEntry>, pred: spec_fn(GameEntry) -> bool, e: GameEntry)
    ensures
        s.push(e).filter(pred) == if pred(e) {
            s.filter(pred).push(e)
        } else {
            s.filter(pred)
        },
{
    reveal(Seq::filter);
    assert(s.push(e).drop_last() =~= s);
    assert(s.push(e).last() == e);
}

/// Every element of a filtered sequence stands somewhere in the sequence
/// it was filtered from.
proof fn lemma_filter_elem_from(s: Seq<GameEntry>, pred: spec_fn(GameEntry) -> bool, i: int)
    requires
        0 <= i < s.filter(pred).len(),
    ensures
        exists|j: int| 0 <= j < s.len() && s[j] == s.filter(pred)[i],
    decreases s.len(),
{
    reveal(Seq::filter);
    if s.len() > 0 {
        let f = s.filter(pred);
        let fd = s.drop_last().filter(pred);
        if pred(s.last()) {
            if i < f.len() - 1 {
                assert(f == fd.push(s.last()));
                lemma_filter_elem_from(s.drop_last(), pred, i);
                let j = choose|j: int| 0 <= j < s.drop_last().len() && s.drop_last()[j] == fd[i];
                assert(s[j] == f[i]);
            } else {
                assert(s[s.len() - 1] == f[i]);
            }
        } else {
            lemma_filter_elem_from(s.drop_last(), pred, i);
            let j = choose|j: int| 0 <= j < s.drop_last().len() && s.drop_last()[j] == fd[i];
            assert(s[j] == f[i]);
        }
    }
}

/// Filtering entries with pairwise distinct ids leaves the ids pairwise
/// distinct.
proof fn lemma_filter_distinct_ids(s: Seq<GameEntry>, pred: spec_fn(GameEntry) -> bool)
    requires
        ids_distinct(s),
    ensures
        ids_distinct(s.filter(pred)),
    decreases s.len(),
{
    reveal(Seq::filter);
    if s.len() > 0 {
        assert(ids_distinct(s.drop_last()));
        lemma_filter_distinct_ids(s.drop_last(), pred);
        let fd = s.drop_last().filter(pred);
        if pred(s.last()) {
            assert forall|i: int| 0 <= i < fd.len() implies fd[i].id@ != s.last().id@ by {
                lemma_filter_elem_from(s.drop_last(), pred, i);
                let j = choose|j: int| 0 <= j < s.drop_last().len() && s.drop_last()[j] == fd[i];
                assert(s[j].id@ != s[s.len() - 1].id@);
            }
            let f = fd.push(s.last());
            assert forall|i: int, j: int| 0 <= i < j < f.len() implies f[i].id@ != f[j].id@ by {
                if j < f.len() - 1 {
                    assert(fd[i].id@ != fd[j].id@);
                }
            }
        }
    }
}

/// What surviving a sweep means for lookups: an id is found among the kept
/// entries exactly when it was found before and its entry satisfied the
/// predicate, and a kept entry is unchanged.
proof fn lemma_reap_lookup(orig: Seq<GameEntry>, kept: Seq<GameEntry>, pred: spec_fn(
    GameEntry,
) -> bool)
    requires
        ids_distinct(orig),
        kept == orig.filter(pred),
    ensures
        ids_distinct(kept),
        forall|i: int| 0 <= i < kept.len() ==> entry_from(orig, #[trigger] kept[i]),
        forall|id: Seq<char>|
            (#[trigger] seq_has_id(kept, id)) == (seq_has_id(orig, id) && pred(
                orig[entry_index(orig, id)],
            )),
        forall|id: Seq<char>|
            seq_has_id(kept, id) ==> game_at(kept, id) == game_at(orig, id),
{
    lemma_filter_distinct_ids(orig, pred);
    assert forall|i: int| 0 <= i < kept.len() implies entry_from(orig, #[trigger] kept[i]) by {
        lemma_filter_elem_from(orig, pred, i);
        let j = choose|j: int| 0 <= j < orig.len() && orig[j] == orig.filter(pred)[i];
        assert(0 <= j < orig.len() && orig[j] == kept[i]);
    }
    assert forall|id: Seq<char>| (#[trigger] seq_has_id(kept, id)) == (seq_has_id(orig, id)
        && pred(orig[entry_index(orig, id)])) by {
        if seq_has_id(kept, id) {
            let i = choose|i: int| 0 <= i < kept.len() && kept[i].id@ == id;
            lemma_filter_elem_from(orig, pred, i);
            let j = choose|j: int| 0 <= j < orig.len() && orig[j] == kept[i];
            orig.lemma_filter_pred(pred, i);
            lemma_entry_at(orig, j);
        }
        if seq_has_id(orig, id) && pred(orig[entry_index(orig, id)]) {
            let j = entry_index(orig, id);
            assert(0 <= j < orig.len() && orig[j].id@ == id);
            orig.lemma_filter_contains(pred, j);
            let i = choose|i: int| 0 <= i < kept.len() && kept[i] == orig[j];
            assert(kept[i].id@ == id);
        }
    }
    assert forall|id: Seq<char>| seq_has_id(kept, id) implies game_at(kept, id) == game_at(
        orig,
        id,
    ) by {
        let i = entry_index(kept, id);
        assert(0 <= i < kept.len() && kept[i].id@ == id);
        lemma_entry_at(kept, i);
        lemma_filter_elem_from(orig, pred, i);
        let j = choose|j: int| 0 <= j < orig.len() && orig[j] == kept[i];
        lemma_entry_at(orig, j);
    }
}

/// Publishing never rewrites history: one accepted operation appends
/// exactly one snapshot — the just-committed state of the session it
/// changed — and everything already on the bus stays where it was, so per
/// session the publish order is the commit order, with no reordering, no
/// coalescing and no duplicate suppression.
pub proof fn lemma_publish_appends(r0: Registry, r1: Registry, id: Seq<char>)
    requires
        published_one(r0, r1, id),
    ensures
        r1.published().len() == r0.published().len() + 1,
        forall|k: int|
            0 <= k < r0.published().len() ==> r1.published()[k] == r0.published()[k],
        r1.published().last() == (id, r1.game_of(id)),
{
}

/// A move is accepted exactly when the session exists, the mover is
/// seated in it, the game is not over, it is the mover's turn, both
/// coordinates are on the grid, and the chosen cell is empty.
pub proof fn lemma_move_acceptance(r: Registry, id: Seq<char>, p: Player, x: int, y: int)
    ensures
        move_failure_of(r, id, p, x, y) is None <==> {
            &&& r.has_game(id)
            &&& r.game_of(id).players@.contains(p)
            &&& !r.game_of(id).game_over
            &&& r.game_of(id).current_turn == p
            &&& 0 <= x < 3
            &&& 0 <= y < 3
            &&& r.game_of(id).board@[3 * x + y] is None
        },
{
}

/// The unique entry carrying `s[i].id@` is `s[i]`.
proof fn lemma_entry_at(s: Seq<GameEntry>, i: int)
    requires
        ids_distinct(s),
        0 <= i < s.len(),
    ensures
        seq_has_id(s, s[i].id@),
        entry_index(s, s[i].id@) == i,
        game_at(s, s[i].id@) == s[i].game,
{
    assert(seq_has_id(s, s[i].id@));
    let j = entry_index(s, s[i].id@);
    assert(0 <= j < s.len() && s[j].id@ == s[i].id@);
}

/// After replacing the entry at `i` by one with the same id, lookups of
/// that id give the new entry and every other lookup is as before.
proof fn lemma_lookup_after_update(s0: Seq<GameEntry>, s1: Seq<GameEntry>, i: int)
    requires
        ids_distinct(s0),
        0 <= i < s0.len(),
        s1.len() == s0.len(),
        s1[i].id@ == s0[i].id@,
        forall|j: int| 0 <= j < s0.len() && j != i ==> s1[j] == s0[j],
    ensures
        ids_distinct(s1),
        seq_has_id(s1, s0[i].id@),
        entry_index(s1, s0[i].id@) == i,
        game_at(s1, s0[i].id@) == s1[i].game,
        forall|id2: Seq<char>|
            id2 != s0[i].id@ ==> (#[trigger] seq_has_id(s1, id2)) == seq_has_id(s0, id2),
        forall|id2: Seq<char>|
            id2 != s0[i].id@ && seq_has_id(s0, id2) ==> game_at(s1, id2) == game_at(s0, id2),
{
    assert(forall|j: int| 0 <= j < s1.len() ==> (#[trigger] s1[j]).id@ == s0[j].id@);
    assert(ids_distinct(s1));
    lemma_entry_at(s1, i);
    assert forall|id2: Seq<char>| id2 != s0[i].id@ implies (#[trigger] seq_has_id(s1, id2))
        == seq_has_id(s0, id2) by {
        if seq_has_id(s0, id2) {
            let j = choose|j: int| 0 <= j < s0.len() && s0[j].id@ == id2;
            assert(s1[j].id@ == id2);
        }
        if seq_has_id(s1, id2) {
            let j = choose|j: int| 0 <= j < s1.len() && s1[j].id@ == id2;
            assert(s0[j].id@ == id2);
        }
    }
    assert forall|id2: Seq<char>| id2 != s0[i].id@ && seq_has_id(s0, id2) implies game_at(s1, id2)
        == game_at(s0, id2) by {
        let j0 = entry_index(s0, id2);
        assert(0 <= j0 < s0.len() && s0[j0].id@ == id2);
        assert(j0 != i);
        lemma_entry_at(s1, j0);
    }
}

/// After pushing an entry with a new id, a lookup of that id gives the
/// pushed entry and every other lookup is as before.
proof fn lemma_lookup_after_push(s0: Seq<GameEntry>, e: GameEntry)
    requires
        ids_distinct(s0),
        !seq_has_id(s0, e.id@),
    ensures
        ids_distinct(s0.push(e)),
        seq_has_id(s0.push(e), e.id@),
        entry_index(s0.push(e), e.id@) == s0.len(),
        game_at(s0.push(e), e.id@) == e.game,
        forall|id2: Seq<char>|
            id2 != e.id@ ==> (#[trigger] seq_has_id(s0.push(e), id2)) == seq_has_id(s0, id2),
        forall|id2: Seq<char>|
            id2 != e.id@ && seq_has_id(s0, id2) ==> game_at(s0.push(e), id2) == game_at(s0, id2),
{
    let s1 = s0.push(e);
    assert(forall|j: int| 0 <= j < s0.len() ==> s1[j] == s0[j]);
    assert forall|i: int, j: int| 0 <= i < j < s1.len() implies s1[i].id@ != s1[j].id@ by {
        if j == s0.len() {
            assert(s0[i].id@ != e.id@);
        }
    }
    lemma_entry_at(s1, s0.len() as int);
    assert forall|id2: Seq<char>| id2 != e.id@ implies (#[trigger] seq_has_id(s1, id2))
        == seq_has_id(s0, id2) by {
        if seq_has_id(s0, id2) {
            let j = choose|j: int| 0 <= j < s0.len() && s0[j].id@ == id2;
            assert(s1[j].id@ == id2);
        }
        if seq_has_id(s1, id2) {
            let j = choose|j: int| 0 <= j < s1.len() && s1[j].id@ == id2;
            assert(j < s0.len());
            assert(s0[j].id@ == id2);
        }
    }
    assert forall|id2: Seq<char>| id2 != e.id@ && seq_has_id(s0, id2) implies game_at(s1, id2)
        == game_at(s0, id2) by {
        let j0 = entry_index(s0, id2);
        assert(0 <= j0 < s0.len() && s0[j0].id@ == id2);
        lemma_entry_at(s1, j0);
    }
}

impl Registry {
    /// An empty registry owning a fresh update bus with room for
    /// `capacity` pending snapshots.
    pub fn new(capacity: usize) -> (r: Registry)
        requires
            0 < capacity <= usize::MAX / 2,
        ensures
            r.wf(),
            forall|id: Seq<char>| !(#[trigger] r.has_game(id)),
            r.published() == Seq::<(Seq<char>, Game)>::empty(),
    {
        Registry { games: Vec::new(), tx: bus::new_bus(capacity), log: Ghost(Seq::empty()) }
    }

    /// The position of the session with this id, if it exists.
    fn find(&self, game_id: &String) -> (r: Option<usize>)
        ensures
            match r {
                Some(i) => i < self.entries().len() && self.entries()[i as int].id@ == game_id@,
                None => !self.has_game(game_id@),
            },
    {
        let mut i: usize = 0;
        while i < self.games.len()
            invariant
                i <= self.games@.len(),
                forall|j: int| 0 <= j < i ==> (#[trigger] self.games@[j]).id@ != game_id@,
            decreases self.games@.len() - i,
        {
            if self.games[i].id == *game_id {
                return Some(i);
            }
            i = i + 1;
        }
        None
    }

    /// Seats a player in the session `game_id`, creating the session on a
    /// first join; rejects the join when two players are already seated.
    /// An accepted join publishes the new snapshot.
    pub fn join_game(&mut self, game_id: &String, name: String, now: u64) -> (r: Result<
        Player,
        JoinError,
    >)
        requires
            old(self).wf(),
        ensures
            final(self).wf(),
            join_transition(*old(self), *final(self), game_id@, name@, now, r),
    {
        match self.find(game_id) {
            Some(i) => self.join_existing(i, game_id, name, now),
            None => self.join_new(game_id, name, now),
        }
    }

    /// The join path for a session that already exists at position `i`.
    fn join_existing(&mut self, i: usize, game_id: &String, name: String, now: u64) -> (r: Result<
        Player,
        JoinError,
    >)
        requires
            old(self).wf(),
            i < old(self).entries().len(),
            old(self).entries()[i as int].id@ == game_id@,
        ensures
            final(self).wf(),
            join_transition(*old(self), *final(self), game_id@, name@, now, r),
    {
        proof {
            lemma_entry_at(old(self).games@, i as int);
        }
        let entry = &mut self.games[i];
        let res = entry.game.join(name, now);
        match res {
            Ok(p) => {
                proof {
                    lemma_lookup_after_update(old(self).games@, self.games@, i as int);
                }
                bus::publish(&self.tx, game_id, &self.games[i].game);
                self.log = Ghost(self.log@.push((game_id@, self.games@[i as int].game)));
                Ok(p)
            },
            Err(e) => {
                proof {
                    assert(self.games@ =~= old(self).games@);
                }
                Err(e)
            },
        }
    }

    /// The join path for an unseen id: the session is created and `X`
    /// seated in one step.
    fn join_new(&mut self, game_id: &String, name: String, now: u64) -> (r: Result<
        Player,
        JoinError,
    >)
        requires
            old(self).wf(),
            !old(self).has_game(game_id@),
        ensures
            final(self).wf(),
            join_transition(*old(self), *final(self), game_id@, name@, now, r),
    {
        let mut g = Game::new();
        let res = g.join(name, now);
        proof {
            assert(res == Ok::<Player, JoinError>(Player::X));
        }
        self.games.push(GameEntry { id: game_id.clone(), game: g });
        proof {
            let s1 = self.games@;
            lemma_lookup_after_push(old(self).games@, s1[s1.len() - 1]);
            assert(s1[s1.len() - 1].game.players@ =~= seq![Player::X]);
        }
        let n = self.games.len() - 1;
        bus::publish(&self.tx, game_id, &self.games[n].game);
        self.log = Ghost(self.log@.push((game_id@, self.games@[n as int].game)));
        res
    }

    /// Applies the move of `player` at `(x, y)` in the session `game_id`:
    /// the session must exist and the mover must be seated in it, and then
    /// the game's own rules decide. An accepted move publishes the new
    /// snapshot; a failed one changes nothing.
    pub fn make_move(&mut self, game_id: &String, player: Player, x: usize, y: usize, now: u64) -> (r:
        Result<(), MoveFailure>)
        requires
            old(self).wf(),
            old(self).has_game(game_id@) ==> old(self).game_of(game_id@).scores.of(player)
                < u32::MAX,
        ensures
            final(self).wf(),
            move_transition(
                *old(self),
                *final(self),
                game_id@,
                player,
                x as int,
                y as int,
                now,
                r,
            ),
    {
        let i = match self.find(game_id) {
            None => {
                return Err(MoveFailure::NotFound);
            },
            Some(i) => i,
        };
        proof {
            lemma_entry_at(old(self).games@, i as int);
        }
        let entry = &mut self.games[i];
        if !players_contain(&entry.game.players, player) {
            proof {
                assert(self.games@ =~= old(self).games@);
            }
            return Err(MoveFailure::Rejected(MoveError::PlayerNotInGame));
        }
        let res = entry.game.make_move(player, x, y, now);
        match res {
            Ok(()) => {
                proof {
                    lemma_lookup_after_update(old(self).games@, self.games@, i as int);
                }
                bus::publish(&self.tx, game_id, &self.games[i].game);
                self.log = Ghost(self.log@.push((game_id@, self.games@[i as int].game)));
                Ok(())
            },
            Err(e) => {
                proof {
                    assert(self.games@ =~= old(self).games@);
                }
                Err(MoveFailure::Rejected(e))
            },
        }
    }

    /// Resets the session `game_id` for its next game, if it exists, and
    /// publishes the new snapshot; reports whether the session was found.
    pub fn reset_game(&mut self, game_id: &String, now: u64) -> (found: bool)
        requires
            old(self).wf(),
        ensures
            final(self).wf(),
            reset_transition(*old(self), *final(self), game_id@, now, found),
    {
        let i = match self.find(game_id) {
            None => {
                return false;
            },
            Some(i) => i,
        };
        proof {
            lemma_entry_at(old(self).games@, i as int);
        }
        let entry = &mut self.games[i];
        entry.game.reset(now);
        proof {
            lemma_lookup_after_update(old(self).games@, self.games@, i as int);
        }
        bus::publish(&self.tx, game_id, &self.games[i].game);
        self.log = Ghost(self.log@.push((game_id@, self.games@[i as int].game)));
        true
    }

    /// Evicts every session whose last activity is older than `timeout`
    /// at sweep time `now` (or stamped in the future), keeping the rest in
    /// order and untouched; publishes nothing. Returns how many sessions
    /// were evicted.
    #[verifier::loop_isolation(false)]
    pub fn reap(&mut self, now: u64, timeout: u64) -> (removed: usize)
        requires
            old(self).wf(),
        ensures
            final(self).wf(),
            forall|id: Seq<char>|
                (#[trigger] final(self).has_game(id)) == (old(self).has_game(id) && keep_session(
                    old(self).game_of(id),
                    now,
                    timeout,
                )),
            forall|id: Seq<char>|
                final(self).has_game(id) ==> (#[trigger] final(self).game_of(id)) == old(
                    self,
                ).game_of(id),
            final(self).published() == old(self).published(),
            removed == old(self).entries().len() - final(self).entries().len(),
    {
        let ghost orig = self.games@;
        let ghost pred: spec_fn(GameEntry) -> bool = |e: GameEntry|
            keep_session(e.game, now, timeout);
        let before = self.games.len();
        let mut kept: Vec<GameEntry> = Vec::new();
        while self.games.len() > 0
            invariant
                self.games@.len() <= orig.len(),
                self.games@ == orig.subrange(
                    orig.len() - self.games@.len(),
                    orig.len() as int,
                ),
                kept@ == orig.subrange(0, orig.len() - self.games@.len()).filter(pred),
                self.log@ == old(self).log@,
                self.tx == old(self).tx,
            decreases self.games@.len(),
        {
            let ghost done = orig.len() - self.games@.len();
            let e = self.games.remove(0);
            proof {
                assert(e == orig[done]);
                assert(self.games@ =~= orig.subrange(done + 1, orig.len() as int));
                assert(orig.subrange(0, done + 1) =~= orig.subrange(0, done).push(e));
                lemma_filter_push(orig.subrange(0, done), pred, e);
            }
            if e.game.last_activity <= now && now - e.game.last_activity < timeout {
                kept.push(e);
            }
        }
        let after = kept.len();
        self.games = kept;
        proof {
            assert(orig.subrange(0, orig.len() as int) =~= orig);
            orig.lemma_filter_len(pred);
            lemma_reap_lookup(orig, self.games@, pred);
            assert forall|i: int| 0 <= i < self.games@.len() implies (#[trigger] self.games@[i])
                .game.wf() by {
                assert(entry_from(orig, self.games@[i]));
                let j = choose|j: int| 0 <= j < orig.len() && orig[j] == self.games@[i];
                assert(orig[j].game.wf());
            }
        }
        before - after
    }

    /// Applies one intent to the session `game_id`: the single entry point
    /// the connection layer needs. Joins create the session lazily; moves
    /// and resets on an unknown id are `NotFound`. Exactly one snapshot is
    /// published per accepted intent, none per refused one.
    pub fn apply(&mut self, game_id: &String, intent: Intent, now: u64) -> (r: Result<
        Outcome,
        ApplyError,
    >)
        requires
            old(self).wf(),
            intent matches Intent::Move { player, .. } ==> (old(self).has_game(game_id@) ==> old(
                self,
            ).game_of(game_id@).scores.of(player) < u32::MAX),
        ensures
            final(self).wf(),
            match intent {
                Intent::Join { name } => match r {
                    Ok(Outcome::Joined(p)) => join_transition(
                        *old(self),
                        *final(self),
                        game_id@,
                        name@,
                        now,
                        Ok(p),
                    ),
                    Err(ApplyError::Capacity) => join_transition(
                        *old(self),
                        *final(self),
                        game_id@,
                        name@,
                        now,
                        Err(JoinError::Full),
                    ),
                    _ => false,
                },
                Intent::Move { player, x, y } => match r {
                    Ok(Outcome::Moved) => move_transition(
                        *old(self),
                        *final(self),
                        game_id@,
                        player,
                        x as int,
                        y as int,
                        now,
                        Ok(()),
                    ),
                    Err(ApplyError::NotFound) => move_transition(
                        *old(self),
                        *final(self),
                        game_id@,
                        player,
                        x as int,
                        y as int,
                        now,
                        Err(MoveFailure::NotFound),
                    ),
                    Err(ApplyError::Validation(e)) => move_transition(
                        *old(self),
                        *final(self),
                        game_id@,
                        player,
                        x as int,
                        y as int,
                        now,
                        Err(MoveFailure::Rejected(e)),
                    ),
                    _ => false,
                },
                Intent::Reset => match r {
                    Ok(Outcome::Reset) => reset_transition(
                        *old(self),
                        *final(self),
                        game_id@,
                        now,
                        true,
                    ),
                    Err(ApplyError::NotFound) => reset_transition(
                        *old(self),
                        *final(self),
                        game_id@,
                        now,
                        false,
                    ),
                    _ => false,
                },
            },
    {
        match intent {
            Intent::Join { name } => match self.join_game(game_id, name, now) {
                Ok(p) => Ok(Outcome::Joined(p)),
                Err(JoinError::Full) => Err(ApplyError::Capacity),
            },
            Intent::Move { player, x, y } => match self.make_move(game_id, player, x, y, now) {
                Ok(()) => Ok(Outcome::Moved),
                Err(MoveFailure::NotFound) => Err(ApplyError::NotFound),
                Err(MoveFailure::Rejected(e)) => Err(ApplyError::Validation(e)),
            },
            Intent::Reset => {
                if self.reset_game(game_id, now) {
                    Ok(Outcome::Reset)
                } else {
                    Err(ApplyError::NotFound)
                }
            },
        }
    }

    /// The state of the session with this id, if it exists.
    pub fn get_game(&self, game_id: &String) -> (r: Option<&Game>)
        requires
            self.wf(),
        ensures
            match r {
                Some(g) => self.has_game(game_id@) && *g == self.game_of(game_id@),
                None => !self.has_game(game_id@),
            },
    {
        match self.find(game_id) {
            Some(i) => {
                proof {
                    lemma_entry_at(self.games@, i as int);
                }
                Some(&self.games[i].game)
            },
            None => None,
        }
    }
}

} // verus!
