//! The board and session state for one tic-tac-toe game, with the
//! move/win/draw rules and the join/reset lifecycle.

use vstd::prelude::*;

verus! {

/// A player's mark. The first player to join a session is `X` and moves
/// first in the session's first game.
#[derive(Clone, Copy, PartialEq, Eq, Hash, Debug, Structural)]
pub enum Player {
    X,
    O,
}

/// The mark that moves after `p`.
pub open spec fn flip(p: Player) -> Player {
    match p {
        Player::X => Player::O,
        Player::O => Player::X,
    }
}

impl Player {
    /// The other mark.
    pub fn other(self) -> (q: Player)
        ensures
            q == flip(self),
    {
        match self {
            Player::X => Player::O,
            Player::O => Player::X,
        }
    }
}

/// Why a move was rejected. Checks run in this order; the first failure wins.
#[derive(Clone, Copy, PartialEq, Eq, Debug, Structural)]
pub enum MoveError {
    /// The game has already ended.
    GameOver,
    /// It is the other mark's turn.
    WrongTurn,
    /// A coordinate is outside the 3x3 grid.
    OutOfBounds,
    /// The chosen cell already holds a mark.
    CellTaken,
    /// The mark has not joined this session.
    PlayerNotInGame,
}

/// Why a join was rejected.
#[derive(Clone, Copy, PartialEq, Eq, Debug, Structural)]
pub enum JoinError {
    /// The session already has two players.
    Full,
}

/// The 3x3 grid, stored row-major: cell `(x, y)` is entry `3 * x + y`.
pub struct Board {
    cells: Vec<Option<Player>>,
}

impl View for Board {
    type V = Seq<Option<Player>>;

    closed spec fn view(&self) -> Seq<Option<Player>> {
        self.cells@
    }
}

/// The board of a freshly created or reset game: nine empty cells.
pub open spec fn empty_board() -> Seq<Option<Player>> {
    Seq::new(9, |i: int| None::<Player>)
}

/// `p` owns a full row, column or diagonal of `b`.
pub open spec fn line_won_by(b: Seq<Option<Player>>, p: Player) -> bool {
    ||| (b[0] == Some(p) && b[1] == Some(p) && b[2] == Some(p))
    ||| (b[3] == Some(p) && b[4] == Some(p) && b[5] == Some(p))
    ||| (b[6] == Some(p) && b[7] == Some(p) && b[8] == Some(p))
    ||| (b[0] == Some(p) && b[3] == Some(p) && b[6] == Some(p))
    ||| (b[1] == Some(p) && b[4] == Some(p) && b[7] == Some(p))
    ||| (b[2] == Some(p) && b[5] == Some(p) && b[8] == Some(p))
    ||| (b[0] == Some(p) && b[4] == Some(p) && b[8] == Some(p))
    ||| (b[2] == Some(p) && b[4] == Some(p) && b[6] == Some(p))
}

/// Some mark owns a full line of `b`.
pub open spec fn has_winner(b: Seq<Option<Player>>) -> bool {
    line_won_by(b, Player::X) || line_won_by(b, Player::O)
}

/// Every cell of `b` holds a mark.
pub open spec fn board_full(b: Seq<Option<Player>>) -> bool {
    forall|i: int| 0 <= i < 9 ==> b[i] is Some
}

impl Board {
    /// A board is well formed when it has exactly nine cells.
    pub open spec fn wf(&self) -> bool {
        self@.len() == 9
    }

    /// Nine empty cells.
    pub fn new() -> (b: Board)
        ensures
            b.wf(),
            b@ == empty_board(),
    {
        let mut cells: Vec<Option<Player>> = Vec::new();
        let mut i: usize = 0;
        while i < 9
            invariant
                cells@.len() == i,
                i <= 9,
                forall|j: int| 0 <= j < i ==> cells@[j] is None,
            decreases 9 - i,
        {
            cells.push(None);
            i = i + 1;
        }
        let b = Board { cells };
        proof {
            assert(b@ =~= empty_board());
        }
        b
    }

    /// The cell at row `x`, column `y`.
    pub fn get(&self, x: usize, y: usize) -> (c: Option<Player>)
        requires
            self.wf(),
            x < 3,
            y < 3,
        ensures
            c == self@[3 * x + y],
    {
        self.cells[3 * x + y]
    }

    /// The cell at flat index `i`.
    pub fn at(&self, i: usize) -> (c: Option<Player>)
        requires
            self.wf(),
            i < 9,
        ensures
            c == self@[i as int],
    {
        self.cells[i]
    }

    /// Marks the cell at row `x`, column `y` with `p`.
    pub fn set(&mut self, x: usize, y: usize, p: Player)
        requires
            old(self).wf(),
            x < 3,
            y < 3,
        ensures
            final(self).wf(),
            final(self)@ == old(self)@.update(3 * x + y, Some(p)),
    {
        let i: usize = 3 * x + y;
        self.cells[i] = Some(p);
    }

    /// The mark owning all three cells `a`, `b`, `c`, if one does.
    fn line_owner(&self, a: usize, b: usize, c: usize) -> (r: Option<Player>)
        requires
            self.wf(),
            a < 9,
            b < 9,
            c < 9,
        ensures
            match r {
                Some(p) => self@[a as int] == Some(p) && self@[b as int] == Some(p)
                    && self@[c as int] == Some(p),
                None => !(self@[a as int] is Some && self@[a as int] == self@[b as int]
                    && self@[b as int] == self@[c as int]),
            },
    {
        match self.cells[a] {
            Some(p) => {
                let cb = self.cells[b];
                let cc = self.cells[c];
                let b_match = match cb {
                    Some(q) => q == p,
                    None => false,
                };
                let c_match = match cc {
                    Some(q) => q == p,
                    None => false,
                };
                if b_match && c_match {
                    Some(p)
                } else {
                    None
                }
            },
            None => None,
        }
    }
}

impl Clone for Board {
    /// A board holding the same marks.
    fn clone(&self) -> (res: Self)
        ensures
            res@ == self@,
    {
        let mut cells: Vec<Option<Player>> = Vec::new();
        let mut i: usize = 0;
        while i < self.cells.len()
            invariant
                i <= self.cells@.len(),
                cells@ == self.cells@.subrange(0, i as int),
            decreases self.cells@.len() - i,
        {
            cells.push(self.cells[i]);
            i = i + 1;
        }
        proof {
            assert(cells@ =~= self.cells@);
        }
        Board { cells }
    }
}

/// Win counts per mark. Both counters exist for the whole life of a
/// session and persist across resets.
#[derive(Clone, Copy, PartialEq, Eq, Debug, Structural)]
pub struct Scores {
    pub x: u32,
    pub o: u32,
}

impl Scores {
    /// The win count of `p`.
    pub open spec fn of(self, p: Player) -> u32 {
        match p {
            Player::X => self.x,
            Player::O => self.o,
        }
    }

    /// The win count of `p`.
    pub fn get(&self, p: Player) -> (n: u32)
        ensures
            n == self.of(p),
    {
        match p {
            Player::X => self.x,
            Player::O => self.o,
        }
    }
}

/// `s` with the count of `p` raised by one.
pub open spec fn bump_score(s: Scores, p: Player) -> Scores {
    match p {
        Player::X => Scores { x: (s.x + 1) as u32, o: s.o },
        Player::O => Scores { x: s.x, o: (s.o + 1) as u32 },
    }
}

/// Display names per mark, set when a player joins and kept across resets.
#[derive(PartialEq, Eq, Debug)]
pub struct PlayerNames {
    pub x: Option<String>,
    pub o: Option<String>,
}

impl PlayerNames {
    /// No name recorded for either mark.
    pub fn new() -> (n: PlayerNames)
        ensures
            n.x is None,
            n.o is None,
    {
        PlayerNames { x: None, o: None }
    }

}

impl Clone for PlayerNames {
    /// An equal value.
    fn clone(&self) -> (res: Self)
        ensures
            res == *self,
    {
        PlayerNames {
            x: match &self.x {
                Some(s) => Some(s.clone()),
                None => None,
            },
            o: match &self.o {
                Some(s) => Some(s.clone()),
                None => None,
            },
        }
    }
}

/// The characters of the name recorded for `p`, if one is.
pub open spec fn name_of(n: PlayerNames, p: Player) -> Option<Seq<char>> {
    match p {
        Player::X => match n.x {
            Some(s) => Some(s@),
            None => None,
        },
        Player::O => match n.o {
            Some(s) => Some(s@),
            None => None,
        },
    }
}

/// One session's complete state: the grid, whose turn it is, the terminal
/// flags, who joined, their names and win counts, and when the session was
/// last touched (milliseconds since some fixed epoch, supplied by the caller).
pub struct Game {
    pub board: Board,
    pub current_turn: Player,
    pub game_over: bool,
    pub draw: bool,
    pub last_activity: u64,
    pub players: Vec<Player>,
    pub scores: Scores,
    pub player_names: PlayerNames,
}

/// The state of a session that was just created: empty board, `X` to move,
/// no terminal flag set, nobody joined, both win counts zero.
pub open spec fn is_fresh_game(g: Game) -> bool {
    &&& g.board@ == empty_board()
    &&& g.current_turn == Player::X
    &&& !g.game_over
    &&& !g.draw
    &&& g.last_activity == 0
    &&& g.players@ == Seq::<Player>::empty()
    &&& g.scores == (Scores { x: 0, o: 0 })
    &&& g.player_names.x is None
    &&& g.player_names.o is None
}

/// The mark a joining player is assigned: `O` when `X` is already seated,
/// `X` otherwise.
pub open spec fn assigned_mark(g: Game) -> Player {
    if g.players@.contains(Player::X) {
        Player::O
    } else {
        Player::X
    }
}

/// The first rule an attempted move breaks, in checking order, or `None`
/// when the move is legal. Membership of the mover in the session is the
/// registry's concern and is not checked here.
pub open spec fn move_rejection(g: Game, p: Player, x: int, y: int) -> Option<MoveError> {
    if g.game_over {
        Some(MoveError::GameOver)
    } else if g.current_turn != p {
        Some(MoveError::WrongTurn)
    } else if !(0 <= x < 3 && 0 <= y < 3) {
        Some(MoveError::OutOfBounds)
    } else if g.board@[3 * x + y] is Some {
        Some(MoveError::CellTaken)
    } else {
        None
    }
}

/// The move breaks no rule.
pub open spec fn move_allowed(g: Game, p: Player, x: int, y: int) -> bool {
    move_rejection(g, p, x, y) is None
}

/// `g1` is `g0` after the legal move of `p` at `(x, y)`: the cell is marked,
/// and then exactly one of three things happens — `p` completed a line and
/// wins (score bumped, no draw), the board filled with no winner (draw), or
/// the turn passes to the other mark. The winner check strictly precedes the
/// full-board check, so a winning move on the last cell is a win, not a draw.
pub open spec fn move_applied(g0: Game, g1: Game, p: Player, x: int, y: int, now: u64) -> bool {
    let b2 = g0.board@.update(3 * x + y, Some(p));
    &&& g1.board@ == b2
    &&& g1.players == g0.players
    &&& g1.player_names == g0.player_names
    &&& g1.last_activity == now
    &&& if line_won_by(b2, p) {
        &&& g1.game_over
        &&& !g1.draw
        &&& g1.current_turn == g0.current_turn
        &&& g1.scores == bump_score(g0.scores, p)
    } else if board_full(b2) {
        &&& g1.game_over
        &&& g1.draw
        &&& g1.current_turn == g0.current_turn
        &&& g1.scores == g0.scores
    } else {
        &&& !g1.game_over
        &&& !g1.draw
        &&& g1.current_turn == flip(g0.current_turn)
        &&& g1.scores == g0.scores
    }
}

/// `g1` is `g0` after an accepted join under display name `name`: the
/// assigned mark is appended, its name recorded, and the activity stamp
/// refreshed; board, turn, flags, scores and the other mark's name are
/// untouched.
pub open spec fn join_applied(g0: Game, g1: Game, name: Seq<char>, now: u64) -> bool {
    let p = assigned_mark(g0);
    &&& g1.board == g0.board
    &&& g1.current_turn == g0.current_turn
    &&& g1.game_over == g0.game_over
    &&& g1.draw == g0.draw
    &&& g1.last_activity == now
    &&& g1.players@ == g0.players@.push(p)
    &&& g1.scores == g0.scores
    &&& name_of(g1.player_names, p) == Some(name)
    &&& name_of(g1.player_names, flip(p)) == name_of(g0.player_names, flip(p))
}

/// `a` and `b` describe the same session state: equal boards, turn, flags,
/// activity stamp, seating order, scores and recorded names. This is how a
/// broadcast snapshot relates to the state it was taken from.
pub open spec fn same_game(a: Game, b: Game) -> bool {
    &&& a.board@ == b.board@
    &&& a.current_turn == b.current_turn
    &&& a.game_over == b.game_over
    &&& a.draw == b.draw
    &&& a.last_activity == b.last_activity
    &&& a.players@ == b.players@
    &&& a.scores == b.scores
    &&& name_of(a.player_names, Player::X) == name_of(b.player_names, Player::X)
    &&& name_of(a.player_names, Player::O) == name_of(b.player_names, Player::O)
}

/// `g1` is `g0` after a reset: the board is cleared, the terminal flags
/// drop, the right to move first alternates, and players, names and scores
/// are preserved.
pub open spec fn reset_applied(g0: Game, g1: Game, now: u64) -> bool {
    &&& g1.board@ == empty_board()
    &&& g1.current_turn == flip(g0.current_turn)
    &&& !g1.game_over
    &&& !g1.draw
    &&& g1.last_activity == now
    &&& g1.players == g0.players
    &&& g1.scores == g0.scores
    &&& g1.player_names == g0.player_names
}

impl Game {
    /// A session is well formed when its board has nine cells, at most two
    /// distinct marks are seated, and the terminal flags agree with the
    /// board: the game is over exactly when a line is won or the board is
    /// full, and an ended game is a draw exactly when no line is won.
    pub open spec fn wf(&self) -> bool {
        &&& self.board.wf()
        &&& self.players@.len() <= 2
        &&& self.players@.len() == 2 ==> self.players@[0] != self.players@[1]
        &&& self.draw ==> self.game_over
        &&& self.game_over <==> (has_winner(self.board@) || board_full(self.board@))
        &&& self.game_over ==> (self.draw <==> !has_winner(self.board@))
    }

    /// A freshly created session.
    pub fn new() -> (g: Game)
        ensures
            g.wf(),
            is_fresh_game(g),
    {
        let g = Game {
            board: Board::new(),
            current_turn: Player::X,
            game_over: false,
            draw: false,
            last_activity: 0,
            players: Vec::new(),
            scores: Scores { x: 0, o: 0 },
            player_names: PlayerNames::new(),
        };
        proof {
            assert(!has_winner(g.board@));
            assert(!board_full(g.board@));
        }
        g
    }
}

impl Default for Game {
    /// A freshly created session.
    fn default() -> (g: Game)
        ensures
            g.wf(),
            is_fresh_game(g),
    {
        Game::new()
    }
}

/// A copy of the seating order.
fn clone_players(v: &Vec<Player>) -> (r: Vec<Player>)
    ensures
        r@ == v@,
{
    let mut r: Vec<Player> = Vec::new();
    let mut i: usize = 0;
    while i < v.len()
        invariant
            i <= v@.len(),
            r@ == v@.subrange(0, i as int),
        decreases v@.len() - i,
    {
        r.push(v[i]);
        i = i + 1;
    }
    proof {
        assert(r@ =~= v@);
    }
    r
}

impl Clone for Game {
    /// A snapshot: a session describing the same state. Snapshots are what
    /// the registry publishes on the update bus; they are self-contained,
    /// so a client can resynchronize from any one of them.
    fn clone(&self) -> (res: Self)
        ensures
            same_game(res, *self),
    {
        Game {
            board: self.board.clone(),
            current_turn: self.current_turn,
            game_over: self.game_over,
            draw: self.draw,
            last_activity: self.last_activity,
            players: clone_players(&self.players),
            scores: self.scores,
            player_names: self.player_names.clone(),
        }
    }
}

/// Whether the mark `p` is seated in `v`.
pub fn players_contain(v: &Vec<Player>, p: Player) -> (r: bool)
    ensures
        r == v@.contains(p),
{
    let mut i: usize = 0;
    while i < v.len()
        invariant
            i <= v@.len(),
            forall|j: int| 0 <= j < i ==> v@[j] != p,
        decreases v@.len() - i,
    {
        if v[i] == p {
            return true;
        }
        i = i + 1;
    }
    false
}

impl Game {
    /// Seats a new player, assigning the free mark, unless the session is
    /// already full. On success the assigned mark's display name is
    /// recorded and the activity stamp refreshed; a rejected join changes
    /// nothing.
    pub fn join(&mut self, name: String, now: u64) -> (r: Result<Player, JoinError>)
        requires
            old(self).wf(),
        ensures
            final(self).wf(),
            old(self).players@.len() >= 2 ==> r == Err::<Player, JoinError>(JoinError::Full)
                && *final(self) == *old(self),
            old(self).players@.len() < 2 ==> r == Ok::<Player, JoinError>(
                assigned_mark(*old(self)),
            ) && join_applied(*old(self), *final(self), name@, now),
    {
        if self.players.len() >= 2 {
            return Err(JoinError::Full);
        }
        let p = if players_contain(&self.players, Player::X) {
            Player::O
        } else {
            Player::X
        };
        self.players.push(p);
        match p {
            Player::X => self.player_names.x = Some(name),
            Player::O => self.player_names.o = Some(name),
        }
        self.last_activity = now;
        proof {
            if old(self).players@.len() == 1 {
                assert(old(self).players@.contains(Player::X) <==> old(self).players@[0]
                    == Player::X);
            }
        }
        Ok(p)
    }

    /// Clears the board and the terminal flags for the next game of the
    /// same session, alternating who moves first; players, names and
    /// scores persist.
    pub fn reset(&mut self, now: u64)
        requires
            old(self).wf(),
        ensures
            final(self).wf(),
            reset_applied(*old(self), *final(self), now),
    {
        self.board = Board::new();
        self.current_turn = self.current_turn.other();
        self.game_over = false;
        self.draw = false;
        self.last_activity = now;
        proof {
            assert(!has_winner(self.board@));
            assert(!board_full(self.board@));
        }
    }

    /// The mark owning a full row, column or diagonal, if one does; lines
    /// are scanned row 0, column 0, row 1, column 1, row 2, column 2, then
    /// the two diagonals.
    pub fn check_winner(&self) -> (r: Option<Player>)
        requires
            self.board.wf(),
        ensures
            match r {
                Some(p) => line_won_by(self.board@, p),
                None => !has_winner(self.board@),
            },
    {
        if let Some(p) = self.board.line_owner(0, 1, 2) {
            return Some(p);
        }
        if let Some(p) = self.board.line_owner(0, 3, 6) {
            return Some(p);
        }
        if let Some(p) = self.board.line_owner(3, 4, 5) {
            return Some(p);
        }
        if let Some(p) = self.board.line_owner(1, 4, 7) {
            return Some(p);
        }
        if let Some(p) = self.board.line_owner(6, 7, 8) {
            return Some(p);
        }
        if let Some(p) = self.board.line_owner(2, 5, 8) {
            return Some(p);
        }
        if let Some(p) = self.board.line_owner(0, 4, 8) {
            return Some(p);
        }
        if let Some(p) = self.board.line_owner(2, 4, 6) {
            return Some(p);
        }
        None
    }

    /// Whether every cell holds a mark.
    pub fn is_full(&self) -> (r: bool)
        requires
            self.board.wf(),
        ensures
            r == board_full(self.board@),
    {
        let mut i: usize = 0;
        while i < 9
            invariant
                i <= 9,
                self.board.wf(),
                forall|j: int| 0 <= j < i ==> self.board@[j] is Some,
            decreases 9 - i,
        {
            if self.board.at(i).is_none() {
                return false;
            }
            i = i + 1;
        }
        true
    }

    /// Applies the move of `player` at row `x`, column `y`, checking the
    /// rules in order (game over, turn, bounds, occupancy; the first broken
    /// rule is reported and nothing changes). An accepted move marks the
    /// cell and resolves it: a completed line wins and bumps the mover's
    /// score, a full board with no winner is a draw, otherwise the turn
    /// passes. Membership of the mover is the registry's concern.
    pub fn make_move(&mut self, player: Player, x: usize, y: usize, now: u64) -> (r: Result<
        (),
        MoveError,
    >)
        requires
            old(self).wf(),
            x < 3 && y < 3 && line_won_by(
                old(self).board@.update(3 * (x as int) + (y as int), Some(player)),
                player,
            ) ==> old(self).scores.of(player) < u32::MAX,
        ensures
            final(self).wf(),
            match r {
                Ok(()) => move_allowed(*old(self), player, x as int, y as int) && move_applied(
                    *old(self),
                    *final(self),
                    player,
                    x as int,
                    y as int,
                    now,
                ),
                Err(e) => *final(self) == *old(self) && move_rejection(
                    *old(self),
                    player,
                    x as int,
                    y as int,
                ) == Some(e),
            },
    {
        if self.game_over {
            return Err(MoveError::GameOver);
        }
        if self.current_turn != player {
            return Err(MoveError::WrongTurn);
        }
        if x >= 3 || y >= 3 {
            return Err(MoveError::OutOfBounds);
        }
        if self.board.get(x, y).is_some() {
            return Err(MoveError::CellTaken);
        }

        self.board.set(x, y, player);

        match self.check_winner() {
            Some(w) => {
                proof {
                    if w != player {
                        // the pre-move board had no winner, and a line not
                        // through the new cell is unchanged by the move
                        assert(line_won_by(old(self).board@, w));
                    }
                }
                self.game_over = true;
                match player {
                    Player::X => self.scores.x = self.scores.x + 1,
                    Player::O => self.scores.o = self.scores.o + 1,
                }
            },
            None => {
                if self.is_full() {
                    self.game_over = true;
                    self.draw = true;
                } else {
                    self.current_turn = self.current_turn.other();
                }
            },
        }

        self.last_activity = now;
        Ok(())
    }
}

/// An accepted move keeps the terminal flags honest: afterwards the game
/// is over exactly when a line is won or the board is full, an ended game
/// is a draw exactly when no line is won, and a draw never coexists with a
/// winning line. Since every game starts with the flags down and an empty
/// board, this holds after each move of any sequence of accepted moves.
pub proof fn lemma_move_keeps_flags_honest(
    g0: Game,
    g1: Game,
    p: Player,
    x: int,
    y: int,
    now: u64,
)
    requires
        g0.wf(),
        move_allowed(g0, p, x, y),
        move_applied(g0, g1, p, x, y, now),
    ensures
        g1.game_over <==> (has_winner(g1.board@) || board_full(g1.board@)),
        g1.game_over ==> (g1.draw <==> !has_winner(g1.board@)),
        !(g1.draw && has_winner(g1.board@)),
{
    let b2 = g0.board@.update(3 * x + y, Some(p));
    // before an accepted move the game was not over, so no line was won yet
    assert(!has_winner(g0.board@));
    if !line_won_by(b2, p) {
        // a line the mover does not own avoids the changed cell, so it
        // would have been won before the move already
        assert(!line_won_by(b2, flip(p))) by {
            if line_won_by(b2, flip(p)) {
                assert(line_won_by(g0.board@, flip(p)));
            }
        }
    }
}

/// A move that both completes a winning line and fills the board is a
/// win, not a draw: the winner check strictly precedes the full-board
/// check, and the winner's score is bumped.
pub proof fn lemma_win_precedes_draw(g0: Game, g1: Game, p: Player, x: int, y: int, now: u64)
    requires
        move_applied(g0, g1, p, x, y, now),
        line_won_by(g0.board@.update(3 * x + y, Some(p)), p),
        board_full(g0.board@.update(3 * x + y, Some(p))),
    ensures
        g1.game_over,
        !g1.draw,
        g1.scores == bump_score(g0.scores, p),
{
}

/// Two joins into an empty session seat exactly the two distinct marks:
/// `X` first, `O` second.
pub proof fn lemma_two_joins_seat_both_marks(
    g0: Game,
    g1: Game,
    g2: Game,
    n1: Seq<char>,
    n2: Seq<char>,
    t1: u64,
    t2: u64,
)
    requires
        g0.players@.len() == 0,
        join_applied(g0, g1, n1, t1),
        join_applied(g1, g2, n2, t2),
    ensures
        assigned_mark(g0) == Player::X,
        assigned_mark(g1) == Player::O,
        assigned_mark(g0) != assigned_mark(g1),
        g2.players@ == seq![Player::X, Player::O],
{
    assert(!g0.players@.contains(Player::X));
    assert(g1.players@.contains(Player::X)) by {
        assert(g1.players@[0] == Player::X);
    }
    assert(g2.players@ =~= seq![Player::X, Player::O]);
}

} // verus!
