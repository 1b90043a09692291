//! The authoritative game state and the rulebook abstraction.

use vstd::prelude::*;
use crate::board::{Move, MoveResult, PlayerID, Position, Wall};
use crate::pawns::{PawnMap, pawn_pairs, is_bijection, copy_pawns, pawn_at};

verus! {

/// A rule set: initial layout, move legality and move application.
pub trait Rulebook: Sized {
    /// Extra state that this rule set keeps in the game.
    type Metadata: Copy;

    /// Number of seats.
    const PLAYER_COUNT: u8;

    /// Number of pawns, shared evenly among the seats.
    const PAWN_COUNT: u8;

    /// Whether `game` is a state that this rule set can reach.
    spec fn wf(game: &QGame<Self>) -> bool;

    /// Whether `qmove` is legal for the active seat in `game`.
    spec fn valid(game: &QGame<Self>, qmove: Move) -> bool;

    /// Whether applying `qmove` to `pre` gives the state `post` and result `r`.
    spec fn applied(pre: &QGame<Self>, qmove: Move, post: &QGame<Self>, r: MoveResult) -> bool;

    /// Whether `game` is this rule set's starting layout.
    spec fn initial(game: &QGame<Self>) -> bool;

    /// Accepts `qmove` exactly when it is legal for the active seat.
    fn validate_move(game: &QGame<Self>, qmove: Move) -> (r: Result<(), ()>)
        requires
            Self::wf(game),
        ensures
            r is Ok <==> Self::valid(game, qmove);

    /// Plays a move that `validate_move` accepted. The pawns keep their ids
    /// and still stand on distinct cells; the turn stays within the seats.
    fn apply_move(game: &mut QGame<Self>, qmove: Move) -> (r: MoveResult)
        requires
            Self::wf(old(game)),
            Self::valid(old(game), qmove),
        ensures
            Self::applied(old(game), qmove, final(game), r),
            Self::wf(final(game)),
            is_bijection(pawn_pairs(final(game).pawn_positions)),
            pawn_pairs(final(game).pawn_positions).dom() == pawn_pairs(old(game).pawn_positions).dom(),
            final(game).turn_of < Self::PLAYER_COUNT;

    /// The starting state of a match.
    fn initial_server() -> (r: QGame<Self>)
        ensures
            Self::initial(&r),
            Self::wf(&r),
            r.turn_of < Self::PLAYER_COUNT;
}

/// Read access to a match's state, whatever its rulebook.
pub trait QGTrait {
    /// Pawn ids and their cells.
    spec fn pawn_view(&self) -> Map<u8, (u8, u8)>;

    /// The walls on the board.
    spec fn wall_view(&self) -> Seq<Wall>;

    /// The seat whose turn it is.
    spec fn turn_view(&self) -> PlayerID;

    fn pawns(&self) -> (r: &PawnMap)
        ensures
            pawn_pairs(*r) == self.pawn_view();

    fn walls(&self) -> (r: &Vec<Wall>)
        ensures
            r@ == self.wall_view();

    fn turn_of(&self) -> (r: PlayerID)
        ensures
            r == self.turn_view();
}

impl<Rb: Rulebook> QGTrait for QGame<Rb> {
    open spec fn pawn_view(&self) -> Map<u8, (u8, u8)> {
        pawn_pairs(self.pawn_positions)
    }

    open spec fn wall_view(&self) -> Seq<Wall> {
        self.walls@
    }

    open spec fn turn_view(&self) -> PlayerID {
        self.turn_of
    }

    fn pawns(&self) -> (r: &PawnMap) {
        &self.pawn_positions
    }

    fn walls(&self) -> (r: &Vec<Wall>) {
        &self.walls
    }

    fn turn_of(&self) -> (r: PlayerID) {
        self.turn_of
    }
}

/// One match's state.
pub struct QGame<Rb: Rulebook> {
    /// Walls each seat may still place.
    pub wall_counts: Vec<u8>,
    /// Pawn ids and the cells they stand on.
    pub pawn_positions: PawnMap,
    /// Walls on the board.
    pub walls: Vec<Wall>,
    /// The seat whose turn it is.
    pub turn_of: PlayerID,
    /// State that only the rulebook reads, such as a sub-turn counter.
    pub metadata: Rb::Metadata,
}

/// A copy of a list of walls.
pub fn copy_walls(walls: &Vec<Wall>) -> (r: Vec<Wall>)
    ensures
        r@ == walls@,
{
    let mut out: Vec<Wall> = Vec::new();
    let mut j: usize = 0;
    while j < walls.len()
        invariant
            j <= walls@.len(),
            out@ == walls@.subrange(0, j as int),
        decreases walls@.len() - j,
    {
        out.push(walls[j]);
        j = j + 1;
        assert(out@ =~= walls@.subrange(0, j as int));
    }
    assert(out@ =~= walls@);
    out
}

/// The cell that a pawn-map entry stands for.
pub open spec fn cell_pos(c: (u8, u8)) -> Position {
    Position { x: c.0, y: c.1 }
}

/// Whether seat `side` owns pawn `id` when each seat has `per_seat` pawns:
/// seat `s` owns the ids from `s * per_seat` up to `(s + 1) * per_seat`.
pub open spec fn owns(side: u8, per_seat: u8, id: u8) -> bool {
    side * per_seat <= id < (side + 1) * per_seat
}

/// Whether two games hold the same state.
pub open spec fn same_state<Rb: Rulebook>(a: &QGame<Rb>, b: &QGame<Rb>) -> bool {
    &&& a.wall_counts@ == b.wall_counts@
    &&& a.pawn_view() == b.pawn_view()
    &&& a.walls@ == b.walls@
    &&& a.turn_of == b.turn_of
    &&& a.metadata == b.metadata
}

impl<Rb: Rulebook> QGame<Rb> {
    /// Whether a pawn of seat `side` stands on `pos`. The pawns are shared
    /// evenly among the seats, in id order.
    pub fn owned_pawn_check(&self, side: PlayerID, pos: Position) -> (r: bool)
        requires
            Rb::PLAYER_COUNT > 0,
            is_bijection(self.pawn_view()),
        ensures
            r == exists|id: u8| #![trigger self.pawn_view()[id]]
                self.pawn_view().contains_key(id) && self.pawn_view()[id] == pos.pair()
                    && owns(side, (Rb::PAWN_COUNT / Rb::PLAYER_COUNT) as u8, id),
    {
        let per_seat: u8 = Rb::PAWN_COUNT / Rb::PLAYER_COUNT;
        match pawn_at(&self.pawn_positions, (pos.x, pos.y)) {
            Some(id) => {
                assert((side as u16 + 1) * (per_seat as u16) <= 256 * 255) by (nonlinear_arith)
                    requires side <= 255, per_seat <= 255;
                assert((side as u16) * (per_seat as u16) <= 255 * 255) by (nonlinear_arith)
                    requires side <= 255, per_seat <= 255;
                let min_id: u32 = side as u32 * per_seat as u32;
                let max_id: u32 = (side as u32 + 1) * per_seat as u32;
                let r = min_id <= id as u32 && (id as u32) < max_id;
                proof {
                    if !r {
                        assert forall|k: u8| self.pawn_view().contains_key(k) && self.pawn_view()[k] == pos.pair()
                            implies !owns(side, per_seat, k) by {
                            assert(k == id);
                        }
                    }
                }
                r
            },
            None => false,
        }
    }

    /// Validates `qmove` under this game's rulebook.
    pub fn validate_move(&self, qmove: Move) -> (r: Result<(), ()>)
        requires
            Rb::wf(self),
        ensures
            r is Ok <==> Rb::valid(self, qmove),
    {
        Rb::validate_move(self, qmove)
    }

    /// Applies a validated move under this game's rulebook.
    pub fn apply_move(&mut self, qmove: Move) -> (r: MoveResult)
        requires
            Rb::wf(old(self)),
            Rb::valid(old(self), qmove),
        ensures
            Rb::applied(old(self), qmove, final(self), r),
            Rb::wf(final(self)),
            is_bijection(final(self).pawn_view()),
            final(self).turn_of < Rb::PLAYER_COUNT,
    {
        Rb::apply_move(self, qmove)
    }

    /// The starting state under rulebook `Rb`.
    pub fn initial_server() -> (r: QGame<Rb>)
        ensures
            Rb::initial(&r),
            Rb::wf(&r),
            r.turn_of < Rb::PLAYER_COUNT,
    {
        Rb::initial_server()
    }

    /// A copy of this state.
    pub fn snapshot(&self) -> (r: QGame<Rb>)
        ensures
            same_state(&r, self),
    {
        let mut wall_counts: Vec<u8> = Vec::new();
        let mut i: usize = 0;
        while i < self.wall_counts.len()
            invariant
                i <= self.wall_counts@.len(),
                wall_counts@ == self.wall_counts@.subrange(0, i as int),
            decreases self.wall_counts@.len() - i,
        {
            wall_counts.push(self.wall_counts[i]);
            i = i + 1;
            assert(wall_counts@ =~= self.wall_counts@.subrange(0, i as int));
        }
        assert(wall_counts@ =~= self.wall_counts@);
        QGame {
            wall_counts,
            pawn_positions: copy_pawns(&self.pawn_positions),
            walls: copy_walls(&self.walls),
            turn_of: self.turn_of,
            metadata: self.metadata,
        }
    }
}

} // verus!
