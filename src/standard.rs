//! The standard rule set: two seats with one pawn each, ten walls per seat,
//! a win on reaching the far row, and no wall that cuts a pawn off its goal.

use vstd::prelude::*;
use crate::board::{Move, MoveResult, Orientation, Position, Wall, WallType};
use crate::game::{QGame, Rulebook, cell_pos, copy_walls};
use crate::movement::{
    on_board, dist, occupied, can_step, can_move, straight_jump, diagonal_jump, side_jump_via, check_movable,
};
use crate::pawns::{pawn_pairs, is_bijection, new_pawn_map, cell_of, cell_taken, take_by_cell, put_pawn};
use crate::reach::{is_path, reaches_row, has_path, lemma_step_symmetric, lemma_prepend_step};

verus! {

/// Walls each seat starts with.
pub const STANDARD_WALLS: u8 = 10;

/// The standard rule set.
#[derive(Clone, Copy, Debug)]
pub struct StandardQuoridor;

/// The standard rule set keeps no extra state.
#[derive(Clone, Copy, Debug, PartialEq, Eq, Structural)]
pub struct StandardMetadata;

/// Whether a wall anchor lies inside the board rather than on its border.
pub open spec fn interior(p: Position) -> bool {
    1 <= p.x <= 8 && 1 <= p.y <= 8
}

/// Whether two walls would share part of an edge or cross.
pub open spec fn walls_overlap(a: Wall, b: Wall) -> bool {
    if a.orientation != b.orientation {
        a.position == b.position
    } else if a.orientation == Orientation::Horizontal {
        a.position.y == b.position.y && dist(a.position.x, b.position.x) <= 1
    } else {
        a.position.x == b.position.x && dist(a.position.y, b.position.y) <= 1
    }
}

/// Whether `w` would overlap a wall of `walls`.
pub open spec fn overlaps_any(walls: Seq<Wall>, w: Wall) -> bool {
    exists|i: int| 0 <= i < walls.len() && walls_overlap(#[trigger] walls[i], w)
}

/// No two walls of `walls` overlap.
pub open spec fn walls_apart(walls: Seq<Wall>) -> bool {
    forall|i: int, j: int|
        0 <= i < walls.len() && 0 <= j < walls.len() && i != j ==> !walls_overlap(#[trigger] walls[i], #[trigger] walls[j])
}

/// The row that pawn `id` must reach: pawn 0 starts on row 0 and heads for
/// row 8, pawn 1 the other way.
pub open spec fn goal_row(id: u8) -> int {
    if id == 0 { 8 } else { 0 }
}

/// Both pawns can still walk to their goal rows past `walls`.
pub open spec fn paths_remain(walls: Seq<Wall>, pawns: Map<u8, (u8, u8)>) -> bool {
    reaches_row(walls, cell_pos(pawns[0]), goal_row(0)) && reaches_row(walls, cell_pos(pawns[1]), goal_row(1))
}

/// Whether the wall `w` may be placed by the seat whose turn it is.
pub open spec fn wall_placeable(game: &QGame<StandardQuoridor>, w: Wall) -> bool {
    &&& game.wall_counts@[game.turn_of as int] > 0
    &&& w.wall_type == WallType::Simple
    &&& interior(w.position)
    &&& !overlaps_any(game.walls@, w)
    &&& paths_remain(game.walls@.push(w), pawn_pairs(game.pawn_positions))
}

/// Whether the seat whose turn it is may move its pawn from `from` to `to`.
pub open spec fn pawn_movable(game: &QGame<StandardQuoridor>, from: Position, to: Position) -> bool {
    let pawns = pawn_pairs(game.pawn_positions);
    &&& on_board(from)
    &&& on_board(to)
    &&& pawns[game.turn_of] == from.pair()
    &&& !occupied(pawns, to)
    &&& can_move(game.walls@, pawns, from, to, true)
}

/// The result after a move: a pawn on its goal row wins for its seat.
pub open spec fn standard_outcome(pawns: Map<u8, (u8, u8)>) -> MoveResult {
    if pawns[0].1 == 8 {
        MoveResult::Win(0)
    } else if pawns[1].1 == 0 {
        MoveResult::Win(1)
    } else {
        MoveResult::Continue
    }
}

/// The seat after `t` among two.
pub open spec fn next_seat(t: u8) -> u8 {
    if t == 0 { 1 } else { 0 }
}

/// Pawns after `qmove`.
pub open spec fn pawns_after(game: &QGame<StandardQuoridor>, qmove: Move) -> Map<u8, (u8, u8)> {
    match qmove {
        Move::MovePawn(_, to) => pawn_pairs(game.pawn_positions).insert(game.turn_of, to.pair()),
        _ => pawn_pairs(game.pawn_positions),
    }
}

/// Walls after `qmove`.
pub open spec fn walls_after(game: &QGame<StandardQuoridor>, qmove: Move) -> Seq<Wall> {
    match qmove {
        Move::PlaceWall(w) => game.walls@.push(w),
        _ => game.walls@,
    }
}

/// Wall allowances after `qmove`.
pub open spec fn counts_after(game: &QGame<StandardQuoridor>, qmove: Move) -> Seq<u8> {
    match qmove {
        Move::PlaceWall(_) => game.wall_counts@.update(
            game.turn_of as int,
            (game.wall_counts@[game.turn_of as int] - 1) as u8,
        ),
        _ => game.wall_counts@,
    }
}

/// A reachable standard state: two seats, pawns 0 and 1 on distinct cells
/// of the board, no two overlapping walls, and a walk to its goal row open
/// to each pawn.
pub open spec fn standard_wf(game: &QGame<StandardQuoridor>) -> bool {
    let pawns = pawn_pairs(game.pawn_positions);
    &&& game.wall_counts@.len() == 2
    &&& game.turn_of < 2
    &&& pawns.dom() == set![0u8, 1u8]
    &&& is_bijection(pawns)
    &&& on_board(cell_pos(pawns[0]))
    &&& on_board(cell_pos(pawns[1]))
    &&& walls_apart(game.walls@)
    &&& paths_remain(game.walls@, pawns)
}

/// Whether wall `a` overlaps wall `b`.
pub fn walls_overlap_check(a: Wall, b: Wall) -> (r: bool)
    ensures
        r == walls_overlap(a, b),
{
    if a.orientation != b.orientation {
        a.position == b.position
    } else {
        match a.orientation {
            Orientation::Horizontal => a.position.y == b.position.y && (
                if a.position.x >= b.position.x { a.position.x - b.position.x <= 1 } else { b.position.x - a.position.x <= 1 }),
            Orientation::Vertical => a.position.x == b.position.x && (
                if a.position.y >= b.position.y { a.position.y - b.position.y <= 1 } else { b.position.y - a.position.y <= 1 }),
        }
    }
}

/// Whether `w` overlaps any wall of `walls`.
pub fn overlaps_placed(walls: &Vec<Wall>, w: Wall) -> (r: bool)
    ensures
        r == overlaps_any(walls@, w),
{
    let mut i: usize = 0;
    while i < walls.len()
        invariant
            i <= walls@.len(),
            forall|j: int| 0 <= j < i ==> !walls_overlap(#[trigger] walls@[j], w),
        decreases walls@.len() - i,
    {
        if walls_overlap_check(walls[i], w) {
            return true;
        }
        i = i + 1;
    }
    false
}

proof fn lemma_overlap_symmetric(a: Wall, b: Wall)
    ensures
        walls_overlap(a, b) == walls_overlap(b, a),
{
}

proof fn lemma_push_apart(walls: Seq<Wall>, w: Wall)
    requires
        walls_apart(walls),
        !overlaps_any(walls, w),
    ensures
        walls_apart(walls.push(w)),
{
    let s = walls.push(w);
    assert forall|i: int, j: int| 0 <= i < s.len() && 0 <= j < s.len() && i != j implies !walls_overlap(#[trigger] s[i], #[trigger] s[j]) by {
        if i == walls.len() {
            lemma_overlap_symmetric(s[i], s[j]);
            assert(s[j] == walls[j]);
        } else if j == walls.len() {
            assert(s[i] == walls[i]);
        } else {
            assert(s[i] == walls[i] && s[j] == walls[j]);
        }
    }
}

/// A pawn that may move from `from` to `to` lands on a cell from which every
/// row that `from` reaches is still reachable: each jump is made of free
/// steps, and steps can be retraced.
pub proof fn lemma_move_keeps_reach(
    walls: Seq<Wall>,
    pawns: Map<u8, (u8, u8)>,
    from: Position,
    to: Position,
    row: int,
)
    requires
        on_board(from),
        on_board(to),
        can_move(walls, pawns, from, to, true),
        reaches_row(walls, from, row),
    ensures
        reaches_row(walls, to, row),
{
    if can_step(walls, from, to) {
        lemma_step_symmetric(walls, from, to);
        lemma_prepend_step(walls, to, from, row);
    } else if straight_jump(walls, pawns, from, to) {
        let m = Position { x: ((from.x + to.x) / 2) as u8, y: ((from.y + to.y) / 2) as u8 };
        lemma_step_symmetric(walls, from, m);
        lemma_step_symmetric(walls, m, to);
        lemma_prepend_step(walls, m, from, row);
        lemma_prepend_step(walls, to, m, row);
    } else {
        assert(diagonal_jump(walls, pawns, from, to));
        let n = if side_jump_via(walls, pawns, from, Position { x: to.x, y: from.y }, to) {
            Position { x: to.x, y: from.y }
        } else {
            Position { x: from.x, y: to.y }
        };
        lemma_step_symmetric(walls, from, n);
        lemma_step_symmetric(walls, n, to);
        lemma_prepend_step(walls, n, from, row);
        lemma_prepend_step(walls, to, n, row);
    }
}

/// Column 4 is an open walk on an empty board, both ways.
proof fn lemma_open_board(walls: Seq<Wall>)
    requires
        walls.len() == 0,
    ensures
        reaches_row(walls, Position { x: 4, y: 0 }, 8),
        reaches_row(walls, Position { x: 4, y: 8 }, 0),
{
    let up = Seq::new(9, |i: int| Position { x: 4, y: i as u8 });
    let down = Seq::new(9, |i: int| Position { x: 4, y: (8 - i) as u8 });
    assert(is_path(walls, up));
    assert(is_path(walls, down));
    assert(up[0] == Position { x: 4, y: 0 } && up.last().y == 8);
    assert(down[0] == Position { x: 4, y: 8 } && down.last().y == 0);
}

impl Rulebook for StandardQuoridor {
    type Metadata = StandardMetadata;

    const PLAYER_COUNT: u8 = 2;

    const PAWN_COUNT: u8 = 2;

    open spec fn wf(game: &QGame<Self>) -> bool {
        standard_wf(game)
    }

    open spec fn valid(game: &QGame<Self>, qmove: Move) -> bool {
        match qmove {
            Move::PlaceWall(w) => wall_placeable(game, w),
            Move::MovePawn(from, to) => pawn_movable(game, from, to),
            _ => false,
        }
    }

    open spec fn applied(pre: &QGame<Self>, qmove: Move, post: &QGame<Self>, r: MoveResult) -> bool {
        &&& pawn_pairs(post.pawn_positions) == pawns_after(pre, qmove)
        &&& post.walls@ == walls_after(pre, qmove)
        &&& post.wall_counts@ == counts_after(pre, qmove)
        &&& post.turn_of == next_seat(pre.turn_of)
        &&& r == standard_outcome(pawn_pairs(post.pawn_positions))
    }

    open spec fn initial(game: &QGame<Self>) -> bool {
        &&& game.wall_counts@ == seq![STANDARD_WALLS, STANDARD_WALLS]
        &&& pawn_pairs(game.pawn_positions) == map![0u8 => (4u8, 0u8), 1u8 => (4u8, 8u8)]
        &&& game.walls@.len() == 0
        &&& game.turn_of == 0
    }

    fn validate_move(game: &QGame<Self>, qmove: Move) -> (r: Result<(), ()>) {
        match qmove {
            Move::PlaceWall(wall) => {
                if game.wall_counts[game.turn_of as usize] == 0 {
                    return Err(());
                }
                match wall.wall_type {
                    WallType::Simple => {},
                    _ => { return Err(()); },
                }
                let pos = wall.position;
                if pos.x == 0 || pos.x > 8 || pos.y == 0 || pos.y > 8 {
                    return Err(());
                }
                if overlaps_placed(&game.walls, wall) {
                    return Err(());
                }
                let mut hypothetical = copy_walls(&game.walls);
                hypothetical.push(wall);
                let first = match cell_of(&game.pawn_positions, 0) {
                    Some(c) => c,
                    None => { return Err(()); },
                };
                let second = match cell_of(&game.pawn_positions, 1) {
                    Some(c) => c,
                    None => { return Err(()); },
                };
                if has_path(&hypothetical, Position::from(first), 8)
                    && has_path(&hypothetical, Position::from(second), 0) {
                    Ok(())
                } else {
                    Err(())
                }
            },
            Move::MovePawn(start_pos, target_pos) => {
                if start_pos.x >= 9 || start_pos.y >= 9 || target_pos.x >= 9 || target_pos.y >= 9 {
                    return Err(());
                }
                match cell_of(&game.pawn_positions, game.turn_of) {
                    Some(c) => {
                        if c.0 != start_pos.x || c.1 != start_pos.y {
                            return Err(());
                        }
                    },
                    None => { return Err(()); },
                }
                if cell_taken(&game.pawn_positions, (target_pos.x, target_pos.y)) {
                    return Err(());
                }
                check_movable(&game.walls, &game.pawn_positions, start_pos, target_pos, true)
            },
            Move::RemoveWall(_) => Err(()),
            Move::MoveWall(_, _) => Err(()),
        }
    }

    fn apply_move(game: &mut QGame<Self>, qmove: Move) -> (r: MoveResult) {
        let ghost pre = pawn_pairs(game.pawn_positions);
        match qmove {
            Move::PlaceWall(wall) => {
                let t = game.turn_of as usize;
                let c = game.wall_counts[t];
                game.wall_counts.set(t, c - 1);
                proof { lemma_push_apart(game.walls@, wall); }
                game.walls.push(wall);
            },
            Move::MovePawn(start_pos, end_pos) => {
                match take_by_cell(&mut game.pawn_positions, (start_pos.x, start_pos.y)) {
                    Some(p) => {
                        put_pawn(&mut game.pawn_positions, p.0, (end_pos.x, end_pos.y));
                        proof {
                            assert(p.0 == game.turn_of);
                            let post = pawn_pairs(game.pawn_positions);
                            assert(post =~= pre.insert(game.turn_of, end_pos.pair()));
                            let t = game.turn_of;
                            assert(start_pos == cell_pos(pre[t]));
                            lemma_move_keeps_reach(game.walls@, pre, start_pos, end_pos, goal_row(t));
                            assert(end_pos == cell_pos(post[t]));
                            assert(post.dom() =~= set![0u8, 1u8]);
                            assert forall|i: u8, j: u8| post.contains_key(i) && post.contains_key(j) && post[i] == post[j] implies i == j by {
                                if i != j && (i == game.turn_of || j == game.turn_of) {
                                    let k = if i == game.turn_of { j } else { i };
                                    assert(pre.contains_key(k) && pre[k] == post[k]);
                                }
                            }
                        }
                    },
                    None => {},
                }
            },
            Move::RemoveWall(_) => {},
            Move::MoveWall(_, _) => {},
        }
        game.turn_of = if game.turn_of == 0 { 1 } else { 0 };
        let first = cell_of(&game.pawn_positions, 0);
        let second = cell_of(&game.pawn_positions, 1);
        match (first, second) {
            (Some(a), Some(b)) => {
                if a.1 == 8 {
                    MoveResult::Win(0)
                } else if b.1 == 0 {
                    MoveResult::Win(1)
                } else {
                    MoveResult::Continue
                }
            },
            _ => MoveResult::Continue,
        }
    }

    fn initial_server() -> (r: QGame<Self>) {
        let mut pawns = new_pawn_map(2);
        put_pawn(&mut pawns, 0, (4, 0));
        put_pawn(&mut pawns, 1, (4, 8));
        let walls: Vec<Wall> = Vec::new();
        proof {
            assert(pawn_pairs(pawns) =~= map![0u8 => (4u8, 0u8), 1u8 => (4u8, 8u8)]);
            lemma_open_board(walls@);
        }
        QGame {
            wall_counts: vec![STANDARD_WALLS, STANDARD_WALLS],
            pawn_positions: pawns,
            walls,
            turn_of: 0,
            metadata: StandardMetadata,
        }
    }
}


/// In every state that the standard rules reach, each pawn has a walk of
/// free steps from its cell to its goal row.
pub proof fn lemma_every_pawn_has_path(game: &QGame<StandardQuoridor>)
    requires
        StandardQuoridor::wf(game),
    ensures
        forall|id: u8| #![trigger pawn_pairs(game.pawn_positions)[id]]
            pawn_pairs(game.pawn_positions).contains_key(id)
                ==> reaches_row(game.walls@, cell_pos(pawn_pairs(game.pawn_positions)[id]), goal_row(id)),
{
}

/// A wall that `validate_move` accepts leaves each pawn a walk of free steps
/// to its goal row on the board with that wall added.
pub proof fn lemma_accepted_wall_keeps_paths(game: &QGame<StandardQuoridor>, w: Wall)
    requires
        StandardQuoridor::wf(game),
        StandardQuoridor::valid(game, Move::PlaceWall(w)),
    ensures
        forall|id: u8| #![trigger pawn_pairs(game.pawn_positions)[id]]
            pawn_pairs(game.pawn_positions).contains_key(id)
                ==> reaches_row(game.walls@.push(w), cell_pos(pawn_pairs(game.pawn_positions)[id]), goal_row(id)),
{
}

/// A move, once applied, is no longer legal: applying the same move twice
/// without validating it again breaks the contract of `apply_move`.
pub proof fn lemma_applied_move_not_valid_again(
    pre: &QGame<StandardQuoridor>,
    qmove: Move,
    post: &QGame<StandardQuoridor>,
    r: MoveResult,
)
    requires
        StandardQuoridor::wf(pre),
        StandardQuoridor::valid(pre, qmove),
        StandardQuoridor::applied(pre, qmove, post, r),
    ensures
        !StandardQuoridor::valid(post, qmove),
{
    match qmove {
        Move::PlaceWall(w) => {
            assert(post.walls@[pre.walls@.len() as int] == w);
            assert(walls_overlap(w, w));
        },
        Move::MovePawn(from, to) => {
            let pawns = pawn_pairs(pre.pawn_positions);
            let other = next_seat(pre.turn_of);
            assert(pawns.contains_key(other) && pawns.contains_key(pre.turn_of));
            assert(pawn_pairs(post.pawn_positions)[other] == pawns[other]);
        },
        _ => {},
    }
}

/// With two seats, two consecutive legal moves give the turn back to the
/// seat that had it.
pub proof fn lemma_turn_returns(
    g0: &QGame<StandardQuoridor>,
    m1: Move,
    g1: &QGame<StandardQuoridor>,
    r1: MoveResult,
    m2: Move,
    g2: &QGame<StandardQuoridor>,
    r2: MoveResult,
)
    requires
        StandardQuoridor::wf(g0),
        StandardQuoridor::valid(g0, m1),
        StandardQuoridor::applied(g0, m1, g1, r1),
        StandardQuoridor::valid(g1, m2),
        StandardQuoridor::applied(g1, m2, g2, r2),
    ensures
        g2.turn_of == g0.turn_of,
        g1.turn_of != g0.turn_of,
{
}

} // verus!
