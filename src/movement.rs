//! Movement resolver: whether a pawn may step or jump between two cells,
//! given the walls and the other pawns. Turn order plays no part here.

use vstd::prelude::*;
use crate::board::{BOARD_SIZE, Orientation, Position, Wall, simple_wall};
use crate::pawns::{PawnMap, pawn_pairs, holds_cell, cell_taken};

verus! {

/// Whether `p` is a cell of the grid.
pub open spec fn on_board(p: Position) -> bool {
    p.x < BOARD_SIZE && p.y < BOARD_SIZE
}

/// Distance between two coordinates.
pub open spec fn dist(a: u8, b: u8) -> int {
    if a >= b { a - b } else { b - a }
}

/// Whether `a` and `b` are orthogonal neighbours.
pub open spec fn adjacent(a: Position, b: Position) -> bool {
    dist(a.x, b.x) + dist(a.y, b.y) == 1
}

/// The larger of two coordinates.
pub open spec fn larger(a: u8, b: u8) -> int {
    if a >= b { a as int } else { b as int }
}

/// Whether a wall lies on the edge between the neighbours `a` and `b`. Each
/// edge can be covered by either of the two simple walls that span it.
pub open spec fn step_blocked(walls: Seq<Wall>, a: Position, b: Position) -> bool {
    if a.y == b.y {
        let x = larger(a.x, b.x);
        walls.contains(simple_wall(x, a.y as int, Orientation::Vertical))
            || walls.contains(simple_wall(x, a.y + 1, Orientation::Vertical))
    } else {
        let y = larger(a.y, b.y);
        walls.contains(simple_wall(a.x as int, y, Orientation::Horizontal))
            || walls.contains(simple_wall(a.x + 1, y, Orientation::Horizontal))
    }
}

/// A single step between neighbours with no wall between them.
pub open spec fn can_step(walls: Seq<Wall>, a: Position, b: Position) -> bool {
    adjacent(a, b) && !step_blocked(walls, a, b)
}

/// Whether a pawn stands on `p`.
pub open spec fn occupied(pawns: Map<u8, (u8, u8)>, p: Position) -> bool {
    holds_cell(pawns, p.pair())
}

/// Whether, seen from `a`, the straight continuation past the neighbour `n`
/// is closed: it leaves the board or a wall stands behind `n`.
pub open spec fn straight_blocked(walls: Seq<Wall>, a: Position, n: Position) -> bool {
    let bx = 2 * n.x - a.x;
    let by = 2 * n.y - a.y;
    !(0 <= bx < BOARD_SIZE && 0 <= by < BOARD_SIZE)
        || step_blocked(walls, n, Position { x: bx as u8, y: by as u8 })
}

/// A straight jump from `a` over the pawn on the middle cell to `b`.
pub open spec fn straight_jump(walls: Seq<Wall>, pawns: Map<u8, (u8, u8)>, a: Position, b: Position) -> bool {
    let m = Position { x: ((a.x + b.x) / 2) as u8, y: ((a.y + b.y) / 2) as u8 };
    ((a.x == b.x && dist(a.y, b.y) == 2) || (a.y == b.y && dist(a.x, b.x) == 2))
        && occupied(pawns, m) && can_step(walls, a, m) && can_step(walls, m, b)
}

/// A side jump from `a` over the pawn on `n` to `b`, open only where the
/// straight jump over `n` is closed.
pub open spec fn side_jump_via(
    walls: Seq<Wall>,
    pawns: Map<u8, (u8, u8)>,
    a: Position,
    n: Position,
    b: Position,
) -> bool {
    occupied(pawns, n) && can_step(walls, a, n) && can_step(walls, n, b) && straight_blocked(walls, a, n)
}

/// A diagonal jump from `a` to `b` over one of the two cells next to both.
pub open spec fn diagonal_jump(walls: Seq<Wall>, pawns: Map<u8, (u8, u8)>, a: Position, b: Position) -> bool {
    dist(a.x, b.x) == 1 && dist(a.y, b.y) == 1 && (
        side_jump_via(walls, pawns, a, Position { x: b.x, y: a.y }, b)
        || side_jump_via(walls, pawns, a, Position { x: a.x, y: b.y }, b))
}

/// Whether a pawn on `a` may go to `b`: a free step, or, where `jump` is
/// set, a straight or diagonal jump.
pub open spec fn can_move(
    walls: Seq<Wall>,
    pawns: Map<u8, (u8, u8)>,
    a: Position,
    b: Position,
    jump: bool,
) -> bool {
    can_step(walls, a, b) || (jump && (straight_jump(walls, pawns, a, b) || diagonal_jump(walls, pawns, a, b)))
}

/// Whether `walls` holds `w`.
pub fn contains_wall(walls: &Vec<Wall>, w: Wall) -> (r: bool)
    ensures
        r == walls@.contains(w),
{
    let mut i: usize = 0;
    while i < walls.len()
        invariant
            i <= walls@.len(),
            forall|j: int| 0 <= j < i ==> walls@[j] != w,
        decreases walls@.len() - i,
    {
        if walls[i] == w {
            return true;
        }
        i = i + 1;
    }
    false
}

/// Whether a wall lies between the neighbouring cells `a` and `b`.
pub fn edge_blocked(walls: &Vec<Wall>, a: Position, b: Position) -> (r: bool)
    requires
        on_board(a),
        on_board(b),
        adjacent(a, b),
    ensures
        r == step_blocked(walls@, a, b),
{
    if a.y == b.y {
        let x = if a.x >= b.x { a.x } else { b.x };
        contains_wall(walls, Wall::vertical(Position { x, y: a.y }))
            || contains_wall(walls, Wall::vertical(Position { x, y: a.y + 1 }))
    } else {
        let y = if a.y >= b.y { a.y } else { b.y };
        contains_wall(walls, Wall::horizontal(Position { x: a.x, y }))
            || contains_wall(walls, Wall::horizontal(Position { x: a.x + 1, y }))
    }
}

/// Whether the straight continuation from `a` past its neighbour `n` is closed.
fn beyond_blocked(walls: &Vec<Wall>, a: Position, n: Position) -> (r: bool)
    requires
        on_board(a),
        on_board(n),
        adjacent(a, n),
    ensures
        r == straight_blocked(walls@, a, n),
{
    let bx: i16 = 2 * (n.x as i16) - a.x as i16;
    let by: i16 = 2 * (n.y as i16) - a.y as i16;
    if bx < 0 || bx >= BOARD_SIZE as i16 || by < 0 || by >= BOARD_SIZE as i16 {
        true
    } else {
        edge_blocked(walls, n, Position { x: bx as u8, y: by as u8 })
    }
}

/// Whether a pawn on `a` may jump sideways over the pawn on `n` to `b`.
fn side_jump_open(walls: &Vec<Wall>, pawns: &PawnMap, a: Position, n: Position, b: Position) -> (r: bool)
    requires
        on_board(a),
        on_board(n),
        on_board(b),
        adjacent(a, n),
        adjacent(n, b),
    ensures
        r == side_jump_via(walls@, pawn_pairs(*pawns), a, n, b),
{
    cell_taken(pawns, (n.x, n.y)) && !edge_blocked(walls, a, n) && !edge_blocked(walls, n, b)
        && beyond_blocked(walls, a, n)
}

/// Whether the pawn on `pawn_pos` may go to `pos`: a single step, or with
/// `check_jump` also a straight or diagonal jump over another pawn.
pub fn check_movable(
    walls: &Vec<Wall>,
    pawns: &PawnMap,
    pawn_pos: Position,
    pos: Position,
    check_jump: bool,
) -> (r: Result<(), ()>)
    requires
        on_board(pawn_pos),
        on_board(pos),
    ensures
        r is Ok <==> can_move(walls@, pawn_pairs(*pawns), pawn_pos, pos, check_jump),
{
    let dx: u8 = if pawn_pos.x >= pos.x { pawn_pos.x - pos.x } else { pos.x - pawn_pos.x };
    let dy: u8 = if pawn_pos.y >= pos.y { pawn_pos.y - pos.y } else { pos.y - pawn_pos.y };
    if dx + dy == 1 {
        if edge_blocked(walls, pawn_pos, pos) {
            Err(())
        } else {
            Ok(())
        }
    } else if dx + dy == 2 && check_jump {
        if dx == 2 || dy == 2 {
            let mid = Position { x: (pawn_pos.x + pos.x) / 2, y: (pawn_pos.y + pos.y) / 2 };
            if cell_taken(pawns, (mid.x, mid.y)) && !edge_blocked(walls, pawn_pos, mid)
                && !edge_blocked(walls, mid, pos) {
                Ok(())
            } else {
                Err(())
            }
        } else if side_jump_open(walls, pawns, pawn_pos, Position { x: pos.x, y: pawn_pos.y }, pos)
            || side_jump_open(walls, pawns, pawn_pos, Position { x: pawn_pos.x, y: pos.y }, pos) {
            Ok(())
        } else {
            Err(())
        }
    } else {
        Err(())
    }
}

} // verus!
