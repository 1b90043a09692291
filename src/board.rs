//! Value types of the board: coordinates, walls and moves.

use vstd::prelude::*;

verus! {

/// Side length of the square grid of cells.
pub const BOARD_SIZE: u8 = 9;

/// Identifies one pawn.
pub type PawnID = u8;

/// Identifies one seat (player) of a match.
pub type PlayerID = u8;

/// A grid coordinate: a cell, or the corner that anchors a wall.
#[derive(Clone, Copy, Debug, PartialEq, Eq, Structural, Hash)]
pub struct Position {
    pub x: u8,
    pub y: u8,
}

impl Position {
    /// The pair `(x, y)` that stands for this position in pawn maps.
    pub open spec fn pair(self) -> (u8, u8) {
        (self.x, self.y)
    }
}

impl From<(u8, u8)> for Position {
    fn from(p: (u8, u8)) -> (r: Position) {
        Position { x: p.0, y: p.1 }
    }
}

impl vstd::std_specs::convert::FromSpecImpl<(u8, u8)> for Position {
    open spec fn obeys_from_spec() -> bool {
        true
    }

    open spec fn from_spec(p: (u8, u8)) -> Position {
        Position { x: p.0, y: p.1 }
    }
}

/// Kind of a wall. Only `Simple` walls are placed by the shipped rulebooks;
/// the others are kept for variants with partial or movable walls.
#[derive(Clone, Copy, Debug, PartialEq, Eq, Structural, Hash)]
pub enum WallType {
    Simple,
    Single,
    Strong,
}

/// Direction of the line a wall lies on.
#[derive(Clone, Copy, Debug, PartialEq, Eq, Structural, Hash)]
pub enum Orientation {
    Vertical,
    Horizontal,
}

/// A wall anchored at the grid corner `position`, two cells long.
///
/// A vertical wall at corner `(x, y)` lies between columns `x - 1` and `x`
/// beside rows `y - 1` and `y`; a horizontal one lies between rows `y - 1`
/// and `y` beside columns `x - 1` and `x`.
#[derive(Clone, Copy, Debug, PartialEq, Eq, Structural, Hash)]
pub struct Wall {
    pub position: Position,
    pub wall_type: WallType,
    pub orientation: Orientation,
}

/// The simple wall of orientation `o` anchored at `(x, y)`.
pub open spec fn simple_wall(x: int, y: int, o: Orientation) -> Wall {
    Wall { position: Position { x: x as u8, y: y as u8 }, wall_type: WallType::Simple, orientation: o }
}

impl Wall {
    /// A simple vertical wall anchored at `pos`.
    pub fn vertical(pos: Position) -> (r: Wall)
        ensures
            r == simple_wall(pos.x as int, pos.y as int, Orientation::Vertical),
    {
        Wall { position: pos, wall_type: WallType::Simple, orientation: Orientation::Vertical }
    }

    /// A simple horizontal wall anchored at `pos`.
    pub fn horizontal(pos: Position) -> (r: Wall)
        ensures
            r == simple_wall(pos.x as int, pos.y as int, Orientation::Horizontal),
    {
        Wall { position: pos, wall_type: WallType::Simple, orientation: Orientation::Horizontal }
    }
}

/// A move that a seat submits.
#[derive(Clone, Copy, Debug, PartialEq, Eq, Structural)]
pub enum Move {
    PlaceWall(Wall),
    RemoveWall(Wall),
    MoveWall(Wall, Wall),
    MovePawn(Position, Position),
}

/// What applying a move leads to.
#[derive(Clone, Copy, Debug, PartialEq, Eq, Structural)]
pub enum MoveResult {
    Continue,
    Win(PlayerID),
    Draw,
}

} // verus!
