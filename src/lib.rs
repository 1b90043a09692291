//! Turn-based session engine for Quoridor-style board games: board values,
//! movement and reachability rules, pluggable rulebooks and the session core
//! that serialises moves into a strict turn order.

pub mod board;
pub mod pawns;
pub mod game;
pub mod movement;
pub mod reach;
pub mod standard;
pub mod free;
pub mod session;
pub mod colors;

pub use board::{BOARD_SIZE, Move, MoveResult, Orientation, PawnID, PlayerID, Position, Wall, WallType};
pub use colors::{pawn_color, pawn_hue, to_rgb};
pub use free::{FreeQuoridor, FreeQuoridorMetadata};
pub use game::{QGTrait, QGame, Rulebook};
pub use movement::check_movable;
pub use pawns::PawnMap;
pub use reach::has_path;
pub use session::{Delivery, GameEvent, Session, SessionState};
pub use standard::{StandardMetadata, StandardQuoridor};
