use bimap::BiHashMap;
use quoridor_core::{
    FreeQuoridor, FreeQuoridorMetadata, Move, MoveResult, Position, QGame, Rulebook, StandardMetadata,
    StandardQuoridor, Wall, WallType, Orientation,
};

fn pos(x: u8, y: u8) -> Position {
    Position { x, y }
}

fn step(from: (u8, u8), to: (u8, u8)) -> Move {
    Move::MovePawn(pos(from.0, from.1), pos(to.0, to.1))
}

fn standard_with(first: (u8, u8), second: (u8, u8), walls: Vec<Wall>) -> QGame<StandardQuoridor> {
    let mut pawns = BiHashMap::new();
    pawns.insert(0u8, first);
    pawns.insert(1u8, second);
    QGame { wall_counts: vec![10, 10], pawn_positions: pawns, walls, turn_of: 0, metadata: StandardMetadata }
}

fn play(game: &mut QGame<StandardQuoridor>, m: Move) -> MoveResult {
    assert!(StandardQuoridor::validate_move(game, m).is_ok(), "refused: {:?}", m);
    StandardQuoridor::apply_move(game, m)
}

#[test]
fn standard_initial_layout() {
    let g = StandardQuoridor::initial_server();
    assert_eq!(g.wall_counts, vec![10, 10]);
    assert_eq!(g.pawn_positions.get_by_left(&0), Some(&(4, 0)));
    assert_eq!(g.pawn_positions.get_by_left(&1), Some(&(4, 8)));
    assert_eq!(g.pawn_positions.len(), 2);
    assert!(g.walls.is_empty());
    assert_eq!(g.turn_of, 0);
}

#[test]
fn standard_jump_scenario() {
    let g = standard_with((4, 3), (4, 4), vec![]);
    assert!(StandardQuoridor::validate_move(&g, step((4, 3), (4, 5))).is_ok());
    assert!(StandardQuoridor::validate_move(&g, step((4, 3), (3, 4))).is_err());
    let blocked = standard_with((4, 3), (4, 4), vec![Wall::horizontal(pos(4, 5))]);
    assert!(StandardQuoridor::validate_move(&blocked, step((4, 3), (4, 5))).is_err());
    assert!(StandardQuoridor::validate_move(&blocked, step((4, 3), (3, 4))).is_ok());
    assert!(StandardQuoridor::validate_move(&blocked, step((4, 3), (5, 4))).is_ok());
}

#[test]
fn standard_jump_lands_and_keeps_pawns_apart() {
    let mut g = standard_with((4, 3), (4, 4), vec![]);
    assert_eq!(play(&mut g, step((4, 3), (4, 5))), MoveResult::Continue);
    assert_eq!(g.pawn_positions.get_by_left(&0), Some(&(4, 5)));
    assert_eq!(g.pawn_positions.get_by_left(&1), Some(&(4, 4)));
    assert_eq!(g.pawn_positions.len(), 2);
    assert_eq!(g.pawn_positions.get_by_right(&(4, 3)), None);
    assert_eq!(g.turn_of, 1);
}

#[test]
fn standard_pawn_move_errors() {
    let g = standard_with((4, 3), (4, 4), vec![]);
    // Not the mover's pawn, or no pawn at all.
    assert!(StandardQuoridor::validate_move(&g, step((4, 4), (4, 5))).is_err());
    assert!(StandardQuoridor::validate_move(&g, step((2, 2), (2, 3))).is_err());
    // Onto the other pawn.
    assert!(StandardQuoridor::validate_move(&g, step((4, 3), (4, 4))).is_err());
    // Off the board.
    let edge = standard_with((0, 0), (8, 8), vec![]);
    assert!(StandardQuoridor::validate_move(&edge, step((0, 0), (0, 255))).is_err());
    assert!(StandardQuoridor::validate_move(&edge, step((0, 0), (255, 0))).is_err());
    let top = standard_with((4, 8), (0, 0), vec![]);
    assert!(StandardQuoridor::validate_move(&top, step((4, 8), (4, 9))).is_err());
    // Two cells without a pawn to jump.
    assert!(StandardQuoridor::validate_move(&edge, step((0, 0), (0, 2))).is_err());
}

#[test]
fn standard_reserved_moves_refused() {
    let g = StandardQuoridor::initial_server();
    let w = Wall::horizontal(pos(4, 4));
    assert!(StandardQuoridor::validate_move(&g, Move::RemoveWall(w)).is_err());
    assert!(StandardQuoridor::validate_move(&g, Move::MoveWall(w, Wall::horizontal(pos(2, 2)))).is_err());
}

#[test]
fn standard_wall_errors() {
    let g = StandardQuoridor::initial_server();
    // On the border.
    for p in [pos(0, 4), pos(9, 4), pos(4, 0), pos(4, 9), pos(200, 4)] {
        assert!(StandardQuoridor::validate_move(&g, Move::PlaceWall(Wall::horizontal(p))).is_err());
        assert!(StandardQuoridor::validate_move(&g, Move::PlaceWall(Wall::vertical(p))).is_err());
    }
    // Not a simple wall.
    let strong = Wall { position: pos(4, 4), wall_type: WallType::Strong, orientation: Orientation::Horizontal };
    assert!(StandardQuoridor::validate_move(&g, Move::PlaceWall(strong)).is_err());
    // No walls left.
    let mut spent = StandardQuoridor::initial_server();
    spent.wall_counts = vec![0, 10];
    assert!(StandardQuoridor::validate_move(&spent, Move::PlaceWall(Wall::horizontal(pos(4, 4)))).is_err());
    assert!(StandardQuoridor::validate_move(&g, Move::PlaceWall(Wall::horizontal(pos(4, 4)))).is_ok());
}

#[test]
fn standard_wall_overlaps_refused() {
    let g = standard_with((4, 0), (4, 8), vec![Wall::horizontal(pos(4, 4))]);
    for w in [
        Wall::horizontal(pos(4, 4)),
        Wall::horizontal(pos(3, 4)),
        Wall::horizontal(pos(5, 4)),
        Wall::vertical(pos(4, 4)),
    ] {
        assert!(StandardQuoridor::validate_move(&g, Move::PlaceWall(w)).is_err(), "{:?}", w);
    }
    for w in [
        Wall::horizontal(pos(2, 4)),
        Wall::horizontal(pos(6, 4)),
        Wall::vertical(pos(3, 4)),
        Wall::vertical(pos(4, 3)),
        Wall::horizontal(pos(4, 5)),
    ] {
        assert!(StandardQuoridor::validate_move(&g, Move::PlaceWall(w)).is_ok(), "{:?}", w);
    }
    let v = standard_with((4, 0), (4, 8), vec![Wall::vertical(pos(4, 4))]);
    for w in [Wall::vertical(pos(4, 4)), Wall::vertical(pos(4, 3)), Wall::vertical(pos(4, 5)), Wall::horizontal(pos(4, 4))] {
        assert!(StandardQuoridor::validate_move(&v, Move::PlaceWall(w)).is_err(), "{:?}", w);
    }
    assert!(StandardQuoridor::validate_move(&v, Move::PlaceWall(Wall::vertical(pos(4, 6)))).is_ok());
}

#[test]
fn standard_wall_sealing_last_gap_refused() {
    let mut g = StandardQuoridor::initial_server();
    for w in [
        Wall::horizontal(pos(1, 4)),
        Wall::horizontal(pos(3, 4)),
        Wall::horizontal(pos(5, 4)),
        Wall::horizontal(pos(7, 4)),
        Wall::horizontal(pos(8, 3)),
    ] {
        assert_eq!(play(&mut g, Move::PlaceWall(w)), MoveResult::Continue);
    }
    assert_eq!(g.walls.len(), 5);
    let last = Wall::vertical(pos(8, 4));
    assert!(g.walls.iter().all(|w| w.position != last.position));
    assert!(StandardQuoridor::validate_move(&g, Move::PlaceWall(last)).is_err());
    // A wall elsewhere is still fine.
    assert!(StandardQuoridor::validate_move(&g, Move::PlaceWall(Wall::vertical(pos(8, 6)))).is_ok());
}

#[test]
fn standard_wall_placement_spends_allowance() {
    let mut g = StandardQuoridor::initial_server();
    assert_eq!(play(&mut g, Move::PlaceWall(Wall::horizontal(pos(4, 4)))), MoveResult::Continue);
    assert_eq!(g.wall_counts, vec![9, 10]);
    assert_eq!(g.walls, vec![Wall::horizontal(pos(4, 4))]);
    assert_eq!(g.turn_of, 1);
    assert_eq!(play(&mut g, Move::PlaceWall(Wall::vertical(pos(2, 2)))), MoveResult::Continue);
    assert_eq!(g.wall_counts, vec![9, 9]);
    assert_eq!(g.turn_of, 0);
}

#[test]
fn standard_applied_move_not_valid_again() {
    let mut g = StandardQuoridor::initial_server();
    let m = step((4, 0), (4, 1));
    play(&mut g, m);
    assert!(StandardQuoridor::validate_move(&g, m).is_err());
    let w = Move::PlaceWall(Wall::horizontal(pos(2, 6)));
    play(&mut g, w);
    assert!(StandardQuoridor::validate_move(&g, w).is_err());
}

#[test]
fn standard_turn_returns_after_each_seat_moves() {
    let mut g = StandardQuoridor::initial_server();
    assert_eq!(g.turn_of, 0);
    play(&mut g, step((4, 0), (4, 1)));
    assert_eq!(g.turn_of, 1);
    play(&mut g, Move::PlaceWall(Wall::vertical(pos(1, 1))));
    assert_eq!(g.turn_of, 0);
    play(&mut g, Move::PlaceWall(Wall::horizontal(pos(6, 6))));
    assert_eq!(g.turn_of, 1);
    play(&mut g, step((4, 8), (4, 7)));
    assert_eq!(g.turn_of, 0);
}

#[test]
fn standard_pawns_stay_distinct_over_a_game() {
    let mut g = StandardQuoridor::initial_server();
    let moves = [
        step((4, 0), (4, 1)), step((4, 8), (4, 7)),
        step((4, 1), (4, 2)), step((4, 7), (4, 6)),
        step((4, 2), (4, 3)), step((4, 6), (4, 5)),
        step((4, 3), (4, 4)), step((4, 5), (4, 3)),
    ];
    for m in moves {
        play(&mut g, m);
        assert_eq!(g.pawn_positions.len(), 2);
        let a = *g.pawn_positions.get_by_left(&0).unwrap();
        let b = *g.pawn_positions.get_by_left(&1).unwrap();
        assert_ne!(a, b);
    }
    assert_eq!(g.pawn_positions.get_by_left(&1), Some(&(4, 3)));
}

#[test]
fn standard_win_on_eighth_forward_move() {
    let mut g = StandardQuoridor::initial_server();
    let mut other = (4u8, 8u8);
    for k in 0..8u8 {
        let r = play(&mut g, step((4, k), (4, k + 1)));
        if k < 7 {
            assert_eq!(r, MoveResult::Continue);
            let next = if other.0 == 3 { (2, 8) } else { (3, 8) };
            assert_eq!(play(&mut g, step(other, next)), MoveResult::Continue);
            other = next;
        } else {
            assert_eq!(r, MoveResult::Win(0));
        }
    }
}

#[test]
fn standard_second_seat_wins_on_row_zero() {
    let mut g = standard_with((0, 3), (8, 1), vec![]);
    g.turn_of = 1;
    assert_eq!(play(&mut g, step((8, 1), (8, 0))), MoveResult::Win(1));
}

#[test]
fn free_initial_layout() {
    let g = FreeQuoridor::initial_server();
    assert_eq!(g.pawn_positions.len(), 4);
    assert_eq!(g.pawn_positions.get_by_left(&0), Some(&(2, 0)));
    assert_eq!(g.pawn_positions.get_by_left(&1), Some(&(6, 0)));
    assert_eq!(g.pawn_positions.get_by_left(&2), Some(&(2, 8)));
    assert_eq!(g.pawn_positions.get_by_left(&3), Some(&(6, 8)));
    assert_eq!(g.metadata, FreeQuoridorMetadata { turns_left: 1 });
    assert_eq!(g.turn_of, 0);
}

#[test]
fn free_each_seat_plays_two_moves() {
    let mut g = FreeQuoridor::initial_server();
    let seq = [
        (step((2, 0), (2, 5)), 0, 0),
        (step((6, 0), (6, 1)), 1, 1),
        (step((2, 8), (2, 7)), 1, 0),
        (Move::PlaceWall(Wall::horizontal(pos(0, 0))), 0, 1),
    ];
    for (m, turn, left) in seq {
        assert!(FreeQuoridor::validate_move(&g, m).is_ok());
        assert_eq!(FreeQuoridor::apply_move(&mut g, m), MoveResult::Continue);
        assert_eq!(g.turn_of, turn);
        assert_eq!(g.metadata.turns_left, left);
    }
    assert_eq!(g.pawn_positions.get_by_left(&0), Some(&(2, 5)));
    assert_eq!(g.pawn_positions.get_by_left(&2), Some(&(2, 7)));
}

#[test]
fn free_pawn_move_errors() {
    let g = FreeQuoridor::initial_server();
    // Seat 0 owns pawns 0 and 1 only.
    assert!(FreeQuoridor::validate_move(&g, step((2, 8), (2, 7))).is_err());
    assert!(FreeQuoridor::validate_move(&g, step((6, 0), (6, 1))).is_ok());
    assert!(FreeQuoridor::validate_move(&g, step((5, 5), (5, 6))).is_err());
    assert!(FreeQuoridor::validate_move(&g, step((2, 0), (6, 0))).is_err());
    assert!(FreeQuoridor::validate_move(&g, step((2, 0), (2, 9))).is_err());
}

#[test]
fn free_wall_moves_edit_the_wall_set() {
    let mut g = FreeQuoridor::initial_server();
    let a = Wall::horizontal(pos(3, 3));
    let b = Wall::vertical(pos(5, 5));
    for m in [Move::PlaceWall(a), Move::PlaceWall(a), Move::PlaceWall(b)] {
        assert!(FreeQuoridor::validate_move(&g, m).is_ok());
        FreeQuoridor::apply_move(&mut g, m);
    }
    assert_eq!(g.walls, vec![a, b]);
    FreeQuoridor::apply_move(&mut g, Move::RemoveWall(a));
    assert_eq!(g.walls, vec![b]);
    let c = Wall::horizontal(pos(7, 7));
    FreeQuoridor::apply_move(&mut g, Move::MoveWall(b, c));
    assert_eq!(g.walls, vec![c]);
}

#[test]
fn owned_pawn_check_by_seat() {
    let s = StandardQuoridor::initial_server();
    assert!(s.owned_pawn_check(0, pos(4, 0)));
    assert!(!s.owned_pawn_check(1, pos(4, 0)));
    assert!(s.owned_pawn_check(1, pos(4, 8)));
    assert!(!s.owned_pawn_check(0, pos(4, 4)));
    let f = FreeQuoridor::initial_server();
    assert!(f.owned_pawn_check(0, pos(6, 0)));
    assert!(f.owned_pawn_check(1, pos(2, 8)));
    assert!(!f.owned_pawn_check(0, pos(6, 8)));
}

#[test]
fn snapshot_copies_the_state() {
    let mut g = StandardQuoridor::initial_server();
    play(&mut g, Move::PlaceWall(Wall::horizontal(pos(4, 4))));
    let copy = g.snapshot();
    assert_eq!(copy.walls, g.walls);
    assert_eq!(copy.wall_counts, g.wall_counts);
    assert_eq!(copy.turn_of, g.turn_of);
    assert_eq!(copy.pawn_positions, g.pawn_positions);
}
