use bimap::BiHashMap;
use quoridor_core::{check_movable, has_path, PawnMap, Position, Wall};

fn pos(x: u8, y: u8) -> Position {
    Position { x, y }
}

fn pawns(cells: &[(u8, (u8, u8))]) -> PawnMap {
    let mut m = BiHashMap::new();
    for (id, c) in cells {
        m.insert(*id, *c);
    }
    m
}

#[test]
fn single_step_on_open_board() {
    let p = pawns(&[(0, (4, 3)), (1, (0, 0))]);
    let walls: Vec<Wall> = vec![];
    assert!(check_movable(&walls, &p, pos(4, 3), pos(4, 4), false).is_ok());
    assert!(check_movable(&walls, &p, pos(4, 3), pos(3, 3), false).is_ok());
    assert!(check_movable(&walls, &p, pos(4, 3), pos(4, 3), true).is_err());
    assert!(check_movable(&walls, &p, pos(4, 3), pos(6, 3), true).is_err());
    assert!(check_movable(&walls, &p, pos(4, 3), pos(5, 5), true).is_err());
}

#[test]
fn step_blocked_by_either_half_of_a_wall() {
    let p = pawns(&[(0, (4, 3))]);
    // A horizontal wall anchored at (4, 4) or (5, 4) lies under cell (4, 3).
    assert!(check_movable(&vec![Wall::horizontal(pos(4, 4))], &p, pos(4, 3), pos(4, 4), false).is_err());
    assert!(check_movable(&vec![Wall::horizontal(pos(5, 4))], &p, pos(4, 3), pos(4, 4), false).is_err());
    assert!(check_movable(&vec![Wall::horizontal(pos(6, 4))], &p, pos(4, 3), pos(4, 4), false).is_ok());
    // A vertical wall anchored at (5, 3) or (5, 4) lies right of cell (4, 3).
    assert!(check_movable(&vec![Wall::vertical(pos(5, 3))], &p, pos(4, 3), pos(5, 3), false).is_err());
    assert!(check_movable(&vec![Wall::vertical(pos(5, 4))], &p, pos(4, 3), pos(5, 3), false).is_err());
    assert!(check_movable(&vec![Wall::vertical(pos(5, 5))], &p, pos(4, 3), pos(5, 3), false).is_ok());
    // Blocking works in both directions.
    assert!(check_movable(&vec![Wall::vertical(pos(5, 3))], &p, pos(5, 3), pos(4, 3), false).is_err());
}

#[test]
fn straight_jump_over_adjacent_pawn() {
    let p = pawns(&[(0, (4, 3)), (1, (4, 4))]);
    let walls: Vec<Wall> = vec![];
    assert!(check_movable(&walls, &p, pos(4, 3), pos(4, 5), true).is_ok());
    // Without jumps allowed, or with nobody in between, it is refused.
    assert!(check_movable(&walls, &p, pos(4, 3), pos(4, 5), false).is_err());
    let alone = pawns(&[(0, (4, 3))]);
    assert!(check_movable(&walls, &alone, pos(4, 3), pos(4, 5), true).is_err());
    // The diagonal is closed while the straight jump is open.
    assert!(check_movable(&walls, &p, pos(4, 3), pos(3, 4), true).is_err());
    assert!(check_movable(&walls, &p, pos(4, 3), pos(5, 4), true).is_err());
}

#[test]
fn wall_behind_jumped_pawn_opens_diagonals() {
    let p = pawns(&[(0, (4, 3)), (1, (4, 4))]);
    let walls = vec![Wall::horizontal(pos(4, 5))];
    assert!(check_movable(&walls, &p, pos(4, 3), pos(4, 5), true).is_err());
    assert!(check_movable(&walls, &p, pos(4, 3), pos(3, 4), true).is_ok());
    assert!(check_movable(&walls, &p, pos(4, 3), pos(5, 4), true).is_ok());
}

#[test]
fn wall_before_jumped_pawn_blocks_every_jump() {
    let p = pawns(&[(0, (4, 3)), (1, (4, 4))]);
    let walls = vec![Wall::horizontal(pos(4, 4))];
    assert!(check_movable(&walls, &p, pos(4, 3), pos(4, 5), true).is_err());
    assert!(check_movable(&walls, &p, pos(4, 3), pos(3, 4), true).is_err());
}

#[test]
fn board_edge_behind_jumped_pawn_opens_diagonals() {
    let p = pawns(&[(0, (4, 7)), (1, (4, 8))]);
    let walls: Vec<Wall> = vec![];
    assert!(check_movable(&walls, &p, pos(4, 7), pos(3, 8), true).is_ok());
    assert!(check_movable(&walls, &p, pos(4, 7), pos(5, 8), true).is_ok());
}

#[test]
fn diagonal_needs_free_second_step() {
    let p = pawns(&[(0, (4, 3)), (1, (4, 4))]);
    let walls = vec![Wall::horizontal(pos(4, 5)), Wall::vertical(pos(4, 4))];
    assert!(check_movable(&walls, &p, pos(4, 3), pos(3, 4), true).is_err());
    assert!(check_movable(&walls, &p, pos(4, 3), pos(5, 4), true).is_ok());
}

#[test]
fn path_search_on_open_and_cut_boards() {
    let open: Vec<Wall> = vec![];
    assert!(has_path(&open, pos(4, 0), 8));
    assert!(has_path(&open, pos(4, 8), 8));
    let cut = vec![
        Wall::horizontal(pos(1, 4)),
        Wall::horizontal(pos(3, 4)),
        Wall::horizontal(pos(5, 4)),
        Wall::horizontal(pos(7, 4)),
        Wall::horizontal(pos(8, 3)),
        Wall::vertical(pos(8, 4)),
    ];
    assert!(!has_path(&cut, pos(4, 0), 8));
    assert!(!has_path(&cut, pos(4, 8), 0));
    assert!(has_path(&cut, pos(4, 0), 3));
    assert!(has_path(&cut, pos(8, 3), 8));
}

#[test]
fn path_search_around_a_winding_wall() {
    let walls = vec![
        Wall::horizontal(pos(1, 1)),
        Wall::horizontal(pos(3, 1)),
        Wall::horizontal(pos(5, 1)),
        Wall::horizontal(pos(7, 1)),
    ];
    // Only column 8 leads from row 0 to row 1.
    assert!(has_path(&walls, pos(0, 0), 8));
    let sealed = vec![
        Wall::horizontal(pos(1, 1)),
        Wall::horizontal(pos(3, 1)),
        Wall::horizontal(pos(5, 1)),
        Wall::horizontal(pos(7, 1)),
        Wall::vertical(pos(8, 1)),
        Wall::horizontal(pos(8, 2)),
    ];
    assert!(!has_path(&sealed, pos(8, 0), 8));
    assert!(!has_path(&sealed, pos(0, 0), 8));
    assert!(has_path(&sealed, pos(0, 0), 0));
    assert!(has_path(&sealed, pos(8, 5), 1));
}

#[test]
fn position_from_pair() {
    assert_eq!(Position::from((3, 7)), pos(3, 7));
    let p: Position = (0, 8).into();
    assert_eq!((p.x, p.y), (0, 8));
}
