//! The free rule set, for sandbox play: two seats with two pawns each, each
//! seat plays two moves per turn, walls are unlimited and nobody wins.

use vstd::prelude::*;
use crate::board::{Move, MoveResult, Position, Wall};
use crate::game::{QGame, Rulebook, cell_pos, owns};
use crate::movement::{on_board, occupied, contains_wall};
use crate::pawns::{
    pawn_pairs, is_bijection, new_pawn_map, pawn_at, cell_taken, take_by_cell, put_pawn,
};

verus! {

/// The free rule set.
#[derive(Clone, Copy, Debug)]
pub struct FreeQuoridor;

/// Extra state of the free rule set.
#[derive(Clone, Copy, Debug, PartialEq, Eq, Structural)]
pub struct FreeQuoridorMetadata {
    /// Moves the active seat may still play after the current one.
    pub turns_left: u8,
}

/// The walls of a list, as a set.
pub open spec fn wall_set(walls: Seq<Wall>) -> Set<Wall> {
    Set::new(|w: Wall| walls.contains(w))
}

/// The pawn that stands on cell `c`.
pub open spec fn pawn_on(pawns: Map<u8, (u8, u8)>, c: (u8, u8)) -> u8 {
    choose|id: u8| pawns.contains_key(id) && pawns[id] == c
}

/// Whether the seat whose turn it is may move one of its pawns from `from`
/// to the free cell `to`.
pub open spec fn free_pawn_movable(game: &QGame<FreeQuoridor>, from: Position, to: Position) -> bool {
    let pawns = pawn_pairs(game.pawn_positions);
    &&& on_board(to)
    &&& exists|id: u8| pawns.contains_key(id) && pawns[id] == from.pair() && owns(game.turn_of, 2, id)
    &&& !occupied(pawns, to)
}

/// The wall set after `qmove`.
pub open spec fn free_walls_after(walls: Set<Wall>, qmove: Move) -> Set<Wall> {
    match qmove {
        Move::PlaceWall(w) => walls.insert(w),
        Move::RemoveWall(w) => walls.remove(w),
        Move::MoveWall(a, b) => walls.remove(a).insert(b),
        Move::MovePawn(_, _) => walls,
    }
}

/// A reachable free state.
pub open spec fn free_wf(game: &QGame<FreeQuoridor>) -> bool {
    let pawns = pawn_pairs(game.pawn_positions);
    &&& game.wall_counts@.len() == 2
    &&& game.turn_of < 2
    &&& game.metadata.turns_left <= 1
    &&& pawns.dom() == set![0u8, 1u8, 2u8, 3u8]
    &&& is_bijection(pawns)
    &&& forall|id: u8| pawns.contains_key(id) ==> on_board(cell_pos(#[trigger] pawns[id]))
    &&& game.walls@.no_duplicates()
}

/// Adds `w` to the wall list unless it is there already.
fn insert_wall(walls: &mut Vec<Wall>, w: Wall)
    requires
        old(walls)@.no_duplicates(),
    ensures
        final(walls)@.no_duplicates(),
        wall_set(final(walls)@) == wall_set(old(walls)@).insert(w),
{
    if !contains_wall(walls, w) {
        let ghost s0 = walls@;
        walls.push(w);
        proof {
            assert forall|x: Wall| walls@.contains(x) <==> s0.contains(x) || x == w by {
                if s0.contains(x) {
                    let k = choose|k: int| 0 <= k < s0.len() && s0[k] == x;
                    assert(walls@[k] == x);
                }
                if x == w {
                    assert(walls@[s0.len() as int] == w);
                }
            }
        }
    }
    assert(wall_set(walls@) =~= wall_set(old(walls)@).insert(w));
}

/// Takes `w` out of the wall list.
fn remove_wall(walls: &mut Vec<Wall>, w: Wall)
    requires
        old(walls)@.no_duplicates(),
    ensures
        final(walls)@.no_duplicates(),
        wall_set(final(walls)@) == wall_set(old(walls)@).remove(w),
{
    let mut kept: Vec<Wall> = Vec::new();
    let mut i: usize = 0;
    while i < walls.len()
        invariant
            i <= walls@.len(),
            walls@.no_duplicates(),
            kept@.no_duplicates(),
            forall|k: int| 0 <= k < kept@.len() ==> exists|j: int| 0 <= j < i && walls@[j] == #[trigger] kept@[k],
            forall|x: Wall| kept@.contains(x) <==> x != w && exists|j: int| 0 <= j < i && walls@[j] == x,
        decreases walls@.len() - i,
    {
        let v = walls[i];
        if v != w {
            let ghost k0 = kept@;
            proof {
                if k0.contains(v) {
                    let k = choose|k: int| 0 <= k < k0.len() && k0[k] == v;
                    let j = choose|j: int| 0 <= j < i && walls@[j] == k0[k];
                    assert(walls@[j] == walls@[i as int]);
                }
            }
            kept.push(v);
            proof {
                assert forall|k: int| 0 <= k < kept@.len() implies exists|j: int| 0 <= j < i + 1 && walls@[j] == #[trigger] kept@[k] by {
                    if k < k0.len() {
                        assert(kept@[k] == k0[k]);
                        let j = choose|j: int| 0 <= j < i && walls@[j] == k0[k];
                        assert(walls@[j] == kept@[k]);
                    } else {
                        assert(walls@[i as int] == kept@[k]);
                    }
                }
                assert forall|x: Wall| kept@.contains(x) <==> x != w && exists|j: int| 0 <= j < i + 1 && walls@[j] == x by {
                    if kept@.contains(x) {
                        let k = choose|k: int| 0 <= k < kept@.len() && kept@[k] == x;
                        if k < k0.len() {
                            assert(kept@[k] == k0[k]);
                            assert(k0.contains(x));
                        }
                    }
                    if x != w && exists|j: int| 0 <= j < i + 1 && walls@[j] == x {
                        let j = choose|j: int| 0 <= j < i + 1 && walls@[j] == x;
                        if j < i {
                            assert(k0.contains(x));
                            let k = choose|k: int| 0 <= k < k0.len() && k0[k] == x;
                            assert(kept@[k] == x);
                        } else {
                            assert(kept@[k0.len() as int] == x);
                        }
                    }
                }
            }
        }
        i = i + 1;
    }
    proof {
        assert forall|x: Wall| kept@.contains(x) <==> walls@.contains(x) && x != w by {
            if walls@.contains(x) && x != w {
                let j = choose|j: int| 0 <= j < walls@.len() && walls@[j] == x;
                assert(exists|j: int| 0 <= j < walls@.len() && walls@[j] == x);
            }
        }
        assert(wall_set(kept@) =~= wall_set(walls@).remove(w));
    }
    *walls = kept;
}

impl Rulebook for FreeQuoridor {
    type Metadata = FreeQuoridorMetadata;

    const PLAYER_COUNT: u8 = 2;

    const PAWN_COUNT: u8 = 4;

    open spec fn wf(game: &QGame<Self>) -> bool {
        free_wf(game)
    }

    open spec fn valid(game: &QGame<Self>, qmove: Move) -> bool {
        match qmove {
            Move::MovePawn(from, to) => free_pawn_movable(game, from, to),
            _ => true,
        }
    }

    open spec fn applied(pre: &QGame<Self>, qmove: Move, post: &QGame<Self>, r: MoveResult) -> bool {
        let pawns = pawn_pairs(pre.pawn_positions);
        &&& pawn_pairs(post.pawn_positions) == (match qmove {
            Move::MovePawn(from, to) => pawns.insert(pawn_on(pawns, from.pair()), to.pair()),
            _ => pawns,
        })
        &&& wall_set(post.walls@) == free_walls_after(wall_set(pre.walls@), qmove)
        &&& post.wall_counts@ == pre.wall_counts@
        &&& if pre.metadata.turns_left == 0 {
            post.metadata.turns_left == 1 && post.turn_of == (if pre.turn_of == 0 { 1u8 } else { 0u8 })
        } else {
            post.metadata.turns_left == pre.metadata.turns_left - 1 && post.turn_of == pre.turn_of
        }
        &&& r == MoveResult::Continue
    }

    open spec fn initial(game: &QGame<Self>) -> bool {
        &&& game.wall_counts@ == seq![10u8, 10u8]
        &&& pawn_pairs(game.pawn_positions) == map![
            0u8 => (2u8, 0u8), 1u8 => (6u8, 0u8), 2u8 => (2u8, 8u8), 3u8 => (6u8, 8u8)]
        &&& game.walls@.len() == 0
        &&& game.turn_of == 0
        &&& game.metadata.turns_left == 1
    }

    fn validate_move(game: &QGame<Self>, qmove: Move) -> (r: Result<(), ()>) {
        match qmove {
            Move::MovePawn(start_pos, end_pos) => {
                if end_pos.x >= 9 || end_pos.y >= 9 {
                    return Err(());
                }
                match pawn_at(&game.pawn_positions, (start_pos.x, start_pos.y)) {
                    Some(id) => {
                        let side = game.turn_of;
                        if !(side * 2 <= id && id < side * 2 + 2) {
                            proof {
                                let pawns = pawn_pairs(game.pawn_positions);
                                assert forall|k: u8| pawns.contains_key(k) && pawns[k] == start_pos.pair() implies !owns(side, 2, k) by {
                                    assert(k == id);
                                }
                            }
                            return Err(());
                        }
                    },
                    None => { return Err(()); },
                }
                if cell_taken(&game.pawn_positions, (end_pos.x, end_pos.y)) {
                    Err(())
                } else {
                    Ok(())
                }
            },
            _ => Ok(()),
        }
    }

    fn apply_move(game: &mut QGame<Self>, qmove: Move) -> (r: MoveResult) {
        let ghost pre = pawn_pairs(game.pawn_positions);
        match qmove {
            Move::PlaceWall(wall) => {
                insert_wall(&mut game.walls, wall);
            },
            Move::RemoveWall(wall) => {
                remove_wall(&mut game.walls, wall);
            },
            Move::MoveWall(start, end) => {
                remove_wall(&mut game.walls, start);
                insert_wall(&mut game.walls, end);
            },
            Move::MovePawn(start_pos, end_pos) => {
                match take_by_cell(&mut game.pawn_positions, (start_pos.x, start_pos.y)) {
                    Some(p) => {
                        put_pawn(&mut game.pawn_positions, p.0, (end_pos.x, end_pos.y));
                        proof {
                            let id = pawn_on(pre, start_pos.pair());
                            assert(pre.contains_key(id) && pre[id] == start_pos.pair());
                            assert(p.0 == id);
                            let post = pawn_pairs(game.pawn_positions);
                            assert(post =~= pre.insert(id, end_pos.pair()));
                            assert(post.dom() =~= pre.dom());
                            assert forall|i: u8, j: u8| post.contains_key(i) && post.contains_key(j) && post[i] == post[j] implies i == j by {
                                if i != j && (i == id || j == id) {
                                    let k = if i == id { j } else { i };
                                    assert(pre.contains_key(k) && pre[k] == post[k]);
                                }
                            }
                        }
                    },
                    None => {},
                }
            },
        }
        if game.metadata.turns_left == 0 {
            game.metadata.turns_left = 1;
            game.turn_of = if game.turn_of == 0 { 1 } else { 0 };
        } else {
            game.metadata.turns_left = game.metadata.turns_left - 1;
        }
        MoveResult::Continue
    }

    fn initial_server() -> (r: QGame<Self>) {
        let mut pawns = new_pawn_map(4);
        put_pawn(&mut pawns, 0, (2, 0));
        put_pawn(&mut pawns, 1, (6, 0));
        put_pawn(&mut pawns, 2, (2, 8));
        put_pawn(&mut pawns, 3, (6, 8));
        proof {
            let m = pawn_pairs(pawns);
            assert(m =~= map![0u8 => (2u8, 0u8), 1u8 => (6u8, 0u8), 2u8 => (2u8, 8u8), 3u8 => (6u8, 8u8)]);
            assert(m.dom() =~= set![0u8, 1u8, 2u8, 3u8]);
        }
        let walls: Vec<Wall> = Vec::new();
        proof {
            assert(walls@.no_duplicates());
        }
        QGame {
            wall_counts: vec![10, 10],
            pawn_positions: pawns,
            walls,
            turn_of: 0,
            metadata: FreeQuoridorMetadata { turns_left: 1 },
        }
    }
}

} // verus!
