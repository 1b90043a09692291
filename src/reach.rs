//! Reachability validator: whether a pawn can still walk, step by step, from
//! its cell to some cell of a goal row.

use vstd::prelude::*;
use crate::board::{BOARD_SIZE, Position, Wall};
use crate::movement::{on_board, adjacent, can_step, edge_blocked};

verus! {

/// Number of cells on the board.
pub const CELL_COUNT: usize = 81;

/// A walk over the board: one cell or more, each a free step from the last.
pub open spec fn is_path(walls: Seq<Wall>, path: Seq<Position>) -> bool {
    &&& path.len() > 0
    &&& forall|i: int| 0 <= i < path.len() ==> on_board(#[trigger] path[i])
    &&& forall|i: int| 0 <= i < path.len() - 1 ==> can_step(walls, #[trigger] path[i], path[i + 1])
}

/// Whether some walk leads from `start` to `target`.
pub open spec fn reaches_cell(walls: Seq<Wall>, start: Position, target: Position) -> bool {
    exists|path: Seq<Position>|
        #[trigger] is_path(walls, path) && path[0] == start && path.last() == target
}

/// Whether some walk leads from `start` to a cell of row `row`.
pub open spec fn reaches_row(walls: Seq<Wall>, start: Position, row: int) -> bool {
    exists|path: Seq<Position>|
        #[trigger] is_path(walls, path) && path[0] == start && path.last().y == row
}

/// Where cell `p` stands in a table of all cells.
pub open spec fn cell_index(p: Position) -> int {
    p.x * 9 + p.y
}

/// Whether the table `seen` marks cell `p`.
pub open spec fn marked(seen: Seq<bool>, p: Position) -> bool {
    seen[cell_index(p)]
}

/// Every free neighbour of `p` is marked.
pub open spec fn neighbours_marked(walls: Seq<Wall>, seen: Seq<bool>, p: Position) -> bool {
    forall|q: Position| on_board(q) && can_step(walls, p, q) ==> #[trigger] marked(seen, q)
}

/// Number of cells that `seen` leaves unmarked.
pub open spec fn unmarked_count(seen: Seq<bool>) -> nat
    decreases seen.len(),
{
    if seen.len() == 0 {
        0
    } else {
        unmarked_count(seen.drop_last()) + if seen.last() { 0nat } else { 1nat }
    }
}

/// What the search keeps true: every marked cell is reachable, lies off the
/// goal row and is either on the stack or has all its free neighbours marked
/// (`open_cell` is the one cell whose neighbours are being looked at).
pub open spec fn search_inv(
    walls: Seq<Wall>,
    start: Position,
    row: int,
    seen: Seq<bool>,
    stack: Seq<Position>,
    open_cell: Option<Position>,
) -> bool {
    &&& seen.len() == CELL_COUNT
    &&& marked(seen, start)
    &&& forall|i: int| 0 <= i < stack.len() ==> on_board(#[trigger] stack[i]) && marked(seen, stack[i])
    &&& forall|p: Position| on_board(p) && #[trigger] marked(seen, p) ==> {
        &&& reaches_cell(walls, start, p)
        &&& p.y != row
        &&& (stack.contains(p) || open_cell == Some(p) || neighbours_marked(walls, seen, p))
    }
}

proof fn lemma_cell_index(p: Position, q: Position)
    requires
        on_board(p),
        on_board(q),
    ensures
        0 <= cell_index(p) < CELL_COUNT,
        cell_index(p) == cell_index(q) ==> p == q,
{
    assert(0 <= cell_index(p) < CELL_COUNT) by (nonlinear_arith)
        requires p.x < 9, p.y < 9;
    assert(cell_index(p) == cell_index(q) ==> p.x == q.x && p.y == q.y) by (nonlinear_arith)
        requires p.x < 9, p.y < 9, q.x < 9, q.y < 9;
}

proof fn lemma_unmarked_update(seen: Seq<bool>, i: int)
    requires
        0 <= i < seen.len(),
        !seen[i],
    ensures
        unmarked_count(seen.update(i, true)) + 1 == unmarked_count(seen),
    decreases seen.len(),
{
    let s2 = seen.update(i, true);
    if i == seen.len() - 1 {
        assert(s2.drop_last() =~= seen.drop_last());
    } else {
        assert(s2.drop_last() =~= seen.drop_last().update(i, true));
        lemma_unmarked_update(seen.drop_last(), i);
    }
}

proof fn lemma_extend(walls: Seq<Wall>, start: Position, c: Position, d: Position)
    requires
        reaches_cell(walls, start, c),
        on_board(d),
        can_step(walls, c, d),
    ensures
        reaches_cell(walls, start, d),
{
    let path = choose|path: Seq<Position>|
        #[trigger] is_path(walls, path) && path[0] == start && path.last() == c;
    let extended = path.push(d);
    assert(is_path(walls, extended)) by {
        assert forall|i: int| 0 <= i < extended.len() - 1 implies can_step(walls, #[trigger] extended[i], extended[i + 1]) by {
            if i < path.len() - 1 {
                assert(extended[i] == path[i] && extended[i + 1] == path[i + 1]);
            }
        }
    }
    assert(extended[0] == start && extended.last() == d);
}

proof fn lemma_closed_walk(walls: Seq<Wall>, seen: Seq<bool>, path: Seq<Position>)
    requires
        seen.len() == CELL_COUNT,
        is_path(walls, path),
        marked(seen, path[0]),
        forall|p: Position| on_board(p) && #[trigger] marked(seen, p) ==> neighbours_marked(walls, seen, p),
    ensures
        marked(seen, path.last()),
    decreases path.len(),
{
    if path.len() > 1 {
        let front = path.drop_last();
        assert(is_path(walls, front)) by {
            assert forall|i: int| 0 <= i < front.len() - 1 implies can_step(walls, #[trigger] front[i], front[i + 1]) by {
                assert(front[i] == path[i] && front[i + 1] == path[i + 1]);
            }
        }
        lemma_closed_walk(walls, seen, front);
        let k = path.len() - 2;
        assert(front.last() == path[k]);
        assert(on_board(path[k]) && on_board(path[k + 1]));
        assert(can_step(walls, path[k], path[k + 1]));
    }
}

/// A free step can be taken both ways.
pub proof fn lemma_step_symmetric(walls: Seq<Wall>, a: Position, b: Position)
    ensures
        can_step(walls, a, b) == can_step(walls, b, a),
{
}

/// A free step from `a` onto `b`, from where row `row` can be reached, lets
/// `a` reach that row too.
pub proof fn lemma_prepend_step(walls: Seq<Wall>, a: Position, b: Position, row: int)
    requires
        on_board(a),
        can_step(walls, a, b),
        reaches_row(walls, b, row),
    ensures
        reaches_row(walls, a, row),
{
    let path = choose|path: Seq<Position>|
        #[trigger] is_path(walls, path) && path[0] == b && path.last().y == row;
    let extended = seq![a] + path;
    assert(is_path(walls, extended)) by {
        assert forall|i: int| 0 <= i < extended.len() implies on_board(#[trigger] extended[i]) by {
            if i > 0 {
                assert(extended[i] == path[i - 1]);
            }
        }
        assert forall|i: int| 0 <= i < extended.len() - 1 implies can_step(walls, #[trigger] extended[i], extended[i + 1]) by {
            if i > 0 {
                assert(extended[i] == path[i - 1] && extended[i + 1] == path[i]);
            } else {
                assert(extended[1] == path[0]);
            }
        }
    }
    assert(extended[0] == a && extended.last() == path.last());
}

/// Looks at the neighbour `d` of the cell `c` taken off the stack: marks it
/// and pushes it when the step is free and it was not marked. Returns whether
/// `d` lies on the goal row (and is then reachable).
fn visit(
    walls: &Vec<Wall>,
    start: Position,
    row: u8,
    seen: &mut Vec<bool>,
    stack: &mut Vec<Position>,
    c: Position,
    d: Position,
) -> (found: bool)
    requires
        on_board(c),
        on_board(d),
        adjacent(c, d),
        marked(old(seen)@, c),
        search_inv(walls@, start, row as int, old(seen)@, old(stack)@, Some(c)),
    ensures
        found ==> reaches_row(walls@, start, row as int),
        !found ==> {
            &&& search_inv(walls@, start, row as int, final(seen)@, final(stack)@, Some(c))
            &&& can_step(walls@, c, d) ==> marked(final(seen)@, d)
            &&& forall|p: Position| on_board(p) && marked(old(seen)@, p) ==> #[trigger] marked(final(seen)@, p)
            &&& 2 * unmarked_count(final(seen)@) + final(stack)@.len()
                <= 2 * unmarked_count(old(seen)@) + old(stack)@.len()
        },
{
    proof { lemma_cell_index(d, d); }
    let i: usize = (d.x as usize) * 9 + d.y as usize;
    if seen[i] || edge_blocked(walls, c, d) {
        return false;
    }
    proof { lemma_extend(walls@, start, c, d); }
    if d.y == row {
        proof {
            let path = choose|path: Seq<Position>|
                #[trigger] is_path(walls@, path) && path[0] == start && path.last() == d;
            assert(path.last().y == row);
        }
        return true;
    }
    let ghost s0 = seen@;
    let ghost st0 = stack@;
    seen.set(i, true);
    stack.push(d);
    proof {
        lemma_unmarked_update(s0, i as int);
        assert forall|p: Position| on_board(p) && marked(s0, p) implies #[trigger] marked(seen@, p) by {
            lemma_cell_index(p, d);
        }
        assert forall|k: int| 0 <= k < stack@.len() implies on_board(#[trigger] stack@[k]) && marked(seen@, stack@[k]) by {
            if k < st0.len() {
                assert(stack@[k] == st0[k]);
            }
        }
        assert forall|p: Position| on_board(p) && #[trigger] marked(seen@, p) implies {
            &&& reaches_cell(walls@, start, p)
            &&& p.y != row
            &&& (stack@.contains(p) || Some(c) == Some(p) || neighbours_marked(walls@, seen@, p))
        } by {
            lemma_cell_index(p, d);
            if p == d {
                assert(stack@[stack@.len() - 1] == d);
            } else {
                assert(marked(s0, p));
                if st0.contains(p) {
                    let k = choose|k: int| 0 <= k < st0.len() && st0[k] == p;
                    assert(stack@[k] == p);
                } else if Some(c) != Some(p) {
                    assert forall|q: Position| on_board(q) && can_step(walls@, p, q) implies #[trigger] marked(seen@, q) by {
                        assert(marked(s0, q));
                        lemma_cell_index(q, d);
                    }
                }
            }
        }
    }
    false
}

/// Whether a walk of free steps leads from `start` to some cell of row `row`.
pub fn has_path(walls: &Vec<Wall>, start: Position, row: u8) -> (r: bool)
    requires
        on_board(start),
    ensures
        r == reaches_row(walls@, start, row as int),
{
    proof {
        let path = seq![start];
        assert(is_path(walls@, path));
        assert(reaches_cell(walls@, start, start));
    }
    if start.y == row {
        proof {
            assert(is_path(walls@, seq![start]));
        }
        return true;
    }
    let mut seen: Vec<bool> = Vec::new();
    let mut k: usize = 0;
    while k < CELL_COUNT
        invariant
            k <= CELL_COUNT,
            seen@.len() == k,
            forall|j: int| 0 <= j < k ==> !seen@[j],
        decreases CELL_COUNT - k,
    {
        seen.push(false);
        k = k + 1;
    }
    proof { lemma_cell_index(start, start); }
    seen.set((start.x as usize) * 9 + start.y as usize, true);
    let mut stack: Vec<Position> = Vec::new();
    stack.push(start);
    proof {
        assert forall|p: Position| on_board(p) && #[trigger] marked(seen@, p) implies p == start by {
            lemma_cell_index(p, start);
        }
        assert(stack@[0] == start);
    }
    while stack.len() > 0
        invariant
            on_board(start),
            search_inv(walls@, start, row as int, seen@, stack@, None),
        decreases 2 * unmarked_count(seen@) + stack@.len(),
    {
        let ghost st0 = stack@;
        let c = match stack.pop() {
            Some(c) => c,
            None => { return false; },
        };
        proof {
            assert(st0[st0.len() - 1] == c);
            assert forall|p: Position| on_board(p) && #[trigger] marked(seen@, p) implies
                (stack@.contains(p) || Some(c) == Some(p) || neighbours_marked(walls@, seen@, p)) by {
                if st0.contains(p) && p != c {
                    let k = choose|k: int| 0 <= k < st0.len() && st0[k] == p;
                    assert(k < st0.len() - 1);
                    assert(stack@[k] == p);
                }
            }
            assert forall|k: int| 0 <= k < stack@.len() implies on_board(#[trigger] stack@[k]) && marked(seen@, stack@[k]) by {
                assert(stack@[k] == st0[k]);
            }
        }
        if c.x > 0 && visit(walls, start, row, &mut seen, &mut stack, c, Position { x: c.x - 1, y: c.y }) {
            return true;
        }
        if c.x + 1 < BOARD_SIZE && visit(walls, start, row, &mut seen, &mut stack, c, Position { x: c.x + 1, y: c.y }) {
            return true;
        }
        if c.y > 0 && visit(walls, start, row, &mut seen, &mut stack, c, Position { x: c.x, y: c.y - 1 }) {
            return true;
        }
        if c.y + 1 < BOARD_SIZE && visit(walls, start, row, &mut seen, &mut stack, c, Position { x: c.x, y: c.y + 1 }) {
            return true;
        }
        proof {
            assert(neighbours_marked(walls@, seen@, c));
        }
    }
    proof {
        if reaches_row(walls@, start, row as int) {
            let path = choose|path: Seq<Position>|
                #[trigger] is_path(walls@, path) && path[0] == start && path.last().y == row;
            lemma_closed_walk(walls@, seen@, path);
            assert(on_board(path[path.len() - 1]));
        }
    }
    false
}

} // verus!
