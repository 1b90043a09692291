//! The pawn map: a bijection between pawn ids and the cells they stand on,
//! held in a `bimap::BiHashMap`.

use vstd::prelude::*;

verus! {

/// Makes `bimap::BiHashMap` usable in signatures; its contents are seen
/// only through `pawn_pairs`.
#[verifier::external_type_specification]
#[verifier::external_body]
#[verifier::reject_recursive_types(L)]
#[verifier::reject_recursive_types(R)]
#[verifier::reject_recursive_types(LS)]
#[verifier::reject_recursive_types(RS)]
pub struct ExBiHashMap<L, R, LS, RS>(bimap::BiHashMap<L, R, LS, RS>);

/// A pawn map: pawn id on the left, the `(x, y)` cell on the right.
pub type PawnMap = bimap::BiHashMap<u8, Cell>;

/// A cell as a pair of coordinates.
pub type Cell = (u8, u8);

/// The map from pawn id to cell that a pawn map holds.
pub uninterp spec fn pawn_pairs(m: PawnMap) -> Map<u8, Cell>;

/// The pawn map with no pawns.
pub open spec fn empty_pairs() -> Map<u8, Cell> {
    Map::empty()
}

/// Relies on `BiHashMap::with_capacity`: the new map is empty.
#[verifier::external_body]
pub(crate) fn new_pawn_map(capacity: usize) -> (r: PawnMap)
    ensures
        pawn_pairs(r) == empty_pairs(),
{
    bimap::BiHashMap::with_capacity(capacity)
}

/// Whether some pawn of `m` stands on cell `c`.
pub open spec fn holds_cell(m: Map<u8, Cell>, c: Cell) -> bool {
    exists|id: u8| m.contains_key(id) && m[id] == c
}

/// No two pawns of `m` share a cell: the map is a bijection onto its cells.
pub open spec fn is_bijection(m: Map<u8, Cell>) -> bool {
    forall|i: u8, j: u8|
        m.contains_key(i) && m.contains_key(j) && m[i] == m[j] ==> i == j
}

/// `m` after pairing `id` with `c`: any pair that held `id` or `c` is dropped.
pub open spec fn paired(m: Map<u8, Cell>, id: u8, c: Cell) -> Map<u8, Cell> {
    Map::new(
        |k: u8| k == id || (m.contains_key(k) && m[k] != c),
        |k: u8| if k == id { c } else { m[k] },
    )
}

/// Relies on `BiHashMap::get_by_left`: the cell paired with `id`, if any.
#[verifier::external_body]
pub(crate) fn cell_of(m: &PawnMap, id: u8) -> (r: Option<Cell>)
    ensures
        r == (if pawn_pairs(*m).contains_key(id) {
            Some(pawn_pairs(*m)[id])
        } else {
            None
        }),
{
    m.get_by_left(&id).copied()
}

/// Relies on `BiHashMap::get_by_right`: the pawn paired with cell `c`, if any.
#[verifier::external_body]
pub(crate) fn pawn_at(m: &PawnMap, c: Cell) -> (r: Option<u8>)
    ensures
        r is None <==> !holds_cell(pawn_pairs(*m), c),
        r matches Some(id) ==> pawn_pairs(*m).contains_key(id) && pawn_pairs(*m)[id] == c,
{
    m.get_by_right(&c).copied()
}

/// Relies on `BiHashMap::contains_right`: whether some pawn stands on `c`.
#[verifier::external_body]
pub(crate) fn cell_taken(m: &PawnMap, c: Cell) -> (r: bool)
    ensures
        r == holds_cell(pawn_pairs(*m), c),
{
    m.contains_right(&c)
}

/// Relies on `BiHashMap::remove_by_right`: takes out the pair whose cell is `c`.
#[verifier::external_body]
pub(crate) fn take_by_cell(m: &mut PawnMap, c: Cell) -> (r: Option<(u8, Cell)>)
    ensures
        r is None ==> !holds_cell(pawn_pairs(*old(m)), c) && pawn_pairs(*final(m)) == pawn_pairs(*old(m)),
        r matches Some(p) ==> p.1 == c && pawn_pairs(*old(m)).contains_key(p.0) && pawn_pairs(*old(m))[p.0] == c
            && pawn_pairs(*final(m)) == pawn_pairs(*old(m)).remove(p.0),
{
    m.remove_by_right(&c)
}

/// Relies on `BiHashMap::insert`: pairs `id` with `c`, dropping any pair that
/// held either of them.
#[verifier::external_body]
pub(crate) fn put_pawn(m: &mut PawnMap, id: u8, c: Cell)
    ensures
        pawn_pairs(*final(m)) == paired(pawn_pairs(*old(m)), id, c),
{
    m.insert(id, c);
}

/// Relies on `Clone` for `BiHashMap`: the copy holds the same pairs.
#[verifier::external_body]
pub(crate) fn copy_pawns(m: &PawnMap) -> (r: PawnMap)
    ensures
        pawn_pairs(r) == pawn_pairs(*m),
{
    m.clone()
}

} // verus!
