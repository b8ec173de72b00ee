//! The snake body model: an ordered sequence of cells, head first.

use crate::grid::Direction;
use vstd::prelude::*;

verus! {

/// A single cell of the snake's body: a wrapper around a linear cell index.
#[derive(Clone, Copy, PartialEq, Eq, Structural, Debug)]
pub struct SnakeCell(pub usize);

/// The sequence of cell indices held by a body sequence.
pub open spec fn cell_indices(body: Seq<SnakeCell>) -> Seq<int> {
    body.map_values(|c: SnakeCell| c.0 as int)
}

/// True when some segment at position `from` or later occupies cell `v`.
pub open spec fn occupied_from(body: Seq<SnakeCell>, from: int, v: int) -> bool {
    exists|k: int| from <= k < body.len() && (#[trigger] body[k]).0 == v
}

/// The snake: its body (head at position 0, tail at the end) and the
/// direction it is currently moving in.
pub(crate) struct Snake {
    pub(crate) body: Vec<SnakeCell>,
    pub(crate) direction: Direction,
}

impl Snake {
    /// A snake of `size` cells laid out backward from `spawn_index`, moving
    /// `Right`.  The spawn index must leave room for the whole body at
    /// non-negative indices.
    pub(crate) fn new(spawn_index: usize, size: usize) -> (r: Snake)
        requires
            1 <= size,
            size - 1 <= spawn_index,
        ensures
            r.body@.len() == size,
            forall|i: int|
                0 <= i < size ==> (#[trigger] r.body@[i]).0 == spawn_index - i,
            r.direction == Direction::Right,
    {
        let mut body: Vec<SnakeCell> = Vec::new();
        for i in 0..size
            invariant
                body@.len() == i,
                size - 1 <= spawn_index,
                forall|j: int| 0 <= j < i ==> (#[trigger] body@[j]).0 == spawn_index - j,
        {
            body.push(SnakeCell(spawn_index - i));
        }
        Snake { body, direction: Direction::Right }
    }
}

/// True when some segment at position `from` or later of `body` occupies
/// cell `cell`.
pub(crate) fn contains_cell_from(body: &Vec<SnakeCell>, from: usize, cell: usize) -> (r: bool)
    ensures
        r == occupied_from(body@, from as int, cell as int),
{
    let mut k: usize = from;
    while k < body.len()
        invariant
            from <= k,
            forall|j: int| from <= j < k ==> (#[trigger] body@[j]).0 != cell,
        decreases body@.len() - k,
    {
        if body[k].0 == cell {
            return true;
        }
        k = k + 1;
    }
    false
}

/// A copy of the body sequence.
pub(crate) fn clone_cells(body: &Vec<SnakeCell>) -> (r: Vec<SnakeCell>)
    ensures
        r@ == body@,
{
    let mut r: Vec<SnakeCell> = Vec::new();
    for i in 0..body.len()
        invariant
            r@.len() == i,
            forall|j: int| 0 <= j < i ==> r@[j] == body@[j],
    {
        r.push(body[i]);
    }
    proof {
        assert(r@ =~= body@);
    }
    r
}

} // verus!
