//! The operations of the evaluator on one cell of a row of cells.

use vstd::prelude::*;
use crate::err::{ErrCode, plain, Res};
use crate::eval::cells_view;
use crate::store::{Bind, Snapshot};

verus! {

/// Sets the write gate of the cell at `n`.
pub fn cell_set_rw<T: View>(cells: &mut Vec<Bind<T>>, n: usize, rw: bool)
    requires
        n < old(cells).len(),
    ensures
        cells_view(*final(cells)) == cells_view(*old(cells)).update(
            n as int,
            cells_view(*old(cells))[n as int].set_rw(rw),
        ),
{
    let cell = &mut cells[n];
    cell.rw = rw;
    assert(cells@[n as int]@.stack =~= old(cells)@[n as int]@.stack);
    assert(cells_view(*cells) =~= cells_view(*old(cells)).update(
        n as int,
        cells_view(*old(cells))[n as int].set_rw(rw),
    ));
}

/// Assigns to the cell at `n`, unless it is ignored.
pub fn cell_assign<T: Snapshot>(cells: &mut Vec<Bind<T>>, n: usize, x: T)
    requires
        n < old(cells).len(),
    ensures
        cells_view(*final(cells)) == cells_view(*old(cells)).update(
            n as int,
            cells_view(*old(cells))[n as int].assign(x@),
        ),
{
    let cell = &mut cells[n];
    cell.assign(x);
    assert(cells_view(*cells) =~= cells_view(*old(cells)).update(
        n as int,
        cells_view(*old(cells))[n as int].assign(x@),
    ));
}

/// Stashes the cell at `n`.
pub fn cell_stash<T: Snapshot>(cells: &mut Vec<Bind<T>>, n: usize)
    requires
        n < old(cells).len(),
    ensures
        cells_view(*final(cells)) == cells_view(*old(cells)).update(
            n as int,
            cells_view(*old(cells))[n as int].stash(),
        ),
{
    let cell = &mut cells[n];
    cell.stash();
    assert(cells_view(*cells) =~= cells_view(*old(cells)).update(
        n as int,
        cells_view(*old(cells))[n as int].stash(),
    ));
}

/// Retrieves the cell at `n`. A cell with nothing stashed is an error and
/// stays as it is.
pub fn cell_retrieve<T: Snapshot>(cells: &mut Vec<Bind<T>>, n: usize) -> (r: Res<()>)
    requires
        n < old(cells).len(),
    ensures
        match r {
            Ok(_) => {
                &&& cells_view(*old(cells))[n as int].stack.len() > 0
                &&& cells_view(*final(cells)) == cells_view(*old(cells)).update(
                    n as int,
                    cells_view(*old(cells))[n as int].retrieve(),
                )
            },
            Err(e) => {
                &&& cells_view(*old(cells))[n as int].stack.len() == 0
                &&& e@ == plain(ErrCode::IE436)
                &&& cells_view(*final(cells)) == cells_view(*old(cells))
            },
        },
{
    let cell = &mut cells[n];
    let r = cell.retrieve();
    proof {
        match r {
            Ok(_) => {
                assert(cells_view(*cells) =~= cells_view(*old(cells)).update(
                    n as int,
                    cells_view(*old(cells))[n as int].retrieve(),
                ));
            },
            Err(_) => {
                assert(cells_view(*cells) =~= cells_view(*old(cells)));
            },
        }
    }
    r
}

} // verus!
