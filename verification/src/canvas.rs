//! The grid that a canvas is drawn on.
//!
//! The grid itself comes from the `grid` crate. Nothing in this module is
//! proved: each function states what the crate's method of the same name
//! does, over the two names `grid_rows` and `grid_cols`.

use grid::Grid;
use vstd::prelude::*;

use crate::placeholder::PlaceHolder;

verus! {

/// `Grid` of the `grid` crate: a matrix of cells. Nothing of its inside is
/// known here.
#[verifier::external_type_specification]
#[verifier::external_body]
#[verifier::reject_recursive_types(T)]
pub struct ExGrid<T>(Grid<T>);

/// The rows of a grid from top to bottom, each row from left to right.
pub uninterp spec fn grid_rows(g: Grid<PlaceHolder>) -> Seq<Seq<PlaceHolder>>;

/// The number of columns that a grid records.
pub uninterp spec fn grid_cols(g: Grid<PlaceHolder>) -> nat;

/// Every row has `cols` cells.
pub open spec fn rectangular(rows: Seq<Seq<PlaceHolder>>, cols: nat) -> bool {
    forall|r: int| 0 <= r < rows.len() ==> (#[trigger] rows[r]).len() == cols
}

/// The state that the grid's own constructors and row and column
/// operations keep: every row is as long as the recorded number of columns,
/// and a grid without rows records no columns, and the other way round.
pub open spec fn grid_wf(g: Grid<PlaceHolder>) -> bool {
    &&& rectangular(grid_rows(g), grid_cols(g))
    &&& (grid_rows(g).len() == 0 <==> grid_cols(g) == 0)
}

/// `Grid::init`: a grid of `rows` by `cols` copies of `data`, or the empty
/// grid when either count is zero. The requirement leaves out the sizes on
/// which the crate's checked multiplication panics.
#[verifier::external_body]
pub(crate) fn grid_init(rows: usize, cols: usize, data: PlaceHolder) -> (g: Grid<PlaceHolder>)
    requires
        rows * cols <= usize::MAX,
    ensures
        rows == 0 || cols == 0 ==> grid_rows(g).len() == 0 && grid_cols(g) == 0,
        rows > 0 && cols > 0 ==> grid_cols(g) == cols && grid_rows(g) == Seq::new(
            rows as nat,
            |r: int| Seq::new(cols as nat, |c: int| data),
        ),
{
    Grid::init(rows, cols, data)
}

/// `Grid::push_row`: appends `row` below the last row; an empty grid takes
/// its number of columns from it. The crate panics on an empty row, and on a
/// row whose length differs from that of the rows already there.
#[verifier::external_body]
pub(crate) fn grid_push_row(g: &mut Grid<PlaceHolder>, row: Vec<PlaceHolder>)
    requires
        grid_wf(*old(g)),
        row@.len() > 0,
        grid_rows(*old(g)).len() > 0 ==> row@.len() == grid_cols(*old(g)),
    ensures
        grid_rows(*final(g)) == grid_rows(*old(g)).push(row@),
        grid_cols(*final(g)) == row@.len(),
{
    g.push_row(row)
}

/// `Grid::push_col`: appends `col` to the right of the last column, its
/// first cell in the top row; an empty grid becomes one column of
/// `col.len()` rows. The crate panics on an empty column, and on a column
/// whose length differs from the number of rows already there.
#[verifier::external_body]
pub(crate) fn grid_push_col(g: &mut Grid<PlaceHolder>, col: Vec<PlaceHolder>)
    requires
        grid_wf(*old(g)),
        col@.len() > 0,
        grid_cols(*old(g)) > 0 ==> col@.len() == grid_rows(*old(g)).len(),
    ensures
        grid_cols(*final(g)) == grid_cols(*old(g)) + 1,
        grid_rows(*final(g)) == Seq::new(
            col@.len(),
            |r: int|
                (if r < grid_rows(*old(g)).len() {
                    grid_rows(*old(g))[r]
                } else {
                    Seq::empty()
                }).push(col@[r]),
        ),
{
    g.push_col(col)
}

/// `Grid::rows`: the number of rows.
#[verifier::external_body]
pub(crate) fn grid_row_count(g: &Grid<PlaceHolder>) -> (n: usize)
    ensures
        n == grid_rows(*g).len(),
{
    g.rows()
}

/// `Grid::cols`: the number of columns.
#[verifier::external_body]
pub(crate) fn grid_col_count(g: &Grid<PlaceHolder>) -> (n: usize)
    ensures
        n == grid_cols(*g),
{
    g.cols()
}

/// `Grid::get`: the cell at `row` and `col`, or nothing when either lies
/// beyond the grid.
#[verifier::external_body]
pub(crate) fn grid_get(g: &Grid<PlaceHolder>, row: usize, col: usize) -> (cell: Option<PlaceHolder>)
    ensures
        row < grid_rows(*g).len() && col < grid_cols(*g) ==> cell == Some(grid_rows(*g)[row as int][col as int]),
        !(row < grid_rows(*g).len() && col < grid_cols(*g)) ==> cell.is_none(),
{
    g.get(row, col).copied()
}

/// The grid's `IndexMut`: writes `cell` at `row` and `col` and leaves every
/// other cell as it was. The crate panics on a position beyond the grid.
#[verifier::external_body]
pub(crate) fn grid_set(g: &mut Grid<PlaceHolder>, row: usize, col: usize, cell: PlaceHolder)
    requires
        grid_wf(*old(g)),
        row < grid_rows(*old(g)).len(),
        col < grid_cols(*old(g)),
    ensures
        grid_cols(*final(g)) == grid_cols(*old(g)),
        grid_rows(*final(g)) == grid_rows(*old(g)).update(
            row as int,
            grid_rows(*old(g))[row as int].update(col as int, cell),
        ),
{
    g[row][col] = cell;
}

/// The grid's `Clone`: a grid with the same rows and columns.
#[verifier::external_body]
pub(crate) fn grid_clone(g: &Grid<PlaceHolder>) -> (copy: Grid<PlaceHolder>)
    ensures
        grid_rows(copy) == grid_rows(*g),
        grid_cols(copy) == grid_cols(*g),
{
    g.clone()
}

} // verus!
