//! A canvas of cells, and the overlay that merges two of them.

use grid::Grid;
use vstd::prelude::*;

use crate::canvas::{
    grid_clone, grid_col_count, grid_cols, grid_get, grid_init, grid_push_col, grid_row_count,
    grid_rows, grid_set, grid_wf, rectangular,
};
use crate::placeholder::{lemma_merge_commutative, lemma_merge_empty, PlaceHolder};
use crate::theme::{shows, Theme};

verus! {

/// The number of columns of a matrix of cells: the length of its first row.
pub open spec fn breadth(cells: Seq<Seq<PlaceHolder>>) -> nat {
    if cells.len() == 0 {
        0
    } else {
        cells[0].len()
    }
}

/// A matrix of cells whose rows all have the same length, and at least one
/// cell if there is a row at all.
pub open spec fn well_formed(cells: Seq<Seq<PlaceHolder>>) -> bool {
    &&& rectangular(cells, breadth(cells))
    &&& (cells.len() > 0 ==> breadth(cells) > 0)
}

/// Whether every cell is empty space.
pub open spec fn blank(cells: Seq<Seq<PlaceHolder>>) -> bool {
    forall|r: int, c: int|
        0 <= r < cells.len() && 0 <= c < cells[r].len() ==> #[trigger] cells[r][c]
            == PlaceHolder::Empty
}

/// The cell at a row and a column, and empty space beyond the matrix.
pub open spec fn cell_at(cells: Seq<Seq<PlaceHolder>>, r: int, c: int) -> PlaceHolder {
    if 0 <= r < cells.len() && 0 <= c < cells[r].len() {
        cells[r][c]
    } else {
        PlaceHolder::Empty
    }
}

/// One cell of an overlay: the cell of the longer matrix, merged with the
/// cell that the shorter matrix has there once its last row is aligned with
/// the last row of the longer one.
pub open spec fn overlay_cell(
    longer: Seq<Seq<PlaceHolder>>,
    shorter: Seq<Seq<PlaceHolder>>,
    r: int,
    c: int,
) -> PlaceHolder {
    let diff = longer.len() - shorter.len();
    if r >= diff && 0 <= c < breadth(shorter) {
        cell_at(longer, r, c).merge(cell_at(shorter, r - diff, c))
    } else {
        cell_at(longer, r, c)
    }
}

/// The overlay of two matrices: as many rows as the longer, as many columns
/// as the wider, the narrower filled up with empty space on the right, and
/// each cell merged with the cell that the other matrix has there.
pub open spec fn overlay_of(a: Seq<Seq<PlaceHolder>>, b: Seq<Seq<PlaceHolder>>) -> Seq<
    Seq<PlaceHolder>,
> {
    let longer = if a.len() > b.len() {
        a
    } else {
        b
    };
    let shorter = if a.len() > b.len() {
        b
    } else {
        a
    };
    let cols = if breadth(a) > breadth(b) {
        breadth(a)
    } else {
        breadth(b)
    };
    Seq::new(longer.len(), |r: int| Seq::new(cols, |c: int| overlay_cell(longer, shorter, r, c)))
}

/// A matrix of `rows` by `cols` cells that shows `drawing` in its lower left
/// corner and empty space elsewhere.
pub open spec fn stamped(drawing: Seq<Seq<PlaceHolder>>, rows: nat, cols: nat) -> Seq<
    Seq<PlaceHolder>,
> {
    Seq::new(rows, |r: int| Seq::new(cols, |c: int| cell_at(drawing, r - (rows - drawing.len()), c)))
}

/// Whether `pieces` holds a text for each cell that a theme may show it by.
pub open spec fn cast(cells: Seq<Seq<PlaceHolder>>, pieces: Seq<Seq<Seq<char>>>) -> bool {
    &&& pieces.len() == cells.len()
    &&& forall|r: int| 0 <= r < cells.len() ==> (#[trigger] pieces[r]).len() == cells[r].len()
    &&& forall|r: int, c: int|
        0 <= r < cells.len() && 0 <= c < cells[r].len() ==> shows(
            cells[r][c],
            #[trigger] pieces[r][c],
        )
}

/// Texts put one after the other.
pub open spec fn concat(parts: Seq<Seq<char>>) -> Seq<char>
    decreases parts.len(),
{
    if parts.len() == 0 {
        Seq::empty()
    } else {
        concat(parts.drop_last()) + parts.last()
    }
}

/// The texts of the cells row by row, each row after a line feed.
pub open spec fn typeset(pieces: Seq<Seq<Seq<char>>>) -> Seq<char>
    decreases pieces.len(),
{
    if pieces.len() == 0 {
        Seq::empty()
    } else {
        typeset(pieces.drop_last()) + seq!['\n'] + concat(pieces.last())
    }
}

/// Whether `text` shows the cells: row by row, each row after a line feed,
/// each cell as a theme may show it.
pub open spec fn printed(cells: Seq<Seq<PlaceHolder>>, text: Seq<char>) -> bool {
    exists|pieces: Seq<Seq<Seq<char>>>| cast(cells, pieces) && text == typeset(pieces)
}

/// A canvas: a grid of cells.
#[derive(Debug)]
pub struct Template {
    pub grid: Grid<PlaceHolder>,
}

impl View for Template {
    type V = Seq<Seq<PlaceHolder>>;

    open spec fn view(&self) -> Seq<Seq<PlaceHolder>> {
        grid_rows(self.grid)
    }
}

/// `n` copies of one cell.
pub open spec fn run(cell: PlaceHolder, n: nat) -> Seq<PlaceHolder> {
    Seq::new(n, |i: int| cell)
}

/// Appends `n` copies of one cell to a row.
pub fn extend_run(row: &mut Vec<PlaceHolder>, cell: PlaceHolder, n: usize)
    ensures
        final(row)@ == old(row)@ + run(cell, n as nat),
{
    let mut i: usize = 0;
    assert(row@ =~= old(row)@ + run(cell, 0));
    while i < n
        invariant
            i <= n,
            row@ == old(row)@ + run(cell, i as nat),
        decreases n - i,
    {
        row.push(cell);
        i = i + 1;
        assert(row@ =~= old(row)@ + run(cell, i as nat));
    }
}

/// A row of `n` copies of one cell.
pub fn repeat(cell: PlaceHolder, n: usize) -> (cells: Vec<PlaceHolder>)
    ensures
        cells@ == run(cell, n as nat),
{
    let mut cells: Vec<PlaceHolder> = Vec::new();
    extend_run(&mut cells, cell, n);
    assert(cells@ =~= run(cell, n as nat));
    cells
}

impl Template {
    /// The grid is in the state that its own operations keep.
    pub open spec fn wf(&self) -> bool {
        grid_wf(self.grid)
    }

    /// The canvas of a grid.
    pub fn new(grid: Grid<PlaceHolder>) -> (template: Template)
        ensures
            template.grid == grid,
    {
        Template { grid }
    }

    /// Lays one canvas over another.
    ///
    /// The result has the rows of the longer canvas and the columns of the
    /// wider one. The last rows of both are aligned, and so are their first
    /// columns.
    pub fn overlay(self, another: Template) -> (merged: Template)
        requires
            self.wf(),
            another.wf(),
        ensures
            merged.wf(),
            merged@ == overlay_of(self@, another@),
    {
        proof {
            lemma_grid_breadth(self.grid);
            lemma_grid_breadth(another.grid);
        }
        let (longer, shorter) = if grid_row_count(&self.grid) > grid_row_count(&another.grid) {
            (self.grid, another.grid)
        } else {
            (another.grid, self.grid)
        };
        let rows: usize = grid_row_count(&longer);
        let diff: usize = rows - grid_row_count(&shorter);
        let shorter_cols: usize = grid_col_count(&shorter);
        let longer_cols: usize = grid_col_count(&longer);
        let cols: usize = if shorter_cols > longer_cols {
            shorter_cols
        } else {
            longer_cols
        };
        let ghost base = grid_rows(longer);
        let ghost top = grid_rows(shorter);
        let mut result = grid_clone(&longer);

        while grid_col_count(&result) < cols
            invariant
                grid_wf(result),
                well_formed(base),
                grid_rows(result).len() == rows == base.len(),
                breadth(base) <= grid_cols(result) <= cols,
                rows == 0 ==> cols == 0,
                forall|r: int, c: int|
                    0 <= r < rows && 0 <= c < grid_cols(result) ==> #[trigger] grid_rows(
                        result,
                    )[r][c] == cell_at(base, r, c),
            decreases cols - grid_cols(result),
        {
            let column = repeat(PlaceHolder::Empty, rows);
            grid_push_col(&mut result, column);
        }

        let mut row: usize = diff;
        while row < rows
            invariant
                grid_wf(result),
                well_formed(base),
                well_formed(top),
                grid_rows(shorter) == top,
                grid_cols(shorter) == breadth(top) == shorter_cols,
                shorter_cols <= cols,
                grid_rows(result).len() == rows == base.len(),
                grid_cols(result) == cols,
                diff == base.len() - top.len(),
                diff <= row <= rows,
                forall|r: int, c: int|
                    0 <= r < rows && 0 <= c < cols ==> #[trigger] grid_rows(result)[r][c] == (if r
                        < row {
                        overlay_cell(base, top, r, c)
                    } else {
                        cell_at(base, r, c)
                    }),
            decreases rows - row,
        {
            let mut col: usize = 0;
            while col < cols
                invariant
                    grid_wf(result),
                    well_formed(base),
                    well_formed(top),
                    grid_rows(shorter) == top,
                    grid_cols(shorter) == breadth(top) == shorter_cols,
                    shorter_cols <= cols,
                    grid_rows(result).len() == rows == base.len(),
                    grid_cols(result) == cols,
                    diff == base.len() - top.len(),
                    diff <= row < rows,
                    col <= cols,
                    forall|r: int, c: int|
                        0 <= r < rows && 0 <= c < cols ==> #[trigger] grid_rows(result)[r][c]
                            == (if r < row || (r == row && c < col) {
                            overlay_cell(base, top, r, c)
                        } else {
                            cell_at(base, r, c)
                        }),
                decreases cols - col,
            {
                if let Some(placeholder) = grid_get(&shorter, row - diff, col) {
                    if let Some(current) = grid_get(&result, row, col) {
                        grid_set(&mut result, row, col, current.overlay(&placeholder));
                    }
                }
                col = col + 1;
            }
            row = row + 1;
        }
        proof {
            lemma_grid_breadth(result);
            assert(grid_rows(result) =~~= overlay_of(self@, another@));
        }
        Template { grid: result }
    }

    /// The canvas as text: each row after a line feed, each cell as the
    /// theme shows it.
    pub fn render<T: Theme>(self, theme: &T) -> (text: String)
        requires
            self.wf(),
        ensures
            printed(self@, text@),
    {
        let rows: usize = grid_row_count(&self.grid);
        let cols: usize = grid_col_count(&self.grid);
        let ghost cells = self@;
        let ghost mut pieces: Seq<Seq<Seq<char>>> = Seq::empty();
        let mut text = String::new();
        let mut row: usize = 0;
        while row < rows
            invariant
                self.wf(),
                cells == self@,
                rows == cells.len(),
                cols == grid_cols(self.grid),
                row <= rows,
                cast(cells.take(row as int), pieces),
                text@ == typeset(pieces),
            decreases rows - row,
        {
            let ghost mut line: Seq<Seq<char>> = Seq::empty();
            let ghost above = text@;
            text.push('\n');
            let mut col: usize = 0;
            while col < cols
                invariant
                    self.wf(),
                    cells == self@,
                    rows == cells.len(),
                    cols == grid_cols(self.grid),
                    row < rows,
                    col <= cols,
                    line.len() == col,
                    forall|c: int| 0 <= c < col ==> shows(cells[row as int][c], #[trigger] line[c]),
                    text@ == above + seq!['\n'] + concat(line),
                decreases cols - col,
            {
                if let Some(placeholder) = grid_get(&self.grid, row, col) {
                    let piece = theme.render(placeholder);
                    text.append(piece.as_str());
                    proof {
                        let longer = line.push(piece@);
                        assert(longer.drop_last() =~= line);
                        line = longer;
                    }
                }
                col = col + 1;
            }
            proof {
                let taller = pieces.push(line);
                assert(taller.drop_last() =~= pieces);
                assert forall|r: int| 0 <= r < row + 1 implies (#[trigger] taller[r]).len()
                    == cells.take(row + 1)[r].len() by {
                    if r < row {
                        assert(taller[r] == pieces[r]);
                        assert(cells.take(row as int)[r] == cells[r]);
                    }
                }
                assert forall|r: int, c: int|
                    0 <= r < row + 1 && 0 <= c < cells.take(row + 1)[r].len() implies shows(
                    cells.take(row + 1)[r][c],
                    #[trigger] taller[r][c],
                ) by {
                    if r < row {
                        assert(taller[r] == pieces[r]);
                        assert(cells.take(row as int)[r] == cells[r]);
                    }
                }
                pieces = taller;
            }
            row = row + 1;
        }
        assert(cells.take(row as int) =~= cells);
        text
    }

    /// Lays all the canvases of a list over each other, from the first to the
    /// last. An empty list gives the default canvas.
    pub fn _overlay_all(all: Vec<Template>) -> (merged: Template)
        requires
            forall|i: int| 0 <= i < all.len() ==> (#[trigger] all[i]).wf(),
        ensures
            merged.wf(),
            merged@ == overlay_all_of(views(all@)),
    {
        let ghost whole = all@;
        let mut rest = all;
        if rest.len() == 0 {
            return Template::default();
        }
        let mut merged = rest.remove(0);
        let ghost mut done: int = 1;
        proof {
            assert(views(whole.take(1)).drop_last() =~= Seq::empty());
        }
        while rest.len() > 0
            invariant
                1 <= done <= whole.len(),
                rest@ == whole.skip(done),
                forall|i: int| 0 <= i < whole.len() ==> (#[trigger] whole[i]).wf(),
                merged.wf(),
                merged@ == overlay_all_of(views(whole.take(done))),
            decreases rest.len(),
        {
            let next = rest.remove(0);
            proof {
                assert(next == whole[done]);
                assert(views(whole.take(done + 1)).drop_last() =~= views(whole.take(done)));
                assert(rest@ =~= whole.skip(done + 1));
                done = done + 1;
            }
            merged = merged.overlay(next);
        }
        proof {
            assert(whole.take(done) =~= whole);
        }
        merged
    }
}

/// The cell matrices of a list of canvases.
pub open spec fn views(templates: Seq<Template>) -> Seq<Seq<Seq<PlaceHolder>>> {
    Seq::new(templates.len(), |i: int| templates[i]@)
}

/// The overlay of a list of matrices, from the first to the last; the
/// matrix of one empty cell if the list is empty.
pub open spec fn overlay_all_of(all: Seq<Seq<Seq<PlaceHolder>>>) -> Seq<Seq<PlaceHolder>>
    decreases all.len(),
{
    if all.len() == 0 {
        seq![seq![PlaceHolder::Empty]]
    } else if all.len() == 1 {
        all[0]
    } else {
        overlay_of(overlay_all_of(all.drop_last()), all.last())
    }
}

impl Default for Template {
    /// A canvas of one empty cell.
    fn default() -> (template: Template)
        ensures
            template.wf(),
            template@ == seq![seq![PlaceHolder::Empty]],
    {
        let grid = grid_init(1, 1, PlaceHolder::Empty);
        assert(grid_rows(grid) =~~= seq![seq![PlaceHolder::Empty]]);
        Template { grid }
    }
}

/// Laying a drawing over a blank canvas that is at least as large, or the
/// canvas over the drawing, shows the drawing unchanged in the lower left
/// corner of the canvas, and empty space elsewhere.
pub proof fn lemma_overlay_onto_blank(canvas: Seq<Seq<PlaceHolder>>, drawing: Seq<Seq<PlaceHolder>>)
    requires
        well_formed(canvas),
        well_formed(drawing),
        blank(canvas),
        canvas.len() >= drawing.len(),
        breadth(canvas) >= breadth(drawing),
    ensures
        overlay_of(canvas, drawing) == stamped(drawing, canvas.len(), breadth(canvas)),
        overlay_of(drawing, canvas) == stamped(drawing, canvas.len(), breadth(canvas)),
{
    let rows = canvas.len();
    let cols = breadth(canvas);
    let diff = rows - drawing.len();
    let expected = stamped(drawing, rows, cols);
    assert forall|r: int, c: int| 0 <= r < rows && 0 <= c < cols implies cell_at(canvas, r, c)
        == PlaceHolder::Empty by {
        assert(canvas[r].len() == cols);
        assert(canvas[r][c] == PlaceHolder::Empty);
    }
    assert forall|r: int, c: int| 0 <= r < rows && 0 <= c < cols implies #[trigger] overlay_of(
        canvas,
        drawing,
    )[r][c] == expected[r][c] && #[trigger] overlay_of(drawing, canvas)[r][c] == expected[r][c] by {
        lemma_merge_empty(cell_at(drawing, r - diff, c));
        assert(cell_at(canvas, r, c) == PlaceHolder::Empty);
        if 0 <= r - diff {
            assert(drawing[r - diff].len() == breadth(drawing));
        }
    }
    assert(overlay_of(canvas, drawing) =~~= expected);
    assert(overlay_of(drawing, canvas) =~~= expected);
}

/// An overlay does not depend on which canvas is given first.
pub proof fn lemma_overlay_commutative(a: Seq<Seq<PlaceHolder>>, b: Seq<Seq<PlaceHolder>>)
    requires
        well_formed(a),
        well_formed(b),
    ensures
        overlay_of(a, b) == overlay_of(b, a),
{
    let rows = if a.len() > b.len() {
        a.len()
    } else {
        b.len()
    };
    let cols = if breadth(a) > breadth(b) {
        breadth(a)
    } else {
        breadth(b)
    };
    assert forall|r: int, c: int| 0 <= r < rows && 0 <= c < cols implies #[trigger] overlay_of(
        a,
        b,
    )[r][c] == overlay_of(b, a)[r][c] by {
        if a.len() == b.len() {
            assert(a[r].len() == breadth(a));
            assert(b[r].len() == breadth(b));
            lemma_merge_commutative(cell_at(a, r, c), cell_at(b, r, c));
            lemma_merge_empty(cell_at(a, r, c));
            lemma_merge_empty(cell_at(b, r, c));
        }
    }
    assert(overlay_of(a, b) =~~= overlay_of(b, a));
}

/// In a grid that is in order, the first row is as long as the number of
/// columns says.
pub proof fn lemma_grid_breadth(g: Grid<PlaceHolder>)
    requires
        grid_wf(g),
    ensures
        breadth(grid_rows(g)) == grid_cols(g),
        well_formed(grid_rows(g)),
{
}

} // verus!
