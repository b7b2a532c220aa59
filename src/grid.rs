use vstd::prelude::*;
use ndarray::{Array2, Axis, Slice};

verus! {

/// A rectangular grid of characters, held in an `ndarray::Array2<char>`.
#[verifier::external_body]
pub struct Grid {
    cells: Array2<char>,
}

#[verifier::external_type_specification]
#[verifier::external_body]
pub struct ExShapeError(ndarray::ShapeError);

/// The rows of a grid, top to bottom, each row left to right.
pub uninterp spec fn grid_cells(g: Grid) -> Seq<Seq<char>>;

/// A sequence of `h` rows of `w` characters each.
pub open spec fn is_shape(rows: Seq<Seq<char>>, h: nat, w: nat) -> bool {
    &&& rows.len() == h
    &&& forall|r: int| 0 <= r < h ==> #[trigger] rows[r].len() == w
}

/// `v` read in row-major order as `h` rows of `w` characters.
pub open spec fn rows_of(v: Seq<char>, h: nat, w: nat) -> Seq<Seq<char>> {
    Seq::new(h, |r: int| Seq::new(w, |c: int| v[r * w + c]))
}

/// `h` rows of `w` copies of `ch`.
pub open spec fn filled(h: nat, w: nat, ch: char) -> Seq<Seq<char>> {
    Seq::new(h, |r: int| Seq::new(w, |c: int| ch))
}

/// Relies on `Array2::from_shape_vec`: with the default (row-major) layout,
/// and axis lengths that fit `isize`, it succeeds exactly when the vector
/// holds `h * w` elements, and the cells are the vector's elements in
/// row-major order.
#[verifier::external_body]
pub(crate) fn grid_from_vec(h: usize, w: usize, v: Vec<char>) -> (r: Result<Grid, ndarray::ShapeError>)
    requires
        h <= isize::MAX,
        w <= isize::MAX,
    ensures
        v@.len() == h * w <==> r is Ok,
        r matches Ok(g) ==> grid_cells(g) == rows_of(v@, h as nat, w as nat),
{
    match Array2::from_shape_vec((h, w), v) {
        Ok(cells) => Ok(Grid { cells }),
        Err(e) => Err(e),
    }
}

/// Relies on `Array2::from_elem`: every cell holds `ch`. It panics when the
/// product of the non-zero axis lengths overflows `isize`.
#[verifier::external_body]
pub(crate) fn grid_filled(h: usize, w: usize, ch: char) -> (g: Grid)
    requires
        h <= isize::MAX,
        w <= isize::MAX,
        h * w <= isize::MAX,
    ensures
        grid_cells(g) == filled(h as nat, w as nat, ch),
{
    Grid { cells: Array2::from_elem((h, w), ch) }
}

/// Relies on ndarray's `Index` on `[usize; 2]`: the cell at row `r`, column `c`.
#[verifier::external_body]
pub(crate) fn cell_at(g: &Grid, r: usize, c: usize) -> (ch: char)
    requires
        r < grid_cells(*g).len(),
        c < grid_cells(*g)[r as int].len(),
    ensures
        ch == grid_cells(*g)[r as int][c as int],
{
    g.cells[[r, c]]
}

/// Relies on `ArrayBase::nrows`: the number of rows.
#[verifier::external_body]
pub(crate) fn grid_nrows(g: &Grid) -> (h: usize)
    ensures
        h == grid_cells(*g).len(),
{
    g.cells.nrows()
}

/// Relies on `ArrayBase::ncols`: the length of every row.
#[verifier::external_body]
pub(crate) fn grid_ncols(g: &Grid) -> (w: usize)
    ensures
        forall|r: int| 0 <= r < grid_cells(*g).len() ==> #[trigger] grid_cells(*g)[r].len() == w,
{
    g.cells.ncols()
}

/// Relies on `ArrayBase::assign`, applied to the column range
/// `[dst_col, dst_col + w)` of `dst`, from the column range `[src_col, src_col + w)`
/// of `src` (both taken with `slice_axis` along the columns): those cells of
/// every row are replaced, the others kept. The shapes agree, so nothing is
/// broadcast and nothing panics.
#[verifier::external_body]
pub(crate) fn assign_columns(dst: &mut Grid, dst_col: usize, src: &Grid, src_col: usize, w: usize)
    requires
        grid_cells(*old(dst)).len() > 0,
        dst_col + w <= usize::MAX,
        src_col + w <= usize::MAX,
        forall|r: int| 0 <= r < grid_cells(*old(dst)).len() ==>
            dst_col + w <= #[trigger] grid_cells(*old(dst))[r].len(),
        grid_cells(*src).len() == grid_cells(*old(dst)).len(),
        forall|r: int| 0 <= r < grid_cells(*src).len() ==> src_col + w <= #[trigger] grid_cells(*src)[r].len(),
    ensures
        grid_cells(*final(dst)).len() == grid_cells(*old(dst)).len(),
        forall|r: int| 0 <= r < grid_cells(*old(dst)).len() ==> #[trigger] grid_cells(*final(dst))[r]
            == Seq::new(grid_cells(*old(dst))[r].len(), |c: int|
                if dst_col <= c < dst_col + w {
                    grid_cells(*src)[r][src_col + c - dst_col]
                } else {
                    grid_cells(*old(dst))[r][c]
                }),
{
    dst.cells
        .slice_axis_mut(Axis(1), Slice::from(dst_col..dst_col + w))
        .assign(&src.cells.slice_axis(Axis(1), Slice::from(src_col..src_col + w)));
}

} // verus!
