use vstd::prelude::*;
use crate::grid::{Grid, grid_cells, grid_from_vec, grid_nrows, grid_ncols, cell_at, is_shape, rows_of};

verus! {

/// Height of every glyph, in rows.
pub const SYM_H: usize = 5;

/// Width of every glyph, in columns.
pub const SYM_W: usize = 6;

/// Number of glyphs in the decimal digit table.
pub const DIGIT_COUNT: usize = 10;

/// Number of glyphs in the Latin uppercase table.
pub const LATIN_COUNT: usize = 26;

/// Number of glyphs in the Cyrillic uppercase table.
pub const CYRILLIC_COUNT: usize = 32;

/// Why a glyph table could not be built.
#[derive(Debug, Clone, Copy, PartialEq, Eq, Structural)]
pub enum GlyphError {
    /// The blob's ink bytes do not fill the declared shape exactly.
    ShapeMismatch,
}

/// A byte that is part of a glyph grid: `#` or a space.
pub open spec fn is_ink(b: u8) -> bool {
    b == 0x23u8 || b == 0x20u8
}

/// The character an ink byte stands for.
pub open spec fn ink_char(b: u8) -> char {
    if b == 0x23u8 { '#' } else { ' ' }
}

/// The ink bytes of a blob, in order, as characters; every other byte dropped.
pub open spec fn ink_of(bytes: Seq<u8>) -> Seq<char>
    decreases bytes.len(),
{
    if bytes.len() == 0 {
        Seq::empty()
    } else {
        let rest = ink_of(bytes.drop_last());
        if is_ink(bytes.last()) {
            rest.push(ink_char(bytes.last()))
        } else {
            rest
        }
    }
}

/// An immutable grid of glyphs laid side by side.
pub struct GlyphTable {
    grid: Grid,
}

impl View for GlyphTable {
    type V = Seq<Seq<char>>;

    closed spec fn view(&self) -> Seq<Seq<char>> {
        grid_cells(self.grid)
    }
}

impl GlyphTable {
    /// The grid the table holds.
    pub(crate) fn grid(&self) -> (g: &Grid)
        ensures
            grid_cells(*g) == self@,
    {
        &self.grid
    }

    /// Number of rows.
    pub fn rows(&self) -> (h: usize)
        ensures
            h == self@.len(),
    {
        grid_nrows(&self.grid)
    }

    /// Number of columns: the length of every row.
    pub fn cols(&self) -> (w: usize)
        ensures
            forall|r: int| 0 <= r < self@.len() ==> #[trigger] self@[r].len() == w,
    {
        grid_ncols(&self.grid)
    }

    /// The cell at row `r`, column `c`.
    pub fn cell(&self, r: usize, c: usize) -> (ch: char)
        requires
            r < self@.len(),
            c < self@[r as int].len(),
        ensures
            ch == self@[r as int][c as int],
    {
        cell_at(&self.grid, r, c)
    }
}

/// Keeps the ink bytes of `bytes`, in order.
fn ink_chars(bytes: &[u8]) -> (v: Vec<char>)
    ensures
        v@ == ink_of(bytes@),
{
    let mut v: Vec<char> = Vec::new();
    let mut i: usize = 0;
    while i < bytes.len()
        invariant
            i <= bytes@.len(),
            v@ == ink_of(bytes@.subrange(0, i as int)),
        decreases bytes@.len() - i,
    {
        let b = bytes[i];
        proof {
            assert(bytes@.subrange(0, i + 1).drop_last() == bytes@.subrange(0, i as int));
        }
        if b == 0x23u8 {
            v.push('#');
        } else if b == 0x20u8 {
            v.push(' ');
        }
        i = i + 1;
    }
    proof {
        assert(bytes@.subrange(0, bytes@.len() as int) == bytes@);
    }
    v
}

/// Reads a glyph blob as a grid of `config_h` rows and `config_w` columns:
/// the ink bytes (`#` and space) in row-major order, all other bytes ignored.
pub fn parse_config_bytes(bytes: &[u8], config_h: usize, config_w: usize) -> (r: Result<GlyphTable, GlyphError>)
    requires
        config_h <= isize::MAX,
        config_w <= isize::MAX,
    ensures
        r is Ok <==> ink_of(bytes@).len() == config_h * config_w,
        r matches Ok(t) ==> t@ == rows_of(ink_of(bytes@), config_h as nat, config_w as nat),
        r matches Ok(t) ==> is_shape(t@, config_h as nat, config_w as nat),
        r matches Err(e) ==> e == GlyphError::ShapeMismatch,
{
    let ink = ink_chars(bytes);
    match grid_from_vec(config_h, config_w, ink) {
        Ok(grid) => Ok(GlyphTable { grid }),
        Err(_) => Err(GlyphError::ShapeMismatch),
    }
}

} // verus!
