use vstd::prelude::*;
use crate::grid::{Grid, grid_cells, grid_filled, grid_ncols, assign_columns, is_shape};
use crate::glyph::{
    GlyphTable, GlyphError, parse_config_bytes, ink_of, SYM_H, SYM_W, DIGIT_COUNT, LATIN_COUNT,
    CYRILLIC_COUNT,
};

verus! {

/// Code point of the first decimal digit, `0`.
pub const DIGIT_BASE: u32 = 0x30;

/// Code point of the first Latin uppercase letter, `A`.
pub const LATIN_BASE: u32 = 0x41;

/// Code point of the first Cyrillic uppercase letter, `А` (U+0410).
pub const CYRILLIC_BASE: u32 = 0x410;

/// The glyph tables of the three alphabets.
pub struct GlyphTables {
    pub digits: GlyphTable,
    pub latin: GlyphTable,
    pub cyrillic: GlyphTable,
}

impl GlyphTables {
    /// Each table has the glyph height and one glyph width per letter of its alphabet.
    pub open spec fn wf(&self) -> bool {
        &&& is_shape(self.digits@, SYM_H as nat, (SYM_W * DIGIT_COUNT) as nat)
        &&& is_shape(self.latin@, SYM_H as nat, (SYM_W * LATIN_COUNT) as nat)
        &&& is_shape(self.cyrillic@, SYM_H as nat, (SYM_W * CYRILLIC_COUNT) as nat)
    }
}

/// Builds the digit, Latin and Cyrillic tables from their blobs.
pub fn load_tables(digits: &[u8], latin: &[u8], cyrillic: &[u8]) -> (r: Result<GlyphTables, GlyphError>)
    ensures
        r is Ok <==> (ink_of(digits@).len() == SYM_H * SYM_W * DIGIT_COUNT
            && ink_of(latin@).len() == SYM_H * SYM_W * LATIN_COUNT
            && ink_of(cyrillic@).len() == SYM_H * SYM_W * CYRILLIC_COUNT),
        r matches Ok(t) ==> t.wf(),
        r matches Ok(t) ==> t.digits@ == crate::grid::rows_of(ink_of(digits@), SYM_H as nat, (SYM_W * DIGIT_COUNT) as nat),
        r matches Ok(t) ==> t.latin@ == crate::grid::rows_of(ink_of(latin@), SYM_H as nat, (SYM_W * LATIN_COUNT) as nat),
        r matches Ok(t) ==> t.cyrillic@ == crate::grid::rows_of(ink_of(cyrillic@), SYM_H as nat, (SYM_W * CYRILLIC_COUNT) as nat),
        r matches Err(e) ==> e == GlyphError::ShapeMismatch,
{
    let d = parse_config_bytes(digits, SYM_H, SYM_W * DIGIT_COUNT);
    let l = parse_config_bytes(latin, SYM_H, SYM_W * LATIN_COUNT);
    let c = parse_config_bytes(cyrillic, SYM_H, SYM_W * CYRILLIC_COUNT);
    match (d, l, c) {
        (Ok(digits), Ok(latin), Ok(cyrillic)) => Ok(GlyphTables { digits, latin, cyrillic }),
        _ => Err(GlyphError::ShapeMismatch),
    }
}

/// The three alphabets that have glyphs.
#[derive(Debug, Clone, Copy, PartialEq, Eq, Structural)]
pub enum Alphabet {
    Digit,
    Latin,
    Cyrillic,
}

/// What fills the slot of one character of the line.
#[derive(Debug, Clone, Copy, PartialEq, Eq, Structural)]
pub enum Slot {
    /// The glyph at this index of the alphabet's table.
    Glyph(Alphabet, usize),
    /// A block of spaces.
    Blank,
    /// Nothing: the slot keeps its initial fill.
    Unknown,
}

/// The slot a character falls in, by code point.
pub open spec fn slot_of(ch: char) -> Slot {
    let c = ch as u32;
    if DIGIT_BASE <= c < DIGIT_BASE + DIGIT_COUNT as u32 {
        Slot::Glyph(Alphabet::Digit, (c - DIGIT_BASE) as usize)
    } else if LATIN_BASE <= c < LATIN_BASE + LATIN_COUNT as u32 {
        Slot::Glyph(Alphabet::Latin, (c - LATIN_BASE) as usize)
    } else if CYRILLIC_BASE <= c < CYRILLIC_BASE + CYRILLIC_COUNT as u32 {
        Slot::Glyph(Alphabet::Cyrillic, (c - CYRILLIC_BASE) as usize)
    } else if c == 0x20 {
        Slot::Blank
    } else {
        Slot::Unknown
    }
}

/// Classifies one character of the line.
pub fn classify(ch: char) -> (s: Slot)
    ensures
        s == slot_of(ch),
{
    let c = ch as u32;
    if DIGIT_BASE <= c && c < DIGIT_BASE + DIGIT_COUNT as u32 {
        Slot::Glyph(Alphabet::Digit, (c - DIGIT_BASE) as usize)
    } else if LATIN_BASE <= c && c < LATIN_BASE + LATIN_COUNT as u32 {
        Slot::Glyph(Alphabet::Latin, (c - LATIN_BASE) as usize)
    } else if CYRILLIC_BASE <= c && c < CYRILLIC_BASE + CYRILLIC_COUNT as u32 {
        Slot::Glyph(Alphabet::Cyrillic, (c - CYRILLIC_BASE) as usize)
    } else if c == 0x20 {
        Slot::Blank
    } else {
        Slot::Unknown
    }
}


/// The character at row `r`, column `j` of the slot that `ch` fills.
pub open spec fn glyph_cell(t: &GlyphTables, ch: char, r: int, j: int) -> char {
    match slot_of(ch) {
        Slot::Glyph(Alphabet::Digit, k) => t.digits@[r][k * SYM_W + j],
        Slot::Glyph(Alphabet::Latin, k) => t.latin@[r][k * SYM_W + j],
        Slot::Glyph(Alphabet::Cyrillic, k) => t.cyrillic@[r][k * SYM_W + j],
        Slot::Blank => ' ',
        Slot::Unknown => '_',
    }
}

/// The buffer for `line` once its first `done` slots have been written; the
/// remaining cells still hold the initial `_`.
pub open spec fn composed_upto(t: &GlyphTables, line: Seq<char>, done: nat) -> Seq<Seq<char>> {
    Seq::new(
        SYM_H as nat,
        |r: int|
            Seq::new(
                (SYM_W * line.len()) as nat,
                |c: int|
                    if c < SYM_W * done {
                        glyph_cell(t, line[c / SYM_W as int], r, c % SYM_W as int)
                    } else {
                        '_'
                    },
            ),
    )
}

/// The buffer for `line`: the slot of the character at position `i` takes
/// columns `[i * SYM_W, (i + 1) * SYM_W)` of every row.
pub open spec fn composed(t: &GlyphTables, line: Seq<char>) -> Seq<Seq<char>> {
    composed_upto(t, line, line.len())
}

/// The width of a grid given as rows: the length of its first row.
pub open spec fn width_of(rows: Seq<Seq<char>>) -> nat {
    if rows.len() > 0 { rows[0].len() } else { 0 }
}

/// The composed bitmap of a whole line.
pub struct DisplayBuffer {
    grid: Grid,
}

impl View for DisplayBuffer {
    type V = Seq<Seq<char>>;

    closed spec fn view(&self) -> Seq<Seq<char>> {
        grid_cells(self.grid)
    }
}

impl DisplayBuffer {
    /// `SYM_H` rows of equal length.
    pub open spec fn wf(&self) -> bool {
        is_shape(self@, SYM_H as nat, width_of(self@))
    }

    /// Number of columns.
    pub fn cols(&self) -> (w: usize)
        requires
            self.wf(),
        ensures
            w == width_of(self@),
    {
        grid_ncols(&self.grid)
    }

    /// Number of rows.
    pub fn rows(&self) -> (h: usize)
        requires
            self.wf(),
        ensures
            h == self@.len(),
            h == SYM_H,
    {
        SYM_H
    }

    /// The cell at row `r`, column `c`.
    pub fn cell(&self, r: usize, c: usize) -> (ch: char)
        requires
            self.wf(),
            r < SYM_H,
            c < width_of(self@),
        ensures
            ch == self@[r as int][c as int],
    {
        crate::grid::cell_at(&self.grid, r, c)
    }
}

proof fn lemma_slot_column(i: int, c: int)
    requires
        0 <= i,
        i * 6 <= c < i * 6 + 6,
    ensures
        c / 6 == i,
        c % 6 == c - i * 6,
{
    assert(c / 6 == i && c % 6 == c - i * 6) by (nonlinear_arith)
        requires
            0 <= i,
            i * 6 <= c < i * 6 + 6,
    ;
}

/// Copies columns `[sym_col, sym_col + SYM_W)` of `sym` into slot `pos` of
/// `display`, that is columns `[pos * SYM_W, (pos + 1) * SYM_W)`, in every row.
pub fn insert_symbol(display: &mut Grid, sym: &Grid, sym_col: usize, pos: usize)
    requires
        is_shape(grid_cells(*old(display)), SYM_H as nat, width_of(grid_cells(*old(display)))),
        (pos + 1) * SYM_W <= width_of(grid_cells(*old(display))),
        (pos + 1) * SYM_W <= usize::MAX,
        is_shape(grid_cells(*sym), SYM_H as nat, width_of(grid_cells(*sym))),
        sym_col + SYM_W <= width_of(grid_cells(*sym)),
        sym_col + SYM_W <= usize::MAX,
    ensures
        grid_cells(*final(display)).len() == SYM_H,
        forall|r: int| 0 <= r < SYM_H ==> #[trigger] grid_cells(*final(display))[r]
            == Seq::new(grid_cells(*old(display))[r].len(), |c: int|
                if pos * SYM_W <= c < (pos + 1) * SYM_W {
                    grid_cells(*sym)[r][sym_col + c - pos * SYM_W]
                } else {
                    grid_cells(*old(display))[r][c]
                }),
{
    assign_columns(display, pos * SYM_W, sym, sym_col, SYM_W);
}

/// Composes the bitmap of `line`: each character's slot holds its digit, Latin
/// or Cyrillic glyph, a block of spaces for a space, and the initial `_` for
/// any other character.
pub fn compose_line(tables: &GlyphTables, line: &Vec<char>) -> (d: DisplayBuffer)
    requires
        tables.wf(),
        line@.len() * SYM_H * SYM_W <= isize::MAX,
    ensures
        d.wf(),
        d@ == composed(tables, line@),
        is_shape(d@, SYM_H as nat, (SYM_W * line@.len()) as nat),
{
    let n = line.len();
    let width = n * SYM_W;
    let mut grid = grid_filled(SYM_H, width, '_');
    let blank = grid_filled(SYM_H, SYM_W, ' ');
    proof {
        let start = composed_upto(tables, line@, 0);
        assert forall|r: int| 0 <= r < SYM_H implies #[trigger] grid_cells(grid)[r] =~= start[r] by {}
        assert(grid_cells(grid) =~= start);
    }
    for i in 0..n
        invariant
            tables.wf(),
            n == line@.len(),
            width == n * SYM_W,
            grid_cells(blank) == crate::grid::filled(SYM_H as nat, SYM_W as nat, ' '),
            grid_cells(grid) == composed_upto(tables, line@, i as nat),
    {
        let ch = line[i];
        let slot = classify(ch);
        match slot {
            Slot::Glyph(Alphabet::Digit, k) => {
                insert_symbol(&mut grid, tables.digits.grid(), k * SYM_W, i);
            },
            Slot::Glyph(Alphabet::Latin, k) => {
                insert_symbol(&mut grid, tables.latin.grid(), k * SYM_W, i);
            },
            Slot::Glyph(Alphabet::Cyrillic, k) => {
                insert_symbol(&mut grid, tables.cyrillic.grid(), k * SYM_W, i);
            },
            Slot::Blank => {
                insert_symbol(&mut grid, &blank, 0, i);
            },
            Slot::Unknown => {},
        }
        proof {
            let next = composed_upto(tables, line@, (i + 1) as nat);
            assert forall|r: int| 0 <= r < SYM_H implies #[trigger] grid_cells(grid)[r] =~= next[r] by {
                assert forall|c: int| 0 <= c < width implies grid_cells(grid)[r][c] == next[r][c] by {
                    if i * 6 <= c < i * 6 + 6 {
                        lemma_slot_column(i as int, c);
                    }
                }
            }
            assert(grid_cells(grid) =~= next);
        }
    }
    DisplayBuffer { grid }
}

} // verus!
