//! A terminal marquee: a line of text is drawn with block glyphs five rows
//! high and six columns wide, and a window four glyphs wide scrolls across it.
//!
//! - `grid`: character grids held in `ndarray` arrays, and what is relied on of them.
//! - `glyph`: glyph tables read from their ASCII blobs.
//! - `gate`: the input line, uppercased and filtered.
//! - `compose`: the display buffer of a whole line.
//! - `render`: the rows of one frame, read cyclically from a column.
//! - `animate`: offset, speed and quit flag from frame to frame.
pub mod grid;
pub mod glyph;
pub mod gate;
pub mod compose;
pub mod render;
pub mod animate;
