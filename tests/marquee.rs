use marquee::animate::{FrameState, FRAME_MS, KEY_FASTER, KEY_QUIT, KEY_SLOWER};
use marquee::compose::{classify, compose_line, load_tables, Alphabet, DisplayBuffer, GlyphTables, Slot};
use marquee::gate::{filter_line, keep_supported};
use marquee::glyph::{parse_config_bytes, GlyphError, GlyphTable};
use marquee::render::{display, frame_lines, SEPARATOR_LEN, W_FRAMES};

const H: usize = 5;
const W: usize = 6;

fn ink(k: usize, r: usize, c: usize) -> bool {
    (r * W + c) % (k + 2) == 0
}

/// A blob of `n` glyphs laid side by side, one text line per row.
fn blob(n: usize, eol: &str) -> Vec<u8> {
    let mut s = String::new();
    for r in 0..H {
        for k in 0..n {
            for c in 0..W {
                s.push(if ink(k, r, c) { '#' } else { ' ' });
            }
        }
        s.push_str(eol);
    }
    s.into_bytes()
}

fn tables() -> GlyphTables {
    load_tables(&blob(10, "\n"), &blob(26, "\n"), &blob(32, "\r\n")).unwrap()
}

fn glyph_row(t: &GlyphTable, k: usize, r: usize) -> String {
    (0..W).map(|c| t.cell(r, k * W + c)).collect()
}

fn buf_row(b: &DisplayBuffer, r: usize) -> String {
    (0..b.cols()).map(|c| b.cell(r, c)).collect()
}

fn frame(b: &DisplayBuffer, offset: usize, count: usize) -> Vec<String> {
    display(b, offset, count).into_iter().map(|l| l.into_iter().collect()).collect()
}

fn compose(t: &GlyphTables, text: &str) -> DisplayBuffer {
    compose_line(t, &filter_line(text))
}

#[test]
fn parse_shapes_of_each_alphabet() {
    for n in [10usize, 26, 32] {
        let t = parse_config_bytes(&blob(n, "\n"), H, W * n).unwrap();
        assert_eq!(t.rows(), 5);
        assert_eq!(t.cols(), 6 * n);
    }
}

#[test]
fn parse_reads_row_major_and_skips_other_bytes() {
    let bytes = b"# x\r\n #\n\t".to_vec();
    let t = parse_config_bytes(&bytes, 2, 2).unwrap();
    assert_eq!(t.cell(0, 0), '#');
    assert_eq!(t.cell(0, 1), ' ');
    assert_eq!(t.cell(1, 0), ' ');
    assert_eq!(t.cell(1, 1), '#');
    let more = b"# x\r\n #\n\t##".to_vec();
    assert!(parse_config_bytes(&more, 2, 2).is_err());
}

#[test]
fn parse_shape_mismatch() {
    let mut bytes = blob(10, "\n");
    bytes.pop();
    bytes.pop();
    assert_eq!(parse_config_bytes(&bytes, H, W * 10).err(), Some(GlyphError::ShapeMismatch));
    assert_eq!(parse_config_bytes(b"", 1, 1).err(), Some(GlyphError::ShapeMismatch));
    assert!(parse_config_bytes(b"", 0, 7).is_ok());
}

#[test]
fn load_tables_checks_every_blob() {
    let t = tables();
    assert_eq!(t.digits.cols(), 60);
    assert_eq!(t.latin.cols(), 156);
    assert_eq!(t.cyrillic.cols(), 192);
    let bad = load_tables(&blob(10, "\n"), &blob(25, "\n"), &blob(32, "\n"));
    assert_eq!(bad.err(), Some(GlyphError::ShapeMismatch));
}

#[test]
fn classify_by_code_point() {
    assert_eq!(classify('0'), Slot::Glyph(Alphabet::Digit, 0));
    assert_eq!(classify('9'), Slot::Glyph(Alphabet::Digit, 9));
    assert_eq!(classify('A'), Slot::Glyph(Alphabet::Latin, 0));
    assert_eq!(classify('Z'), Slot::Glyph(Alphabet::Latin, 25));
    assert_eq!(classify('\u{410}'), Slot::Glyph(Alphabet::Cyrillic, 0));
    assert_eq!(classify('\u{42F}'), Slot::Glyph(Alphabet::Cyrillic, 31));
    assert_eq!(classify(' '), Slot::Blank);
    assert_eq!(classify('a'), Slot::Unknown);
    assert_eq!(classify('\u{401}'), Slot::Unknown);
}

#[test]
fn filter_uppercases_and_drops_unsupported() {
    assert_eq!(filter_line(""), Vec::<char>::new());
    assert_eq!(filter_line("12"), vec!['1', '2']);
    assert_eq!(filter_line("ab"), vec!['A', 'B']);
    assert_eq!(filter_line("1a"), vec!['1', 'A']);
    assert_eq!(filter_line("!"), Vec::<char>::new());
    assert_eq!(filter_line("a b\t!\n"), vec!['A', ' ', 'B']);
    assert_eq!(filter_line("\u{44F}\u{e9}"), vec!['\u{42F}', '\u{c9}']);
    assert_eq!(keep_supported("a-1 "), vec!['a', '1', ' ']);
}

#[test]
fn empty_line_gives_empty_buffer_and_empty_frame() {
    let t = tables();
    let b = compose(&t, "");
    assert_eq!(b.rows(), 5);
    assert_eq!(b.cols(), 0);
    let f = frame(&b, 0, W_FRAMES);
    assert_eq!(f, vec![String::new(); 5]);
    let mut s = FrameState::new();
    for _ in 0..3 {
        s.step(b.cols(), None);
        assert_eq!(s.frame_offset, 0);
    }
    assert_eq!(s.speed, 2);
}

#[test]
fn bang_gives_empty_buffer() {
    let t = tables();
    let b = compose(&t, "!");
    assert_eq!(b.rows(), 5);
    assert_eq!(b.cols(), 0);
}

#[test]
fn single_letter_cycles_in_window() {
    let t = tables();
    let b = compose(&t, "A");
    assert_eq!((b.rows(), b.cols()), (5, 6));
    let f = frame(&b, 0, W_FRAMES);
    assert_eq!(f.len(), 5);
    for r in 0..H {
        assert_eq!(f[r].chars().count(), 24);
        assert_eq!(f[r], glyph_row(&t.latin, 0, r).repeat(4));
    }
}

#[test]
fn digit_then_letter_slots() {
    let t = tables();
    let b = compose(&t, "1a");
    assert_eq!(b.cols(), 12);
    for r in 0..H {
        let row = buf_row(&b, r);
        assert_eq!(row[..6], glyph_row(&t.digits, 1, r));
        assert_eq!(row[6..], glyph_row(&t.latin, 0, r));
    }
}

#[test]
fn space_between_letters_is_blank_block() {
    let t = tables();
    let b = compose(&t, "A B");
    assert_eq!((b.rows(), b.cols()), (5, 18));
    for r in 0..H {
        let row = buf_row(&b, r);
        assert_eq!(row[..6], glyph_row(&t.latin, 0, r));
        assert_eq!(&row[6..12], "      ");
        assert_eq!(row[12..], glyph_row(&t.latin, 1, r));
    }
}

#[test]
fn cyrillic_and_unknown_slots() {
    let t = tables();
    let b = compose_line(&t, &vec!['\u{42F}', '\u{c9}', '9']);
    assert_eq!(b.cols(), 18);
    for r in 0..H {
        let row: Vec<char> = buf_row(&b, r).chars().collect();
        let got: String = row[..6].iter().collect();
        assert_eq!(got, glyph_row(&t.cyrillic, 31, r));
        let got: String = row[6..12].iter().collect();
        assert_eq!(got, "______");
        let got: String = row[12..].iter().collect();
        assert_eq!(got, glyph_row(&t.digits, 9, r));
    }
}

#[test]
fn zero_renders_first_digit_glyph() {
    let t = tables();
    let b = compose(&t, "0");
    let f = frame(&b, 0, 1);
    for r in 0..H {
        assert_eq!(f[r], glyph_row(&t.digits, 0, r));
    }
}

#[test]
fn every_offset_gives_five_rows_of_24() {
    let t = tables();
    let b = compose(&t, "HI 42");
    for o in 0..b.cols() {
        let f = frame(&b, o, W_FRAMES);
        assert_eq!(f.len(), 5);
        for row in &f {
            assert_eq!(row.chars().count(), 24);
        }
    }
}

#[test]
fn window_reads_cyclically() {
    let t = tables();
    let b = compose(&t, "AB");
    let f = frame(&b, 9, 1);
    for r in 0..H {
        let row = buf_row(&b, r);
        let expected = format!("{}{}", &row[9..12], &row[0..3]);
        assert_eq!(f[r], expected);
    }
}

#[test]
fn offset_plus_width_renders_the_same() {
    let t = tables();
    let b = compose(&t, "XYZ");
    let cols = b.cols();
    for o in 0..cols {
        assert_eq!(frame(&b, o, W_FRAMES), frame(&b, o + cols, W_FRAMES));
    }
}

#[test]
fn full_advance_returns_to_same_frame() {
    let t = tables();
    let b = compose(&t, "Q7");
    let cols = b.cols();
    let mut s = FrameState::new();
    s.step(cols, None);
    s.step(cols, None);
    let start = s.frame_offset;
    let first = frame(&b, start, W_FRAMES);
    for _ in 0..cols {
        assert!(s.frame_offset < cols);
        s.step(cols, None);
    }
    assert_eq!(s.frame_offset, start);
    assert_eq!(frame(&b, s.frame_offset, W_FRAMES), first);
}

#[test]
fn offset_wraps_at_width() {
    let mut s = FrameState::new();
    s.step(2, None);
    assert_eq!(s.frame_offset, 1);
    s.step(2, None);
    assert_eq!(s.frame_offset, 0);
}

#[test]
fn arrows_cap_and_floor_speed_and_q_quits() {
    let mut s = FrameState::new();
    assert_eq!((s.frame_offset, s.speed, s.quit), (0, 2, false));
    for _ in 0..12 {
        s.step(6, Some(KEY_FASTER));
    }
    assert_eq!(s.speed, 10);
    let mut s = FrameState::new();
    for _ in 0..20 {
        s.step(6, Some(KEY_SLOWER));
    }
    assert_eq!(s.speed, 1);
    assert!(!s.quit);
    s.step(6, Some(KEY_QUIT));
    assert!(s.quit);
}

#[test]
fn speed_stays_in_range_for_mixed_keys() {
    let mut s = FrameState::new();
    let keys = [67u8, 67, 68, b'x', 68, 68, 68, b'C', b'D', 67, 0];
    for i in 0..200usize {
        let k = keys[(i * 7 + i / 3) % keys.len()];
        s.step(18, if i % 5 == 0 { None } else { Some(k) });
        assert!((1..=10).contains(&s.speed));
        assert!(s.frame_offset < 18);
    }
}

#[test]
fn other_bytes_leave_state_alone() {
    let mut s = FrameState::new();
    s.on_key(Some(b'x'));
    s.on_key(None);
    assert_eq!((s.speed, s.quit), (2, false));
}

#[test]
fn delay_is_frame_period_over_speed() {
    let mut s = FrameState::new();
    assert_eq!(FRAME_MS, 166);
    assert_eq!(s.delay_ms(), 83);
    s.speed = 1;
    assert_eq!(s.delay_ms(), 166);
    s.speed = 10;
    assert_eq!(s.delay_ms(), 16);
    s.speed = 7;
    assert_eq!(s.delay_ms(), 23);
}

fn text(lines: Vec<Vec<char>>) -> Vec<String> {
    lines.into_iter().map(|l| l.into_iter().collect()).collect()
}

#[test]
fn empty_line_frame_has_status_lines() {
    let t = tables();
    let b = compose(&t, "");
    let s = FrameState::new();
    let f = text(frame_lines(&b, s.frame_offset, W_FRAMES, s.speed));
    assert_eq!(f.len(), 7);
    for r in 0..H {
        assert_eq!(f[r], "");
    }
    assert_eq!(f[5], "-".repeat(SEPARATOR_LEN));
    assert_eq!(f[6], "Speed = 2 sym/s");
}

#[test]
fn frame_lines_carry_window_and_speed() {
    let t = tables();
    let b = compose(&t, "A");
    let f = text(frame_lines(&b, 3, W_FRAMES, 10));
    let rows = frame(&b, 3, W_FRAMES);
    assert_eq!(f[..5], rows[..]);
    assert_eq!(f[6], "Speed = 10 sym/s");
    let f = text(frame_lines(&b, 0, 1, 1207));
    assert_eq!(f[6], "Speed = 1207 sym/s");
}
