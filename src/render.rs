use vstd::prelude::*;
use vstd::arithmetic::div_mod::{
    lemma_fundamental_div_mod, lemma_fundamental_div_mod_converse, lemma_mod_pos_bound,
};
use crate::compose::{DisplayBuffer, width_of};
use crate::glyph::{SYM_H, SYM_W};

verus! {

/// Number of glyph widths shown in one frame.
pub const W_FRAMES: usize = 4;

/// `n` characters of `row` read as a cyclic sequence from column `start`;
/// nothing when the row is empty.
pub open spec fn window(row: Seq<char>, start: int, n: nat) -> Seq<char> {
    if row.len() == 0 {
        Seq::empty()
    } else {
        Seq::new(n, |k: int| row[(start + k) % (row.len() as int)])
    }
}

/// The windows of every row of a grid, from column `start`, `n` characters wide.
pub open spec fn frame_of(rows: Seq<Seq<char>>, start: int, n: nat) -> Seq<Seq<char>> {
    Seq::new(rows.len(), |r: int| window(rows[r], start, n))
}

pub(crate) proof fn lemma_mod_step(a: int, m: int)
    requires
        0 <= a,
        0 < m,
    ensures
        (a + 1) % m == if a % m + 1 == m { 0 } else { a % m + 1 },
{
    lemma_fundamental_div_mod(a, m);
    lemma_mod_pos_bound(a, m);
    let q = a / m;
    if a % m + 1 == m {
        assert(a + 1 == (q + 1) * m + 0) by (nonlinear_arith)
            requires
                a == m * q + a % m,
                a % m + 1 == m,
        ;
        lemma_fundamental_div_mod_converse(a + 1, m, q + 1, 0);
    } else {
        assert(a + 1 == q * m + (a % m + 1)) by (nonlinear_arith)
            requires
                a == m * q + a % m,
        ;
        lemma_fundamental_div_mod_converse(a + 1, m, q, a % m + 1);
    }
}

pub(crate) proof fn lemma_mod_period(a: int, m: int)
    requires
        0 < m,
    ensures
        (a + m) % m == a % m,
{
    lemma_fundamental_div_mod(a, m);
    let q = a / m;
    assert(a + m == (q + 1) * m + a % m) by (nonlinear_arith)
        requires
            a == m * q + a % m,
    ;
    assert(0 <= a % m < m);
    lemma_fundamental_div_mod_converse(a + m, m, q + 1, a % m);
}

/// The rows of one frame: each row of `buf` read cyclically from column
/// `frame_start`, `count * SYM_W` characters long (empty rows when the buffer
/// has no columns).
pub fn display(buf: &DisplayBuffer, frame_start: usize, count: usize) -> (lines: Vec<Vec<char>>)
    requires
        buf.wf(),
        count * SYM_W <= usize::MAX,
    ensures
        lines@.len() == SYM_H,
        forall|r: int| 0 <= r < SYM_H ==> (#[trigger] lines@[r])@
            == window(buf@[r], frame_start as int, (count * SYM_W) as nat),
        forall|r: int| 0 <= r < SYM_H ==> (#[trigger] lines@[r])@.len()
            == if width_of(buf@) == 0 { 0 } else { count * SYM_W },
{
    let cols = buf.cols();
    let n = count * SYM_W;
    let mut lines: Vec<Vec<char>> = Vec::new();
    for r in 0..SYM_H
        invariant
            buf.wf(),
            cols == width_of(buf@),
            n == count * SYM_W,
            lines@.len() == r,
            forall|i: int| 0 <= i < r ==> (#[trigger] lines@[i])@
                == window(buf@[i], frame_start as int, n as nat),
    {
        let mut line: Vec<char> = Vec::new();
        if cols > 0 {
            let mut j: usize = frame_start % cols;
            for k in 0..n
                invariant
                    buf.wf(),
                    0 <= r < SYM_H,
                    cols == width_of(buf@),
                    cols > 0,
                    j < cols,
                    j == (frame_start + k) % (cols as int),
                    line@.len() == k,
                    forall|i: int| 0 <= i < k ==> line@[i] == buf@[r as int][(frame_start + i) % (cols as int)],
            {
                line.push(buf.cell(r, j));
                proof {
                    lemma_mod_step(frame_start + k, cols as int);
                }
                j = if j + 1 == cols { 0 } else { j + 1 };
            }
        }
        proof {
            assert(line@ =~= window(buf@[r as int], frame_start as int, n as nat));
        }
        lines.push(line);
    }
    lines
}

/// Reading from `frame_start` and from `frame_start + cols` gives the same
/// frame: the window wraps around the buffer's width.
pub proof fn lemma_render_period(rows: Seq<Seq<char>>, frame_start: int, n: nat)
    requires
        is_shape_rows(rows),
    ensures
        frame_of(rows, frame_start, n) == frame_of(rows, frame_start + width_of(rows), n),
{
    let m = width_of(rows) as int;
    assert forall|r: int| 0 <= r < rows.len() implies #[trigger] window(rows[r], frame_start, n)
        =~= window(rows[r], frame_start + m, n) by {
        if m > 0 {
            assert forall|k: int| 0 <= k < n implies #[trigger] window(rows[r], frame_start, n)[k]
                == window(rows[r], frame_start + m, n)[k] by {
                assert(frame_start + m + k == (frame_start + k) + m);
                lemma_mod_period(frame_start + k, m);
            }
        }
    }
    assert(frame_of(rows, frame_start, n) =~= frame_of(rows, frame_start + m, n));
}

/// All rows have the length of the first.
pub open spec fn is_shape_rows(rows: Seq<Seq<char>>) -> bool {
    forall|r: int| 0 <= r < rows.len() ==> #[trigger] rows[r].len() == width_of(rows)
}


/// Composing the one-character line `0` and reading one glyph width from
/// column 0 gives the first glyph of the digit table, cell for cell.
pub proof fn lemma_digit_zero_frame(t: crate::compose::GlyphTables)
    requires
        t.wf(),
    ensures
        frame_of(crate::compose::composed(&t, seq!['0']), 0, SYM_W as nat)
            == Seq::new(SYM_H as nat, |r: int| t.digits@[r].subrange(0, SYM_W as int)),
{
    let rows = crate::compose::composed(&t, seq!['0']);
    let expected = Seq::new(SYM_H as nat, |r: int| t.digits@[r].subrange(0, SYM_W as int));
    assert forall|r: int| 0 <= r < SYM_H implies #[trigger] frame_of(rows, 0, SYM_W as nat)[r]
        =~= expected[r] by {
        assert(rows[r].len() == SYM_W);
        assert forall|k: int| 0 <= k < SYM_W implies window(rows[r], 0, SYM_W as nat)[k] == expected[r][k] by {
            assert((0 + k) % 6 == k);
            assert(k / 6 == 0);
            assert(('0' as u32) == 0x30);
        }
    }
    assert(frame_of(rows, 0, SYM_W as nat) =~= expected);
}


/// Length of the dashed line under the glyph rows.
pub const SEPARATOR_LEN: usize = 23;

/// The decimal digit characters, by value.
pub open spec fn digit_char(d: int) -> char {
    seq!['0', '1', '2', '3', '4', '5', '6', '7', '8', '9'][d]
}

/// The decimal text of `n`, without leading zeros.
pub open spec fn decimal(n: nat) -> Seq<char>
    decreases n,
{
    if n < 10 {
        seq![digit_char(n as int)]
    } else {
        decimal(n / 10).push(digit_char(n as int % 10))
    }
}

/// The status line for a speed: `Speed = <speed> sym/s`.
pub open spec fn status_line(speed: nat) -> Seq<char> {
    seq!['S', 'p', 'e', 'e', 'd', ' ', '=', ' '] + decimal(speed) + seq![' ', 's', 'y', 'm', '/', 's']
}

fn push_digit(v: &mut Vec<char>, d: u64)
    requires
        d < 10,
    ensures
        final(v)@ == old(v)@.push(digit_char(d as int)),
{
    let ch = match d {
        0 => '0',
        1 => '1',
        2 => '2',
        3 => '3',
        4 => '4',
        5 => '5',
        6 => '6',
        7 => '7',
        8 => '8',
        _ => '9',
    };
    v.push(ch);
}

fn push_decimal(v: &mut Vec<char>, n: u64)
    ensures
        final(v)@ == old(v)@ + decimal(n as nat),
    decreases n,
{
    if n >= 10 {
        push_decimal(v, n / 10);
    }
    push_digit(v, n % 10);
    proof {
        assert(final(v)@ =~= old(v)@ + decimal(n as nat));
    }
}

fn push_chars(v: &mut Vec<char>, s: &[char])
    ensures
        final(v)@ == old(v)@ + s@,
{
    let ghost start = v@;
    for i in 0..s.len()
        invariant
            v@ == start + s@.subrange(0, i as int),
    {
        v.push(s[i]);
        proof {
            assert(s@.subrange(0, i + 1) == s@.subrange(0, i as int).push(s@[i as int]));
        }
    }
    proof {
        assert(s@.subrange(0, s@.len() as int) == s@);
    }
}

/// The text lines of one frame, without line ends: the `SYM_H` rows of the
/// window from `frame_start`, `count` glyphs wide, then the dashed separator,
/// then the status line for `speed`.
pub fn frame_lines(buf: &DisplayBuffer, frame_start: usize, count: usize, speed: u64) -> (lines: Vec<Vec<char>>)
    requires
        buf.wf(),
        count * SYM_W <= usize::MAX,
    ensures
        lines@.len() == SYM_H + 2,
        forall|r: int| 0 <= r < SYM_H ==> (#[trigger] lines@[r])@
            == window(buf@[r], frame_start as int, (count * SYM_W) as nat),
        lines@[SYM_H as int]@ == Seq::new(SEPARATOR_LEN as nat, |i: int| '-'),
        lines@[SYM_H + 1]@ == status_line(speed as nat),
{
    let mut lines = display(buf, frame_start, count);
    let mut dashes: Vec<char> = Vec::new();
    for i in 0..SEPARATOR_LEN
        invariant
            dashes@ == Seq::new(i as nat, |j: int| '-'),
    {
        dashes.push('-');
        proof {
            assert(dashes@ =~= Seq::new((i + 1) as nat, |j: int| '-'));
        }
    }
    let mut status: Vec<char> = Vec::new();
    push_chars(&mut status, &['S', 'p', 'e', 'e', 'd', ' ', '=', ' ']);
    push_decimal(&mut status, speed);
    push_chars(&mut status, &[' ', 's', 'y', 'm', '/', 's']);
    proof {
        assert(status@ =~= status_line(speed as nat));
    }
    lines.push(dashes);
    lines.push(status);
    lines
}

} // verus!
