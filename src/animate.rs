use vstd::prelude::*;
use vstd::arithmetic::div_mod::lemma_fundamental_div_mod_converse;
use crate::render::{frame_of, lemma_mod_step};

verus! {

/// Speed when the animation starts, in glyphs per second.
pub const INITIAL_SPEED: u64 = 2;

/// Lowest speed.
pub const MIN_SPEED: u64 = 1;

/// Highest speed.
pub const MAX_SPEED: u64 = 10;

/// Base frame period in milliseconds, divided by the speed.
pub const FRAME_MS: u64 = 1000 / 6;

/// The key that ends the animation, `q`.
pub const KEY_QUIT: u8 = 0x71;

/// Final byte of the right-arrow sequence `ESC [ C`: faster.
pub const KEY_FASTER: u8 = 67;

/// Final byte of the left-arrow sequence `ESC [ D`: slower.
pub const KEY_SLOWER: u8 = 68;

/// The state of the animation between frames.
#[derive(Debug, Clone, Copy, PartialEq, Eq, Structural)]
pub struct FrameState {
    /// Column of the display buffer where the next frame starts.
    pub frame_offset: usize,
    /// Glyphs per second, in `[MIN_SPEED, MAX_SPEED]`.
    pub speed: u64,
    /// Whether the user asked to stop.
    pub quit: bool,
}

/// `offset` is a column of a buffer `cols` wide, or 0 when it has none.
pub open spec fn offset_ok(offset: nat, cols: nat) -> bool {
    offset < cols || (cols == 0 && offset == 0)
}

/// The offset after one frame: one column on, back to 0 at the buffer's end.
pub open spec fn next_offset(offset: nat, cols: nat) -> nat {
    if offset + 1 >= cols { 0 } else { (offset + 1) as nat }
}

/// The offset after `frames` frames.
pub open spec fn offset_after(offset: nat, cols: nat, frames: nat) -> nat
    decreases frames,
{
    if frames == 0 {
        offset
    } else {
        next_offset(offset_after(offset, cols, (frames - 1) as nat), cols)
    }
}

/// The speed after one polled key (or none).
pub open spec fn speed_after_key(speed: int, key: Option<u8>) -> int {
    match key {
        Some(b) => if b == KEY_FASTER {
            if speed + 1 < MAX_SPEED { speed + 1 } else { MAX_SPEED as int }
        } else if b == KEY_SLOWER {
            if speed - 1 > MIN_SPEED { speed - 1 } else { MIN_SPEED as int }
        } else {
            speed
        },
        None => speed,
    }
}

/// The speed after a sequence of polled keys, in order.
pub open spec fn speed_after_keys(speed: int, keys: Seq<Option<u8>>) -> int
    decreases keys.len(),
{
    if keys.len() == 0 {
        speed
    } else {
        speed_after_key(speed_after_keys(speed, keys.drop_last()), keys.last())
    }
}

impl FrameState {
    /// The offset fits the buffer and the speed is in range.
    pub open spec fn wf(&self, cols: nat) -> bool {
        &&& offset_ok(self.frame_offset as nat, cols)
        &&& MIN_SPEED <= self.speed <= MAX_SPEED
    }

    /// The state before the first frame.
    pub fn new() -> (s: FrameState)
        ensures
            s.frame_offset == 0,
            s.speed == INITIAL_SPEED,
            !s.quit,
            forall|cols: nat| s.wf(cols),
    {
        FrameState { frame_offset: 0, speed: INITIAL_SPEED, quit: false }
    }

    /// Moves the window one column on, wrapping at `cols`.
    pub fn advance(&mut self, cols: usize)
        requires
            offset_ok(old(self).frame_offset as nat, cols as nat),
        ensures
            final(self).frame_offset == next_offset(old(self).frame_offset as nat, cols as nat),
            final(self).speed == old(self).speed,
            final(self).quit == old(self).quit,
    {
        self.frame_offset = self.frame_offset + 1;
        if self.frame_offset >= cols {
            self.frame_offset = 0;
        }
    }

    /// Reacts to one polled byte: `q` quits, the arrow bytes change the speed
    /// within its bounds, anything else (or nothing) is ignored.
    pub fn on_key(&mut self, key: Option<u8>)
        requires
            MIN_SPEED <= old(self).speed <= MAX_SPEED,
        ensures
            final(self).speed == speed_after_key(old(self).speed as int, key),
            final(self).quit == (old(self).quit || key == Some(KEY_QUIT)),
            final(self).frame_offset == old(self).frame_offset,
    {
        match key {
            Some(b) => {
                if b == KEY_QUIT {
                    self.quit = true;
                } else if b == KEY_FASTER {
                    self.speed = if self.speed + 1 < MAX_SPEED { self.speed + 1 } else { MAX_SPEED };
                } else if b == KEY_SLOWER {
                    self.speed = if self.speed - 1 > MIN_SPEED { self.speed - 1 } else { MIN_SPEED };
                }
            },
            None => {},
        }
    }

    /// The part of one frame that follows its rendering: advance the offset,
    /// then react to the byte polled from the keyboard.
    pub fn step(&mut self, cols: usize, key: Option<u8>)
        requires
            old(self).wf(cols as nat),
        ensures
            final(self).wf(cols as nat),
            final(self).frame_offset == next_offset(old(self).frame_offset as nat, cols as nat),
            final(self).speed == speed_after_key(old(self).speed as int, key),
            final(self).quit == (old(self).quit || key == Some(KEY_QUIT)),
    {
        self.advance(cols);
        self.on_key(key);
    }

    /// How long to sleep after a frame, in milliseconds.
    pub fn delay_ms(&self) -> (ms: u64)
        requires
            MIN_SPEED <= self.speed,
        ensures
            ms == FRAME_MS / self.speed,
    {
        FRAME_MS / self.speed
    }
}

/// Whatever keys are polled, the speed stays within `[MIN_SPEED, MAX_SPEED]`.
pub proof fn lemma_speed_in_range(speed: int, keys: Seq<Option<u8>>)
    requires
        MIN_SPEED <= speed <= MAX_SPEED,
    ensures
        MIN_SPEED <= speed_after_keys(speed, keys) <= MAX_SPEED,
    decreases keys.len(),
{
    if keys.len() > 0 {
        lemma_speed_in_range(speed, keys.drop_last());
    }
}

/// Over any number of frames the offset stays a column of the buffer (or 0
/// when it has none).
pub proof fn lemma_offset_in_range(offset: nat, cols: nat, frames: nat)
    requires
        offset_ok(offset, cols),
    ensures
        offset_ok(offset_after(offset, cols, frames), cols),
    decreases frames,
{
    if frames > 0 {
        lemma_offset_in_range(offset, cols, (frames - 1) as nat);
    }
}

proof fn lemma_offset_after_mod(offset: nat, cols: nat, frames: nat)
    requires
        offset < cols,
    ensures
        offset_after(offset, cols, frames) as int == (offset + frames) as int % (cols as int),
    decreases frames,
{
    if frames == 0 {
        lemma_fundamental_div_mod_converse(offset as int, cols as int, 0, offset as int);
    } else {
        lemma_offset_after_mod(offset, cols, (frames - 1) as nat);
        lemma_mod_step(offset + frames - 1, cols as int);
    }
}

/// After as many frames as the buffer has columns, the offset is back where it
/// started, and so is the rendered frame.
pub proof fn lemma_full_cycle(rows: Seq<Seq<char>>, offset: nat, cols: nat, n: nat)
    requires
        offset < cols,
    ensures
        offset_after(offset, cols, cols) == offset,
        frame_of(rows, offset_after(offset, cols, cols) as int, n) == frame_of(rows, offset as int, n),
{
    lemma_offset_after_mod(offset, cols, cols);
    lemma_fundamental_div_mod_converse((offset + cols) as int, cols as int, 1, offset as int);
}

} // verus!
