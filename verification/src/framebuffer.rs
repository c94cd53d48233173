//! The 64x32 monochrome framebuffer: a bit-per-pixel grid, one `u64`
//! bitmask per row, with XOR drawing and collision detection.

use vstd::prelude::*;

verus! {

/// Pixel `(x, y)` of a row-major bit grid: bit `x` of row `y`.
pub open spec fn pixel_at(rows: Seq<u64>, x: u64, y: u64) -> bool {
    (rows[y as int] >> x) & 1u64 == 1u64
}

/// A screen with every pixel off.
pub open spec fn blank_screen() -> Seq<u64> {
    Seq::new(32, |i: int| 0u64)
}

/// The row bitmask `row` with pixel `x` XORed with `state`.
pub open spec fn row_xor(row: u64, x: u64, state: bool) -> u64 {
    row ^ ((if state { 1u64 } else { 0u64 }) << x)
}

pub struct Framebuffer {
    buffer: Vec<u64>,
}

impl View for Framebuffer {
    type V = Seq<u64>;

    closed spec fn view(&self) -> Seq<u64> {
        self.buffer@
    }
}

/// XORing one pixel of a row changes that pixel alone.
pub proof fn lemma_row_xor(row: u64, x: u64, state: bool, i: u64)
    requires
        x < 64,
        i < 64,
    ensures
        x == i ==> ((row_xor(row, x, state) >> i) & 1u64 == 1u64)
            == (((row >> i) & 1u64 == 1u64) != state),
        x != i ==> ((row_xor(row, x, state) >> i) & 1u64) == ((row >> i) & 1u64),
{
    let s: u64 = if state { 1u64 } else { 0u64 };
    assert(x < 64 && i < 64 && s <= 1 ==> {
        &&& x == i ==> (((row ^ (s << x)) >> i) & 1u64 == 1u64)
            == !(((row >> i) & 1u64 == 1u64) == (s == 1u64))
        &&& x != i ==> (((row ^ (s << x)) >> i) & 1u64) == ((row >> i) & 1u64)
    }) by (bit_vector);
}

impl Framebuffer {
    /// The grid is exactly 32 rows of 64 pixels.
    pub open spec fn wf(&self) -> bool {
        self@.len() == 32
    }

    /// Create a framebuffer with every pixel off.
    pub fn new() -> (fb: Framebuffer)
        ensures
            fb.wf(),
            fb@ == blank_screen(),
    {
        let mut buffer: Vec<u64> = Vec::new();
        let mut i: usize = 0;
        while i < 32
            invariant
                i <= 32,
                buffer@.len() == i,
                forall|j: int| 0 <= j < i ==> buffer@[j] == 0u64,
            decreases 32 - i,
        {
            buffer.push(0u64);
            i = i + 1;
        }
        let fb = Framebuffer { buffer };
        proof {
            assert(fb@ =~= blank_screen());
        }
        fb
    }

    /// Turn every pixel off.
    pub fn clear(&mut self)
        requires
            old(self).wf(),
        ensures
            final(self).wf(),
            final(self)@ == blank_screen(),
    {
        let mut i: usize = 0;
        while i < 32
            invariant
                i <= 32,
                self.buffer@.len() == 32,
                forall|j: int| 0 <= j < i ==> self.buffer@[j] == 0u64,
            decreases 32 - i,
        {
            self.buffer.set(i, 0u64);
            i = i + 1;
        }
        proof {
            assert(self@ =~= blank_screen());
        }
    }

    /// Read the pixel at `(x, y)`.
    pub fn get(&self, x: u8, y: u8) -> (on: bool)
        requires
            self.wf(),
            x < 64,
            y < 32,
        ensures
            on == pixel_at(self@, x as u64, y as u64),
    {
        let row = self.buffer[y as usize];
        let bit = (row >> (x as u64)) & 1u64;
        proof {
            assert((row >> (x as u64)) & 1u64 == 0u64 || (row >> (x as u64)) & 1u64 == 1u64)
                by (bit_vector);
        }
        bit != 0
    }

    /// XOR `state` into the pixel at `(x, y)`. The returned collision bit is
    /// the pixel's previous value AND the incoming value: it reports an
    /// attempt to turn on a pixel that was already on, independently of the
    /// XOR result.
    pub fn set(&mut self, x: u8, y: u8, state: bool) -> (collision: bool)
        requires
            old(self).wf(),
            x < 64,
            y < 32,
        ensures
            final(self).wf(),
            collision == (pixel_at(old(self)@, x as u64, y as u64) && state),
            final(self)@ == old(self)@.update(
                y as int,
                row_xor(old(self)@[y as int], x as u64, state),
            ),
            pixel_at(final(self)@, x as u64, y as u64)
                == (pixel_at(old(self)@, x as u64, y as u64) != state),
    {
        let collision = self.get(x, y) && state;
        let row = self.buffer[y as usize];
        let mask: u64 = (if state { 1u64 } else { 0u64 }) << (x as u64);
        self.buffer.set(y as usize, row ^ mask);
        proof {
            lemma_row_xor(row, x as u64, state, x as u64);
        }
        collision
    }
}

} // verus!
