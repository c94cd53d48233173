//! The laws of the instruction set, stated over the model and proved
//! from it: what the ALU instructions leave in the registers for every
//! operand pair, and how the control-flow instructions move the program
//! counter.

use vstd::prelude::*;
use crate::framebuffer::pixel_at;
use crate::model::CycleOutcome;
use crate::model::DrawState;
use crate::model::Instr;
use crate::model::VmView;
use crate::model::draw_cols;
use crate::model::draw_rows;
use crate::model::fetch;
use crate::model::lowest_key;
use crate::model::row_covers;
use crate::model::spec_cycle;
use crate::model::spec_decode;
use crate::model::sprite_bit;
use crate::model::sprite_covers;
use crate::model::wrap16;

verus! {

/// Register-register ADD, for every operand pair (a, b): the result is
/// (a + b) mod 256 and the carry flag VF is 1 exactly when a + b >= 256.
/// The result register must not be VF itself, which the flag write takes.
pub proof fn lemma_add_reg(pre: VmView, rand: u8, x: u8, y: u8)
    requires
        pre.wf(),
        x < 16,
        y < 16,
        x != 15,
        spec_decode(fetch(pre.mem, pre.pc)) == Instr::AddReg(x, y),
    ensures
        spec_cycle(pre, rand) matches CycleOutcome::Next(post, rep) && {
            let a = pre.regs[x as int];
            let b = pre.regs[y as int];
            &&& post.regs[x as int] == (a + b) % 256
            &&& (post.regs[15] == 1 <==> a + b >= 256)
            &&& (post.regs[15] == 0 <==> a + b < 256)
        },
{
}

/// Register-register SUB, for every operand pair (a, b) in registers
/// other than VF: VF is 1 exactly when a > b, and the result is
/// (a - b) mod 256, written as (a - b + 256) % 256.
pub proof fn lemma_sub_reg(pre: VmView, rand: u8, x: u8, y: u8)
    requires
        pre.wf(),
        x < 16,
        y < 16,
        x != 15,
        y != 15,
        spec_decode(fetch(pre.mem, pre.pc)) == Instr::SubReg(x, y),
    ensures
        spec_cycle(pre, rand) matches CycleOutcome::Next(post, rep) && {
            let a = pre.regs[x as int];
            let b = pre.regs[y as int];
            &&& post.regs[x as int] == (a - b + 256) % 256
            &&& (post.regs[15] == 1 <==> a > b)
        },
{
}

/// SHR: VF takes the original bit 0 of Vx, and the result is Vx shifted
/// right once, so bit 7 ends up 0.
pub proof fn lemma_shr_reg(pre: VmView, rand: u8, x: u8, y: u8)
    requires
        pre.wf(),
        x < 16,
        y < 16,
        x != 15,
        spec_decode(fetch(pre.mem, pre.pc)) == Instr::ShrReg(x, y),
    ensures
        spec_cycle(pre, rand) matches CycleOutcome::Next(post, rep) && {
            let a = pre.regs[x as int];
            &&& post.regs[x as int] == a / 2
            &&& post.regs[x as int] < 128
            &&& post.regs[15] == a % 2
        },
{
}

/// SHL: VF takes the original bit 7 of Vx as 0 or 1, and the result is
/// (Vx shifted left once) mod 256.
pub proof fn lemma_shl_reg(pre: VmView, rand: u8, x: u8, y: u8)
    requires
        pre.wf(),
        x < 16,
        y < 16,
        x != 15,
        spec_decode(fetch(pre.mem, pre.pc)) == Instr::ShlReg(x, y),
    ensures
        spec_cycle(pre, rand) matches CycleOutcome::Next(post, rep) && {
            let a = pre.regs[x as int];
            &&& post.regs[x as int] == (2 * a) % 256
            &&& post.regs[15] == a / 128
        },
{
}

/// JP: the program counter lands on the jump target exactly, with no
/// further increment.
pub proof fn lemma_jp(pre: VmView, rand: u8, nnn: u16)
    requires
        pre.wf(),
        spec_decode(fetch(pre.mem, pre.pc)) == Instr::Jp(nnn),
    ensures
        spec_cycle(pre, rand) matches CycleOutcome::Next(post, rep) && post.pc == nnn,
{
}

/// CALL then RET: after a CALL of nnn and the RET fetched at nnn, the
/// program counter is back at the instruction after the CALL and the
/// stack pointer is back at its value before the CALL.
pub proof fn lemma_call_ret(pre: VmView, nnn: u16, r1: u8, r2: u8)
    requires
        pre.wf(),
        pre.sp < 16,
        spec_decode(fetch(pre.mem, pre.pc)) == Instr::Call(nnn),
        spec_decode(fetch(pre.mem, nnn)) == Instr::Ret,
    ensures
        spec_cycle(pre, r1) matches CycleOutcome::Next(mid, rep1)
            && spec_cycle(mid, r2) matches CycleOutcome::Next(post, rep2)
            && post.pc == wrap16(pre.pc + 2)
            && post.sp == pre.sp,
{
}

/// No key pressed below index `i`, none pressed at all: the search comes
/// up empty.
proof fn lemma_lowest_key_none(keys: Seq<bool>, i: nat)
    requires
        keys.len() == 16,
        forall|k: int| 0 <= k < 16 ==> !keys[k],
        i <= 16,
    ensures
        lowest_key(keys, i) is None,
    decreases 16 - i,
{
    if i < 16 {
        lemma_lowest_key_none(keys, i + 1);
    }
}

/// Key-wait with no key pressed leaves the program counter unchanged:
/// the next cycle fetches the same instruction again.
pub proof fn lemma_wait_key_no_progress(pre: VmView, rand: u8, x: u8)
    requires
        pre.wf(),
        spec_decode(fetch(pre.mem, pre.pc)) == Instr::WaitKey(x),
        forall|k: int| 0 <= k < 16 ==> !pre.keys[k],
    ensures
        spec_cycle(pre, rand) matches CycleOutcome::Next(post, rep) && post.pc == pre.pc,
{
    lemma_lowest_key_none(pre.keys, 0);
}

/// BCD store: the three bytes at I, I+1 and I+2 become the hundreds,
/// tens and ones digits of Vx.
pub proof fn lemma_bcd(pre: VmView, rand: u8, x: u8)
    requires
        pre.wf(),
        x < 16,
        pre.index + 2 < 4096,
        spec_decode(fetch(pre.mem, pre.pc)) == Instr::Bcd(x),
    ensures
        spec_cycle(pre, rand) matches CycleOutcome::Next(post, rep) && {
            let v = pre.regs[x as int];
            &&& post.mem[pre.index as int] == v / 100
            &&& post.mem[pre.index + 1] == (v / 10) % 10
            &&& post.mem[pre.index + 2] == v % 10
        },
{
}

/// Drawing columns never changes the number of screen rows.
proof fn lemma_draw_cols_len(st: DrawState, b: u8, x0: u8, y: u8, c: u8)
    requires
        st.fb.len() == 32,
        y < 32,
    ensures
        draw_cols(st, b, x0, y, c).fb.len() == st.fb.len(),
    decreases c,
{
    if c > 0 {
        lemma_draw_cols_len(st, b, x0, y, (c - 1) as u8);
    }
}

/// Drawing rows never changes the number of screen rows.
proof fn lemma_draw_rows_len(st: DrawState, mem: Seq<u8>, index: u16, x0: u8, y0: u8, r: u8)
    requires
        st.fb.len() == 32,
        y0 < 32,
    ensures
        draw_rows(st, mem, index, x0, y0, r).fb.len() == st.fb.len(),
    decreases r,
{
    if r > 0 {
        let k = (r - 1) as u8;
        lemma_draw_rows_len(st, mem, index, x0, y0, k);
        lemma_draw_cols_len(
            draw_rows(st, mem, index, x0, y0, k),
            mem[(index + k) % 4096],
            x0,
            ((y0 + k) % 32) as u8,
            8,
        );
    }
}

/// A sprite row only covers cells of its own screen row.
proof fn lemma_row_covers_y(b: u8, x0: u8, y: u8, c: u8, px: u64, py: u64)
    ensures
        row_covers(b, x0, y, c, px, py) ==> py == y as u64,
    decreases c,
{
    if c > 0 {
        lemma_row_covers_y(b, x0, y, (c - 1) as u8, px, py);
    }
}

/// The leftmost `c` pixels of a sprite row never land on the column of a
/// later pixel of the same row: the eight wrapped columns are distinct.
proof fn lemma_row_covers_bound(b: u8, x0: u8, y: u8, c: u8, m: u8, px: u64, py: u64)
    requires
        x0 < 64,
        c <= m,
        m < 8,
    ensures
        row_covers(b, x0, y, c, px, py) ==> px != ((x0 + m) % 64) as u64,
    decreases c,
{
    if c > 0 {
        lemma_row_covers_bound(b, x0, y, (c - 1) as u8, m, px, py);
    }
}

/// The first `c` sprite rows never land on a later row of the same draw:
/// with at most fifteen rows, the wrapped screen rows are distinct.
proof fn lemma_sprite_covers_bound(
    mem: Seq<u8>,
    index: u16,
    x0: u8,
    y0: u8,
    c: u8,
    m: u8,
    px: u64,
    py: u64,
)
    requires
        y0 < 32,
        c <= m,
        m < 16,
    ensures
        sprite_covers(mem, index, x0, y0, c, px, py) ==> py != ((y0 + m) % 32) as u64,
    decreases c,
{
    if c > 0 {
        let k = (c - 1) as u8;
        lemma_sprite_covers_bound(mem, index, x0, y0, k, m, px, py);
        lemma_row_covers_y(mem[(index + k) % 4096], x0, ((y0 + k) % 32) as u8, 8, px, py);
    }
}

/// One sprite row drawn at column `x0` of row `y` inverts exactly the
/// cells its set bits land on, columns wrapping modulo 64.
proof fn lemma_draw_cols_pixels(st: DrawState, b: u8, x0: u8, y: u8, c: u8, px: u64, py: u64)
    requires
        st.fb.len() == 32,
        x0 < 64,
        y < 32,
        c <= 8,
        px < 64,
        py < 32,
    ensures
        pixel_at(draw_cols(st, b, x0, y, c).fb, px, py)
            == (pixel_at(st.fb, px, py) != row_covers(b, x0, y, c, px, py)),
    decreases c,
{
    if c > 0 {
        let i = (c - 1) as u8;
        lemma_draw_cols_pixels(st, b, x0, y, i, px, py);
        lemma_draw_cols_len(st, b, x0, y, i);
        lemma_row_covers_bound(b, x0, y, i, i, px, py);
        let prev = draw_cols(st, b, x0, y, i);
        let xx = ((x0 + i) % 64) as u64;
        crate::framebuffer::lemma_row_xor(prev.fb[py as int], xx, sprite_bit(b, i), px);
    }
}

/// Pixel coverage of a draw of `n` sprite rows at `(x0, y0)`: a cell is
/// inverted exactly when a set sprite bit lands on it, columns wrapping
/// modulo 64 and rows modulo 32; every other cell keeps its value.
proof fn lemma_draw_pixels(
    st: DrawState,
    mem: Seq<u8>,
    index: u16,
    x0: u8,
    y0: u8,
    n: u8,
    px: u64,
    py: u64,
)
    requires
        st.fb.len() == 32,
        x0 < 64,
        y0 < 32,
        n < 16,
        px < 64,
        py < 32,
    ensures
        pixel_at(draw_rows(st, mem, index, x0, y0, n).fb, px, py)
            == (pixel_at(st.fb, px, py) != sprite_covers(mem, index, x0, y0, n, px, py)),
    decreases n,
{
    if n > 0 {
        let k = (n - 1) as u8;
        lemma_draw_pixels(st, mem, index, x0, y0, k, px, py);
        lemma_draw_rows_len(st, mem, index, x0, y0, k);
        lemma_sprite_covers_bound(mem, index, x0, y0, k, k, px, py);
        let prev = draw_rows(st, mem, index, x0, y0, k);
        let b = mem[(index + k) % 4096];
        let yk = ((y0 + k) % 32) as u8;
        lemma_draw_cols_pixels(prev, b, x0, yk, 8, px, py);
        lemma_row_covers_y(b, x0, yk, 8, px, py);
    }
}

/// Coordinate wrap of the DRW instruction: the cell `(px, py)` is
/// inverted exactly when a set sprite bit lands on it, columns wrapping
/// modulo 64 past the right edge and rows modulo 32 past the bottom;
/// every other cell keeps its value.
pub proof fn lemma_draw_wraps(pre: VmView, rand: u8, x: u8, y: u8, n: u8, px: u64, py: u64)
    requires
        pre.wf(),
        x < 16,
        y < 16,
        n < 16,
        px < 64,
        py < 32,
        spec_decode(fetch(pre.mem, pre.pc)) == Instr::Draw(x, y, n),
    ensures
        spec_cycle(pre, rand) matches CycleOutcome::Next(post, rep) && {
            let x0 = (pre.regs[x as int] % 64) as u8;
            let y0 = (pre.regs[y as int] % 32) as u8;
            pixel_at(post.fb, px, py) == (pixel_at(pre.fb, px, py)
                != sprite_covers(pre.mem, pre.index, x0, y0, n, px, py))
        },
{
    let x0 = (pre.regs[x as int] % 64) as u8;
    let y0 = (pre.regs[y as int] % 32) as u8;
    lemma_draw_pixels(
        DrawState { fb: pre.fb, hit: false },
        pre.mem,
        pre.index,
        x0,
        y0,
        n,
        px,
        py,
    );
}

} // verus!
