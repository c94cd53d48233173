//! The mathematical model of the machine: the ghost state, the decoded
//! instruction set, and the step function `spec_cycle` that every
//! executable cycle is proved to implement.

use vstd::prelude::*;
use crate::framebuffer::blank_screen;
use crate::framebuffer::pixel_at;
use crate::framebuffer::row_xor;

verus! {

/// A fatal condition: the cycle stops and leaves the state unchanged.
#[derive(Clone, Copy, PartialEq, Eq, Structural, Debug)]
pub enum VmError {
    /// CALL with all sixteen stack slots in use.
    StackOverflow,
    /// RET with an empty stack.
    StackUnderflow,
    /// A ROM image larger than the 3584 bytes of program memory.
    RomTooLarge,
}

/// What a completed cycle reports back to the run loop.
#[derive(Clone, Copy, PartialEq, Eq, Structural, Debug)]
pub enum StepReport {
    /// A recognized instruction was executed.
    Executed,
    /// The fetched word matched no instruction; it was treated as a no-op
    /// with the program counter already advanced past it.
    UnknownOpcode(u16),
}

/// A decoded instruction: the nibble pattern of one 16-bit opcode.
#[derive(Clone, Copy, PartialEq, Eq, Structural, Debug)]
pub enum Instr {
    /// 00E0: clear the screen.
    Cls,
    /// 00EE: pop the stack into the program counter.
    Ret,
    /// 0nnn: machine routine call, ignored.
    Sys,
    /// 1nnn: jump.
    Jp(u16),
    /// 2nnn: push the program counter, then jump.
    Call(u16),
    /// 3xkk: skip if Vx == kk.
    SeImm(u8, u8),
    /// 4xkk: skip if Vx != kk.
    SneImm(u8, u8),
    /// 5xy0: skip if Vx == Vy.
    SeReg(u8, u8),
    /// 6xkk: Vx = kk.
    LdImm(u8, u8),
    /// 7xkk: Vx += kk, wrapping, no flag.
    AddImm(u8, u8),
    /// 8xy0: Vx = Vy.
    MovReg(u8, u8),
    /// 8xy1: Vx |= Vy.
    OrReg(u8, u8),
    /// 8xy2: Vx &= Vy.
    AndReg(u8, u8),
    /// 8xy3: Vx ^= Vy.
    XorReg(u8, u8),
    /// 8xy4: Vx += Vy, VF = carry.
    AddReg(u8, u8),
    /// 8xy5: Vx -= Vy, VF = not borrow.
    SubReg(u8, u8),
    /// 8xy6: VF = bit 0 of Vx, then Vx >>= 1.
    ShrReg(u8, u8),
    /// 8xy7: Vx = Vy - Vx, VF = not borrow.
    SubnReg(u8, u8),
    /// 8xy8: VF = bit 7 of Vx, then Vx <<= 1.
    ShlReg(u8, u8),
    /// 9xy0: skip if Vx != Vy.
    SneReg(u8, u8),
    /// Annn: I = nnn.
    LdIndex(u16),
    /// Bnnn: jump to V0 + nnn.
    JpV0(u16),
    /// Cxkk: Vx = random byte AND kk.
    Rnd(u8, u8),
    /// Dxyn: draw an n-row sprite at (Vx, Vy), VF = collision.
    Draw(u8, u8, u8),
    /// Ex9E: skip if key Vx is pressed.
    SkipKey(u8),
    /// ExA1: skip if key Vx is not pressed.
    SkipNoKey(u8),
    /// Fx07: Vx = delay timer.
    ReadDelay(u8),
    /// Fx0A: wait for a key; rewind the program counter until one is down.
    WaitKey(u8),
    /// Fx15: delay timer = Vx.
    SetDelay(u8),
    /// Fx18: sound timer = Vx.
    SetSound(u8),
    /// Fx1E: I += Vx, wrapping, no flag.
    AddIndex(u8),
    /// Fx29: I = font glyph address of digit Vx.
    Font(u8),
    /// Fx33: store the decimal digits of Vx at I, I+1, I+2.
    Bcd(u8),
    /// Fx55: copy V0..=Vx into memory at I.
    StoreRegs(u8),
    /// Fx65: load V0..=Vx from memory at I.
    LoadRegs(u8),
    /// Any other bit pattern.
    Unknown(u16),
}

/// The whole machine state, as plain mathematical values.
#[verifier::ext_equal]
pub struct VmView {
    /// 4096 bytes of memory; ROM data starts at 0x200.
    pub mem: Seq<u8>,
    /// Sixteen return-address slots.
    pub stack: Seq<u16>,
    /// Number of stack slots in use.
    pub sp: u8,
    /// Address of the next instruction to fetch.
    pub pc: u16,
    /// The sixteen registers V0..=VF; VF doubles as the flag register.
    pub regs: Seq<u8>,
    /// The index register I.
    pub index: u16,
    /// The framebuffer, one row bitmask per line.
    pub fb: Seq<u64>,
    /// Delay timer, decremented by the host at 60 Hz.
    pub delay: u8,
    /// Sound timer, decremented by the host at 60 Hz.
    pub sound: u8,
    /// The sixteen key states.
    pub keys: Seq<bool>,
}

impl VmView {
    /// Every component has its fixed size and the stack pointer is in range.
    pub open spec fn wf(self) -> bool {
        &&& self.mem.len() == 4096
        &&& self.stack.len() == 16
        &&& self.sp <= 16
        &&& self.regs.len() == 16
        &&& self.fb.len() == 32
        &&& self.keys.len() == 16
    }
}

/// The state every machine starts in: all zero, program counter at 0x200.
pub open spec fn init_state() -> VmView {
    VmView {
        mem: Seq::new(4096, |i: int| 0u8),
        stack: Seq::new(16, |i: int| 0u16),
        sp: 0u8,
        pc: 0x200u16,
        regs: Seq::new(16, |i: int| 0u8),
        index: 0u16,
        fb: blank_screen(),
        delay: 0u8,
        sound: 0u8,
        keys: Seq::new(16, |i: int| false),
    }
}

/// A 16-bit value reduced modulo 2^16.
pub open spec fn wrap16(n: int) -> u16 {
    (n % 0x10000) as u16
}

/// The memory after a ROM image is copied in at 0x200.
pub open spec fn mem_with_rom(mem: Seq<u8>, rom: Seq<u8>) -> Seq<u8> {
    Seq::new(4096, |i: int| if 512 <= i < 512 + rom.len() { rom[i - 512] } else { mem[i] })
}

/// Fetch the big-endian instruction word at `pc`; addresses are masked to
/// the 4096 bytes of memory.
pub open spec fn fetch(mem: Seq<u8>, pc: u16) -> u16 {
    let lo_pc: u16 = if pc == 0xFFFF { 0u16 } else { (pc + 1) as u16 };
    ((mem[(pc & 0xFFF) as int] as u16) << 8u16) | (mem[(lo_pc & 0xFFF) as int] as u16)
}

/// Decode one opcode into its instruction. The leading-nibble-0 patterns
/// are exactly 00E0, 00EE and the ignored machine call; the ALU group is
/// dispatched on the trailing nibble 0 through 8.
pub open spec fn spec_decode(op: u16) -> Instr {
    let n1 = (op >> 12u16) & 0xF;
    let n4 = op & 0xF;
    let x = ((op >> 8u16) & 0xF) as u8;
    let y = ((op >> 4u16) & 0xF) as u8;
    let nnn = op & 0xFFF;
    let kk = (op & 0xFF) as u8;
    if op == 0x00E0 {
        Instr::Cls
    } else if op == 0x00EE {
        Instr::Ret
    } else if n1 == 0 {
        Instr::Sys
    } else if n1 == 1 {
        Instr::Jp(nnn)
    } else if n1 == 2 {
        Instr::Call(nnn)
    } else if n1 == 3 {
        Instr::SeImm(x, kk)
    } else if n1 == 4 {
        Instr::SneImm(x, kk)
    } else if n1 == 5 && n4 == 0 {
        Instr::SeReg(x, y)
    } else if n1 == 6 {
        Instr::LdImm(x, kk)
    } else if n1 == 7 {
        Instr::AddImm(x, kk)
    } else if n1 == 8 && n4 == 0 {
        Instr::MovReg(x, y)
    } else if n1 == 8 && n4 == 1 {
        Instr::OrReg(x, y)
    } else if n1 == 8 && n4 == 2 {
        Instr::AndReg(x, y)
    } else if n1 == 8 && n4 == 3 {
        Instr::XorReg(x, y)
    } else if n1 == 8 && n4 == 4 {
        Instr::AddReg(x, y)
    } else if n1 == 8 && n4 == 5 {
        Instr::SubReg(x, y)
    } else if n1 == 8 && n4 == 6 {
        Instr::ShrReg(x, y)
    } else if n1 == 8 && n4 == 7 {
        Instr::SubnReg(x, y)
    } else if n1 == 8 && n4 == 8 {
        Instr::ShlReg(x, y)
    } else if n1 == 9 && n4 == 0 {
        Instr::SneReg(x, y)
    } else if n1 == 0xA {
        Instr::LdIndex(nnn)
    } else if n1 == 0xB {
        Instr::JpV0(nnn)
    } else if n1 == 0xC {
        Instr::Rnd(x, kk)
    } else if n1 == 0xD {
        Instr::Draw(x, y, n4 as u8)
    } else if n1 == 0xE && kk == 0x9E {
        Instr::SkipKey(x)
    } else if n1 == 0xE && kk == 0xA1 {
        Instr::SkipNoKey(x)
    } else if n1 == 0xF && kk == 0x07 {
        Instr::ReadDelay(x)
    } else if n1 == 0xF && kk == 0x0A {
        Instr::WaitKey(x)
    } else if n1 == 0xF && kk == 0x15 {
        Instr::SetDelay(x)
    } else if n1 == 0xF && kk == 0x18 {
        Instr::SetSound(x)
    } else if n1 == 0xF && kk == 0x1E {
        Instr::AddIndex(x)
    } else if n1 == 0xF && kk == 0x29 {
        Instr::Font(x)
    } else if n1 == 0xF && kk == 0x33 {
        Instr::Bcd(x)
    } else if n1 == 0xF && kk == 0x55 {
        Instr::StoreRegs(x)
    } else if n1 == 0xF && kk == 0x65 {
        Instr::LoadRegs(x)
    } else {
        Instr::Unknown(op)
    }
}

/// Decode one opcode, exactly as `spec_decode` does.
pub fn decode(op: u16) -> (i: Instr)
    ensures
        i == spec_decode(op),
{
    let n1 = (op >> 12u16) & 0xF;
    let n4 = op & 0xF;
    let x = ((op >> 8u16) & 0xF) as u8;
    let y = ((op >> 4u16) & 0xF) as u8;
    let nnn = op & 0xFFF;
    let kk = (op & 0xFF) as u8;
    if op == 0x00E0 {
        Instr::Cls
    } else if op == 0x00EE {
        Instr::Ret
    } else if n1 == 0 {
        Instr::Sys
    } else if n1 == 1 {
        Instr::Jp(nnn)
    } else if n1 == 2 {
        Instr::Call(nnn)
    } else if n1 == 3 {
        Instr::SeImm(x, kk)
    } else if n1 == 4 {
        Instr::SneImm(x, kk)
    } else if n1 == 5 && n4 == 0 {
        Instr::SeReg(x, y)
    } else if n1 == 6 {
        Instr::LdImm(x, kk)
    } else if n1 == 7 {
        Instr::AddImm(x, kk)
    } else if n1 == 8 && n4 == 0 {
        Instr::MovReg(x, y)
    } else if n1 == 8 && n4 == 1 {
        Instr::OrReg(x, y)
    } else if n1 == 8 && n4 == 2 {
        Instr::AndReg(x, y)
    } else if n1 == 8 && n4 == 3 {
        Instr::XorReg(x, y)
    } else if n1 == 8 && n4 == 4 {
        Instr::AddReg(x, y)
    } else if n1 == 8 && n4 == 5 {
        Instr::SubReg(x, y)
    } else if n1 == 8 && n4 == 6 {
        Instr::ShrReg(x, y)
    } else if n1 == 8 && n4 == 7 {
        Instr::SubnReg(x, y)
    } else if n1 == 8 && n4 == 8 {
        Instr::ShlReg(x, y)
    } else if n1 == 9 && n4 == 0 {
        Instr::SneReg(x, y)
    } else if n1 == 0xA {
        Instr::LdIndex(nnn)
    } else if n1 == 0xB {
        Instr::JpV0(nnn)
    } else if n1 == 0xC {
        Instr::Rnd(x, kk)
    } else if n1 == 0xD {
        Instr::Draw(x, y, n4 as u8)
    } else if n1 == 0xE && kk == 0x9E {
        Instr::SkipKey(x)
    } else if n1 == 0xE && kk == 0xA1 {
        Instr::SkipNoKey(x)
    } else if n1 == 0xF && kk == 0x07 {
        Instr::ReadDelay(x)
    } else if n1 == 0xF && kk == 0x0A {
        Instr::WaitKey(x)
    } else if n1 == 0xF && kk == 0x15 {
        Instr::SetDelay(x)
    } else if n1 == 0xF && kk == 0x18 {
        Instr::SetSound(x)
    } else if n1 == 0xF && kk == 0x1E {
        Instr::AddIndex(x)
    } else if n1 == 0xF && kk == 0x29 {
        Instr::Font(x)
    } else if n1 == 0xF && kk == 0x33 {
        Instr::Bcd(x)
    } else if n1 == 0xF && kk == 0x55 {
        Instr::StoreRegs(x)
    } else if n1 == 0xF && kk == 0x65 {
        Instr::LoadRegs(x)
    } else {
        Instr::Unknown(op)
    }
}

/// Every register field a decode produces is a nibble, and every address
/// is within the 4096 bytes of memory.
pub proof fn lemma_decode_bounds(op: u16)
    ensures
        (((op >> 8u16) & 0xF) as u8) < 16,
        (((op >> 4u16) & 0xF) as u8) < 16,
        ((op & 0xF) as u8) < 16,
        (op & 0xFFF) < 4096,
{
    assert((((op >> 8u16) & 0xF) as u8) < 16 && (((op >> 4u16) & 0xF) as u8) < 16
        && ((op & 0xF) as u8) < 16 && (op & 0xFFF) < 4096) by (bit_vector);
}

/// Every register index a decode produces is below 16 and every address
/// below 4096.
pub proof fn lemma_decode_fields(op: u16)
    ensures
        match spec_decode(op) {
            Instr::Jp(nnn) => nnn < 4096,
            Instr::Call(nnn) => nnn < 4096,
            Instr::SeImm(x, _) => x < 16,
            Instr::SneImm(x, _) => x < 16,
            Instr::SeReg(x, y) => x < 16 && y < 16,
            Instr::LdImm(x, _) => x < 16,
            Instr::AddImm(x, _) => x < 16,
            Instr::MovReg(x, y) => x < 16 && y < 16,
            Instr::OrReg(x, y) => x < 16 && y < 16,
            Instr::AndReg(x, y) => x < 16 && y < 16,
            Instr::XorReg(x, y) => x < 16 && y < 16,
            Instr::AddReg(x, y) => x < 16 && y < 16,
            Instr::SubReg(x, y) => x < 16 && y < 16,
            Instr::ShrReg(x, y) => x < 16 && y < 16,
            Instr::SubnReg(x, y) => x < 16 && y < 16,
            Instr::ShlReg(x, y) => x < 16 && y < 16,
            Instr::SneReg(x, y) => x < 16 && y < 16,
            Instr::LdIndex(nnn) => nnn < 4096,
            Instr::JpV0(nnn) => nnn < 4096,
            Instr::Rnd(x, _) => x < 16,
            Instr::Draw(x, y, n) => x < 16 && y < 16 && n < 16,
            Instr::SkipKey(x) => x < 16,
            Instr::SkipNoKey(x) => x < 16,
            Instr::ReadDelay(x) => x < 16,
            Instr::WaitKey(x) => x < 16,
            Instr::SetDelay(x) => x < 16,
            Instr::SetSound(x) => x < 16,
            Instr::AddIndex(x) => x < 16,
            Instr::Font(x) => x < 16,
            Instr::Bcd(x) => x < 16,
            Instr::StoreRegs(x) => x < 16,
            Instr::LoadRegs(x) => x < 16,
            _ => true,
        },
{
    lemma_decode_bounds(op);
}

/// Wrapping 8-bit sum.
pub open spec fn add_result(a: u8, b: u8) -> u8 {
    ((a + b) % 256) as u8
}

/// Carry out of an 8-bit sum, as 0 or 1.
pub open spec fn add_flag(a: u8, b: u8) -> u8 {
    if a + b >= 256 { 1u8 } else { 0u8 }
}

/// Wrapping 8-bit difference, `(a - b)` modulo 256.
pub open spec fn sub_result(a: u8, b: u8) -> u8 {
    ((a - b + 256) % 256) as u8
}

/// NOT borrow of `a - b`: 1 exactly when `a > b`.
pub open spec fn sub_flag(a: u8, b: u8) -> u8 {
    if a > b { 1u8 } else { 0u8 }
}

/// `a >> 1`, with bit 7 cleared.
pub open spec fn shr_result(a: u8) -> u8 {
    (a / 2) as u8
}

/// Bit 0 of `a`, as 0 or 1.
pub open spec fn shr_flag(a: u8) -> u8 {
    (a % 2) as u8
}

/// `(a << 1)` modulo 256.
pub open spec fn shl_result(a: u8) -> u8 {
    ((2 * a) % 256) as u8
}

/// Bit 7 of `a`, as 0 or 1.
pub open spec fn shl_flag(a: u8) -> u8 {
    (a / 128) as u8
}

/// The three decimal digits of `a`: hundreds, tens, ones.
pub open spec fn bcd_hundreds(a: u8) -> u8 {
    (a / 100) as u8
}

pub open spec fn bcd_tens(a: u8) -> u8 {
    ((a / 10) % 10) as u8
}

pub open spec fn bcd_ones(a: u8) -> u8 {
    (a % 10) as u8
}

/// The lowest pressed key with index at least `i`, if any.
pub open spec fn lowest_key(keys: Seq<bool>, i: nat) -> Option<u8>
    decreases 16 - i,
{
    if i >= 16 {
        None
    } else if keys[i as int] {
        Some(i as u8)
    } else {
        lowest_key(keys, i + 1)
    }
}

/// A partially drawn sprite: the screen so far and whether any drawn
/// pixel has collided with one that was already on.
#[verifier::ext_equal]
pub struct DrawState {
    pub fb: Seq<u64>,
    pub hit: bool,
}

/// Bit `c` of a sprite row, counted from the left: the most significant
/// bit is the leftmost pixel.
pub open spec fn sprite_bit(b: u8, c: u8) -> bool {
    (b >> ((7 - c) as u8)) & 1u8 == 1u8
}

/// XOR one sprite pixel into the screen and accumulate the collision bit.
pub open spec fn draw_pixel(st: DrawState, on: bool, x: u64, y: u64) -> DrawState {
    DrawState {
        fb: st.fb.update(y as int, row_xor(st.fb[y as int], x, on)),
        hit: st.hit || (pixel_at(st.fb, x, y) && on),
    }
}

/// Draw the leftmost `c` pixels of one sprite row at column `x0`, row `y`.
/// Columns wrap modulo 64.
pub open spec fn draw_cols(st: DrawState, b: u8, x0: u8, y: u8, c: u8) -> DrawState
    decreases c,
{
    if c == 0 {
        st
    } else {
        let prev = draw_cols(st, b, x0, y, (c - 1) as u8);
        draw_pixel(prev, sprite_bit(b, (c - 1) as u8), ((x0 + (c - 1)) % 64) as u64, y as u64)
    }
}

/// Draw the first `r` rows of a sprite read from memory at `index`, at
/// column `x0`, row `y0`. Rows wrap modulo 32 and sprite addresses are
/// masked to the 4096 bytes of memory.
pub open spec fn draw_rows(st: DrawState, mem: Seq<u8>, index: u16, x0: u8, y0: u8, r: u8) -> DrawState
    decreases r,
{
    if r == 0 {
        st
    } else {
        let prev = draw_rows(st, mem, index, x0, y0, (r - 1) as u8);
        let b = mem[(index + (r - 1)) % 4096];
        draw_cols(prev, b, x0, ((y0 + (r - 1)) % 32) as u8, 8)
    }
}

/// Whether one of the leftmost `c` pixels of sprite row `b`, drawn at
/// column `x0` of screen row `y`, lands on the cell `(px, py)`: the bit
/// must be set and its column wraps modulo 64.
pub open spec fn row_covers(b: u8, x0: u8, y: u8, c: u8, px: u64, py: u64) -> bool
    decreases c,
{
    c > 0 && {
        let i = (c - 1) as u8;
        (py == y as u64 && px == ((x0 + i) % 64) as u64 && sprite_bit(b, i))
            || row_covers(b, x0, y, i, px, py)
    }
}

/// Whether one of the first `r` rows of the sprite read from memory at
/// `index`, drawn at `(x0, y0)`, lands on the cell `(px, py)`: rows wrap
/// modulo 32 and sprite addresses are masked to memory.
pub open spec fn sprite_covers(mem: Seq<u8>, index: u16, x0: u8, y0: u8, r: u8, px: u64, py: u64) -> bool
    decreases r,
{
    r > 0 && {
        let k = (r - 1) as u8;
        row_covers(mem[(index + k) % 4096], x0, ((y0 + k) % 32) as u8, 8, px, py)
            || sprite_covers(mem, index, x0, y0, k, px, py)
    }
}

/// The memory after registers V0..=V(k-1) are copied in at `index`,
/// addresses masked to the 4096 bytes of memory.
pub open spec fn mem_with_regs(mem: Seq<u8>, regs: Seq<u8>, index: u16, k: u8) -> Seq<u8>
    decreases k,
{
    if k == 0 {
        mem
    } else {
        mem_with_regs(mem, regs, index, (k - 1) as u8)
            .update((index + (k - 1)) % 4096, regs[k - 1])
    }
}

/// The registers after V0..=V(k-1) are loaded from memory at `index`,
/// addresses masked to the 4096 bytes of memory.
pub open spec fn regs_from_mem(regs: Seq<u8>, mem: Seq<u8>, index: u16, k: u8) -> Seq<u8>
    decreases k,
{
    if k == 0 {
        regs
    } else {
        regs_from_mem(regs, mem, index, (k - 1) as u8)
            .update(k - 1, mem[(index + (k - 1)) % 4096])
    }
}

/// The outcome of one cycle: the next state and its report, or a fatal
/// condition that leaves the state untouched.
pub enum CycleOutcome {
    Next(VmView, StepReport),
    Fault(VmError),
}

/// One fetch-decode-execute cycle on the machine state, with `rand` the
/// byte the random source handed the RND instruction. The program counter
/// is advanced past the fetched word before the instruction acts, so a
/// jump overwrites it and the key-wait rewind leaves it unchanged.
pub open spec fn spec_cycle(pre: VmView, rand: u8) -> CycleOutcome {
    let op = fetch(pre.mem, pre.pc);
    let pc2 = wrap16(pre.pc + 2);
    let m = VmView { pc: pc2, ..pre };
    match spec_decode(op) {
        Instr::Cls => CycleOutcome::Next(VmView { fb: blank_screen(), ..m }, StepReport::Executed),
        Instr::Ret => if pre.sp == 0 {
            CycleOutcome::Fault(VmError::StackUnderflow)
        } else {
            CycleOutcome::Next(
                VmView { pc: pre.stack[pre.sp - 1], sp: (pre.sp - 1) as u8, ..m },
                StepReport::Executed,
            )
        },
        Instr::Sys => CycleOutcome::Next(m, StepReport::Executed),
        Instr::Jp(nnn) => CycleOutcome::Next(VmView { pc: nnn, ..m }, StepReport::Executed),
        Instr::Call(nnn) => if pre.sp >= 16 {
            CycleOutcome::Fault(VmError::StackOverflow)
        } else {
            CycleOutcome::Next(
                VmView {
                    stack: pre.stack.update(pre.sp as int, pc2),
                    sp: (pre.sp + 1) as u8,
                    pc: nnn,
                    ..m
                },
                StepReport::Executed,
            )
        },
        Instr::SeImm(x, kk) => CycleOutcome::Next(
            VmView { pc: if pre.regs[x as int] == kk { wrap16(pc2 + 2) } else { pc2 }, ..m },
            StepReport::Executed,
        ),
        Instr::SneImm(x, kk) => CycleOutcome::Next(
            VmView { pc: if pre.regs[x as int] != kk { wrap16(pc2 + 2) } else { pc2 }, ..m },
            StepReport::Executed,
        ),
        Instr::SeReg(x, y) => CycleOutcome::Next(
            VmView {
                pc: if pre.regs[x as int] == pre.regs[y as int] { wrap16(pc2 + 2) } else { pc2 },
                ..m
            },
            StepReport::Executed,
        ),
        Instr::LdImm(x, kk) => CycleOutcome::Next(
            VmView { regs: pre.regs.update(x as int, kk), ..m },
            StepReport::Executed,
        ),
        Instr::AddImm(x, kk) => CycleOutcome::Next(
            VmView { regs: pre.regs.update(x as int, add_result(pre.regs[x as int], kk)), ..m },
            StepReport::Executed,
        ),
        Instr::MovReg(x, y) => CycleOutcome::Next(
            VmView { regs: pre.regs.update(x as int, pre.regs[y as int]), ..m },
            StepReport::Executed,
        ),
        Instr::OrReg(x, y) => CycleOutcome::Next(
            VmView {
                regs: pre.regs.update(x as int, pre.regs[x as int] | pre.regs[y as int]),
                ..m
            },
            StepReport::Executed,
        ),
        Instr::AndReg(x, y) => CycleOutcome::Next(
            VmView {
                regs: pre.regs.update(x as int, pre.regs[x as int] & pre.regs[y as int]),
                ..m
            },
            StepReport::Executed,
        ),
        Instr::XorReg(x, y) => CycleOutcome::Next(
            VmView {
                regs: pre.regs.update(x as int, pre.regs[x as int] ^ pre.regs[y as int]),
                ..m
            },
            StepReport::Executed,
        ),
        Instr::AddReg(x, y) => CycleOutcome::Next(
            VmView {
                regs: pre.regs
                    .update(15, add_flag(pre.regs[x as int], pre.regs[y as int]))
                    .update(x as int, add_result(pre.regs[x as int], pre.regs[y as int])),
                ..m
            },
            StepReport::Executed,
        ),
        Instr::SubReg(x, y) => {
            let r1 = pre.regs.update(15, sub_flag(pre.regs[x as int], pre.regs[y as int]));
            CycleOutcome::Next(
                VmView {
                    regs: r1.update(x as int, sub_result(r1[x as int], r1[y as int])),
                    ..m
                },
                StepReport::Executed,
            )
        },
        Instr::ShrReg(x, y) => {
            let r1 = pre.regs.update(15, shr_flag(pre.regs[x as int]));
            CycleOutcome::Next(
                VmView { regs: r1.update(x as int, shr_result(r1[x as int])), ..m },
                StepReport::Executed,
            )
        },
        Instr::SubnReg(x, y) => {
            let r1 = pre.regs.update(15, sub_flag(pre.regs[y as int], pre.regs[x as int]));
            CycleOutcome::Next(
                VmView {
                    regs: r1.update(x as int, sub_result(r1[y as int], r1[x as int])),
                    ..m
                },
                StepReport::Executed,
            )
        },
        Instr::ShlReg(x, y) => {
            let r1 = pre.regs.update(15, shl_flag(pre.regs[x as int]));
            CycleOutcome::Next(
                VmView { regs: r1.update(x as int, shl_result(r1[x as int])), ..m },
                StepReport::Executed,
            )
        },
        Instr::SneReg(x, y) => CycleOutcome::Next(
            VmView {
                pc: if pre.regs[x as int] != pre.regs[y as int] { wrap16(pc2 + 2) } else { pc2 },
                ..m
            },
            StepReport::Executed,
        ),
        Instr::LdIndex(nnn) => CycleOutcome::Next(
            VmView { index: nnn, ..m },
            StepReport::Executed,
        ),
        Instr::JpV0(nnn) => CycleOutcome::Next(
            VmView { pc: (pre.regs[0] + nnn) as u16, ..m },
            StepReport::Executed,
        ),
        Instr::Rnd(x, kk) => CycleOutcome::Next(
            VmView { regs: pre.regs.update(x as int, rand & kk), ..m },
            StepReport::Executed,
        ),
        Instr::Draw(x, y, n) => {
            let x0 = (pre.regs[x as int] % 64) as u8;
            let y0 = (pre.regs[y as int] % 32) as u8;
            let d = draw_rows(
                DrawState { fb: pre.fb, hit: false },
                pre.mem,
                pre.index,
                x0,
                y0,
                n,
            );
            CycleOutcome::Next(
                VmView {
                    fb: d.fb,
                    regs: pre.regs.update(15, if d.hit { 1u8 } else { 0u8 }),
                    ..m
                },
                StepReport::Executed,
            )
        },
        Instr::SkipKey(x) => {
            let k = pre.regs[x as int];
            let pressed = k < 16 && pre.keys[k as int];
            CycleOutcome::Next(
                VmView { pc: if pressed { wrap16(pc2 + 2) } else { pc2 }, ..m },
                StepReport::Executed,
            )
        },
        Instr::SkipNoKey(x) => {
            let k = pre.regs[x as int];
            let pressed = k < 16 && pre.keys[k as int];
            CycleOutcome::Next(
                VmView { pc: if !pressed { wrap16(pc2 + 2) } else { pc2 }, ..m },
                StepReport::Executed,
            )
        },
        Instr::ReadDelay(x) => CycleOutcome::Next(
            VmView { regs: pre.regs.update(x as int, pre.delay), ..m },
            StepReport::Executed,
        ),
        Instr::WaitKey(x) => match lowest_key(pre.keys, 0) {
            Some(k) => CycleOutcome::Next(
                VmView { regs: pre.regs.update(x as int, k), ..m },
                StepReport::Executed,
            ),
            None => CycleOutcome::Next(
                VmView { pc: pre.pc, ..m },
                StepReport::Executed,
            ),
        },
        Instr::SetDelay(x) => CycleOutcome::Next(
            VmView { delay: pre.regs[x as int], ..m },
            StepReport::Executed,
        ),
        Instr::SetSound(x) => CycleOutcome::Next(
            VmView { sound: pre.regs[x as int], ..m },
            StepReport::Executed,
        ),
        Instr::AddIndex(x) => CycleOutcome::Next(
            VmView { index: wrap16(pre.index + pre.regs[x as int]), ..m },
            StepReport::Executed,
        ),
        Instr::Font(x) => CycleOutcome::Next(
            VmView { index: (0x50 + 5 * pre.regs[x as int]) as u16, ..m },
            StepReport::Executed,
        ),
        Instr::Bcd(x) => {
            let v = pre.regs[x as int];
            CycleOutcome::Next(
                VmView {
                    mem: pre.mem
                        .update((pre.index + 0) % 4096, bcd_hundreds(v))
                        .update((pre.index + 1) % 4096, bcd_tens(v))
                        .update((pre.index + 2) % 4096, bcd_ones(v)),
                    ..m
                },
                StepReport::Executed,
            )
        },
        Instr::StoreRegs(x) => CycleOutcome::Next(
            VmView {
                mem: mem_with_regs(pre.mem, pre.regs, pre.index, (x + 1) as u8),
                ..m
            },
            StepReport::Executed,
        ),
        Instr::LoadRegs(x) => CycleOutcome::Next(
            VmView {
                regs: regs_from_mem(pre.regs, pre.mem, pre.index, (x + 1) as u8),
                ..m
            },
            StepReport::Executed,
        ),
        Instr::Unknown(w) => CycleOutcome::Next(m, StepReport::UnknownOpcode(w)),
    }
}

} // verus!
