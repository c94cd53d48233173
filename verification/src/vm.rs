//! The executable virtual machine, proved to implement the step function
//! of `crate::model` cycle by cycle.

use vstd::prelude::*;
use crate::framebuffer::Framebuffer;
use crate::model::CycleOutcome;
use crate::model::Instr;
use crate::model::StepReport;
use crate::model::VmError;
use crate::model::VmView;
use crate::model::fetch;
use crate::model::init_state;
use crate::model::lowest_key;
use crate::model::mem_with_rom;
use crate::model::spec_cycle;
use crate::model::spec_decode;
use crate::model::DrawState;
use crate::model::wrap16;

verus! {

/// A vector holding `n` copies of `value`.
fn filled<T: Copy>(value: T, n: usize) -> (v: Vec<T>)
    ensures
        v@.len() == n,
        forall|i: int| 0 <= i < n ==> v@[i] == value,
{
    let mut v: Vec<T> = Vec::new();
    let mut i: usize = 0;
    while i < n
        invariant
            i <= n,
            v@.len() == i,
            forall|j: int| 0 <= j < i ==> v@[j] == value,
        decreases n - i,
    {
        v.push(value);
        i = i + 1;
    }
    v
}

/// The program counter two bytes on, wrapping at the top of the address
/// space.
fn pc_plus2(pc: u16) -> (r: u16)
    ensures
        r == wrap16(pc + 2),
{
    if pc >= 0xFFFE {
        pc - 0xFFFE
    } else {
        pc + 2
    }
}

/// The lowest pressed key, if any key is down.
fn first_pressed(keys: &Vec<bool>) -> (r: Option<u8>)
    requires
        keys@.len() == 16,
    ensures
        r == lowest_key(keys@, 0),
        r matches Some(k) ==> k < 16,
{
    let mut i: u8 = 0;
    while i < 16
        invariant
            i <= 16,
            keys@.len() == 16,
            lowest_key(keys@, 0) == lowest_key(keys@, i as nat),
        decreases 16 - i,
    {
        if keys[i as usize] {
            return Some(i);
        }
        i = i + 1;
    }
    None
}

/// The outcome of one executable cycle matches the model's step function
/// for the given random byte.
pub open spec fn cycle_matches(
    pre: VmView,
    post: VmView,
    r: Result<StepReport, VmError>,
    rand: u8,
) -> bool {
    match spec_cycle(pre, rand) {
        CycleOutcome::Next(v, rep) => r == Ok::<StepReport, VmError>(rep) && post == v,
        CycleOutcome::Fault(e) => r == Err::<StepReport, VmError>(e) && post == pre,
    }
}

/// Relies on rand::random: a uniformly random byte from the process's
/// generator. Nothing is promised of the value; the cycle is verified
/// for every byte this may return.
#[verifier::external_body]
fn random_byte() -> u8 {
    rand::random::<u8>()
}

pub struct VM {
    memory: Vec<u8>,
    stack: Vec<u16>,
    stack_pointer: u8,
    program_counter: u16,
    registers: Vec<u8>,
    index_register: u16,
    framebuffer: Framebuffer,
    delay_timer: u8,
    sound_timer: u8,
    keyboard: Vec<bool>,
}

impl View for VM {
    type V = VmView;

    closed spec fn view(&self) -> VmView {
        VmView {
            mem: self.memory@,
            stack: self.stack@,
            sp: self.stack_pointer,
            pc: self.program_counter,
            regs: self.registers@,
            index: self.index_register,
            fb: self.framebuffer@,
            delay: self.delay_timer,
            sound: self.sound_timer,
            keys: self.keyboard@,
        }
    }
}

impl VM {
    /// The state is well formed: fixed sizes, stack pointer in range.
    pub open spec fn wf(&self) -> bool {
        self@.wf()
    }

    /// A fresh machine: everything zeroed, the program counter at 0x200.
    pub fn new() -> (vm: VM)
        ensures
            vm.wf(),
            vm@ == init_state(),
    {
        let vm = VM {
            memory: filled(0u8, 4096),
            stack: filled(0u16, 16),
            stack_pointer: 0,
            program_counter: 0x200,
            registers: filled(0u8, 16),
            index_register: 0,
            framebuffer: Framebuffer::new(),
            delay_timer: 0,
            sound_timer: 0,
            keyboard: filled(false, 16),
        };
        proof {
            assert(vm@.mem =~= init_state().mem);
            assert(vm@.stack =~= init_state().stack);
            assert(vm@.regs =~= init_state().regs);
            assert(vm@.keys =~= init_state().keys);
            assert(vm@ =~= init_state());
        }
        vm
    }

    /// Copy a ROM image into memory at 0x200. An image larger than the
    /// 3584 bytes of program memory is rejected whole; nothing is copied.
    pub fn load(&mut self, rom: &Vec<u8>) -> (r: Result<(), VmError>)
        requires
            old(self).wf(),
        ensures
            final(self).wf(),
            rom@.len() <= 3584 ==> r == Ok::<(), VmError>(())
                && final(self)@ == (VmView { mem: mem_with_rom(old(self)@.mem, rom@), ..old(self)@ }),
            rom@.len() > 3584 ==> r == Err::<(), VmError>(VmError::RomTooLarge)
                && final(self)@ == old(self)@,
    {
        if rom.len() > 3584 {
            return Err(VmError::RomTooLarge);
        }
        let mut i: usize = 0;
        while i < rom.len()
            invariant
                old(self).wf(),
                rom@.len() <= 3584,
                i <= rom@.len(),
                self@ == (VmView { mem: self@.mem, ..old(self)@ }),
                self@.mem.len() == 4096,
                forall|j: int| 512 <= j < 512 + i ==> self@.mem[j] == rom@[j - 512],
                forall|j: int| 0 <= j < 4096 && !(512 <= j < 512 + i) ==> self@.mem[j] == old(self)@.mem[j],
            decreases rom@.len() - i,
        {
            self.memory.set(512 + i, rom[i]);
            i = i + 1;
        }
        proof {
            assert(self@.mem =~= mem_with_rom(old(self)@.mem, rom@));
            assert(self@ =~= (VmView { mem: mem_with_rom(old(self)@.mem, rom@), ..old(self)@ }));
        }
        Ok(())
    }

    /// Record a key as pressed or released. Key indices run 0 to 15; the
    /// host must not hand in any other.
    pub fn key(&mut self, key: u8, state: bool)
        requires
            old(self).wf(),
            key < 16,
        ensures
            final(self).wf(),
            final(self)@ == (VmView { keys: old(self)@.keys.update(key as int, state), ..old(self)@ }),
    {
        self.keyboard.set(key as usize, state);
        proof {
            assert(self@ =~= (VmView { keys: old(self)@.keys.update(key as int, state), ..old(self)@ }));
        }
    }

    /// Fetch the big-endian instruction word at the program counter.
    fn read_instruction(&self) -> (op: u16)
        requires
            self.wf(),
        ensures
            op == fetch(self@.mem, self@.pc),
    {
        let pc = self.program_counter;
        let lo_pc: u16 = if pc == 0xFFFF { 0 } else { pc + 1 };
        proof {
            assert((pc & 0xFFF) < 4096 && (lo_pc & 0xFFF) < 4096) by (bit_vector);
        }
        let hi = self.memory[(pc & 0xFFF) as usize];
        let lo = self.memory[(lo_pc & 0xFFF) as usize];
        ((hi as u16) << 8u16) | (lo as u16)
    }

    /// Execute a decoded register, timer or index instruction. The
    /// ghost argument is the machine state before the program counter was
    /// advanced past the fetched word.
    fn exec_reg_op(&mut self, instr: Instr, random: u8, Ghost(pre): Ghost<VmView>)
        requires
            pre.wf(),
            old(self)@ == (VmView { pc: wrap16(pre.pc + 2), ..pre }),
            spec_decode(fetch(pre.mem, pre.pc)) == instr,
            instr is LdImm || instr is AddImm || instr is Rnd
                || instr is ReadDelay || instr is SetDelay || instr is SetSound
                || instr is AddIndex || instr is Font || instr is LdIndex,
        ensures
            final(self).wf(),
            spec_cycle(pre, random) matches CycleOutcome::Next(v, rep)
                && final(self)@ == v && rep == StepReport::Executed,
    {
        proof {
            crate::model::lemma_decode_fields(fetch(pre.mem, pre.pc));
        }
        match instr {
            Instr::LdImm(x, kk) => {
                self.registers.set(x as usize, kk);
            },
            Instr::AddImm(x, kk) => {
                let a = self.registers[x as usize];
                let s: u16 = a as u16 + kk as u16;
                let v: u8 = if s >= 256 { (s - 256) as u8 } else { s as u8 };
                self.registers.set(x as usize, v);
            },
            Instr::Rnd(x, kk) => {
                self.registers.set(x as usize, random & kk);
            },
            Instr::ReadDelay(x) => {
                let d = self.delay_timer;
                self.registers.set(x as usize, d);
            },
            Instr::SetDelay(x) => {
                self.delay_timer = self.registers[x as usize];
            },
            Instr::SetSound(x) => {
                self.sound_timer = self.registers[x as usize];
            },
            Instr::AddIndex(x) => {
                let s: u32 = self.index_register as u32 + self.registers[x as usize] as u32;
                self.index_register = if s >= 65536 { (s - 65536) as u16 } else { s as u16 };
            },
            Instr::Font(x) => {
                let d = self.registers[x as usize] as u16;
                self.index_register = 0x50 + 5 * d;
            },
            Instr::LdIndex(nnn) => {
                self.index_register = nnn;
            },
            _ => {
                proof {
                    assert(false);
                }
            },
        }
        proof {
            assert(self@ =~= spec_cycle(pre, random)->Next_0);
        }
    }

    /// Execute a decoded two-register ALU instruction: the flag register
    /// VF is written first, the result register second, exactly as the
    /// model sequences the two writes.
    #[verifier::rlimit(100)]
    fn exec_alu_op(&mut self, instr: Instr, random: u8, Ghost(pre): Ghost<VmView>)
        requires
            pre.wf(),
            old(self)@ == (VmView { pc: wrap16(pre.pc + 2), ..pre }),
            spec_decode(fetch(pre.mem, pre.pc)) == instr,
            instr is MovReg || instr is OrReg || instr is AndReg || instr is XorReg,
        ensures
            final(self).wf(),
            spec_cycle(pre, random) matches CycleOutcome::Next(v, rep)
                && final(self)@ == v && rep == StepReport::Executed,
    {
        proof {
            crate::model::lemma_decode_fields(fetch(pre.mem, pre.pc));
        }
        match instr {
            Instr::MovReg(x, y) => {
                let b = self.registers[y as usize];
                self.registers.set(x as usize, b);
            },
            Instr::OrReg(x, y) => {
                let v = self.registers[x as usize] | self.registers[y as usize];
                self.registers.set(x as usize, v);
            },
            Instr::AndReg(x, y) => {
                let v = self.registers[x as usize] & self.registers[y as usize];
                self.registers.set(x as usize, v);
            },
            Instr::XorReg(x, y) => {
                let v = self.registers[x as usize] ^ self.registers[y as usize];
                self.registers.set(x as usize, v);
            },
            _ => {
                proof {
                    assert(false);
                }
            },
        }
        proof {
            assert(self@ =~= spec_cycle(pre, random)->Next_0);
        }
    }

    /// Execute 8xy4: sum with carry flag. The flag register VF is written first, the result
    /// register second, exactly as the model sequences the two writes.
    fn exec_add_reg(&mut self, x: u8, y: u8, random: u8, Ghost(pre): Ghost<VmView>)
        requires
            pre.wf(),
            old(self)@ == (VmView { pc: wrap16(pre.pc + 2), ..pre }),
            spec_decode(fetch(pre.mem, pre.pc)) == Instr::AddReg(x, y),
            x < 16,
            y < 16,
        ensures
            final(self).wf(),
            spec_cycle(pre, random) matches CycleOutcome::Next(v, rep)
                && final(self)@ == v && rep == StepReport::Executed,
    {
        let a = self.registers[x as usize];
        let b = self.registers[y as usize];
        let s: u16 = a as u16 + b as u16;
        let f: u8 = if s >= 256 { 1 } else { 0 };
        let v: u8 = if s >= 256 { (s - 256) as u8 } else { s as u8 };
        proof {
            assert(f == crate::model::add_flag(a, b));
            assert(v == crate::model::add_result(a, b));
        }
        self.registers.set(15, f);
        self.registers.set(x as usize, v);
        proof {
            assert(self@ =~= spec_cycle(pre, random)->Next_0);
        }
    }

    /// Execute 8xy5: difference with NOT-borrow flag. The flag register VF is written first, the result
    /// register second, exactly as the model sequences the two writes.
    fn exec_sub_reg(&mut self, x: u8, y: u8, random: u8, Ghost(pre): Ghost<VmView>)
        requires
            pre.wf(),
            old(self)@ == (VmView { pc: wrap16(pre.pc + 2), ..pre }),
            spec_decode(fetch(pre.mem, pre.pc)) == Instr::SubReg(x, y),
            x < 16,
            y < 16,
        ensures
            final(self).wf(),
            spec_cycle(pre, random) matches CycleOutcome::Next(v, rep)
                && final(self)@ == v && rep == StepReport::Executed,
    {
        let a = self.registers[x as usize];
        let b = self.registers[y as usize];
        let f: u8 = if a > b { 1 } else { 0 };
        self.registers.set(15, f);
        let a2 = self.registers[x as usize];
        let b2 = self.registers[y as usize];
        let v: u8 = if a2 >= b2 { a2 - b2 } else { ((a2 as u16 + 256) - b2 as u16) as u8 };
        proof {
            assert(v == crate::model::sub_result(a2, b2));
        }
        self.registers.set(x as usize, v);
        proof {
            assert(self@ =~= spec_cycle(pre, random)->Next_0);
        }
    }

    /// Execute 8xy6: shift right with bit-0 flag. The flag register VF is written first, the result
    /// register second, exactly as the model sequences the two writes.
    fn exec_shr_reg(&mut self, x: u8, y: u8, random: u8, Ghost(pre): Ghost<VmView>)
        requires
            pre.wf(),
            old(self)@ == (VmView { pc: wrap16(pre.pc + 2), ..pre }),
            spec_decode(fetch(pre.mem, pre.pc)) == Instr::ShrReg(x, y),
            x < 16,
            y < 16,
        ensures
            final(self).wf(),
            spec_cycle(pre, random) matches CycleOutcome::Next(v, rep)
                && final(self)@ == v && rep == StepReport::Executed,
    {
        let f = self.registers[x as usize] % 2;
        self.registers.set(15, f);
        let a2 = self.registers[x as usize];
        self.registers.set(x as usize, a2 / 2);
        proof {
            assert(self@ =~= spec_cycle(pre, random)->Next_0);
        }
    }

    /// Execute 8xy7: reversed difference with NOT-borrow flag. The flag register VF is written first, the result
    /// register second, exactly as the model sequences the two writes.
    fn exec_subn_reg(&mut self, x: u8, y: u8, random: u8, Ghost(pre): Ghost<VmView>)
        requires
            pre.wf(),
            old(self)@ == (VmView { pc: wrap16(pre.pc + 2), ..pre }),
            spec_decode(fetch(pre.mem, pre.pc)) == Instr::SubnReg(x, y),
            x < 16,
            y < 16,
        ensures
            final(self).wf(),
            spec_cycle(pre, random) matches CycleOutcome::Next(v, rep)
                && final(self)@ == v && rep == StepReport::Executed,
    {
        let a = self.registers[x as usize];
        let b = self.registers[y as usize];
        let f: u8 = if b > a { 1 } else { 0 };
        self.registers.set(15, f);
        let a2 = self.registers[x as usize];
        let b2 = self.registers[y as usize];
        let v: u8 = if b2 >= a2 { b2 - a2 } else { ((b2 as u16 + 256) - a2 as u16) as u8 };
        proof {
            assert(v == crate::model::sub_result(b2, a2));
        }
        self.registers.set(x as usize, v);
        proof {
            assert(self@ =~= spec_cycle(pre, random)->Next_0);
        }
    }

    /// Execute 8xy8: shift left with bit-7 flag. The flag register VF is written first, the result
    /// register second, exactly as the model sequences the two writes.
    fn exec_shl_reg(&mut self, x: u8, y: u8, random: u8, Ghost(pre): Ghost<VmView>)
        requires
            pre.wf(),
            old(self)@ == (VmView { pc: wrap16(pre.pc + 2), ..pre }),
            spec_decode(fetch(pre.mem, pre.pc)) == Instr::ShlReg(x, y),
            x < 16,
            y < 16,
        ensures
            final(self).wf(),
            spec_cycle(pre, random) matches CycleOutcome::Next(v, rep)
                && final(self)@ == v && rep == StepReport::Executed,
    {
        let f = self.registers[x as usize] / 128;
        self.registers.set(15, f);
        let a2 = self.registers[x as usize];
        let s: u16 = a2 as u16 + a2 as u16;
        let v: u8 = if s >= 256 { (s - 256) as u8 } else { s as u8 };
        proof {
            assert(v == crate::model::shl_result(a2));
        }
        self.registers.set(x as usize, v);
        proof {
            assert(self@ =~= spec_cycle(pre, random)->Next_0);
        }
    }

    /// Execute a decoded control-flow instruction: jumps, calls, returns
    /// and skips. The fatal stack conditions have already been ruled out.
    fn exec_flow_op(&mut self, instr: Instr, random: u8, Ghost(pre): Ghost<VmView>)
        requires
            pre.wf(),
            old(self)@ == (VmView { pc: wrap16(pre.pc + 2), ..pre }),
            spec_decode(fetch(pre.mem, pre.pc)) == instr,
            instr is Sys || instr is Jp || instr is Call || instr is Ret || instr is SeImm
                || instr is SneImm || instr is SeReg || instr is SneReg || instr is JpV0
                || instr is SkipKey || instr is SkipNoKey,
            instr is Ret ==> pre.sp > 0,
            instr is Call ==> pre.sp < 16,
        ensures
            final(self).wf(),
            spec_cycle(pre, random) matches CycleOutcome::Next(v, rep)
                && final(self)@ == v && rep == StepReport::Executed,
    {
        proof {
            crate::model::lemma_decode_fields(fetch(pre.mem, pre.pc));
        }
        let pc2 = self.program_counter;
        match instr {
            Instr::Sys => {},
            Instr::Jp(nnn) => {
                self.program_counter = nnn;
            },
            Instr::Call(nnn) => {
                self.stack.set(self.stack_pointer as usize, pc2);
                self.stack_pointer = self.stack_pointer + 1;
                self.program_counter = nnn;
            },
            Instr::Ret => {
                self.stack_pointer = self.stack_pointer - 1;
                self.program_counter = self.stack[self.stack_pointer as usize];
            },
            Instr::SeImm(x, kk) => {
                if self.registers[x as usize] == kk {
                    self.program_counter = pc_plus2(pc2);
                }
            },
            Instr::SneImm(x, kk) => {
                if self.registers[x as usize] != kk {
                    self.program_counter = pc_plus2(pc2);
                }
            },
            Instr::SeReg(x, y) => {
                if self.registers[x as usize] == self.registers[y as usize] {
                    self.program_counter = pc_plus2(pc2);
                }
            },
            Instr::SneReg(x, y) => {
                if self.registers[x as usize] != self.registers[y as usize] {
                    self.program_counter = pc_plus2(pc2);
                }
            },
            Instr::JpV0(nnn) => {
                self.program_counter = self.registers[0] as u16 + nnn;
            },
            Instr::SkipKey(x) => {
                let k = self.registers[x as usize];
                let pressed = k < 16 && self.keyboard[k as usize];
                if pressed {
                    self.program_counter = pc_plus2(pc2);
                }
            },
            Instr::SkipNoKey(x) => {
                let k = self.registers[x as usize];
                let pressed = k < 16 && self.keyboard[k as usize];
                if !pressed {
                    self.program_counter = pc_plus2(pc2);
                }
            },
            _ => {
                proof {
                    assert(false);
                }
            },
        }
        proof {
            assert(self@ =~= spec_cycle(pre, random)->Next_0);
        }
    }

    /// Execute a decoded screen, memory-block or key-wait instruction.
    /// `pc_before` is the address the instruction was fetched from, for
    /// the key-wait rewind.
    fn exec_mem_op(&mut self, instr: Instr, random: u8, pc_before: u16, Ghost(pre): Ghost<VmView>)
        requires
            pre.wf(),
            old(self)@ == (VmView { pc: wrap16(pre.pc + 2), ..pre }),
            spec_decode(fetch(pre.mem, pre.pc)) == instr,
            pc_before == pre.pc,
            instr is Cls || instr is Draw || instr is Bcd || instr is StoreRegs
                || instr is LoadRegs || instr is WaitKey,
        ensures
            final(self).wf(),
            spec_cycle(pre, random) matches CycleOutcome::Next(v, rep)
                && final(self)@ == v && rep == StepReport::Executed,
    {
        proof {
            crate::model::lemma_decode_fields(fetch(pre.mem, pre.pc));
        }
        let ghost base = self@;
        match instr {
            Instr::Cls => {
                self.framebuffer.clear();
            },
            Instr::Draw(x, y, n) => {
                let x0: u8 = self.registers[x as usize] % 64;
                let y0: u8 = self.registers[y as usize] % 32;
                let ghost st0 = DrawState { fb: base.fb, hit: false };
                let mut collision = false;
                let mut r: u8 = 0;
                while r < n
                    invariant
                        r <= n,
                        n < 16,
                        x0 < 64,
                        y0 < 32,
                        base.wf(),
                        self@ == (VmView { fb: self@.fb, ..base }),
                        self@.fb.len() == 32,
                        (DrawState { fb: self@.fb, hit: collision })
                            == crate::model::draw_rows(st0, base.mem, base.index, x0, y0, r),
                    decreases n - r,
                {
                    let addr = (self.index_register as usize + r as usize) % 4096;
                    let row_byte = self.memory[addr];
                    let yy: u8 = (y0 + r) % 32;
                    let ghost row_st = DrawState { fb: self@.fb, hit: collision };
                    let mut c: u8 = 0;
                    while c < 8
                        invariant
                            c <= 8,
                            x0 < 64,
                            yy < 32,
                            base.wf(),
                            self@ == (VmView { fb: self@.fb, ..base }),
                            self@.fb.len() == 32,
                            (DrawState { fb: self@.fb, hit: collision })
                                == crate::model::draw_cols(row_st, row_byte, x0, yy, c),
                        decreases 8 - c,
                    {
                        let on = (row_byte >> (7 - c)) & 1 == 1;
                        let xx: u8 = (x0 + c) % 64;
                        let col = self.framebuffer.set(xx, yy, on);
                        collision = collision || col;
                        c = c + 1;
                        proof {
                            assert(DrawState { fb: self@.fb, hit: collision }
                                =~= crate::model::draw_cols(row_st, row_byte, x0, yy, c));
                        }
                    }
                    r = r + 1;
                    proof {
                        assert(DrawState { fb: self@.fb, hit: collision }
                            =~= crate::model::draw_rows(st0, base.mem, base.index, x0, y0, r));
                    }
                }
                self.registers.set(15, if collision { 1 } else { 0 });
            },
            Instr::Bcd(x) => {
                let v = self.registers[x as usize];
                let i0 = (self.index_register as usize) % 4096;
                let i1 = (self.index_register as usize + 1) % 4096;
                let i2 = (self.index_register as usize + 2) % 4096;
                self.memory.set(i0, v / 100);
                self.memory.set(i1, (v / 10) % 10);
                self.memory.set(i2, v % 10);
            },
            Instr::StoreRegs(x) => {
                let mut j: u8 = 0;
                while j <= x
                    invariant
                        j <= x + 1,
                        x < 16,
                        base.wf(),
                        self@ == (VmView { mem: self@.mem, ..base }),
                        self@.mem.len() == 4096,
                        self@.mem == crate::model::mem_with_regs(base.mem, base.regs, base.index, j),
                    decreases x + 1 - j,
                {
                    let addr = (self.index_register as usize + j as usize) % 4096;
                    let v = self.registers[j as usize];
                    self.memory.set(addr, v);
                    j = j + 1;
                }
            },
            Instr::LoadRegs(x) => {
                let mut j: u8 = 0;
                while j <= x
                    invariant
                        j <= x + 1,
                        x < 16,
                        base.wf(),
                        self@ == (VmView { regs: self@.regs, ..base }),
                        self@.regs.len() == 16,
                        self@.regs == crate::model::regs_from_mem(base.regs, base.mem, base.index, j),
                    decreases x + 1 - j,
                {
                    let addr = (self.index_register as usize + j as usize) % 4096;
                    let v = self.memory[addr];
                    self.registers.set(j as usize, v);
                    j = j + 1;
                }
            },
            Instr::WaitKey(x) => {
                match first_pressed(&self.keyboard) {
                    Some(k) => {
                        self.registers.set(x as usize, k);
                    },
                    None => {
                        // No key is down: rewind so the next cycle fetches
                        // this same instruction again.
                        self.program_counter = pc_before;
                    },
                }
            },
            _ => {
                proof {
                    assert(false);
                }
            },
        }
        proof {
            assert(self@ =~= spec_cycle(pre, random)->Next_0);
        }
    }

    /// One fetch-decode-execute cycle, with the byte the random source
    /// handed the RND instruction passed in explicitly: the whole step is
    /// deterministic in `random` and follows the model's `spec_cycle`.
    /// A fatal condition (stack overflow or underflow) is reported as an
    /// error and leaves the state untouched.
    pub fn cycle_with(&mut self, random: u8) -> (r: Result<StepReport, VmError>)
        requires
            old(self).wf(),
        ensures
            final(self).wf(),
            cycle_matches(old(self)@, final(self)@, r, random),
    {
        let op = self.read_instruction();
        let instr = crate::model::decode(op);
        // A fatal condition stops the cycle before anything changes.
        if matches!(instr, Instr::Ret) && self.stack_pointer == 0 {
            return Err(VmError::StackUnderflow);
        }
        if matches!(instr, Instr::Call(_)) && self.stack_pointer >= 16 {
            return Err(VmError::StackOverflow);
        }
        // The program counter moves past the fetched word before the
        // instruction acts.
        let pc_before = self.program_counter;
        self.program_counter = pc_plus2(pc_before);
        proof {
            assert(self@ =~= (VmView { pc: wrap16(old(self)@.pc + 2), ..old(self)@ }));
        }
        if matches!(instr, Instr::Unknown(_)) {
            proof {
                assert(self@ =~= spec_cycle(old(self)@, random)->Next_0);
            }
            let report = match instr {
                Instr::Unknown(w) => StepReport::UnknownOpcode(w),
                _ => StepReport::Executed,
            };
            return Ok(report);
        }
        if matches!(
            instr,
            Instr::LdImm(..) | Instr::AddImm(..) | Instr::Rnd(..)
                | Instr::ReadDelay(..) | Instr::SetDelay(..) | Instr::SetSound(..)
                | Instr::AddIndex(..) | Instr::Font(..) | Instr::LdIndex(..)
        ) {
            self.exec_reg_op(instr, random, Ghost(old(self)@));
        } else if matches!(
            instr,
            Instr::MovReg(..) | Instr::OrReg(..) | Instr::AndReg(..) | Instr::XorReg(..)
        ) {
            self.exec_alu_op(instr, random, Ghost(old(self)@));
        } else if matches!(
            instr,
            Instr::AddReg(..) | Instr::SubReg(..) | Instr::ShrReg(..)
                | Instr::SubnReg(..) | Instr::ShlReg(..)
        ) {
            proof {
                crate::model::lemma_decode_fields(op);
            }
            match instr {
                Instr::AddReg(x, y) => self.exec_add_reg(x, y, random, Ghost(old(self)@)),
                Instr::SubReg(x, y) => self.exec_sub_reg(x, y, random, Ghost(old(self)@)),
                Instr::ShrReg(x, y) => self.exec_shr_reg(x, y, random, Ghost(old(self)@)),
                Instr::SubnReg(x, y) => self.exec_subn_reg(x, y, random, Ghost(old(self)@)),
                Instr::ShlReg(x, y) => self.exec_shl_reg(x, y, random, Ghost(old(self)@)),
                _ => {},
            }
        } else if matches!(
            instr,
            Instr::Sys | Instr::Jp(..) | Instr::Call(..) | Instr::Ret | Instr::SeImm(..)
                | Instr::SneImm(..) | Instr::SeReg(..) | Instr::SneReg(..) | Instr::JpV0(..)
                | Instr::SkipKey(..) | Instr::SkipNoKey(..)
        ) {
            self.exec_flow_op(instr, random, Ghost(old(self)@));
        } else {
            self.exec_mem_op(instr, random, pc_before, Ghost(old(self)@));
        }
        Ok(StepReport::Executed)
    }

    /// One fetch-decode-execute cycle, drawing the RND instruction's
    /// byte from the process random source: there is a byte for which
    /// the step follows the model's `spec_cycle`.
    pub fn cycle(&mut self) -> (r: Result<StepReport, VmError>)
        requires
            old(self).wf(),
        ensures
            final(self).wf(),
            exists|b: u8| cycle_matches(old(self)@, final(self)@, r, b),
    {
        let random = random_byte();
        let r = self.cycle_with(random);
        proof {
            assert(cycle_matches(old(self)@, self@, r, random));
        }
        r
    }

    /// The program counter.
    pub fn pc(&self) -> (r: u16)
        ensures
            r == self@.pc,
    {
        self.program_counter
    }

    /// The number of stack slots in use.
    pub fn sp(&self) -> (r: u8)
        ensures
            r == self@.sp,
    {
        self.stack_pointer
    }

    /// Register Vx.
    pub fn register(&self, x: u8) -> (r: u8)
        requires
            self.wf(),
            x < 16,
        ensures
            r == self@.regs[x as int],
    {
        self.registers[x as usize]
    }

    /// The index register I.
    pub fn index(&self) -> (r: u16)
        ensures
            r == self@.index,
    {
        self.index_register
    }

    /// The byte at a memory address; addresses run 0 to 4095.
    pub fn memory_at(&self, addr: u16) -> (r: u8)
        requires
            self.wf(),
            addr < 4096,
        ensures
            r == self@.mem[addr as int],
    {
        self.memory[addr as usize]
    }

    /// The pixel at `(x, y)` of the screen.
    pub fn pixel(&self, x: u8, y: u8) -> (on: bool)
        requires
            self.wf(),
            x < 64,
            y < 32,
        ensures
            on == crate::framebuffer::pixel_at(self@.fb, x as u64, y as u64),
    {
        self.framebuffer.get(x, y)
    }

    /// The delay timer. The host decrements it at 60 Hz through
    /// `set_delay_timer`; a cycle only reads and writes its value.
    pub fn delay_timer(&self) -> (r: u8)
        ensures
            r == self@.delay,
    {
        self.delay_timer
    }

    pub fn set_delay_timer(&mut self, v: u8)
        requires
            old(self).wf(),
        ensures
            final(self).wf(),
            final(self)@ == (VmView { delay: v, ..old(self)@ }),
    {
        self.delay_timer = v;
        proof {
            assert(self@ =~= (VmView { delay: v, ..old(self)@ }));
        }
    }

    /// The sound timer: the host plays a tone while it is nonzero and
    /// decrements it at 60 Hz through `set_sound_timer`.
    pub fn sound_timer(&self) -> (r: u8)
        ensures
            r == self@.sound,
    {
        self.sound_timer
    }

    pub fn set_sound_timer(&mut self, v: u8)
        requires
            old(self).wf(),
        ensures
            final(self).wf(),
            final(self)@ == (VmView { sound: v, ..old(self)@ }),
    {
        self.sound_timer = v;
        proof {
            assert(self@ =~= (VmView { sound: v, ..old(self)@ }));
        }
    }
}

} // verus!
