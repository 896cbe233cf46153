//! The processor: memory, registers, call stack, timers, display and key
//! flags, with one fetch-decode-execute step per invocation.
//!
//! Bounds policy: the historical machine leaves out-of-range accesses and
//! call-stack overflow or underflow unguarded.  Here every such condition is
//! a [`Fault`]: the offending step reports it and leaves the machine
//! unchanged.  The index register is held inside memory at all times, so an
//! add that would push it past the end of memory is itself the fault.  A
//! program counter from which two bytes cannot be fetched halts the machine
//! instead: the step is a no-op.

use vstd::prelude::*;
use crate::draw::{collides, draw_display};
use crate::fonts::{font_seq, font_table};
use crate::instr::{spec_decode, EmulatorError, Instr};
use crate::opcode::Opcode;
use crate::rng::random_byte;

verus! {

pub const SCREEN_WIDTH: usize = 64;

pub const SCREEN_HEIGHT: usize = 32;

pub const DISPLAY_SIZE: usize = 2048;

pub const NUM_KEYS: usize = 16;

pub const MEM_SIZE: usize = 4096;

pub const INSTR_START: usize = 0x200;

pub const INSTR_SIZE: usize = 2;

pub const REGS: usize = 16;

pub const STACK_SIZE: usize = 16;

/// The largest program image that fits between the load offset and the end
/// of memory.
pub const MAX_INSTRS: usize = 3584;

/// The machine state.  Register 0xF doubles as the carry / borrow /
/// collision flag output of several instructions; its storage is ordinary.
#[derive(Clone, Debug)]
pub struct Cpu {
    /// Row-major 64 x 32 pixel grid.
    pub display: Vec<bool>,
    /// One key-down flag per key 0x0 - 0xF, written by the host loop.
    pub keys: Vec<bool>,
    /// One-shot redraw signal, set by `Clear` and `DrawSprite`; the host
    /// loop clears it after rendering.
    pub should_rerender: bool,
    /// Return addresses; `sp` indexes the next free slot.
    pub stack: Vec<usize>,
    /// The 16 general-purpose 8-bit registers `V0` - `VF`.
    pub registers: Vec<u8>,
    /// 4096 bytes: font sprites at the base, program code from 0x200.
    pub memory: Vec<u8>,
    /// Diagnostic count of steps taken.
    pub ticks: u128,
    /// The index register, used by memory-relative instructions.
    pub index: usize,
    /// Address of the next instruction.
    pub pc: usize,
    /// Stack pointer: number of return addresses currently pushed.
    pub sp: usize,
    pub delay_timer: u8,
    pub sound_timer: u8,
}

/// The mathematical model of the machine state.
#[verifier::ext_equal]
pub ghost struct CpuView {
    pub display: Seq<bool>,
    pub keys: Seq<bool>,
    pub should_rerender: bool,
    pub stack: Seq<usize>,
    pub registers: Seq<u8>,
    pub memory: Seq<u8>,
    pub ticks: u128,
    pub index: usize,
    pub pc: usize,
    pub sp: usize,
    pub delay_timer: u8,
    pub sound_timer: u8,
}

impl View for Cpu {
    type V = CpuView;

    open spec fn view(&self) -> CpuView {
        CpuView {
            display: self.display@,
            keys: self.keys@,
            should_rerender: self.should_rerender,
            stack: self.stack@,
            registers: self.registers@,
            memory: self.memory@,
            ticks: self.ticks,
            index: self.index,
            pc: self.pc,
            sp: self.sp,
            delay_timer: self.delay_timer,
            sound_timer: self.sound_timer,
        }
    }
}

impl CpuView {
    /// Well-formedness: every array has its fixed size, the stack pointer
    /// stays within the stack, and the index register stays inside memory.
    pub open spec fn wf(self) -> bool {
        &&& self.display.len() == DISPLAY_SIZE
        &&& self.keys.len() == NUM_KEYS
        &&& self.stack.len() == STACK_SIZE
        &&& self.registers.len() == REGS
        &&& self.memory.len() == MEM_SIZE
        &&& self.sp <= STACK_SIZE
        &&& self.index < MEM_SIZE
    }

    /// The state with the program counter moved `k` bytes forward.
    pub open spec fn advanced(self, k: int) -> CpuView {
        CpuView { pc: (self.pc + k) as usize, ..self }
    }

    /// The state with register `r` set to `v`.
    pub open spec fn with_reg(self, r: int, v: u8) -> CpuView {
        CpuView { registers: self.registers.update(r, v), ..self }
    }

    /// The machine as a fresh power-on leaves it: everything zeroed, the
    /// program counter at the load offset.
    pub open spec fn init() -> CpuView {
        CpuView {
            display: Seq::new(DISPLAY_SIZE as nat, |i: int| false),
            keys: Seq::new(NUM_KEYS as nat, |i: int| false),
            should_rerender: false,
            stack: Seq::new(STACK_SIZE as nat, |i: int| 0usize),
            registers: Seq::new(REGS as nat, |i: int| 0u8),
            memory: Seq::new(MEM_SIZE as nat, |i: int| 0u8),
            ticks: 0,
            index: 0,
            pc: INSTR_START,
            sp: 0,
            delay_timer: 0,
            sound_timer: 0,
        }
    }
}

impl Cpu {
    /// Well-formedness of the executable state; every method requires and
    /// preserves it.
    pub open spec fn wf(&self) -> bool {
        self@.wf()
    }

    /// A machine with zeroed memory, registers, stack, timers and display,
    /// and the program counter at the load offset.
    pub fn new() -> (r: Cpu)
        ensures
            r.wf(),
            r@ == CpuView::init(),
    {
        let r = Cpu {
            display: filled(false, DISPLAY_SIZE),
            keys: filled(false, NUM_KEYS),
            should_rerender: false,
            stack: filled(0usize, STACK_SIZE),
            registers: filled(0u8, REGS),
            memory: filled(0u8, MEM_SIZE),
            ticks: 0,
            index: 0,
            pc: INSTR_START,
            sp: 0,
            delay_timer: 0,
            sound_timer: 0,
        };
        proof {
            assert(r@ =~= CpuView::init());
        }
        r
    }

    /// Writes the font table at the base of memory and the program image
    /// verbatim from offset 0x200; everything else is untouched.
    pub fn load(&mut self, instrs: &[u8])
        requires
            old(self).wf(),
            instrs@.len() <= MAX_INSTRS,
        ensures
            final(self).wf(),
            final(self)@ == (CpuView {
                memory: loaded_memory(old(self)@.memory, instrs@),
                ..old(self)@
            }),
    {
        let ghost pre = self@;
        let fonts = font_table();
        let mut i: usize = 0;
        while i < 80
            invariant
                pre.wf(),
                i <= 80,
                fonts@ == font_seq(),
                self@ == (CpuView {
                    memory: Seq::new(MEM_SIZE as nat, |k: int|
                        if 0 <= k < i { font_seq()[k] } else { pre.memory[k] }),
                    ..pre
                }),
            decreases 80 - i,
        {
            self.memory.set(i, fonts[i]);
            proof {
                assert(self@.memory =~= Seq::new(MEM_SIZE as nat, |k: int|
                    if 0 <= k < i + 1 { font_seq()[k] } else { pre.memory[k] }));
            }
            i = i + 1;
        }
        let ghost fonted = self@.memory;
        let mut j: usize = 0;
        while j < instrs.len()
            invariant
                pre.wf(),
                instrs@.len() <= MAX_INSTRS,
                j <= instrs@.len(),
                fonted.len() == MEM_SIZE,
                self@ == (CpuView {
                    memory: Seq::new(MEM_SIZE as nat, |k: int|
                        if INSTR_START <= k < INSTR_START + j { instrs@[k - INSTR_START] }
                        else { fonted[k] }),
                    ..pre
                }),
            decreases instrs@.len() - j,
        {
            self.memory.set(INSTR_START + j, instrs[j]);
            proof {
                assert(self@.memory =~= Seq::new(MEM_SIZE as nat, |k: int|
                    if INSTR_START <= k < INSTR_START + j + 1 { instrs@[k - INSTR_START] }
                    else { fonted[k] }));
            }
            j = j + 1;
        }
        proof {
            assert(self@.memory =~= loaded_memory(pre.memory, instrs@));
            assert(self@ =~= (CpuView { memory: loaded_memory(pre.memory, instrs@), ..pre }));
        }
    }

    /// Advances the program counter past the instruction just executed.
    pub fn end_instr(&mut self)
        requires
            old(self)@.pc + INSTR_SIZE <= usize::MAX,
        ensures
            final(self)@ == old(self)@.advanced(INSTR_SIZE as int),
    {
        self.pc = self.pc + INSTR_SIZE;
    }

    /// Advances the program counter past the instruction just executed and
    /// the one after it.
    pub fn skip_instr(&mut self)
        requires
            old(self)@.pc + 2 * INSTR_SIZE <= usize::MAX,
        ensures
            final(self)@ == old(self)@.advanced(2 * INSTR_SIZE as int),
    {
        self.pc = self.pc + INSTR_SIZE * 2;
    }
}

/// Memory after a load: the font table at the base, the program image from
/// the load offset, and the prior bytes elsewhere.
pub open spec fn loaded_memory(mem: Seq<u8>, instrs: Seq<u8>) -> Seq<u8> {
    Seq::new(MEM_SIZE as nat, |k: int|
        if 0 <= k < 80 { font_seq()[k] }
        else if INSTR_START <= k < INSTR_START + instrs.len() { instrs[k - INSTR_START] }
        else { mem[k] })
}

/// A vector of `n` copies of one value.
fn filled<T: Copy>(value: T, n: usize) -> (r: Vec<T>)
    ensures
        r@ == Seq::new(n as nat, |i: int| value),
{
    let mut r: Vec<T> = Vec::new();
    let mut i: usize = 0;
    while i < n
        invariant
            i <= n,
            r@ == Seq::new(i as nat, |k: int| value),
        decreases n - i,
    {
        r.push(value);
        proof {
            assert(r@ =~= Seq::new((i + 1) as nat, |k: int| value));
        }
        i = i + 1;
    }
    r
}


/// A bounds or call-stack violation.  The historical specification leaves
/// these unguarded; this machine reports the step that causes one and
/// leaves the state unchanged.
#[derive(Copy, Clone, Debug, PartialEq, Eq, Structural)]
pub enum Fault {
    /// A `Call` with the call stack full.
    StackOverflow,
    /// A `Return` with the call stack empty.
    StackUnderflow,
    /// A memory access, or an index-register add, past the end of memory.
    MemoryOutOfRange,
    /// A key instruction naming a register whose value is no key index.
    KeyOutOfRange,
}

/// 8-bit addition, wrapping modulo 256.
pub open spec fn wrap_add(a: u8, b: u8) -> u8 {
    ((a + b) % 256) as u8
}

/// 8-bit subtraction, wrapping modulo 256.
pub open spec fn wrap_sub(a: u8, b: u8) -> u8 {
    if a >= b {
        (a - b) as u8
    } else {
        (a + 256 - b) as u8
    }
}

/// The lowest pressed key index at or after `i`, if any.
pub open spec fn first_pressed_from(keys: Seq<bool>, i: int) -> Option<int>
    decreases keys.len() - i,
{
    if i < 0 || i >= keys.len() {
        None
    } else if keys[i] {
        Some(i)
    } else {
        first_pressed_from(keys, i + 1)
    }
}

/// The lowest pressed key index, if any: what `KeyPressWait` captures.
pub open spec fn first_pressed(keys: Seq<bool>) -> Option<int> {
    first_pressed_from(keys, 0)
}

/// Whether executing `instr` from `pre` would violate a bound: the cases on
/// which `Cpu::eval` reports a fault and changes nothing.
pub open spec fn eval_faults(pre: CpuView, instr: Instr) -> bool {
    match instr {
        Instr::Return => pre.sp == 0,
        Instr::Call { .. } => pre.sp >= STACK_SIZE,
        Instr::SkipNextKeyPressed { reg } => pre.registers[reg as int] >= NUM_KEYS,
        Instr::SkipNextKeyNotPressed { reg } => pre.registers[reg as int] >= NUM_KEYS,
        Instr::DrawSprite { size, .. } => pre.index + size > MEM_SIZE,
        Instr::IndexAddAssignRegister { reg } => pre.index + pre.registers[reg as int] >= MEM_SIZE,
        Instr::StoreBCDAtIndex { .. } => pre.index + 3 > MEM_SIZE,
        Instr::StoreRegistersAtIndex { start_addr } => pre.index + start_addr + 1 > MEM_SIZE,
        Instr::ReadRegistersAtIndex { start_addr } => pre.index + start_addr + 1 > MEM_SIZE,
        _ => false,
    }
}

/// Which fault `Cpu::eval` reports when `eval_faults` holds.
pub open spec fn fault_of(instr: Instr) -> Fault {
    match instr {
        Instr::Return => Fault::StackUnderflow,
        Instr::Call { .. } => Fault::StackOverflow,
        Instr::SkipNextKeyPressed { .. } => Fault::KeyOutOfRange,
        Instr::SkipNextKeyNotPressed { .. } => Fault::KeyOutOfRange,
        _ => Fault::MemoryOutOfRange,
    }
}

/// The state after executing one decoded instruction from `pre`: the
/// machine's transition function.  `rand` is the byte the random source
/// supplied, read only by `RandBitwiseAnd`.  Meaningful when `pre` and
/// `instr` are well-formed and `eval_faults(pre, instr)` does not hold.
pub open spec fn spec_eval(pre: CpuView, instr: Instr, rand: u8) -> CpuView {
    match instr {
        Instr::JumpToMachineCode { .. } => pre.advanced(2),
        Instr::Clear => (CpuView {
            display: Seq::new(DISPLAY_SIZE as nat, |p: int| false),
            should_rerender: true,
            ..pre
        }).advanced(2),
        Instr::Return => CpuView {
            sp: (pre.sp - 1) as usize,
            pc: pre.stack[pre.sp - 1],
            ..pre
        },
        Instr::Jump { addr } => CpuView { pc: addr, ..pre },
        Instr::Call { addr } => CpuView {
            stack: pre.stack.update(pre.sp as int, (pre.pc + 2) as usize),
            sp: (pre.sp + 1) as usize,
            pc: addr,
            ..pre
        },
        Instr::SkipNextEqualLiteral { reg, lit } => if pre.registers[reg as int] == lit {
            pre.advanced(4)
        } else {
            pre.advanced(2)
        },
        Instr::SkipNextNotEqualLiteral { reg, lit } => if pre.registers[reg as int] != lit {
            pre.advanced(4)
        } else {
            pre.advanced(2)
        },
        Instr::SkipNextEqualRegister { left, right } => if pre.registers[left as int]
            == pre.registers[right as int] {
            pre.advanced(4)
        } else {
            pre.advanced(2)
        },
        Instr::RegisterSetLiteral { reg, lit } => pre.with_reg(reg as int, lit).advanced(2),
        Instr::RegisterAddAssign { reg, lit } => pre.with_reg(
            reg as int,
            wrap_add(pre.registers[reg as int], lit),
        ).advanced(2),
        Instr::RegisterSetRegister { left, right } => pre.with_reg(
            left as int,
            pre.registers[right as int],
        ).advanced(2),
        Instr::RegisterSetRegisterBitwiseOr { left, right } => pre.with_reg(
            left as int,
            pre.registers[left as int] | pre.registers[right as int],
        ).advanced(2),
        Instr::RegisterSetRegisterBitwiseAnd { left, right } => pre.with_reg(
            left as int,
            pre.registers[left as int] & pre.registers[right as int],
        ).advanced(2),
        Instr::RegisterSetRegisterBitwiseXor { left, right } => pre.with_reg(
            left as int,
            pre.registers[left as int] ^ pre.registers[right as int],
        ).advanced(2),
        Instr::RegisterSetRegisterAdd { left, right } => {
            let l = pre.registers[left as int];
            let r = pre.registers[right as int];
            pre.with_reg(left as int, wrap_add(l, r)).with_reg(
                15,
                if l + r > 255 { 1u8 } else { 0u8 },
            ).advanced(2)
        },
        Instr::RegisterSetRegisterSub { left, right } => {
            let l = pre.registers[left as int];
            let r = pre.registers[right as int];
            pre.with_reg(left as int, wrap_sub(l, r)).with_reg(
                15,
                if l >= r { 1u8 } else { 0u8 },
            ).advanced(2)
        },
        Instr::RegisterSetRegisterShr { left, .. } => {
            let s1 = pre.with_reg(15, pre.registers[left as int] & 1);
            s1.with_reg(left as int, s1.registers[left as int] >> 1u8).advanced(2)
        },
        Instr::RegisterSetRegisterSubn { left, right } => {
            let l = pre.registers[left as int];
            let r = pre.registers[right as int];
            pre.with_reg(left as int, wrap_sub(r, l)).with_reg(
                15,
                if r >= l { 1u8 } else { 0u8 },
            ).advanced(2)
        },
        Instr::RegisterSetRegisterShl { reg } => {
            let s1 = pre.with_reg(15, pre.registers[reg as int] >> 7u8);
            s1.with_reg(reg as int, s1.registers[reg as int] << 1u8).advanced(2)
        },
        Instr::SkipNextNotEqualRegister { left, right } => if pre.registers[left as int]
            != pre.registers[right as int] {
            pre.advanced(4)
        } else {
            pre.advanced(2)
        },
        Instr::SetIndex { value } => (CpuView { index: value, ..pre }).advanced(2),
        Instr::JumpTo { addr } => CpuView {
            pc: (pre.registers[0] as int + addr as int) as usize,
            ..pre
        },
        Instr::RandBitwiseAnd { reg, lit } => pre.with_reg(reg as int, rand & lit).advanced(2),
        Instr::DrawSprite { x, y, size } => {
            let xv = pre.registers[x as int] as int;
            let yv = pre.registers[y as int] as int;
            (CpuView {
                display: draw_display(pre.display, pre.memory, pre.index as int, xv, yv, size as int),
                registers: pre.registers.update(
                    15,
                    if collides(pre.display, pre.memory, pre.index as int, xv, yv, size as int) {
                        1u8
                    } else {
                        0u8
                    },
                ),
                should_rerender: true,
                ..pre
            }).advanced(2)
        },
        Instr::SkipNextKeyPressed { reg } => if pre.keys[pre.registers[reg as int] as int] {
            pre.advanced(4)
        } else {
            pre.advanced(2)
        },
        Instr::SkipNextKeyNotPressed { reg } => if !pre.keys[pre.registers[reg as int] as int] {
            pre.advanced(4)
        } else {
            pre.advanced(2)
        },
        Instr::SetDelayTimerValue { reg } => pre.with_reg(reg as int, pre.delay_timer).advanced(2),
        Instr::KeyPressWait { reg } => match first_pressed(pre.keys) {
            Some(k) => pre.with_reg(reg as int, k as u8).advanced(2),
            None => pre,
        },
        Instr::SetDelayTimerRegister { reg } => (CpuView {
            delay_timer: pre.registers[reg as int],
            ..pre
        }).advanced(2),
        Instr::SetSoundTimerRegister { reg } => (CpuView {
            sound_timer: pre.registers[reg as int],
            ..pre
        }).advanced(2),
        Instr::IndexAddAssignRegister { reg } => (CpuView {
            index: (pre.index + pre.registers[reg as int]) as usize,
            ..pre
        }).advanced(2),
        Instr::SetIndexToDigitSprite { reg } => (CpuView {
            index: (pre.registers[reg as int] * 5) as usize,
            ..pre
        }).advanced(2),
        Instr::StoreBCDAtIndex { reg } => {
            let v = pre.registers[reg as int];
            (CpuView {
                memory: pre.memory.update(pre.index as int, v / 100).update(
                    pre.index as int + 1,
                    (v % 100) / 10,
                ).update(pre.index as int + 2, v % 10),
                ..pre
            }).advanced(2)
        },
        Instr::StoreRegistersAtIndex { start_addr } => (CpuView {
            memory: Seq::new(MEM_SIZE as nat, |k: int|
                if pre.index <= k <= pre.index + start_addr {
                    pre.registers[k - pre.index]
                } else {
                    pre.memory[k]
                }),
            ..pre
        }).advanced(2),
        Instr::ReadRegistersAtIndex { start_addr } => (CpuView {
            registers: Seq::new(REGS as nat, |r: int|
                if r <= start_addr {
                    pre.memory[pre.index + r]
                } else {
                    pre.registers[r]
                }),
            ..pre
        }).advanced(2),
    }
}


/// A scan that reaches a pressed key `i` with none pressed before it finds
/// exactly `i`.
pub proof fn lemma_first_pressed_some(keys: Seq<bool>, j: int, i: int)
    requires
        0 <= j <= i < keys.len(),
        keys[i],
        forall|k: int| j <= k < i ==> !keys[k],
    ensures
        first_pressed_from(keys, j) == Some(i),
    decreases i - j,
{
    if j < i {
        lemma_first_pressed_some(keys, j + 1, i);
    }
}

/// A scan over keys among which some key is pressed finds the lowest
/// pressed index.
pub proof fn lemma_first_pressed_found(keys: Seq<bool>, j: int)
    requires
        0 <= j <= keys.len(),
        exists|k: int| j <= k < keys.len() && keys[k],
    ensures
        first_pressed_from(keys, j) matches Some(k0) && j <= k0 < keys.len() && keys[k0]
            && (forall|k: int| j <= k < k0 ==> !keys[k]),
    decreases keys.len() - j,
{
    let kw = choose|k: int| j <= k < keys.len() && keys[k];
    if !keys[j] {
        assert(j + 1 <= kw < keys.len() && keys[kw]);
        lemma_first_pressed_found(keys, j + 1);
    }
}

/// A scan over keys none of which is pressed finds none.
pub proof fn lemma_first_pressed_none(keys: Seq<bool>, j: int)
    requires
        0 <= j,
        forall|k: int| j <= k < keys.len() ==> !keys[k],
    ensures
        first_pressed_from(keys, j) is None,
    decreases keys.len() - j,
{
    if j < keys.len() {
        lemma_first_pressed_none(keys, j + 1);
    }
}

impl Cpu {
    /// Sets a register to the conjunction of one byte from the random
    /// source and a literal mask: the whole effect of `RandBitwiseAnd`,
    /// verified for every byte the source may supply.
    pub fn rand_bitwise_and(&mut self, reg: usize, lit: u8, byte: u8)
        requires
            old(self).wf(),
            reg < REGS,
            old(self)@.pc + INSTR_SIZE <= usize::MAX,
        ensures
            final(self).wf(),
            final(self)@ == spec_eval(old(self)@, (Instr::RandBitwiseAnd { reg, lit }), byte),
    {
        self.registers.set(reg, byte & lit);
        self.end_instr();
    }

    /// Executes one decoded instruction.  On success the machine becomes
    /// exactly `spec_eval` of the prior state, for the byte the random
    /// source supplied; an instruction that would violate a bound reports
    /// its fault instead and changes nothing.
    pub fn eval(&mut self, instr: &Instr) -> (r: Result<(), Fault>)
        requires
            old(self).wf(),
            instr.wf(),
            old(self)@.pc + 1 < MEM_SIZE,
        ensures
            final(self).wf(),
            r is Err <==> eval_faults(old(self)@, *instr),
            r matches Err(f) ==> f == fault_of(*instr) && final(self)@ == old(self)@,
            r is Ok ==> (if *instr is RandBitwiseAnd {
                exists|b: u8| final(self)@ == spec_eval(old(self)@, *instr, b)
            } else {
                final(self)@ == spec_eval(old(self)@, *instr, 0)
            }),
    {
        let ghost pre = self@;
        match *instr {
            Instr::JumpToMachineCode { addr: _ } => {
                self.end_instr();
                Ok(())
            },
            Instr::Clear => {
                let mut p: usize = 0;
                while p < DISPLAY_SIZE
                    invariant
                        pre.wf(),
                        p <= DISPLAY_SIZE,
                        self@ == (CpuView {
                            display: Seq::new(DISPLAY_SIZE as nat, |q: int|
                                if q < p { false } else { pre.display[q] }),
                            ..pre
                        }),
                    decreases DISPLAY_SIZE - p,
                {
                    self.display.set(p, false);
                    proof {
                        assert(self@.display =~= Seq::new(DISPLAY_SIZE as nat, |q: int|
                            if q < p + 1 { false } else { pre.display[q] }));
                    }
                    p = p + 1;
                }
                proof {
                    assert(self@.display =~= Seq::new(DISPLAY_SIZE as nat, |q: int| false));
                }
                self.should_rerender = true;
                self.end_instr();
                Ok(())
            },
            Instr::Return => {
                if self.sp == 0 {
                    return Err(Fault::StackUnderflow);
                }
                self.sp = self.sp - 1;
                self.pc = self.stack[self.sp];
                Ok(())
            },
            Instr::Jump { addr } => {
                self.pc = addr;
                Ok(())
            },
            Instr::Call { addr } => {
                if self.sp >= STACK_SIZE {
                    return Err(Fault::StackOverflow);
                }
                // the return address skips the instruction after this one
                self.stack.set(self.sp, self.pc + INSTR_SIZE);
                self.sp = self.sp + 1;
                self.pc = addr;
                Ok(())
            },
            Instr::SkipNextEqualLiteral { reg, lit } => {
                if self.registers[reg] == lit {
                    self.skip_instr();
                } else {
                    self.end_instr();
                }
                Ok(())
            },
            Instr::SkipNextNotEqualLiteral { reg, lit } => {
                if self.registers[reg] != lit {
                    self.skip_instr();
                } else {
                    self.end_instr();
                }
                Ok(())
            },
            Instr::SkipNextEqualRegister { left, right } => {
                if self.registers[left] == self.registers[right] {
                    self.skip_instr();
                } else {
                    self.end_instr();
                }
                Ok(())
            },
            Instr::RegisterSetLiteral { reg, lit } => {
                self.registers.set(reg, lit);
                self.end_instr();
                Ok(())
            },
            Instr::RegisterAddAssign { reg, lit } => {
                let sum: u16 = self.registers[reg] as u16 + lit as u16;
                self.registers.set(reg, (sum % 256) as u8);
                self.end_instr();
                Ok(())
            },
            Instr::RegisterSetRegister { left, right } => {
                let v = self.registers[right];
                self.registers.set(left, v);
                self.end_instr();
                Ok(())
            },
            Instr::RegisterSetRegisterBitwiseOr { left, right } => {
                let v = self.registers[left] | self.registers[right];
                self.registers.set(left, v);
                self.end_instr();
                Ok(())
            },
            Instr::RegisterSetRegisterBitwiseAnd { left, right } => {
                let v = self.registers[left] & self.registers[right];
                self.registers.set(left, v);
                self.end_instr();
                Ok(())
            },
            Instr::RegisterSetRegisterBitwiseXor { left, right } => {
                let v = self.registers[left] ^ self.registers[right];
                self.registers.set(left, v);
                self.end_instr();
                Ok(())
            },
            Instr::RegisterSetRegisterAdd { left, right } => {
                let l = self.registers[left];
                let r = self.registers[right];
                let sum: u16 = l as u16 + r as u16;
                self.registers.set(left, (sum % 256) as u8);
                self.registers.set(15, if sum > 255 { 1 } else { 0 });
                self.end_instr();
                Ok(())
            },
            Instr::RegisterSetRegisterSub { left, right } => {
                let l = self.registers[left];
                let r = self.registers[right];
                let res: u8 = if l >= r { l - r } else { ((l as u16 + 256) - r as u16) as u8 };
                self.registers.set(left, res);
                // flag polarity: 1 exactly when no borrow occurred
                self.registers.set(15, if l >= r { 1 } else { 0 });
                self.end_instr();
                Ok(())
            },
            Instr::RegisterSetRegisterShr { left, right: _ } => {
                let flag = self.registers[left] & 1;
                self.registers.set(15, flag);
                let v = self.registers[left];
                self.registers.set(left, v >> 1u8);
                self.end_instr();
                Ok(())
            },
            Instr::RegisterSetRegisterSubn { left, right } => {
                let l = self.registers[left];
                let r = self.registers[right];
                let res: u8 = if r >= l { r - l } else { ((r as u16 + 256) - l as u16) as u8 };
                self.registers.set(left, res);
                self.registers.set(15, if r >= l { 1 } else { 0 });
                self.end_instr();
                Ok(())
            },
            Instr::RegisterSetRegisterShl { reg } => {
                let flag = self.registers[reg] >> 7u8;
                self.registers.set(15, flag);
                let v = self.registers[reg];
                self.registers.set(reg, v << 1u8);
                self.end_instr();
                Ok(())
            },
            Instr::SkipNextNotEqualRegister { left, right } => {
                if self.registers[left] != self.registers[right] {
                    self.skip_instr();
                } else {
                    self.end_instr();
                }
                Ok(())
            },
            Instr::SetIndex { value } => {
                self.index = value;
                self.end_instr();
                Ok(())
            },
            Instr::JumpTo { addr } => {
                self.pc = self.registers[0] as usize + addr;
                Ok(())
            },
            Instr::RandBitwiseAnd { reg, lit } => {
                let b = random_byte();
                self.rand_bitwise_and(reg, lit, b);
                Ok(())
            },
            Instr::DrawSprite { x, y, size } => {
                let sz = size as usize;
                if self.index + sz > MEM_SIZE {
                    return Err(Fault::MemoryOutOfRange);
                }
                let xv = self.registers[x] as usize;
                let yv = self.registers[y] as usize;
                self.draw_sprite(xv, yv, sz);
                self.end_instr();
                Ok(())
            },
            Instr::SkipNextKeyPressed { reg } => {
                let k = self.registers[reg] as usize;
                if k >= NUM_KEYS {
                    return Err(Fault::KeyOutOfRange);
                }
                if self.keys[k] {
                    self.skip_instr();
                } else {
                    self.end_instr();
                }
                Ok(())
            },
            Instr::SkipNextKeyNotPressed { reg } => {
                let k = self.registers[reg] as usize;
                if k >= NUM_KEYS {
                    return Err(Fault::KeyOutOfRange);
                }
                if !self.keys[k] {
                    self.skip_instr();
                } else {
                    self.end_instr();
                }
                Ok(())
            },
            Instr::SetDelayTimerValue { reg } => {
                let v = self.delay_timer;
                self.registers.set(reg, v);
                self.end_instr();
                Ok(())
            },
            Instr::KeyPressWait { reg } => {
                let mut i: usize = 0;
                while i < NUM_KEYS
                    invariant
                        pre.wf(),
                        reg < REGS,
                        pre.pc + 1 < MEM_SIZE,
                        i <= NUM_KEYS,
                        pre == old(self)@,
                        *instr == (Instr::KeyPressWait { reg }),
                        self@ == pre,
                        forall|k: int| 0 <= k < i ==> !pre.keys[k],
                    decreases NUM_KEYS - i,
                {
                    if self.keys[i] {
                        self.registers.set(reg, i as u8);
                        self.end_instr();
                        proof {
                            lemma_first_pressed_some(pre.keys, 0, i as int);
                        }
                        return Ok(());
                    }
                    i = i + 1;
                }
                proof {
                    lemma_first_pressed_none(pre.keys, 0);
                }
                Ok(())
            },
            Instr::SetDelayTimerRegister { reg } => {
                self.delay_timer = self.registers[reg];
                self.end_instr();
                Ok(())
            },
            Instr::SetSoundTimerRegister { reg } => {
                self.sound_timer = self.registers[reg];
                self.end_instr();
                Ok(())
            },
            Instr::IndexAddAssignRegister { reg } => {
                let v = self.registers[reg] as usize;
                if self.index + v >= MEM_SIZE {
                    return Err(Fault::MemoryOutOfRange);
                }
                self.index = self.index + v;
                self.end_instr();
                Ok(())
            },
            Instr::SetIndexToDigitSprite { reg } => {
                // each built-in font glyph is 5 bytes long
                self.index = (self.registers[reg] as usize) * 5;
                self.end_instr();
                Ok(())
            },
            Instr::StoreBCDAtIndex { reg } => {
                if self.index + 3 > MEM_SIZE {
                    return Err(Fault::MemoryOutOfRange);
                }
                let v = self.registers[reg];
                let idx = self.index;
                self.memory.set(idx, v / 100);
                self.memory.set(idx + 1, (v % 100) / 10);
                self.memory.set(idx + 2, v % 10);
                self.end_instr();
                Ok(())
            },
            Instr::StoreRegistersAtIndex { start_addr } => {
                if self.index + start_addr + 1 > MEM_SIZE {
                    return Err(Fault::MemoryOutOfRange);
                }
                let idx = self.index;
                let mut r: usize = 0;
                while r <= start_addr
                    invariant
                        pre.wf(),
                        start_addr < REGS,
                        idx == pre.index,
                        idx + start_addr + 1 <= MEM_SIZE,
                        r <= start_addr + 1,
                        self@ == (CpuView {
                            memory: Seq::new(MEM_SIZE as nat, |k: int|
                                if idx <= k < idx + r { pre.registers[k - idx] }
                                else { pre.memory[k] }),
                            ..pre
                        }),
                    decreases start_addr + 1 - r,
                {
                    let v = self.registers[r];
                    self.memory.set(idx + r, v);
                    proof {
                        assert(self@.memory =~= Seq::new(MEM_SIZE as nat, |k: int|
                            if idx <= k < idx + r + 1 { pre.registers[k - idx] }
                            else { pre.memory[k] }));
                    }
                    r = r + 1;
                }
                proof {
                    assert(self@.memory =~= Seq::new(MEM_SIZE as nat, |k: int|
                        if pre.index <= k <= pre.index + start_addr { pre.registers[k - pre.index] }
                        else { pre.memory[k] }));
                }
                self.end_instr();
                Ok(())
            },
            Instr::ReadRegistersAtIndex { start_addr } => {
                if self.index + start_addr + 1 > MEM_SIZE {
                    return Err(Fault::MemoryOutOfRange);
                }
                let idx = self.index;
                let mut r: usize = 0;
                while r <= start_addr
                    invariant
                        pre.wf(),
                        start_addr < REGS,
                        idx == pre.index,
                        idx + start_addr + 1 <= MEM_SIZE,
                        r <= start_addr + 1,
                        self@ == (CpuView {
                            registers: Seq::new(REGS as nat, |t: int|
                                if 0 <= t < r { pre.memory[idx + t] }
                                else { pre.registers[t] }),
                            ..pre
                        }),
                    decreases start_addr + 1 - r,
                {
                    let v = self.memory[idx + r];
                    self.registers.set(r, v);
                    proof {
                        assert(self@.registers =~= Seq::new(REGS as nat, |t: int|
                            if 0 <= t < r + 1 { pre.memory[idx + t] }
                            else { pre.registers[t] }));
                    }
                    r = r + 1;
                }
                proof {
                    assert(self@.registers =~= Seq::new(REGS as nat, |t: int|
                        if t <= start_addr { pre.memory[pre.index + t] }
                        else { pre.registers[t] }));
                }
                self.end_instr();
                Ok(())
            },
        }
    }
}


/// What one processor step did.
#[derive(Copy, Clone, Debug, PartialEq, Eq, Structural)]
pub enum StepEvent {
    /// The program counter left the range from which two bytes can be
    /// fetched; nothing was done.
    Halted,
    /// An instruction was fetched, decoded and executed.
    Executed,
    /// The fetched word, carried here, maps to no operation; the program
    /// counter was not advanced.
    DecodeFailed(u16),
    /// The instruction would violate a bound; the program counter was not
    /// advanced.
    Faulted(Fault),
}

/// The outcome of one step, handed back to the host loop.
#[derive(Copy, Clone, Debug, PartialEq, Eq, Structural)]
pub struct StepOutcome {
    pub event: StepEvent,
    /// Whether the sound timer was active this step: the host should emit
    /// its beep.
    pub beep: bool,
}

/// The bookkeeping every non-halted step performs before executing: the
/// step counter rises and each active timer falls by one.
pub open spec fn ticked(pre: CpuView) -> CpuView {
    CpuView {
        ticks: (pre.ticks + 1) as u128,
        delay_timer: if pre.delay_timer > 0 { (pre.delay_timer - 1) as u8 } else { 0u8 },
        sound_timer: if pre.sound_timer > 0 { (pre.sound_timer - 1) as u8 } else { 0u8 },
        ..pre
    }
}

/// The big-endian word assembled from a high and a low byte.
pub open spec fn word_of(left: u8, right: u8) -> u16 {
    (left * 256 + right) as u16
}

/// The word at the program counter: what a step fetches.
pub open spec fn fetched(pre: CpuView) -> u16 {
    word_of(pre.memory[pre.pc as int], pre.memory[pre.pc as int + 1])
}

/// Shifting the high byte and or-ing the low assembles the same word as
/// the arithmetic form.
proof fn lemma_word_shift(left: u8, right: u8)
    by (bit_vector)
    ensures
        ((left as u16) << 8u16 | (right as u16)) == (left as u16) * 256 + (right as u16),
{
}

impl Cpu {
    /// Builds the big-endian word from two consecutive memory bytes and
    /// maps it through the opcode table.  Fails exactly on the words the
    /// table leaves unmapped.
    pub fn decode_instr(left: u8, right: u8) -> (r: Result<Instr, EmulatorError>)
        ensures
            r matches Ok(i) ==> Some(i) == spec_decode(word_of(left, right)) && i.wf(),
            r is Err <==> spec_decode(word_of(left, right)) is None,
    {
        let instr: u16 = (left as u16) << 8u16 | (right as u16);
        proof {
            lemma_word_shift(left, right);
        }
        let opcode = Opcode::new(instr);
        opcode.try_into()
    }

    /// One fetch-decode-execute step.  A program counter from which two
    /// bytes cannot be fetched halts: nothing happens.  Otherwise the step
    /// counter rises, each active timer falls, and the fetched word is
    /// decoded and executed; a word with no operation, or an instruction
    /// that violates a bound, is reported with the program counter left
    /// where it was.  `beep` asks the host for the sound side effect of an
    /// active sound timer.
    pub fn run(&mut self) -> (r: StepOutcome)
        requires
            old(self).wf(),
            old(self)@.ticks < u128::MAX,
        ensures
            final(self).wf(),
            old(self)@.pc + 1 >= MEM_SIZE ==> r.event == StepEvent::Halted && !r.beep
                && final(self)@ == old(self)@,
            old(self)@.pc + 1 < MEM_SIZE ==> ({
                let t = ticked(old(self)@);
                let w = fetched(old(self)@);
                &&& r.beep == (old(self)@.sound_timer > 0)
                &&& match spec_decode(w) {
                    Option::None => r.event == StepEvent::DecodeFailed(w) && final(self)@ == t,
                    Option::Some(i) => if eval_faults(t, i) {
                        r.event == StepEvent::Faulted(fault_of(i)) && final(self)@ == t
                    } else if i is RandBitwiseAnd {
                        r.event == StepEvent::Executed
                            && exists|b: u8| final(self)@ == spec_eval(t, i, b)
                    } else {
                        r.event == StepEvent::Executed && final(self)@ == spec_eval(t, i, 0)
                    },
                }
            }),
    {
        if self.pc >= MEM_SIZE - 1 {
            return StepOutcome { event: StepEvent::Halted, beep: false };
        }
        self.ticks = self.ticks + 1;
        if self.delay_timer > 0 {
            self.delay_timer = self.delay_timer - 1;
        }
        let beep = self.sound_timer > 0;
        if self.sound_timer > 0 {
            self.sound_timer = self.sound_timer - 1;
        }
        let left = self.memory[self.pc];
        let right = self.memory[self.pc + 1];
        match Cpu::decode_instr(left, right) {
            Ok(instr) => match self.eval(&instr) {
                Ok(()) => StepOutcome { event: StepEvent::Executed, beep },
                Err(f) => StepOutcome { event: StepEvent::Faulted(f), beep },
            },
            Err(_) => {
                let w: u16 = (left as u16) << 8u16 | (right as u16);
                proof {
                    lemma_word_shift(left, right);
                }
                StepOutcome { event: StepEvent::DecodeFailed(w), beep }
            },
        }
    }
}

} // verus!
