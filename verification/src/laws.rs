//! The machine's cross-instruction laws, each proved over the transition
//! function `spec_eval` that `Cpu::eval`'s contract ties the executable
//! machine to.

use vstd::prelude::*;
use crate::cpu::{
    eval_faults, first_pressed, lemma_first_pressed_found, lemma_first_pressed_none, spec_eval,
    CpuView, DISPLAY_SIZE, INSTR_SIZE, MEM_SIZE, NUM_KEYS, REGS, STACK_SIZE,
};
use crate::draw::{collides, lemma_pix, sprite_bit, toggles};
use crate::instr::{spec_decode, Instr};

verus! {

/// Every 16-bit word maps to exactly one operation or to the unknown-
/// opcode result, never both and never neither, and every operation the
/// table yields carries well-formed operands.
pub proof fn lemma_decode_total(w: u16)
    ensures
        spec_decode(w) is Some <==> !(spec_decode(w) is None),
        spec_decode(w) matches Some(i) ==> i.wf(),
{
}

/// No operation but `Clear` and `DrawSprite` touches a pixel or the
/// redraw flag: after a `Clear`, the display stays blank and the flag
/// stays raised until a draw or the host intervenes.
pub proof fn lemma_display_untouched(pre: CpuView, instr: Instr, b: u8)
    requires
        !(instr is Clear),
        !(instr is DrawSprite),
    ensures
        spec_eval(pre, instr, b).display == pre.display,
        spec_eval(pre, instr, b).should_rerender == pre.should_rerender,
{
}

/// `Clear` turns every pixel off, raises the one-shot redraw flag, and
/// advances past itself.
pub proof fn lemma_clear(pre: CpuView, b: u8)
    requires
        pre.wf(),
        pre.pc + INSTR_SIZE <= usize::MAX,
    ensures
        forall|p: int| 0 <= p < DISPLAY_SIZE ==> !spec_eval(pre, Instr::Clear, b).display[p],
        spec_eval(pre, Instr::Clear, b).should_rerender,
        spec_eval(pre, Instr::Clear, b).pc == pre.pc + INSTR_SIZE,
{
}

/// Drawing any sprite twice at the same coordinates toggles every affected
/// pixel twice: the display ends as it began, whatever it held.  The
/// coordinate registers must not be the flag register, which the first
/// draw overwrites.
pub proof fn lemma_draw_twice_restores_display(pre: CpuView, x: usize, y: usize, size: u8)
    requires
        pre.wf(),
        (Instr::DrawSprite { x, y, size }).wf(),
        x != 15,
        y != 15,
        !eval_faults(pre, (Instr::DrawSprite { x, y, size })),
    ensures
        ({
            let i = Instr::DrawSprite { x, y, size };
            let s1 = spec_eval(pre, i, 0);
            &&& !eval_faults(s1, i)
            &&& spec_eval(s1, i, 0).display == pre.display
        }),
{
    let i = Instr::DrawSprite { x, y, size };
    let s1 = spec_eval(pre, i, 0);
    let s2 = spec_eval(s1, i, 0);
    assert(s1.registers[x as int] == pre.registers[x as int]);
    assert(s1.registers[y as int] == pre.registers[y as int]);
    assert(s2.display =~= pre.display);
}

/// On a blank display, a sprite with any bit set collides with its own
/// first copy: the second of two identical draws reports the flag set.
pub proof fn lemma_draw_twice_collides(pre: CpuView, x: usize, y: usize, size: u8)
    requires
        pre.wf(),
        (Instr::DrawSprite { x, y, size }).wf(),
        x != 15,
        y != 15,
        !eval_faults(pre, (Instr::DrawSprite { x, y, size })),
        forall|p: int| 0 <= p < pre.display.len() ==> !pre.display[p],
        exists|i: int, j: int|
            0 <= i < size && 0 <= j < 8 && #[trigger] sprite_bit(pre.memory[pre.index + i], j),
    ensures
        ({
            let i = Instr::DrawSprite { x, y, size };
            spec_eval(spec_eval(pre, i, 0), i, 0).registers[15] == 1
        }),
{
    let instr = Instr::DrawSprite { x, y, size };
    let s1 = spec_eval(pre, instr, 0);
    let xv = pre.registers[x as int] as int;
    let yv = pre.registers[y as int] as int;
    let idx = pre.index as int;
    let (i0, j0) = choose|i: int, j: int|
        0 <= i < size && 0 <= j < 8 && #[trigger] sprite_bit(pre.memory[pre.index + i], j);
    lemma_pix(xv, yv, i0, j0);
    let q = (xv + j0) % 64 + ((yv + i0) % 32) * 64;
    assert(toggles(pre.memory, idx, xv, yv, size as int, q));
    assert(s1.display[q]);
    assert(s1.registers[x as int] == pre.registers[x as int]);
    assert(s1.registers[y as int] == pre.registers[y as int]);
    assert(toggles(s1.memory, s1.index as int, xv, yv, size as int, q) && s1.display[q]);
    assert(collides(s1.display, s1.memory, s1.index as int, xv, yv, size as int));
}

/// After a `Call` to any in-bounds target and the matching `Return`, the
/// program counter is the address just past the call, and the stack
/// pointer is back where it was.
pub proof fn lemma_call_then_return(pre: CpuView, addr: usize)
    requires
        pre.wf(),
        addr < MEM_SIZE,
        pre.sp < STACK_SIZE,
        pre.pc + INSTR_SIZE < MEM_SIZE,
    ensures
        ({
            let s1 = spec_eval(pre, (Instr::Call { addr }), 0);
            let s2 = spec_eval(s1, Instr::Return, 0);
            &&& !eval_faults(pre, (Instr::Call { addr }))
            &&& !eval_faults(s1, Instr::Return)
            &&& s1.pc == addr
            &&& s2.pc == pre.pc + INSTR_SIZE
            &&& s2.sp == pre.sp
        }),
{
}

/// Storing registers 0 through `start_addr` at the index register and
/// reading them back from the same index is a round trip: every register
/// keeps its value.
pub proof fn lemma_store_then_read_registers(pre: CpuView, start_addr: usize)
    requires
        pre.wf(),
        start_addr < REGS,
        pre.index + start_addr + 1 <= MEM_SIZE,
    ensures
        ({
            let st = Instr::StoreRegistersAtIndex { start_addr };
            let rd = Instr::ReadRegistersAtIndex { start_addr };
            let s1 = spec_eval(pre, st, 0);
            &&& !eval_faults(pre, st)
            &&& !eval_faults(s1, rd)
            &&& spec_eval(s1, rd, 0).registers == pre.registers
        }),
{
    let st = Instr::StoreRegistersAtIndex { start_addr };
    let rd = Instr::ReadRegistersAtIndex { start_addr };
    let s1 = spec_eval(pre, st, 0);
    let s2 = spec_eval(s1, rd, 0);
    assert(s2.registers =~= pre.registers);
}

/// `KeyPressWait` blocks by not advancing: with no key pressed the state
/// is unchanged, so a host that steps again retries it; once any key is
/// pressed, the program counter advances exactly once and the lowest
/// pressed key's index is captured in the register.
pub proof fn lemma_key_press_wait(pre: CpuView, reg: usize, b: u8)
    requires
        pre.wf(),
        reg < REGS,
        pre.pc + INSTR_SIZE <= usize::MAX,
    ensures
        (forall|k: int| 0 <= k < NUM_KEYS ==> !pre.keys[k])
            ==> spec_eval(pre, (Instr::KeyPressWait { reg }), b) == pre,
        (exists|k: int| 0 <= k < NUM_KEYS && pre.keys[k]) ==> ({
            let s = spec_eval(pre, (Instr::KeyPressWait { reg }), b);
            first_pressed(pre.keys) matches Some(k0) && 0 <= k0 < NUM_KEYS && pre.keys[k0]
                && (forall|k: int| 0 <= k < k0 ==> !pre.keys[k])
                && s.pc == pre.pc + INSTR_SIZE
                && s.registers[reg as int] == k0 as u8
        }),
{
    if forall|k: int| 0 <= k < NUM_KEYS ==> !pre.keys[k] {
        lemma_first_pressed_none(pre.keys, 0);
        assert(spec_eval(pre, (Instr::KeyPressWait { reg }), b) =~= pre);
    }
    if exists|k: int| 0 <= k < NUM_KEYS && pre.keys[k] {
        lemma_first_pressed_found(pre.keys, 0);
    }
}

} // verus!
