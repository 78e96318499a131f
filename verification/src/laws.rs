//! The library's general laws, each stated over the machine model and proved
//! against the instruction semantics.

use vstd::prelude::*;

use crate::cpu::font_seq;
use crate::cpu::initial_memory;
use crate::screen::draw_screen;
use crate::screen::row_mask;
use crate::semantics::instr_word;
use crate::semantics::key_down;
use crate::semantics::n_of;
use crate::semantics::nn_of;
use crate::semantics::nnn_of;
use crate::semantics::op_of;
use crate::semantics::spec_step;
use crate::semantics::x_of;
use crate::semantics::y_of;
use crate::semantics::CpuView;
use crate::semantics::ExecError;
use crate::semantics::StepSpec;
use vstd::wrapping::u8_specs;

verus! {

proof fn lemma_decode_bounds(w: u16)
    ensures
        op_of(w) <= 15,
        x_of(w) < 16,
        y_of(w) < 16,
        n_of(w) <= 15,
        nnn_of(w) <= 0xFFF,
{
    assert(((w >> 12) <= 15) && ((w >> 8) & 0xF) < 16 && ((w >> 4) & 0xF) < 16 && (w & 0xF) <= 15
        && (w & 0xFFF) <= 0xFFF) by (bit_vector);
}

proof fn lemma_wrap_add_mod(a: u8, b: u8)
    ensures
        u8_specs::wrapping_add(a, b) == (a + b) % 256,
{
    if a + b > 255 {
        assert((a + b) % 256 == a + b - 256);
    } else {
        assert((a + b) % 256 == a + b);
    }
}

proof fn lemma_wrap_sub_mod(a: u8, b: u8)
    ensures
        u8_specs::wrapping_sub(a, b) == (a - b) % 256,
{
    if a - b < 0 {
        assert((a - b) % 256 == a - b + 256);
    } else {
        assert((a - b) % 256 == a - b);
    }
}

/// A fresh memory image holds the program byte-for-byte at
/// `[0x200, 0x200 + len)`.
pub proof fn lemma_program_loaded(program: Seq<u8>)
    requires
        program.len() <= 3584,
    ensures
        initial_memory(program).subrange(0x200, 0x200 + program.len() as int) == program,
{
    assert(initial_memory(program).subrange(0x200, 0x200 + program.len() as int) =~= program);
}

/// The glyph table occupies exactly `[0x50, 0x9F]` of a fresh memory image,
/// byte-identical to the fixed sixteen-sprite table, whatever program was
/// loaded.
pub proof fn lemma_glyph_table_fixed(program: Seq<u8>)
    ensures
        initial_memory(program).subrange(0x50, 0xA0) == font_seq(),
{
    assert(initial_memory(program).subrange(0x50, 0xA0) =~= font_seq());
}

/// `7XNN` adds with byte wraparound: the destination takes the sum modulo
/// 256, and no other register — in particular not the flag register, unless
/// it is itself the destination — is touched.
pub proof fn lemma_add_immediate_wraps(pre: CpuView, rand: u8, delay: u8)
    requires
        pre.wf(),
        pre.pc + 1 < 4096,
        op_of(instr_word(pre.memory, pre.pc as int)) == 0x7,
    ensures
        ({
            let w = instr_word(pre.memory, pre.pc as int);
            let x = x_of(w) as int;
            &&& spec_step(pre, rand, delay) matches StepSpec::Next { post, eff }
                && post.regs[x] == (pre.regs[x] + nn_of(w)) % 256
                && (forall|j: int| 0 <= j < 16 && j != x ==> post.regs[j] == pre.regs[j])
                && post.pc == pre.pc + 2
                && post.screen == pre.screen
                && post.stack == pre.stack
                && !eff.redraw
        }),
{
    let w = instr_word(pre.memory, pre.pc as int);
    lemma_decode_bounds(w);
    lemma_wrap_add_mod(pre.regs[x_of(w) as int], nn_of(w));
}

/// `8XY4` leaves the wrapped sum in the destination and fully overwrites the
/// flag register first: it becomes 1 exactly when the unsigned sum exceeds
/// 255, else 0.
pub proof fn lemma_add_registers_carry(pre: CpuView, rand: u8, delay: u8)
    requires
        pre.wf(),
        pre.pc + 1 < 4096,
        op_of(instr_word(pre.memory, pre.pc as int)) == 0x8,
        n_of(instr_word(pre.memory, pre.pc as int)) == 0x4,
    ensures
        ({
            let w = instr_word(pre.memory, pre.pc as int);
            let x = x_of(w) as int;
            let vx = pre.regs[x];
            let vy = pre.regs[y_of(w) as int];
            let flag: u8 = if vx + vy > 255 {
                1
            } else {
                0
            };
            &&& spec_step(pre, rand, delay) matches StepSpec::Next { post, eff }
                && post.regs == pre.regs.update(15, flag).update(x, ((vx + vy) % 256) as u8)
                && (x != 15 ==> post.regs[15] == flag)
                && post.pc == pre.pc + 2
        }),
{
    let w = instr_word(pre.memory, pre.pc as int);
    lemma_decode_bounds(w);
    lemma_wrap_add_mod(pre.regs[x_of(w) as int], pre.regs[y_of(w) as int]);
}

/// `8XY5` subtracts the second register from the destination, wrapping
/// modulo 256, and fully overwrites the flag register first: 1 exactly when
/// the minuend is at least the subtrahend (no borrow), else 0.
pub proof fn lemma_sub_registers_borrow(pre: CpuView, rand: u8, delay: u8)
    requires
        pre.wf(),
        pre.pc + 1 < 4096,
        op_of(instr_word(pre.memory, pre.pc as int)) == 0x8,
        n_of(instr_word(pre.memory, pre.pc as int)) == 0x5,
    ensures
        ({
            let w = instr_word(pre.memory, pre.pc as int);
            let x = x_of(w) as int;
            let vx = pre.regs[x];
            let vy = pre.regs[y_of(w) as int];
            let flag: u8 = if vx >= vy {
                1
            } else {
                0
            };
            &&& spec_step(pre, rand, delay) matches StepSpec::Next { post, eff }
                && post.regs == pre.regs.update(15, flag).update(x, ((vx - vy) % 256) as u8)
                && (x != 15 ==> post.regs[15] == flag)
                && post.pc == pre.pc + 2
        }),
{
    let w = instr_word(pre.memory, pre.pc as int);
    lemma_decode_bounds(w);
    lemma_wrap_sub_mod(pre.regs[x_of(w) as int], pre.regs[y_of(w) as int]);
}

/// `8XY7` subtracts the destination from the second register, wrapping
/// modulo 256, and fully overwrites the flag register first: 1 exactly when
/// the minuend is at least the subtrahend (no borrow), else 0.
pub proof fn lemma_sub_reversed_borrow(pre: CpuView, rand: u8, delay: u8)
    requires
        pre.wf(),
        pre.pc + 1 < 4096,
        op_of(instr_word(pre.memory, pre.pc as int)) == 0x8,
        n_of(instr_word(pre.memory, pre.pc as int)) == 0x7,
    ensures
        ({
            let w = instr_word(pre.memory, pre.pc as int);
            let x = x_of(w) as int;
            let vx = pre.regs[x];
            let vy = pre.regs[y_of(w) as int];
            let flag: u8 = if vy >= vx {
                1
            } else {
                0
            };
            &&& spec_step(pre, rand, delay) matches StepSpec::Next { post, eff }
                && post.regs == pre.regs.update(15, flag).update(x, ((vy - vx) % 256) as u8)
                && (x != 15 ==> post.regs[15] == flag)
                && post.pc == pre.pc + 2
        }),
{
    let w = instr_word(pre.memory, pre.pc as int);
    lemma_decode_bounds(w);
    lemma_wrap_sub_mod(pre.regs[y_of(w) as int], pre.regs[x_of(w) as int]);
}

/// XOR-blitting is its own inverse: drawing the identical sprite at the
/// identical position twice in a row restores every pixel of the
/// framebuffer exactly.
pub proof fn lemma_draw_double_xor(
    screen: Seq<u64>,
    mem: Seq<u8>,
    index: int,
    x0: u8,
    y0: u8,
    rows: int,
)
    requires
        screen.len() == 32,
    ensures
        draw_screen(draw_screen(screen, mem, index, x0, y0, rows), mem, index, x0, y0, rows)
            == screen,
{
    let s1 = draw_screen(screen, mem, index, x0, y0, rows);
    let s2 = draw_screen(s1, mem, index, x0, y0, rows);
    assert forall|r: int| 0 <= r < 32 implies s2[r] == screen[r] by {
        if y0 <= r < y0 + rows {
            let a = screen[r];
            let m = row_mask(mem[index + (r - y0)], x0);
            assert((a ^ m) ^ m == a) by (bit_vector);
        }
    };
    assert(s2 =~= screen);
}

/// A call followed by the return it pushed restores the program counter to
/// the instruction immediately after the call and leaves the call stack,
/// registers and memory as they were — for any starting program counter and
/// any in-bounds call target.
pub proof fn lemma_call_return_round_trip(
    pre: CpuView,
    rand1: u8,
    delay1: u8,
    rand2: u8,
    delay2: u8,
)
    requires
        pre.wf(),
        pre.pc + 1 < 4096,
        op_of(instr_word(pre.memory, pre.pc as int)) == 0x2,
        pre.stack.len() < 16,
        nnn_of(instr_word(pre.memory, pre.pc as int)) + 1 < 4096,
        instr_word(pre.memory, nnn_of(instr_word(pre.memory, pre.pc as int)) as int) == 0x00EE,
    ensures
        ({
            &&& spec_step(pre, rand1, delay1) matches StepSpec::Next { post: mid, eff: e1 }
                && (spec_step(mid, rand2, delay2) matches StepSpec::Next { post, eff: e2 }
                && post.pc == pre.pc + 2 && post.stack == pre.stack && post.regs == pre.regs
                && post.memory == pre.memory && post.screen == pre.screen)
        }),
{
    let w = instr_word(pre.memory, pre.pc as int);
    lemma_decode_bounds(w);
    let target = nnn_of(w);
    let pc2 = (pre.pc + 2) as u16;
    assert(0x00EEu16 >> 12 == 0x0 && (0x00EEu16 & 0xFFF) == 0x0EE) by (bit_vector);
    let mid = spec_step(pre, rand1, delay1)->Next_post;
    assert(mid.stack == pre.stack.push(pc2));
    assert(mid.stack.last() == pc2);
    assert(mid.stack.drop_last() =~= pre.stack);
}

/// A seventeenth nested call is fatal: with sixteen return addresses already
/// outstanding, a call stops the machine with a stack-overflow error naming
/// the instruction and its address.
pub proof fn lemma_call_stack_overflow(pre: CpuView, rand: u8, delay: u8)
    requires
        pre.wf(),
        pre.pc + 1 < 4096,
        op_of(instr_word(pre.memory, pre.pc as int)) == 0x2,
        pre.stack.len() == 16,
    ensures
        spec_step(pre, rand, delay) == (StepSpec::Fatal {
            err: ExecError::StackOverflow {
                instruction: instr_word(pre.memory, pre.pc as int),
                pc: pre.pc,
            },
        }),
{
}

/// A return with no call outstanding is fatal: on an empty call stack it
/// stops the machine with a stack-underflow error naming the instruction
/// and its address.
pub proof fn lemma_return_stack_underflow(pre: CpuView, rand: u8, delay: u8)
    requires
        pre.wf(),
        pre.pc + 1 < 4096,
        op_of(instr_word(pre.memory, pre.pc as int)) == 0x0,
        nnn_of(instr_word(pre.memory, pre.pc as int)) == 0x0EE,
        pre.stack.len() == 0,
    ensures
        spec_step(pre, rand, delay) == (StepSpec::Fatal {
            err: ExecError::StackUnderflow {
                instruction: instr_word(pre.memory, pre.pc as int),
                pc: pre.pc,
            },
        }),
{
}

/// The two call-stack faults are distinguishable: a stack-overflow error
/// never equals a stack-underflow error, whatever instruction and address
/// each carries.
pub proof fn lemma_stack_faults_distinct(i1: u16, p1: u16, i2: u16, p2: u16)
    ensures
        (ExecError::StackOverflow { instruction: i1, pc: p1 }) != (ExecError::StackUnderflow {
            instruction: i2,
            pc: p2,
        }),
{
}

/// A press of key `k` leaves it reading as held; `EX9E` with the selected
/// register holding `k` then skips the next instruction, and with the key
/// not held it does not skip.
pub proof fn lemma_press_then_skip_if_key(pre: CpuView, k: u8, rand: u8, delay: u8)
    requires
        pre.wf(),
        pre.pc + 1 < 4096,
        k < 16,
        op_of(instr_word(pre.memory, pre.pc as int)) == 0xE,
        nn_of(instr_word(pre.memory, pre.pc as int)) == 0x9E,
        pre.regs[x_of(instr_word(pre.memory, pre.pc as int)) as int] == k,
    ensures
        key_down(pre.keypad | (1u16 << k), k),
        ({
            &&& spec_step(pre, rand, delay) matches StepSpec::Next { post, eff }
                && post.pc == (if key_down(pre.keypad, k) {
                    pre.pc + 4
                } else {
                    pre.pc + 2
                }) && post.regs == pre.regs && post.screen == pre.screen
        }),
{
    lemma_decode_bounds(instr_word(pre.memory, pre.pc as int));
    let keypad = pre.keypad;
    assert(((keypad | (1u16 << k)) & (1u16 << k)) != 0) by (bit_vector)
        requires
            k < 16,
    ;
    assert(k & 0xF == k) by (bit_vector)
        requires
            k < 16,
    ;
}

} // verus!
