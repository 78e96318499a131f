//! The instruction-set semantics: the mathematical state of the machine,
//! instruction decoding, and the specified outcome of one
//! fetch-decode-execute cycle.

use vstd::prelude::*;

use crate::screen::{blank_screen, draw_collision, draw_screen, drawn_rows};
use vstd::wrapping::u16_specs;
use vstd::wrapping::u8_specs;

verus! {

/// Resolutions of the two historically ambiguous opcode behaviours, fixed at
/// machine construction rather than hard-coded.
#[derive(Clone, Copy, Debug, PartialEq, Eq)]
pub struct Quirks {
    /// The two shift opcodes either shift the selected register in place
    /// (`false`, the behaviour of most later interpreters), or first copy the
    /// second selected register into it (`true`, the original hardware).
    pub shift_reads_vy: bool,
    /// The jump-with-offset opcode adds the first register (`false`, the
    /// original hardware) or the register selected by the address' leading
    /// nibble (`true`, a later variant).
    pub jump_uses_vx: bool,
}

impl Default for Quirks {
    /// Shift in place and offset jumps by the first register.
    fn default() -> (q: Quirks)
        ensures
            !q.shift_reads_vy,
            !q.jump_uses_vx,
    {
        Quirks { shift_reads_vy: false, jump_uses_vx: false }
    }
}

/// The mathematical state of the machine: what the contracts and the
/// instruction semantics speak about.
pub ghost struct CpuView {
    /// The 4096 addressable bytes.
    pub memory: Seq<u8>,
    /// The 32 framebuffer rows.
    pub screen: Seq<u64>,
    /// Bit `k` set while key `k` is held.
    pub keypad: u16,
    /// The program counter.
    pub pc: u16,
    /// The index register.
    pub index: u16,
    /// The call stack, most recent return address last.
    pub stack: Seq<u16>,
    /// The sixteen general-purpose registers; the last doubles as the flag.
    pub regs: Seq<u8>,
    /// The configured resolutions of the ambiguous opcodes.
    pub quirks: Quirks,
}

impl CpuView {
    /// The fixed sizes of the machine's stores.
    pub open spec fn wf(self) -> bool {
        &&& self.memory.len() == 4096
        &&& self.screen.len() == 32
        &&& self.regs.len() == 16
        &&& self.stack.len() <= 16
    }
}

/// A fatal execution error. Every fatal condition carries the raw instruction
/// word and the program counter it was fetched from, so the loaded program
/// can be diagnosed.
#[derive(Clone, Copy, Debug, PartialEq, Eq)]
pub enum ExecError {
    /// `0NNN`: a call into native machine code, which this interpreter has no
    /// way to run.
    UnsupportedMachineRoutine { instruction: u16, pc: u16 },
    /// An instruction word outside the instruction set.
    UnknownOpcode { instruction: u16, pc: u16 },
    /// A call while the call stack already holds sixteen return addresses.
    StackOverflow { instruction: u16, pc: u16 },
    /// A return with no call outstanding.
    StackUnderflow { instruction: u16, pc: u16 },
    /// The program counter ran past the end of memory.
    ProgramCounterOutOfRange { pc: u16 },
    /// A memory-relative instruction reached past the end of memory.
    MemoryRangeOutOfBounds { instruction: u16, pc: u16 },
}

/// What one cycle asks of the world outside the machine state: a framebuffer
/// snapshot, and writes to the two shared countdown timers.
#[derive(Clone, Copy, Debug, PartialEq, Eq)]
pub struct CycleEffect {
    /// The cycle touched the framebuffer; a snapshot is owed to the renderer.
    pub redraw: bool,
    /// The value written to the delay timer, if any.
    pub set_delay: Option<u8>,
    /// The value written to the sound timer, if any.
    pub set_sound: Option<u8>,
}

/// The specified outcome of one cycle: the next machine state plus the
/// cycle's outward effect, or a fatal error with the state unchanged.
pub ghost enum StepSpec {
    Next { post: CpuView, eff: CycleEffect },
    Fatal { err: ExecError },
}

/// A cycle with no outward effect.
pub open spec fn quiet_eff() -> CycleEffect {
    CycleEffect { redraw: false, set_delay: None, set_sound: None }
}

/// A cycle that changed the framebuffer.
pub open spec fn redraw_eff() -> CycleEffect {
    CycleEffect { redraw: true, set_delay: None, set_sound: None }
}

/// The leading opcode nibble.
pub open spec fn op_of(w: u16) -> u16 {
    w >> 12
}

/// The first register selector.
pub open spec fn x_of(w: u16) -> u16 {
    (w >> 8) & 0xF
}

/// The second register selector.
pub open spec fn y_of(w: u16) -> u16 {
    (w >> 4) & 0xF
}

/// The trailing nibble.
pub open spec fn n_of(w: u16) -> u16 {
    w & 0xF
}

/// The trailing byte.
pub open spec fn nn_of(w: u16) -> u8 {
    (w & 0xFF) as u8
}

/// The trailing 12-bit address.
pub open spec fn nnn_of(w: u16) -> u16 {
    w & 0xFFF
}

/// The big-endian instruction word fetched at `pc`.
pub open spec fn instr_word(mem: Seq<u8>, pc: int) -> u16 {
    ((mem[pc] as u16) << 8) | (mem[pc + 1] as u16)
}

/// Whether key `key` is held in the presence bitmask.
pub open spec fn key_down(keypad: u16, key: u8) -> bool {
    (keypad & (1u16 << key)) != 0
}

/// The lowest held key at or above `k`, or 16 when none is.
pub open spec fn first_pressed_key(keypad: u16, k: u8) -> u8
    decreases 16 - k,
{
    if k >= 16 {
        16
    } else if key_down(keypad, k) {
        k
    } else {
        first_pressed_key(keypad, (k + 1) as u8)
    }
}

/// The program counter after an already-advanced `pc2`, skipping one more
/// instruction when `cond` holds.
pub open spec fn skip_if(pc2: u16, cond: bool) -> u16 {
    if cond {
        (pc2 + 2) as u16
    } else {
        pc2
    }
}

/// The register file after one register-to-register ALU operation selected by
/// trailing nibble `n`, or `None` when `n` selects no operation. The flag
/// register is always fully overwritten first, so an operation selecting it
/// as destination leaves the arithmetic result there.
pub open spec fn alu_regs(regs: Seq<u8>, x: int, y: int, n: u16, q: Quirks) -> Option<Seq<u8>> {
    let vx = regs[x];
    let vy = regs[y];
    if n == 0x0 {
        Some(regs.update(x, vy))
    } else if n == 0x1 {
        Some(regs.update(x, vx | vy))
    } else if n == 0x2 {
        Some(regs.update(x, vx & vy))
    } else if n == 0x3 {
        Some(regs.update(x, vx ^ vy))
    } else if n == 0x4 {
        let flag: u8 = if vx + vy > 255 {
            1
        } else {
            0
        };
        Some(regs.update(15, flag).update(x, u8_specs::wrapping_add(vx, vy)))
    } else if n == 0x5 {
        let flag: u8 = if vx >= vy {
            1
        } else {
            0
        };
        Some(regs.update(15, flag).update(x, u8_specs::wrapping_sub(vx, vy)))
    } else if n == 0x6 {
        let src = if q.shift_reads_vy {
            vy
        } else {
            vx
        };
        Some(regs.update(15, src & 1).update(x, src >> 1))
    } else if n == 0x7 {
        let flag: u8 = if vy >= vx {
            1
        } else {
            0
        };
        Some(regs.update(15, flag).update(x, u8_specs::wrapping_sub(vy, vx)))
    } else if n == 0xE {
        let src = if q.shift_reads_vy {
            vy
        } else {
            vx
        };
        Some(regs.update(15, (src & 0x80) >> 7).update(x, src << 1))
    } else {
        None
    }
}

/// Memory after the three-digit decimal decomposition of `v` at `i`.
pub open spec fn bcd_memory(mem: Seq<u8>, i: int, v: u8) -> Seq<u8> {
    mem.update(i, (v / 100) as u8).update(i + 1, ((v / 10) % 10) as u8).update(
        i + 2,
        (v % 10) as u8,
    )
}

/// Memory after registers `0..=x` are dumped at `i`.
pub open spec fn store_regs_memory(mem: Seq<u8>, i: int, regs: Seq<u8>, x: int) -> Seq<u8> {
    Seq::new(
        4096,
        |j: int|
            if i <= j <= i + x {
                regs[j - i]
            } else {
                mem[j]
            },
    )
}

/// The register file after registers `0..=x` are loaded from memory at `i`.
pub open spec fn load_regs_file(regs: Seq<u8>, mem: Seq<u8>, i: int, x: int) -> Seq<u8> {
    Seq::new(
        16,
        |j: int|
            if j <= x {
                mem[i + j]
            } else {
                regs[j]
            },
    )
}

/// The outcome of the draw instruction: XOR-blit with edge clipping, the
/// collision flag fully overwritten, and a snapshot owed to the renderer.
pub open spec fn spec_draw(pre: CpuView, w: u16) -> StepSpec {
    let pc2 = (pre.pc + 2) as u16;
    let x0 = (pre.regs[x_of(w) as int] % 64) as u8;
    let y0 = (pre.regs[y_of(w) as int] % 32) as u8;
    let rows = drawn_rows(n_of(w), y0);
    if pre.index + rows > 4096 {
        StepSpec::Fatal { err: ExecError::MemoryRangeOutOfBounds { instruction: w, pc: pre.pc } }
    } else {
        let coll = draw_collision(pre.screen, pre.memory, pre.index as int, x0, y0, rows);
        StepSpec::Next {
            post: CpuView {
                screen: draw_screen(pre.screen, pre.memory, pre.index as int, x0, y0, rows),
                regs: pre.regs.update(
                    15,
                    if coll {
                        1u8
                    } else {
                        0u8
                    },
                ),
                pc: pc2,
                ..pre
            },
            eff: redraw_eff(),
        }
    }
}

/// The outcome of the timer / keypad-wait / memory family of instructions.
pub open spec fn spec_fx(pre: CpuView, w: u16, delay: u8) -> StepSpec {
    let pc0 = pre.pc;
    let pc2 = (pre.pc + 2) as u16;
    let x = x_of(w) as int;
    let vx = pre.regs[x];
    let nn = nn_of(w);
    if nn == 0x07 {
        StepSpec::Next { post: CpuView { regs: pre.regs.update(x, delay), pc: pc2, ..pre }, eff: quiet_eff() }
    } else if nn == 0x0A {
        if pre.keypad == 0 {
            StepSpec::Next { post: pre, eff: quiet_eff() }
        } else {
            StepSpec::Next {
                post: CpuView {
                    regs: pre.regs.update(x, first_pressed_key(pre.keypad, 0)),
                    pc: pc2,
                    ..pre
                },
                eff: quiet_eff(),
            }
        }
    } else if nn == 0x15 {
        StepSpec::Next {
            post: CpuView { pc: pc2, ..pre },
            eff: CycleEffect { redraw: false, set_delay: Some(vx), set_sound: None },
        }
    } else if nn == 0x18 {
        StepSpec::Next {
            post: CpuView { pc: pc2, ..pre },
            eff: CycleEffect { redraw: false, set_delay: None, set_sound: Some(vx) },
        }
    } else if nn == 0x1E {
        StepSpec::Next {
            post: CpuView { index: u16_specs::wrapping_add(pre.index, vx as u16), pc: pc2, ..pre },
            eff: quiet_eff(),
        }
    } else if nn == 0x29 {
        StepSpec::Next {
            post: CpuView { index: (0x50 + 5 * (vx & 0xF)) as u16, pc: pc2, ..pre },
            eff: quiet_eff(),
        }
    } else if nn == 0x33 {
        if pre.index + 3 > 4096 {
            StepSpec::Fatal { err: ExecError::MemoryRangeOutOfBounds { instruction: w, pc: pc0 } }
        } else {
            StepSpec::Next {
                post: CpuView { memory: bcd_memory(pre.memory, pre.index as int, vx), pc: pc2, ..pre },
                eff: quiet_eff(),
            }
        }
    } else if nn == 0x55 {
        if pre.index + x + 1 > 4096 {
            StepSpec::Fatal { err: ExecError::MemoryRangeOutOfBounds { instruction: w, pc: pc0 } }
        } else {
            StepSpec::Next {
                post: CpuView {
                    memory: store_regs_memory(pre.memory, pre.index as int, pre.regs, x),
                    pc: pc2,
                    ..pre
                },
                eff: quiet_eff(),
            }
        }
    } else if nn == 0x65 {
        if pre.index + x + 1 > 4096 {
            StepSpec::Fatal { err: ExecError::MemoryRangeOutOfBounds { instruction: w, pc: pc0 } }
        } else {
            StepSpec::Next {
                post: CpuView {
                    regs: load_regs_file(pre.regs, pre.memory, pre.index as int, x),
                    pc: pc2,
                    ..pre
                },
                eff: quiet_eff(),
            }
        }
    } else {
        StepSpec::Fatal { err: ExecError::UnknownOpcode { instruction: w, pc: pc0 } }
    }
}

/// The outcome of executing instruction word `w` fetched at `pre.pc`:
/// the canonical opcode table. `rand` is the byte the random-number source
/// produced this cycle; `delay` is the value the shared delay timer held.
pub open spec fn spec_exec(pre: CpuView, w: u16, rand: u8, delay: u8) -> StepSpec {
    let pc0 = pre.pc;
    let pc2 = (pre.pc + 2) as u16;
    let op = op_of(w);
    let x = x_of(w) as int;
    let y = y_of(w) as int;
    let n = n_of(w);
    let nn = nn_of(w);
    let nnn = nnn_of(w);
    let vx = pre.regs[x];
    let vy = pre.regs[y];
    if op == 0x0 {
        if nnn == 0x0E0 {
            StepSpec::Next {
                post: CpuView { screen: blank_screen(), pc: pc2, ..pre },
                eff: redraw_eff(),
            }
        } else if nnn == 0x0EE {
            if pre.stack.len() == 0 {
                StepSpec::Fatal { err: ExecError::StackUnderflow { instruction: w, pc: pc0 } }
            } else {
                StepSpec::Next {
                    post: CpuView { pc: pre.stack.last(), stack: pre.stack.drop_last(), ..pre },
                    eff: quiet_eff(),
                }
            }
        } else {
            StepSpec::Fatal { err: ExecError::UnsupportedMachineRoutine { instruction: w, pc: pc0 } }
        }
    } else if op == 0x1 {
        StepSpec::Next { post: CpuView { pc: nnn, ..pre }, eff: quiet_eff() }
    } else if op == 0x2 {
        if pre.stack.len() >= 16 {
            StepSpec::Fatal { err: ExecError::StackOverflow { instruction: w, pc: pc0 } }
        } else {
            StepSpec::Next {
                post: CpuView { pc: nnn, stack: pre.stack.push(pc2), ..pre },
                eff: quiet_eff(),
            }
        }
    } else if op == 0x3 {
        StepSpec::Next { post: CpuView { pc: skip_if(pc2, vx == nn), ..pre }, eff: quiet_eff() }
    } else if op == 0x4 {
        StepSpec::Next { post: CpuView { pc: skip_if(pc2, vx != nn), ..pre }, eff: quiet_eff() }
    } else if op == 0x5 {
        if n == 0x0 {
            StepSpec::Next { post: CpuView { pc: skip_if(pc2, vx == vy), ..pre }, eff: quiet_eff() }
        } else {
            StepSpec::Fatal { err: ExecError::UnknownOpcode { instruction: w, pc: pc0 } }
        }
    } else if op == 0x6 {
        StepSpec::Next { post: CpuView { regs: pre.regs.update(x, nn), pc: pc2, ..pre }, eff: quiet_eff() }
    } else if op == 0x7 {
        StepSpec::Next {
            post: CpuView { regs: pre.regs.update(x, u8_specs::wrapping_add(vx, nn)), pc: pc2, ..pre },
            eff: quiet_eff(),
        }
    } else if op == 0x8 {
        match alu_regs(pre.regs, x, y, n, pre.quirks) {
            Some(regs2) => StepSpec::Next {
                post: CpuView { regs: regs2, pc: pc2, ..pre },
                eff: quiet_eff(),
            },
            None => StepSpec::Fatal { err: ExecError::UnknownOpcode { instruction: w, pc: pc0 } },
        }
    } else if op == 0x9 {
        if n == 0x0 {
            StepSpec::Next { post: CpuView { pc: skip_if(pc2, vx != vy), ..pre }, eff: quiet_eff() }
        } else {
            StepSpec::Fatal { err: ExecError::UnknownOpcode { instruction: w, pc: pc0 } }
        }
    } else if op == 0xA {
        StepSpec::Next { post: CpuView { index: nnn, pc: pc2, ..pre }, eff: quiet_eff() }
    } else if op == 0xB {
        let offset = if pre.quirks.jump_uses_vx {
            vx
        } else {
            pre.regs[0]
        };
        StepSpec::Next { post: CpuView { pc: (nnn + offset) as u16, ..pre }, eff: quiet_eff() }
    } else if op == 0xC {
        StepSpec::Next {
            post: CpuView { regs: pre.regs.update(x, rand & nn), pc: pc2, ..pre },
            eff: quiet_eff(),
        }
    } else if op == 0xD {
        spec_draw(pre, w)
    } else if op == 0xE {
        if nn == 0x9E {
            StepSpec::Next {
                post: CpuView { pc: skip_if(pc2, key_down(pre.keypad, vx & 0xF)), ..pre },
                eff: quiet_eff(),
            }
        } else if nn == 0xA1 {
            StepSpec::Next {
                post: CpuView { pc: skip_if(pc2, !key_down(pre.keypad, vx & 0xF)), ..pre },
                eff: quiet_eff(),
            }
        } else {
            StepSpec::Fatal { err: ExecError::UnknownOpcode { instruction: w, pc: pc0 } }
        }
    } else {
        spec_fx(pre, w, delay)
    }
}

/// One full cycle: fetch the big-endian instruction word at `pc` (a fatal
/// error when the fetch would run past the end of memory), advance the
/// program counter by two before execution, then execute.
pub open spec fn spec_step(pre: CpuView, rand: u8, delay: u8) -> StepSpec {
    if pre.pc + 1 >= 4096 {
        StepSpec::Fatal { err: ExecError::ProgramCounterOutOfRange { pc: pre.pc } }
    } else {
        spec_exec(pre, instr_word(pre.memory, pre.pc as int), rand, delay)
    }
}

/// Whether `post` and `r` are the machine state and engine outcome that
/// `spec_step` prescribes for `pre` under this cycle's random byte and
/// sampled delay value.
pub open spec fn step_outcome_matches(
    pre: CpuView,
    rand: u8,
    delay: u8,
    post: CpuView,
    r: Result<bool, ExecError>,
) -> bool {
    match spec_step(pre, rand, delay) {
        StepSpec::Next { post: p, eff } => post == p && r == Ok::<bool, ExecError>(eff.redraw),
        StepSpec::Fatal { err } => post == pre && r == Err::<bool, ExecError>(err),
    }
}

} // verus!
