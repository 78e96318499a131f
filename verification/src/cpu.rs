//! The machine itself: memory and register file, atomic initialization,
//! keypad-event folding, and the fetch-decode-execute cycle, which advances
//! the machine exactly as the instruction semantics in [`crate::semantics`]
//! prescribes.

use vstd::prelude::*;

use std::sync::Arc;
use std::sync::Mutex;

use crate::screen::blank_screen;
use crate::screen::draw_rows;
use crate::screen::zero_rows;
use crate::semantics::first_pressed_key;
use crate::semantics::instr_word;
use crate::semantics::load_regs_file;
use crate::semantics::spec_step;
use crate::semantics::step_outcome_matches;
use crate::semantics::store_regs_memory;
use crate::semantics::CpuView;
use crate::semantics::CycleEffect;
use crate::semantics::ExecError;
use crate::semantics::Quirks;
use crate::semantics::StepSpec;

verus! {

/// Total addressable bytes.
pub const MEMORY_SIZE: usize = 4096;

/// Where a loaded program starts, and where execution begins.
pub const PROGRAM_INIT_LOAD_POS: usize = 0x200;

/// The space left for a program above the reserved region.
pub const MAX_ALLOWED_PROGRAM_SIZE: usize = MEMORY_SIZE - PROGRAM_INIT_LOAD_POS;

/// The first byte of the built-in glyph table.
pub const FONT_START_POS: usize = 0x50;

/// The call stack holds at most this many return addresses.
pub const STACK_DEPTH: usize = 16;

/// An asynchronous keypad event, produced outside the execution engine and
/// drained into the keypad bitmask once per cycle.
pub enum CpuIoEvents {
    KeyPressed(u8),
    KeyReleased(u8),
}

/// The one load-time failure: the program image does not fit in the
/// addressable space left above the reserved region.
#[derive(Debug, PartialEq, Eq, Structural)]
pub enum InitCpuError {
    ProgramTooBig { actual: usize, allowed: usize },
}

/// The bit that key `key` occupies in the sixteen-key presence bitmask.
pub fn get_keypad_state_mask(key: u8) -> (mask: u16)
    requires
        key < 16,
    ensures
        mask == (1u16 << key),
{
    1u16 << key
}

/// A five-byte sprite row group of the glyph table.
pub open spec fn sprite(a: u8, b: u8, c: u8, d: u8, e: u8) -> Seq<u8> {
    seq![a, b, c, d, e]
}

/// The built-in glyph table: sixteen five-byte sprites, one per hexadecimal
/// digit.
pub open spec fn font_seq() -> Seq<u8> {
    sprite(0xF0, 0x90, 0x90, 0x90, 0xF0) + sprite(0x20, 0x60, 0x20, 0x20, 0x70) + sprite(
        0xF0,
        0x10,
        0xF0,
        0x80,
        0xF0,
    ) + sprite(0xF0, 0x10, 0xF0, 0x10, 0xF0) + sprite(0x90, 0x90, 0xF0, 0x10, 0x10) + sprite(
        0xF0,
        0x80,
        0xF0,
        0x10,
        0xF0,
    ) + sprite(0xF0, 0x80, 0xF0, 0x90, 0xF0) + sprite(0xF0, 0x10, 0x20, 0x40, 0x40) + sprite(
        0xF0,
        0x90,
        0xF0,
        0x90,
        0xF0,
    ) + sprite(0xF0, 0x90, 0xF0, 0x10, 0xF0) + sprite(0xF0, 0x90, 0xF0, 0x90, 0x90) + sprite(
        0xE0,
        0x90,
        0xE0,
        0x90,
        0xE0,
    ) + sprite(0xF0, 0x80, 0x80, 0x80, 0xF0) + sprite(0xE0, 0x90, 0x90, 0x90, 0xE0) + sprite(
        0xF0,
        0x80,
        0xF0,
        0x80,
        0xF0,
    ) + sprite(0xF0, 0x80, 0xF0, 0x80, 0x80)
}

/// The memory image right after initialization: the glyph table at
/// `[0x50, 0x9F]`, the program at `[0x200, 0x200 + len)`, zero elsewhere.
pub open spec fn initial_memory(program: Seq<u8>) -> Seq<u8> {
    Seq::new(
        4096,
        |i: int|
            if 0x50 <= i < 0xA0 {
                font_seq()[i - 0x50]
            } else if 0x200 <= i < 0x200 + program.len() {
                program[i - 0x200]
            } else {
                0u8
            },
    )
}

/// Append one five-byte sprite to the glyph table under construction.
fn push_sprite(v: &mut Vec<u8>, a: u8, b: u8, c: u8, d: u8, e: u8)
    ensures
        final(v)@ == old(v)@ + sprite(a, b, c, d, e),
{
    v.push(a);
    v.push(b);
    v.push(c);
    v.push(d);
    v.push(e);
    proof {
        assert(v@ =~= old(v)@ + sprite(a, b, c, d, e));
    }
}

/// The glyph table as bytes.
fn font_data() -> (v: Vec<u8>)
    ensures
        v@ == font_seq(),
{
    let mut v: Vec<u8> = Vec::new();
    push_sprite(&mut v, 0xF0, 0x90, 0x90, 0x90, 0xF0);
    push_sprite(&mut v, 0x20, 0x60, 0x20, 0x20, 0x70);
    push_sprite(&mut v, 0xF0, 0x10, 0xF0, 0x80, 0xF0);
    push_sprite(&mut v, 0xF0, 0x10, 0xF0, 0x10, 0xF0);
    push_sprite(&mut v, 0x90, 0x90, 0xF0, 0x10, 0x10);
    push_sprite(&mut v, 0xF0, 0x80, 0xF0, 0x10, 0xF0);
    push_sprite(&mut v, 0xF0, 0x80, 0xF0, 0x90, 0xF0);
    push_sprite(&mut v, 0xF0, 0x10, 0x20, 0x40, 0x40);
    push_sprite(&mut v, 0xF0, 0x90, 0xF0, 0x90, 0xF0);
    push_sprite(&mut v, 0xF0, 0x90, 0xF0, 0x10, 0xF0);
    push_sprite(&mut v, 0xF0, 0x90, 0xF0, 0x90, 0x90);
    push_sprite(&mut v, 0xE0, 0x90, 0xE0, 0x90, 0xE0);
    push_sprite(&mut v, 0xF0, 0x80, 0x80, 0x80, 0xF0);
    push_sprite(&mut v, 0xE0, 0x90, 0x90, 0x90, 0xE0);
    push_sprite(&mut v, 0xF0, 0x80, 0xF0, 0x80, 0xF0);
    push_sprite(&mut v, 0xF0, 0x80, 0xF0, 0x80, 0x80);
    proof {
        assert(v@ =~= font_seq());
    }
    v
}

/// A vector of `n` zero bytes.
fn zero_bytes(n: usize) -> (v: Vec<u8>)
    ensures
        v@.len() == n,
        forall|j: int| 0 <= j < n ==> v@[j] == 0u8,
{
    let mut v: Vec<u8> = Vec::new();
    let mut i: usize = 0;
    while i < n
        invariant
            i <= n,
            v@.len() == i,
            forall|j: int| 0 <= j < i ==> v@[j] == 0u8,
        decreases n - i,
    {
        v.push(0);
        i += 1;
    }
    v
}

/// A register file of sixteen zeroed registers.
fn zero_regs() -> (v: Vec<u8>)
    ensures
        v@ == Seq::new(16, |i: int| 0u8),
{
    let v: Vec<u8> = zero_bytes(16);
    proof {
        assert(v@ =~= Seq::new(16, |i: int| 0u8));
    }
    v
}

/// Relies on rand::random: one byte drawn from the thread-local generator.
/// Nothing is assumed of its value.
#[verifier::external_body]
fn random_byte() -> u8 {
    rand::random::<u8>()
}

/// Relies on std::sync::Mutex::lock: yields the current contents of the
/// shared cell. Nothing is assumed of the value, which another loop may
/// change at any time. Panics only if the lock is poisoned.
#[verifier::external_body]
fn read_cell(cell: &Arc<Mutex<u8>>) -> u8 {
    *cell.lock().unwrap()
}

/// Relies on std::sync::Mutex::lock: stores `v` in the shared cell. Panics
/// only if the lock is poisoned.
#[verifier::external_body]
fn write_cell(cell: &Arc<Mutex<u8>>, v: u8) {
    *cell.lock().unwrap() = v;
}

/// Dump registers `0..=x` into memory at `i`.
fn store_range(mem: &mut Vec<u8>, regs: &Vec<u8>, i: usize, x: usize)
    requires
        old(mem)@.len() == 4096,
        regs@.len() == 16,
        x < 16,
        i + x + 1 <= 4096,
    ensures
        final(mem)@ == store_regs_memory(old(mem)@, i as int, regs@, x as int),
{
    let mut j: usize = 0;
    while j <= x
        invariant
            j <= x + 1,
            x < 16,
            i + x + 1 <= 4096,
            mem@.len() == 4096,
            regs@.len() == 16,
            forall|t: int| 0 <= t < j ==> mem@[i + t] == regs@[t],
            forall|t: int| 0 <= t < 4096 && !(i <= t < i + j) ==> mem@[t] == old(mem)@[t],
        decreases x + 1 - j,
    {
        mem[i + j] = regs[j];
        j += 1;
    }
    proof {
        assert(mem@ =~= store_regs_memory(old(mem)@, i as int, regs@, x as int));
    }
}

/// Load registers `0..=x` from memory at `i`.
fn load_range(regs: &mut Vec<u8>, mem: &Vec<u8>, i: usize, x: usize)
    requires
        old(regs)@.len() == 16,
        mem@.len() == 4096,
        x < 16,
        i + x + 1 <= 4096,
    ensures
        final(regs)@ == load_regs_file(old(regs)@, mem@, i as int, x as int),
{
    let mut j: usize = 0;
    while j <= x
        invariant
            j <= x + 1,
            x < 16,
            i + x + 1 <= 4096,
            regs@.len() == 16,
            mem@.len() == 4096,
            forall|t: int| 0 <= t < j ==> regs@[t] == mem@[i + t],
            forall|t: int| j <= t < 16 ==> regs@[t] == old(regs)@[t],
        decreases x + 1 - j,
    {
        regs[j] = mem[i + j];
        j += 1;
    }
    proof {
        assert(regs@ =~= load_regs_file(old(regs)@, mem@, i as int, x as int));
    }
}

/// The lowest currently held key, or 16 when none is held.
fn lowest_pressed(keypad: u16) -> (k: u8)
    ensures
        k == first_pressed_key(keypad, 0),
{
    let mut k: u8 = 0;
    while k < 16
        invariant
            k <= 16,
            first_pressed_key(keypad, 0) == first_pressed_key(keypad, k),
        decreases 16 - k,
    {
        if (keypad & (1u16 << k)) != 0 {
            proof {
                assert(first_pressed_key(keypad, k) == k);
            }
            return k;
        }
        proof {
            assert(first_pressed_key(keypad, k) == first_pressed_key(keypad, (k + 1) as u8));
        }
        k += 1;
    }
    proof {
        assert(first_pressed_key(keypad, 16) == 16);
    }
    16
}

/// The virtual machine: its addressable memory, framebuffer, keypad bitmask,
/// register file and call stack, together with handles to the two shared
/// countdown timer cells.
pub struct Cpu {
    memory: Vec<u8>,
    screen_pixels: Vec<u64>,
    keypad_state: u16,
    program_counter: u16,
    index_register: u16,
    stack: Vec<u16>,
    variable_registers: Vec<u8>,
    quirks: Quirks,
    delay_timer: Arc<Mutex<u8>>,
    sound_timer: Arc<Mutex<u8>>,
}

impl View for Cpu {
    type V = CpuView;

    closed spec fn view(&self) -> CpuView {
        CpuView {
            memory: self.memory@,
            screen: self.screen_pixels@,
            keypad: self.keypad_state,
            pc: self.program_counter,
            index: self.index_register,
            stack: self.stack@,
            regs: self.variable_registers@,
            quirks: self.quirks,
        }
    }
}

impl Cpu {
    /// The machine's stores have their fixed sizes.
    pub open spec fn wf(&self) -> bool {
        self@.wf()
    }

    /// Build a machine holding `program`, or fail atomically when the
    /// program does not fit: on success the memory image is exactly the
    /// glyph table, the program, and zeroes, with every register cleared
    /// and the program counter at the program's start.
    pub fn new(
        program: Vec<u8>,
        quirks: Quirks,
        delay_timer: Arc<Mutex<u8>>,
        sound_timer: Arc<Mutex<u8>>,
    ) -> (r: Result<Cpu, InitCpuError>)
        ensures
            r is Err <==> program@.len() > 3584,
            r matches Err(e) ==> e == (InitCpuError::ProgramTooBig {
                actual: program@.len() as usize,
                allowed: 3584,
            }),
            r matches Ok(c) ==> c.wf() && c@ == (CpuView {
                memory: initial_memory(program@),
                screen: blank_screen(),
                keypad: 0,
                pc: 0x200,
                index: 0,
                stack: Seq::<u16>::empty(),
                regs: Seq::new(16, |i: int| 0u8),
                quirks: quirks,
            }),
    {
        if program.len() > MAX_ALLOWED_PROGRAM_SIZE {
            return Err(InitCpuError::ProgramTooBig {
                actual: program.len(),
                allowed: MAX_ALLOWED_PROGRAM_SIZE,
            });
        }
        let mut memory: Vec<u8> = zero_bytes(MEMORY_SIZE);
        let program_len: usize = program.len();
        let mut i: usize = 0;
        while i < program_len
            invariant
            i <= program_len,
            program_len == program@.len(),
            program_len <= 3584,
            memory@.len() == 4096,
            forall|j: int| 0 <= j < i ==> memory@[0x200 + j] == program@[j],
            forall|j: int|
                (0 <= j < 0x200 || 0x200 + i <= j < 4096) ==> memory@[j] == 0u8,
            decreases program_len - i,
        {
            memory[PROGRAM_INIT_LOAD_POS + i] = program[i];
            i += 1;
        }
        let font: Vec<u8> = font_data();
        let mut k: usize = 0;
        while k < 80
            invariant
            k <= 80,
            font@ == font_seq(),
            font@.len() == 80,
            program@.len() <= 3584,
            memory@.len() == 4096,
            forall|j: int| 0 <= j < k ==> memory@[0x50 + j] == font_seq()[j],
            forall|j: int|
                0 <= j < program@.len() ==> memory@[0x200 + j] == program@[j],
            forall|j: int|
                (0 <= j < 0x50 || 0x50 + k <= j < 0x200 || 0x200 + program@.len() <= j < 4096)
                    ==> memory@[j] == 0u8,
            decreases 80 - k,
        {
            memory[FONT_START_POS + k] = font[k];
            k += 1;
        }
        proof {
            assert(memory@ =~= initial_memory(program@));
        }
        let cpu = Cpu {
            memory,
            screen_pixels: zero_rows(),
            keypad_state: 0,
            program_counter: 0x200,
            index_register: 0,
            stack: Vec::new(),
            variable_registers: zero_regs(),
            quirks,
            delay_timer,
            sound_timer,
        };
        Ok(cpu)
    }

    /// Fold one keypad event into the presence bitmask: a press sets the
    /// key's bit, a release clears it; nothing else changes.
    pub fn process_cpu_io_event(&mut self, event: &CpuIoEvents)
        requires
            old(self).wf(),
            match *event {
                CpuIoEvents::KeyPressed(k) => k < 16,
                CpuIoEvents::KeyReleased(k) => k < 16,
            },
        ensures
            final(self).wf(),
            final(self)@ == match *event {
                CpuIoEvents::KeyPressed(k) => (CpuView {
                    keypad: old(self)@.keypad | (1u16 << k),
                    ..old(self)@
                }),
                CpuIoEvents::KeyReleased(k) => (CpuView {
                    keypad: old(self)@.keypad & !(1u16 << k),
                    ..old(self)@
                }),
            },
    {
        match event {
            CpuIoEvents::KeyPressed(key) => {
                self.keypad_state = self.keypad_state | get_keypad_state_mask(*key);
            },
            CpuIoEvents::KeyReleased(key) => {
                self.keypad_state = self.keypad_state & !get_keypad_state_mask(*key);
            },
        }
    }

    /// A snapshot of the framebuffer rows, for the renderer: the machine
    /// never hands out a live reference.
    pub fn screen_rows(&self) -> (rows: Vec<u64>)
        requires
            self.wf(),
        ensures
            rows@ == self@.screen,
    {
        let mut rows: Vec<u64> = Vec::new();
        let mut i: usize = 0;
        while i < 32
            invariant
                self.wf(),
                i <= 32,
                rows@.len() == i,
                forall|j: int| 0 <= j < i ==> rows@[j] == self@.screen[j],
            decreases 32 - i,
        {
            rows.push(self.screen_pixels[i]);
            i += 1;
        }
        proof {
            assert(rows@ =~= self@.screen);
        }
        rows
    }

    /// The current program counter.
    pub fn pc_value(&self) -> (pc: u16)
        ensures
            pc == self@.pc,
    {
        self.program_counter
    }

    /// The current index register.
    pub fn index_value(&self) -> (i: u16)
        ensures
            i == self@.index,
    {
        self.index_register
    }

    /// The current value of general-purpose register `i`.
    pub fn register(&self, i: usize) -> (v: u8)
        requires
            self.wf(),
            i < 16,
        ensures
            v == self@.regs[i as int],
    {
        self.variable_registers[i]
    }

    /// How many return addresses the call stack currently holds.
    pub fn stack_len(&self) -> (n: usize)
        ensures
            n == self@.stack.len(),
    {
        self.stack.len()
    }

    /// The current keypad presence bitmask.
    pub fn keypad_mask(&self) -> (m: u16)
        ensures
            m == self@.keypad,
    {
        self.keypad_state
    }

    /// A copy of the full memory image.
    pub fn memory_snapshot(&self) -> (m: Vec<u8>)
        requires
            self.wf(),
        ensures
            m@ == self@.memory,
    {
        let mut m: Vec<u8> = Vec::new();
        let mut i: usize = 0;
        while i < MEMORY_SIZE
            invariant
                self.wf(),
                i <= 4096,
                m@.len() == i,
                forall|j: int| 0 <= j < i ==> m@[j] == self@.memory[j],
            decreases 4096 - i,
        {
            m.push(self.memory[i]);
            i += 1;
        }
        proof {
            assert(m@ =~= self@.memory);
        }
        m
    }

    /// Execute one already-sampled cycle: `rand` is this cycle's random byte
    /// and `delay` the sampled delay-timer value. The machine advances
    /// exactly as [`spec_step`] prescribes; on a fatal error the state is
    /// unchanged and the error names the instruction and where it was
    /// fetched.
    pub fn exec_cycle(&mut self, rand: u8, delay: u8) -> (r: Result<CycleEffect, ExecError>)
        requires
            old(self).wf(),
        ensures
            final(self).wf(),
            match spec_step(old(self)@, rand, delay) {
                StepSpec::Next { post, eff } => r == Ok::<CycleEffect, ExecError>(eff)
                    && final(self)@ == post,
                StepSpec::Fatal { err } => r == Err::<CycleEffect, ExecError>(err) && final(self)@
                    == old(self)@,
            },
    {
        let pc0: u16 = self.program_counter;
        if pc0 as usize + 1 >= MEMORY_SIZE {
            return Err(ExecError::ProgramCounterOutOfRange { pc: pc0 });
        }
        let hi: u8 = self.memory[pc0 as usize];
        let lo: u8 = self.memory[pc0 as usize + 1];
        let w: u16 = ((hi as u16) << 8) | (lo as u16);
        proof {
            assert(w == instr_word(old(self)@.memory, pc0 as int));
        }
        let pc2: u16 = pc0 + 2;
        let op: u16 = w >> 12;
        let x: usize = ((w >> 8) & 0xF) as usize;
        let y: usize = ((w >> 4) & 0xF) as usize;
        let n: u16 = w & 0xF;
        let nn: u8 = (w & 0xFF) as u8;
        let nnn: u16 = w & 0xFFF;
        proof {
            assert((w >> 12) <= 15 && ((w >> 8) & 0xF) < 16 && ((w >> 4) & 0xF) < 16 && (w & 0xF)
                <= 15 && (w & 0xFFF) <= 0xFFF) by (bit_vector);
        }
        let vx: u8 = self.variable_registers[x];
        let vy: u8 = self.variable_registers[y];
        let quiet: CycleEffect = CycleEffect { redraw: false, set_delay: None, set_sound: None };
        if op == 0x0 {
            if nnn == 0x0E0 {
                self.screen_pixels = zero_rows();
                self.program_counter = pc2;
                Ok(CycleEffect { redraw: true, set_delay: None, set_sound: None })
            } else if nnn == 0x0EE {
                if self.stack.len() == 0 {
                    return Err(ExecError::StackUnderflow { instruction: w, pc: pc0 });
                }
                let addr: u16 = self.stack.pop().unwrap();
                self.program_counter = addr;
                Ok(quiet)
            } else {
                Err(ExecError::UnsupportedMachineRoutine { instruction: w, pc: pc0 })
            }
        } else if op == 0x1 {
            self.program_counter = nnn;
            Ok(quiet)
        } else if op == 0x2 {
            if self.stack.len() >= STACK_DEPTH {
                return Err(ExecError::StackOverflow { instruction: w, pc: pc0 });
            }
            self.stack.push(pc2);
            self.program_counter = nnn;
            Ok(quiet)
        } else if op == 0x3 {
            self.program_counter = if vx == nn {
                pc2 + 2
            } else {
                pc2
            };
            Ok(quiet)
        } else if op == 0x4 {
            self.program_counter = if vx != nn {
                pc2 + 2
            } else {
                pc2
            };
            Ok(quiet)
        } else if op == 0x5 {
            if n != 0x0 {
                return Err(ExecError::UnknownOpcode { instruction: w, pc: pc0 });
            }
            self.program_counter = if vx == vy {
                pc2 + 2
            } else {
                pc2
            };
            Ok(quiet)
        } else if op == 0x6 {
            self.variable_registers[x] = nn;
            self.program_counter = pc2;
            Ok(quiet)
        } else if op == 0x7 {
            self.variable_registers[x] = vx.wrapping_add(nn);
            self.program_counter = pc2;
            Ok(quiet)
        } else if op == 0x8 {
            if n == 0x0 {
                self.variable_registers[x] = vy;
            } else if n == 0x1 {
                self.variable_registers[x] = vx | vy;
            } else if n == 0x2 {
                self.variable_registers[x] = vx & vy;
            } else if n == 0x3 {
                self.variable_registers[x] = vx ^ vy;
            } else if n == 0x4 {
                let flag: u8 = if (vx as u16) + (vy as u16) > 255 {
                    1
                } else {
                    0
                };
                let val: u8 = vx.wrapping_add(vy);
                self.variable_registers[15] = flag;
                self.variable_registers[x] = val;
            } else if n == 0x5 {
                let flag: u8 = if vx >= vy {
                    1
                } else {
                    0
                };
                let val: u8 = vx.wrapping_sub(vy);
                self.variable_registers[15] = flag;
                self.variable_registers[x] = val;
            } else if n == 0x6 {
                let src: u8 = if self.quirks.shift_reads_vy {
                    vy
                } else {
                    vx
                };
                self.variable_registers[15] = src & 1;
                self.variable_registers[x] = src >> 1;
            } else if n == 0x7 {
                let flag: u8 = if vy >= vx {
                    1
                } else {
                    0
                };
                let val: u8 = vy.wrapping_sub(vx);
                self.variable_registers[15] = flag;
                self.variable_registers[x] = val;
            } else if n == 0xE {
                let src: u8 = if self.quirks.shift_reads_vy {
                    vy
                } else {
                    vx
                };
                self.variable_registers[15] = (src & 0x80) >> 7;
                self.variable_registers[x] = src << 1;
            } else {
                return Err(ExecError::UnknownOpcode { instruction: w, pc: pc0 });
            }
            self.program_counter = pc2;
            Ok(quiet)
        } else if op == 0x9 {
            if n != 0x0 {
                return Err(ExecError::UnknownOpcode { instruction: w, pc: pc0 });
            }
            self.program_counter = if vx != vy {
                pc2 + 2
            } else {
                pc2
            };
            Ok(quiet)
        } else if op == 0xA {
            self.index_register = nnn;
            self.program_counter = pc2;
            Ok(quiet)
        } else if op == 0xB {
            let offset: u8 = if self.quirks.jump_uses_vx {
                vx
            } else {
                self.variable_registers[0]
            };
            self.program_counter = nnn + offset as u16;
            Ok(quiet)
        } else if op == 0xC {
            self.variable_registers[x] = rand & nn;
            self.program_counter = pc2;
            Ok(quiet)
        } else if op == 0xD {
            let x0: u8 = vx % 64;
            let y0: u8 = vy % 32;
            let rows: usize = if (n as usize) <= 32 - (y0 as usize) {
                n as usize
            } else {
                32 - (y0 as usize)
            };
            if self.index_register as usize + rows > MEMORY_SIZE {
                return Err(ExecError::MemoryRangeOutOfBounds { instruction: w, pc: pc0 });
            }
            let vf: u8 = draw_rows(
                &mut self.screen_pixels,
                &self.memory,
                self.index_register as usize,
                x0,
                y0,
                rows,
            );
            self.variable_registers[15] = vf;
            self.program_counter = pc2;
            Ok(CycleEffect { redraw: true, set_delay: None, set_sound: None })
        } else if op == 0xE {
            let key: u8 = vx & 0xF;
            proof {
                assert((vx & 0xF) < 16) by (bit_vector);
            }
            let held: bool = (self.keypad_state & get_keypad_state_mask(key)) != 0;
            if nn == 0x9E {
                self.program_counter = if held {
                    pc2 + 2
                } else {
                    pc2
                };
                Ok(quiet)
            } else if nn == 0xA1 {
                self.program_counter = if !held {
                    pc2 + 2
                } else {
                    pc2
                };
                Ok(quiet)
            } else {
                Err(ExecError::UnknownOpcode { instruction: w, pc: pc0 })
            }
        } else {
            proof {
                assert(op == 0xF);
            }
            if nn == 0x07 {
                self.variable_registers[x] = delay;
                self.program_counter = pc2;
                Ok(quiet)
            } else if nn == 0x0A {
                if self.keypad_state == 0 {
                    Ok(quiet)
                } else {
                    let key: u8 = lowest_pressed(self.keypad_state);
                    self.variable_registers[x] = key;
                    self.program_counter = pc2;
                    Ok(quiet)
                }
            } else if nn == 0x15 {
                self.program_counter = pc2;
                Ok(CycleEffect { redraw: false, set_delay: Some(vx), set_sound: None })
            } else if nn == 0x18 {
                self.program_counter = pc2;
                Ok(CycleEffect { redraw: false, set_delay: None, set_sound: Some(vx) })
            } else if nn == 0x1E {
                self.index_register = self.index_register.wrapping_add(vx as u16);
                self.program_counter = pc2;
                Ok(quiet)
            } else if nn == 0x29 {
                proof {
                    assert((vx & 0xF) < 16) by (bit_vector);
                }
                self.index_register = 0x50 + 5 * ((vx & 0xF) as u16);
                self.program_counter = pc2;
                Ok(quiet)
            } else if nn == 0x33 {
                let i: usize = self.index_register as usize;
                if i + 3 > MEMORY_SIZE {
                    return Err(ExecError::MemoryRangeOutOfBounds { instruction: w, pc: pc0 });
                }
                self.memory[i] = vx / 100;
                self.memory[i + 1] = (vx / 10) % 10;
                self.memory[i + 2] = vx % 10;
                self.program_counter = pc2;
                Ok(quiet)
            } else if nn == 0x55 {
                let i: usize = self.index_register as usize;
                if i + x + 1 > MEMORY_SIZE {
                    return Err(ExecError::MemoryRangeOutOfBounds { instruction: w, pc: pc0 });
                }
                store_range(&mut self.memory, &self.variable_registers, i, x);
                self.program_counter = pc2;
                Ok(quiet)
            } else if nn == 0x65 {
                let i: usize = self.index_register as usize;
                if i + x + 1 > MEMORY_SIZE {
                    return Err(ExecError::MemoryRangeOutOfBounds { instruction: w, pc: pc0 });
                }
                load_range(&mut self.variable_registers, &self.memory, i, x);
                self.program_counter = pc2;
                Ok(quiet)
            } else {
                Err(ExecError::UnknownOpcode { instruction: w, pc: pc0 })
            }
        }
    }

    /// One engine cycle against the outside world: draw this cycle's random
    /// byte, sample the shared delay timer, execute as [`spec_step`]
    /// prescribes for some such pair, and apply any timer write the
    /// instruction asked for. Returns whether the framebuffer changed, so
    /// the caller knows a snapshot is owed to the renderer, or the fatal
    /// error that ends the engine's loop.
    pub fn step(&mut self) -> (r: Result<bool, ExecError>)
        requires
            old(self).wf(),
        ensures
            final(self).wf(),
            exists|rand: u8, delay: u8|
                step_outcome_matches(old(self)@, rand, delay, final(self)@, r),
            r is Err ==> final(self)@ == old(self)@,
    {
        let rand: u8 = random_byte();
        let delay: u8 = read_cell(&self.delay_timer);
        let result = self.exec_cycle(rand, delay);
        match result {
            Ok(eff) => {
                if let Some(v) = eff.set_delay {
                    write_cell(&self.delay_timer, v);
                }
                if let Some(v) = eff.set_sound {
                    write_cell(&self.sound_timer, v);
                }
                proof {
                    assert(step_outcome_matches(
                        old(self)@,
                        rand,
                        delay,
                        self@,
                        Ok::<bool, ExecError>(eff.redraw),
                    ));
                }
                Ok(eff.redraw)
            },
            Err(e) => {
                proof {
                    assert(step_outcome_matches(
                        old(self)@,
                        rand,
                        delay,
                        self@,
                        Err::<bool, ExecError>(e),
                    ));
                }
                Err(e)
            },
        }
    }
}

} // verus!
