use vstd::prelude::*;

use crate::decode::{__get_nibble, address, family, immediate};
use crate::font::{
    fontset, fontset_bytes, FONTSET_SIZE, FONTSET_START_ADDRESS, FONT_TABLE_ADDRESS,
};
use crate::rng::random_byte;
use crate::state::{
    advance, alu_spec, blit, collides, draw_spec, execute_spec, flow_spec, initial_memory,
    initial_state, key_down, lemma_blit_step, load_spec, loaded_memory, loaded_regs,
    lowest_key, lowest_key_from, misc_spec, opcode_at, skip_if, skip_spec, sprite_bit,
    step_spec, stored_regs, wrap_addr, CpuError, CpuState, MAX_ROM_SIZE, MEM_SIZE, MEM_START,
    STACK_SIZE,
};

verus! {

/// A CHIP-8 machine: memory, registers, stack, timers, keypad and framebuffer.
pub struct C8Cpu {
    memory: [u8; 4096],
    v: [u8; 16],
    stack: [u16; 16],
    display: [bool; 2048],
    pc: u16,
    sp: u16,
    i: u16,
    dt: u8,
    st: u8,
    keypad: u16,
    /// Set by every draw; the host clears it once it has painted the frame.
    pub draw_flag: bool,
    running: bool,
    awaiting_key: Option<u8>,
    rng: rand::rngs::ThreadRng,
}

impl View for C8Cpu {
    type V = CpuState;

    closed spec fn view(&self) -> CpuState {
        CpuState {
            memory: self.memory@,
            v: self.v@,
            stack: self.stack@,
            display: self.display@,
            pc: self.pc,
            sp: self.sp,
            i: self.i,
            dt: self.dt,
            st: self.st,
            keypad: self.keypad,
            draw_flag: self.draw_flag,
            running: self.running,
            awaiting_key: self.awaiting_key,
        }
    }
}

impl C8Cpu {
    /// The machine's invariant, over its abstract state.
    pub open spec fn wf(&self) -> bool {
        self@.wf()
    }

    /// A machine with zeroed memory but for the glyph set (at address 0, the
    /// table that Fx29 points into, and again at 0x050), the program counter
    /// at 0x200 and everything else cleared.
    pub fn new() -> (r: C8Cpu)
        ensures
            r.wf(),
            r@ == initial_state(),
    {
        let mut memory = [0u8; 4096];
        let font = fontset_bytes();
        let mut k: usize = 0;
        while k < FONTSET_SIZE
            invariant
                k <= FONTSET_SIZE,
                font@ == fontset(),
                memory@ == Seq::new(
                    MEM_SIZE as nat,
                    |a: int|
                        if 0 <= a < k {
                            fontset()[a]
                        } else if 0x50 <= a < 0x50 + k {
                            fontset()[a - 0x50]
                        } else {
                            0u8
                        },
                ),
            decreases FONTSET_SIZE - k,
        {
            memory[FONT_TABLE_ADDRESS + k] = font[k];
            memory[FONTSET_START_ADDRESS + k] = font[k];
            k = k + 1;
            assert(memory@ =~= Seq::new(
                MEM_SIZE as nat,
                |a: int|
                    if 0 <= a < k {
                        fontset()[a]
                    } else if 0x50 <= a < 0x50 + k {
                        fontset()[a - 0x50]
                    } else {
                        0u8
                    },
            ));
        }
        let cpu = C8Cpu {
            memory,
            v: [0u8; 16],
            stack: [0u16; 16],
            display: [false; 2048],
            pc: MEM_START,
            sp: 0,
            i: 0,
            dt: 0,
            st: 0,
            keypad: 0,
            draw_flag: false,
            running: true,
            awaiting_key: None,
            rng: rand::thread_rng(),
        };
        assert(cpu@.memory =~= initial_memory());
        assert(cpu@.v =~= initial_state().v);
        assert(cpu@.stack =~= initial_state().stack);
        assert(cpu@.wf());
        assert(cpu@.display =~= initial_state().display);
        cpu
    }

    /// False once a step has failed.
    pub fn is_running(&self) -> (r: bool)
        ensures
            r == self@.running,
    {
        self.running
    }

    /// Copies `rom` into memory from 0x200 on.
    pub fn load_rom(&mut self, rom: Vec<u8>)
        requires
            old(self).wf(),
            rom@.len() <= MAX_ROM_SIZE,
        ensures
            final(self).wf(),
            final(self)@ == (CpuState { memory: loaded_memory(old(self)@.memory, rom@), ..old(self)@ }),
    {
        let mut k: usize = 0;
        assert(loaded_memory(self@.memory, rom@.subrange(0, 0)) =~= self@.memory);
        while k < rom.len()
            invariant
                k <= rom@.len() <= MAX_ROM_SIZE,
                self.wf(),
                self@ == (CpuState { memory: loaded_memory(old(self)@.memory, rom@.subrange(0, k as int)), ..old(self)@ }),
            decreases rom@.len() - k,
        {
            self.memory[MEM_START as usize + k] = rom[k];
            k = k + 1;
            assert(self@.memory =~= loaded_memory(old(self)@.memory, rom@.subrange(0, k as int)));
        }
        assert(rom@.subrange(0, k as int) =~= rom@);
    }

    /// The framebuffer, row-major, 64 pixels per row.
    pub fn get_display(&self) -> (r: &[bool; 2048])
        ensures
            r@ == self@.display,
    {
        &self.display
    }

    /// Reads the word at the program counter and advances the counter.
    fn fetch(&mut self) -> (op: u16)
        requires
            old(self).wf(),
        ensures
            final(self).wf(),
            op == opcode_at(old(self)@.memory, old(self)@.pc),
            final(self)@ == advance(old(self)@),
    {
        let hi = self.memory[self.pc as usize % MEM_SIZE] as u16;
        let lo = self.memory[(self.pc as usize + 1) % MEM_SIZE] as u16;
        self.pc = ((self.pc as usize + 2) % MEM_SIZE) as u16;
        hi * 256 + lo
    }

    /// Dxyn: XORs the `n`-row sprite at `I` into the framebuffer at
    /// (Vx mod 64, Vy mod 32), clipping at the edges; VF tells whether a lit
    /// pixel was turned off.
    fn draw(&mut self, x: usize, y: usize, n: u8)
        requires
            old(self).wf(),
            x < 16,
            y < 16,
        ensures
            final(self).wf(),
            final(self)@ == draw_spec(old(self)@, x as int, y as int, n as int),
    {
        let x0: usize = (self.v[x] % 64) as usize;
        let y0: usize = (self.v[y] % 32) as usize;
        let ghost d0 = self@.display;
        let ghost mem = self@.memory;
        let ghost i = self.i;
        let mut disp = self.display;
        let mut collision = false;
        let mut row: usize = 0;
        while row < n as usize
            invariant
                self@ == old(self)@,
                self.wf(),
                d0 == self@.display,
                mem == self@.memory,
                i == self.i,
                x0 < 64,
                y0 < 32,
                row <= n,
                disp@ == blit(d0, mem, i, x0 as int, y0 as int, n as int, row * 8),
                collision == collides(d0, mem, i, x0 as int, y0 as int, n as int, row * 8),
            decreases n - row,
        {
            let byte = self.memory[(self.i as usize + row) % MEM_SIZE];
            let mut col: usize = 0;
            while col < 8
                invariant
                    self@ == old(self)@,
                    self.wf(),
                    d0 == self@.display,
                    mem == self@.memory,
                    i == self.i,
                    x0 < 64,
                    y0 < 32,
                    row < n,
                    col <= 8,
                    byte == mem[((i + row) % 4096) as int],
                    disp@ == blit(d0, mem, i, x0 as int, y0 as int, n as int, row * 8 + col),
                    collision == collides(d0, mem, i, x0 as int, y0 as int, n as int, row * 8 + col),
                decreases 8 - col,
            {
                proof {
                    lemma_blit_step(d0, mem, i, x0 as int, y0 as int, n as int, row as int, col as int);
                }
                let bit = (byte >> (7 - col as u8)) & 1 == 1;
                assert(bit == sprite_bit(mem, i, row as int, col as int));
                if x0 + col < 64 && y0 + row < 32 {
                    let idx = (y0 + row) * 64 + x0 + col;
                    if bit && disp[idx] {
                        collision = true;
                    }
                    if bit {
                        disp[idx] = !disp[idx];
                    }
                    assert(disp@ =~= blit(d0, mem, i, x0 as int, y0 as int, n as int, row * 8 + col + 1));
                }
                col = col + 1;
            }
            row = row + 1;
        }
        self.display = disp;
        self.v[15] = if collision { 1 } else { 0 };
        self.draw_flag = true;
        assert(self@.display =~= draw_spec(old(self)@, x as int, y as int, n as int).display);
    }

    /// Advances the program counter past one more instruction when `cond` holds.
    fn skip_when(&mut self, cond: bool)
        requires
            old(self).wf(),
        ensures
            final(self).wf(),
            final(self)@ == skip_if(old(self)@, cond),
    {
        if cond {
            self.pc = ((self.pc as usize + 2) % MEM_SIZE) as u16;
        }
    }

    /// Whether key `k` is down; keys above F never are.
    fn key_is_down(&self, k: u8) -> (r: bool)
        ensures
            r == key_down(self@.keypad, k),
    {
        k < 16 && self.keypad & (1u16 << k) != 0
    }

    /// The register-to-register family 8xyN; false for an undefined `n`.
    #[verifier::rlimit(30)]
    fn alu(&mut self, x: usize, y: usize, n: u8) -> (ok: bool)
        requires
            old(self).wf(),
            x < 16,
            y < 16,
        ensures
            final(self).wf(),
            match alu_spec(old(self)@, x as int, y as int, n) {
                Some(t) => ok && final(self)@ == t,
                None => !ok && final(self)@ == old(self)@,
            },
    {
        let vx = self.v[x];
        let vy = self.v[y];
        if n == 0 {
            self.v[x] = vy;
        } else if n == 1 {
            self.v[x] = vx | vy;
        } else if n == 2 {
            self.v[x] = vx & vy;
        } else if n == 3 {
            self.v[x] = vx ^ vy;
        } else if n == 4 {
            self.v[x] = vx.wrapping_add(vy);
            self.v[15] = if vx as u16 + vy as u16 > 255 { 1 } else { 0 };
        } else if n == 5 {
            self.v[x] = vx.wrapping_sub(vy);
            self.v[15] = if vx >= vy { 1 } else { 0 };
        } else if n == 6 {
            self.v[x] = vx / 2;
            self.v[15] = vx % 2;
        } else if n == 7 {
            self.v[x] = vy.wrapping_sub(vx);
            self.v[15] = if vy >= vx { 1 } else { 0 };
        } else if n == 0xE {
            self.v[x] = vx.wrapping_mul(2);
            self.v[15] = vx / 128;
        } else {
            return false;
        }
        true
    }

    /// The Fx.. family; false for an undefined low byte.
    fn misc(&mut self, x: usize, nn: u8) -> (ok: bool)
        requires
            old(self).wf(),
            x < 16,
        ensures
            final(self).wf(),
            match misc_spec(old(self)@, x as int, nn) {
                Some(t) => ok && final(self)@ == t,
                None => !ok && final(self)@ == old(self)@,
            },
    {
        let vx = self.v[x];
        if nn == 0x07 {
            self.v[x] = self.dt;
        } else if nn == 0x0A {
            self.awaiting_key = Some(x as u8);
        } else if nn == 0x15 {
            self.dt = vx;
        } else if nn == 0x18 {
            self.st = vx;
        } else if nn == 0x1E {
            self.i = self.i.wrapping_add(vx as u16);
        } else if nn == 0x29 {
            self.i = vx as u16 * 5;
        } else if nn == 0x33 {
            let base = self.i as usize;
            self.memory[base % MEM_SIZE] = vx / 100;
            self.memory[(base + 1) % MEM_SIZE] = (vx / 10) % 10;
            self.memory[(base + 2) % MEM_SIZE] = vx % 10;
        } else if nn == 0x55 {
            self.store_registers(x);
        } else if nn == 0x65 {
            self.load_registers(x);
        } else {
            return false;
        }
        true
    }

    /// Fx55: writes V0..=Vx to memory from `I` on.
    fn store_registers(&mut self, x: usize)
        requires
            old(self).wf(),
            x < 16,
        ensures
            final(self).wf(),
            final(self)@ == (CpuState {
                memory: stored_regs(old(self)@.memory, old(self)@.v, old(self)@.i, x + 1),
                ..old(self)@
            }),
    {
        let base = self.i as usize;
        let mut k: usize = 0;
        assert(stored_regs(self@.memory, self@.v, self.i, 0) =~= self@.memory);
        while k <= x
            invariant
                k <= x + 1,
                x < 16,
                base == old(self)@.i,
                self.wf(),
                self@ == (CpuState {
                    memory: stored_regs(old(self)@.memory, old(self)@.v, old(self)@.i, k as int),
                    ..old(self)@
                }),
            decreases x + 1 - k,
        {
            self.memory[(base + k) % MEM_SIZE] = self.v[k];
            proof {
                assert forall|a: int| 0 <= a < MEM_SIZE implies (#[trigger] wrap_addr(a - base) == k) == (a == (
                base + k) % 4096) by {}
            }
            k = k + 1;
            assert(self@.memory =~= stored_regs(old(self)@.memory, old(self)@.v, old(self)@.i, k as int));
        }
    }

    /// Fx65: reads V0..=Vx from memory from `I` on.
    fn load_registers(&mut self, x: usize)
        requires
            old(self).wf(),
            x < 16,
        ensures
            final(self).wf(),
            final(self)@ == (CpuState {
                v: loaded_regs(old(self)@.memory, old(self)@.v, old(self)@.i, x + 1),
                ..old(self)@
            }),
    {
        let base = self.i as usize;
        let mut k: usize = 0;
        assert(loaded_regs(self@.memory, self@.v, self.i, 0) =~= self@.v);
        while k <= x
            invariant
                k <= x + 1,
                x < 16,
                base == old(self)@.i,
                self.wf(),
                self@ == (CpuState {
                    v: loaded_regs(old(self)@.memory, old(self)@.v, old(self)@.i, k as int),
                    ..old(self)@
                }),
            decreases x + 1 - k,
        {
            self.v[k] = self.memory[(base + k) % MEM_SIZE];
            k = k + 1;
            assert(self@.v =~= loaded_regs(old(self)@.memory, old(self)@.v, old(self)@.i, k as int));
        }
    }

    /// Control flow: 00E0, 00EE, 1nnn, 2nnn and Bnnn.
    fn flow(&mut self, op: u16, at: u16) -> (r: Result<(), CpuError>)
        requires
            old(self).wf(),
            family(op) == 0 || family(op) == 1 || family(op) == 2 || family(op) == 0xB,
        ensures
            final(self).wf(),
            match flow_spec(old(self)@, op, at) {
                Ok(t) => r == Ok::<(), CpuError>(()) && final(self)@ == t,
                Err(e) => r == Err::<(), CpuError>(e) && final(self)@ == old(self)@,
            },
    {
        let msb = __get_nibble(op, 0);
        let nnn = address(op);
        if msb == 0x0 {
            if op == 0x00E0 {
                self.display = [false; 2048];
                assert(self@.display =~= Seq::new(2048, |p: int| false));
            } else if op == 0x00EE {
                if self.sp == 0 {
                    return Err(CpuError::StackUnderflow { opcode: op, address: at });
                }
                self.sp = self.sp - 1;
                self.pc = self.stack[self.sp as usize];
            } else {
                return Err(CpuError::InvalidOpcode { opcode: op, address: at });
            }
        } else if msb == 0x1 {
            self.pc = nnn;
        } else if msb == 0x2 {
            if self.sp as usize == STACK_SIZE {
                return Err(CpuError::StackOverflow { opcode: op, address: at });
            }
            self.stack[self.sp as usize] = self.pc;
            self.sp = self.sp + 1;
            self.pc = nnn;
        } else {
            self.pc = ((nnn as usize + self.v[0] as usize) % MEM_SIZE) as u16;
        }
        Ok(())
    }

    /// Conditional skips: 3xnn, 4xnn, 5xy0, 9xy0, Ex9E and ExA1; false for an
    /// undefined variant.
    fn conditional_skip(&mut self, op: u16) -> (ok: bool)
        requires
            old(self).wf(),
            family(op) == 3 || family(op) == 4 || family(op) == 5 || family(op) == 9 || family(op) == 0xE,
        ensures
            final(self).wf(),
            match skip_spec(old(self)@, op) {
                Some(t) => ok && final(self)@ == t,
                None => !ok && final(self)@ == old(self)@,
            },
    {
        let msb = __get_nibble(op, 0);
        let vx = self.v[__get_nibble(op, 1) as usize];
        let vy = self.v[__get_nibble(op, 2) as usize];
        let nn = immediate(op);
        let n = __get_nibble(op, 3);
        let cond = if msb == 0x3 {
            vx == nn
        } else if msb == 0x4 {
            vx != nn
        } else if msb == 0x5 {
            if n != 0 {
                return false;
            }
            vx == vy
        } else if msb == 0x9 {
            if n != 0 {
                return false;
            }
            vx != vy
        } else if nn == 0x9E {
            self.key_is_down(vx)
        } else if nn == 0xA1 {
            !self.key_is_down(vx)
        } else {
            return false;
        };
        self.skip_when(cond);
        true
    }

    /// Register loads: 6xnn, 7xnn, Annn and Cxnn.
    fn load_register(&mut self, op: u16, random: u8)
        requires
            old(self).wf(),
            family(op) == 6 || family(op) == 7 || family(op) == 0xA || family(op) == 0xC,
        ensures
            final(self).wf(),
            final(self)@ == load_spec(old(self)@, op, random),
    {
        let msb = __get_nibble(op, 0);
        let x = __get_nibble(op, 1) as usize;
        let nn = immediate(op);
        if msb == 0x6 {
            self.v[x] = nn;
        } else if msb == 0x7 {
            self.v[x] = self.v[x].wrapping_add(nn);
        } else if msb == 0xA {
            self.i = address(op);
        } else {
            self.v[x] = random & nn;
        }
    }

    /// Executes `op`, fetched from `at`; `random` is the byte that RND
    /// masks. On an error nothing changes.
    fn execute(&mut self, op: u16, random: u8, at: u16) -> (r: Result<(), CpuError>)
        requires
            old(self).wf(),
        ensures
            final(self).wf(),
            match execute_spec(old(self)@, op, random, at) {
                Ok(t) => r == Ok::<(), CpuError>(()) && final(self)@ == t,
                Err(e) => r == Err::<(), CpuError>(e) && final(self)@ == old(self)@,
            },
    {
        reveal(execute_spec);
        let msb = __get_nibble(op, 0);
        let x = __get_nibble(op, 1) as usize;
        let y = __get_nibble(op, 2) as usize;
        let invalid = CpuError::InvalidOpcode { opcode: op, address: at };
        if msb == 0x0 || msb == 0x1 || msb == 0x2 || msb == 0xB {
            self.flow(op, at)
        } else if msb == 0x3 || msb == 0x4 || msb == 0x5 || msb == 0x9 || msb == 0xE {
            if self.conditional_skip(op) { Ok(()) } else { Err(invalid) }
        } else if msb == 0x6 || msb == 0x7 || msb == 0xA || msb == 0xC {
            self.load_register(op, random);
            Ok(())
        } else if msb == 0x8 {
            if self.alu(x, y, __get_nibble(op, 3)) { Ok(()) } else { Err(invalid) }
        } else if msb == 0xD {
            self.draw(x, y, __get_nibble(op, 3));
            Ok(())
        } else {
            if self.misc(x, immediate(op)) { Ok(()) } else { Err(invalid) }
        }
    }

    /// The lowest key that is down, or 16 when none is.
    fn lowest_pressed_key(&self) -> (r: u8)
        ensures
            r == lowest_key(self@.keypad),
    {
        let mut k: u8 = 0;
        while k < 16
            invariant
                k <= 16,
                lowest_key_from(self@.keypad, 0) == lowest_key_from(self@.keypad, k as int),
            decreases 16 - k,
        {
            if self.key_is_down(k) {
                return k;
            }
            k = k + 1;
        }
        k
    }

    /// One step with `random` as the byte that an RND instruction masks.
    /// While a wait-for-key instruction is pending, the step loads the lowest
    /// key that is down, if any, and fetches nothing. Otherwise it fetches,
    /// advances the program counter and executes; on an error only the fetch
    /// takes effect and the machine stops running.
    pub fn step_with(&mut self, random: u8) -> (r: Result<(), CpuError>)
        requires
            old(self).wf(),
        ensures
            final(self).wf(),
            (final(self)@, r) == step_spec(old(self)@, random),
    {
        match self.awaiting_key {
            Some(x) => {
                let k = self.lowest_pressed_key();
                if k < 16 {
                    self.v[x as usize] = k;
                    self.awaiting_key = None;
                }
                Ok(())
            },
            None => {
                let address = self.pc;
                let op = self.fetch();
                let ghost fetched = self@;
                let r = self.execute(op, random, address);
                match r {
                    Ok(()) => {},
                    Err(e) => {
                        self.running = false;
                        assert(self@ == (CpuState { running: false, ..fetched }));
                    },
                }
                r
            },
        }
    }

    /// One step, with a byte from the thread's random generator for RND.
    pub fn single_cycle(&mut self) -> (r: Result<(), CpuError>)
        requires
            old(self).wf(),
        ensures
            final(self).wf(),
            exists|random: u8| (final(self)@, r) == #[trigger] step_spec(old(self)@, random),
    {
        let random = random_byte(&mut self.rng);
        let r = self.step_with(random);
        assert((self@, r) == step_spec(old(self)@, random));
        r
    }

    /// Marks key `key` (0 to F) as down or up.
    pub fn set_key(&mut self, key: u8, pressed: bool)
        requires
            old(self).wf(),
            key < 16,
        ensures
            final(self).wf(),
            final(self)@ == (CpuState {
                keypad: if pressed {
                    old(self)@.keypad | (1u16 << key)
                } else {
                    old(self)@.keypad & !(1u16 << key)
                },
                ..old(self)@
            }),
    {
        if pressed {
            self.keypad = self.keypad | (1u16 << key);
        } else {
            self.keypad = self.keypad & !(1u16 << key);
        }
    }

    /// Replaces the whole keypad mask; bit k is key k.
    pub fn set_keypad(&mut self, mask: u16)
        requires
            old(self).wf(),
        ensures
            final(self).wf(),
            final(self)@ == (CpuState { keypad: mask, ..old(self)@ }),
    {
        self.keypad = mask;
    }

    /// Counts the delay and sound timers down by one, stopping at zero.
    pub fn tick_timers(&mut self)
        requires
            old(self).wf(),
        ensures
            final(self).wf(),
            final(self)@ == (CpuState {
                dt: if old(self)@.dt > 0 { (old(self)@.dt - 1) as u8 } else { 0 },
                st: if old(self)@.st > 0 { (old(self)@.st - 1) as u8 } else { 0 },
                ..old(self)@
            }),
    {
        self.dt = self.dt.saturating_sub(1);
        self.st = self.st.saturating_sub(1);
    }

    /// Register V`x`.
    pub fn register(&self, x: usize) -> (r: u8)
        requires
            self.wf(),
            x < 16,
        ensures
            r == self@.v[x as int],
    {
        self.v[x]
    }

    /// The memory cell at `addr`.
    pub fn memory_at(&self, addr: usize) -> (r: u8)
        requires
            self.wf(),
            addr < MEM_SIZE,
        ensures
            r == self@.memory[addr as int],
    {
        self.memory[addr]
    }

    /// Stack slot `k`.
    pub fn stack_slot(&self, k: usize) -> (r: u16)
        requires
            self.wf(),
            k < STACK_SIZE,
        ensures
            r == self@.stack[k as int],
    {
        self.stack[k]
    }

    /// The number of return addresses on the stack.
    pub fn stack_pointer(&self) -> (r: u16)
        ensures
            r == self@.sp,
    {
        self.sp
    }

    /// The program counter.
    pub fn program_counter(&self) -> (r: u16)
        ensures
            r == self@.pc,
    {
        self.pc
    }

    /// The index register I.
    pub fn index_register(&self) -> (r: u16)
        ensures
            r == self@.i,
    {
        self.i
    }

    /// The delay timer.
    pub fn delay_timer(&self) -> (r: u8)
        ensures
            r == self@.dt,
    {
        self.dt
    }

    /// The sound timer.
    pub fn sound_timer(&self) -> (r: u8)
        ensures
            r == self@.st,
    {
        self.st
    }

    /// The keypad mask.
    pub fn keypad(&self) -> (r: u16)
        ensures
            r == self@.keypad,
    {
        self.keypad
    }

    /// Whether a wait-for-key instruction is pending.
    pub fn is_awaiting_key(&self) -> (r: bool)
        ensures
            r == self@.awaiting_key is Some,
    {
        self.awaiting_key.is_some()
    }
}

} // verus!
