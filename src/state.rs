use vstd::prelude::*;

use crate::decode::{addr12, family, imm8, reg_x, reg_y, sub_op};
use crate::font::fontset;
use vstd::arithmetic::div_mod::lemma_fundamental_div_mod_converse;

verus! {

/// Number of memory cells.
pub const MEM_SIZE: usize = 4096;

/// Address at which a program image is loaded and execution starts.
pub const MEM_START: u16 = 0x200;

/// Largest program image that fits above `MEM_START`.
pub const MAX_ROM_SIZE: usize = 3584;

/// Number of general-purpose registers (V0 to VF).
pub const REG_COUNT: usize = 16;

/// Number of stack slots.
pub const STACK_SIZE: usize = 16;

/// Width of the framebuffer in pixels.
pub const DISPLAY_WIDTH: usize = 64;

/// Height of the framebuffer in pixels.
pub const DISPLAY_HEIGHT: usize = 32;

/// Number of pixels in the framebuffer.
pub const DISPLAY_SIZE: usize = 2048;

/// Why a step could not execute its instruction. `address` is where the
/// instruction was fetched from.
#[derive(Debug, Clone, Copy, PartialEq, Eq)]
pub enum CpuError {
    /// The word matches no instruction.
    InvalidOpcode { opcode: u16, address: u16 },
    /// A call with all sixteen stack slots in use.
    StackOverflow { opcode: u16, address: u16 },
    /// A return with an empty stack.
    StackUnderflow { opcode: u16, address: u16 },
}

/// The abstract state of the machine.
pub struct CpuState {
    pub memory: Seq<u8>,
    pub v: Seq<u8>,
    pub stack: Seq<u16>,
    pub display: Seq<bool>,
    pub pc: u16,
    /// Number of return addresses on the stack.
    pub sp: u16,
    pub i: u16,
    pub dt: u8,
    pub st: u8,
    pub keypad: u16,
    pub draw_flag: bool,
    pub running: bool,
    /// The register that a wait-for-key instruction will load, while it waits.
    pub awaiting_key: Option<u8>,
}

impl CpuState {
    /// Sizes of the fixed stores, and the program counter and every stack
    /// slot inside memory.
    pub open spec fn wf(self) -> bool {
        &&& self.memory.len() == MEM_SIZE
        &&& self.v.len() == REG_COUNT
        &&& self.stack.len() == STACK_SIZE
        &&& self.display.len() == DISPLAY_SIZE
        &&& self.pc < MEM_SIZE
        &&& self.sp <= STACK_SIZE
        &&& forall|k: int| 0 <= k < STACK_SIZE ==> #[trigger] self.stack[k] < MEM_SIZE
        &&& self.awaiting_key matches Some(x) ==> x < REG_COUNT
    }
}

/// Memory right after construction: zero but for the glyph set, which
/// fills the reserved low region twice. The copy at address 0 is the table
/// that Fx29 addresses (I = 5 * d); the copy at 0x050 is where many programs
/// also look for it.
pub open spec fn initial_memory() -> Seq<u8> {
    Seq::new(
        MEM_SIZE as nat,
        |a: int|
            if 0 <= a < 80 {
                fontset()[a]
            } else if 0x50 <= a < 0x50 + 80 {
                fontset()[a - 0x50]
            } else {
                0u8
            },
    )
}

pub open spec fn initial_state() -> CpuState {
    CpuState {
        memory: initial_memory(),
        v: Seq::new(REG_COUNT as nat, |k: int| 0u8),
        stack: Seq::new(STACK_SIZE as nat, |k: int| 0u16),
        display: Seq::new(DISPLAY_SIZE as nat, |p: int| false),
        pc: MEM_START,
        sp: 0,
        i: 0,
        dt: 0,
        st: 0,
        keypad: 0,
        draw_flag: false,
        running: true,
        awaiting_key: None,
    }
}

/// Memory with `rom` copied in from `MEM_START`.
pub open spec fn loaded_memory(mem: Seq<u8>, rom: Seq<u8>) -> Seq<u8> {
    Seq::new(
        mem.len(),
        |a: int|
            if MEM_START <= a < MEM_START + rom.len() {
                rom[a - MEM_START]
            } else {
                mem[a]
            },
    )
}

/// An address taken modulo the memory size.
pub open spec fn wrap_addr(a: int) -> int {
    a % (MEM_SIZE as int)
}

/// The big-endian word at `pc` and `pc + 1`.
pub open spec fn opcode_at(mem: Seq<u8>, pc: u16) -> u16 {
    (mem[wrap_addr(pc as int)] as u16 * 256 + mem[wrap_addr(pc + 1)] as u16) as u16
}

/// The program counter one instruction further on.
pub open spec fn next_pc(pc: u16) -> u16 {
    wrap_addr(pc + 2) as u16
}

pub open spec fn advance(s: CpuState) -> CpuState {
    CpuState { pc: next_pc(s.pc), ..s }
}

pub open spec fn skip_if(s: CpuState, cond: bool) -> CpuState {
    if cond {
        advance(s)
    } else {
        s
    }
}

pub open spec fn set_reg(s: CpuState, x: int, val: u8) -> CpuState {
    CpuState { v: s.v.update(x, val), ..s }
}

/// Writes `val` to register `x`, then `flag` to VF.
pub open spec fn set_reg_flag(s: CpuState, x: int, val: u8, flag: u8) -> CpuState {
    CpuState { v: s.v.update(x, val).update(0xF, flag), ..s }
}

/// Whether key `k` is down in the keypad mask.
pub open spec fn key_down(keypad: u16, k: u8) -> bool {
    k < 16 && keypad & (1u16 << k) != 0
}

/// The lowest key at or above `k` that is down, or 16 if there is none.
pub open spec fn lowest_key_from(keypad: u16, k: int) -> int
    decreases 16 - k,
{
    if k >= 16 {
        16
    } else if key_down(keypad, k as u8) {
        k
    } else {
        lowest_key_from(keypad, k + 1)
    }
}

/// The lowest key that is down, or 16 if there is none.
pub open spec fn lowest_key(keypad: u16) -> int {
    lowest_key_from(keypad, 0)
}

/// The register-to-register family (8xyN), on the state after fetch.
pub open spec fn alu_spec(s: CpuState, x: int, y: int, n: u8) -> Option<CpuState> {
    let vx = s.v[x];
    let vy = s.v[y];
    if n == 0 {
        Some(set_reg(s, x, vy))
    } else if n == 1 {
        Some(set_reg(s, x, vx | vy))
    } else if n == 2 {
        Some(set_reg(s, x, vx & vy))
    } else if n == 3 {
        Some(set_reg(s, x, vx ^ vy))
    } else if n == 4 {
        Some(set_reg_flag(s, x, ((vx + vy) % 256) as u8, if vx + vy > 255 { 1 } else { 0 }))
    } else if n == 5 {
        Some(set_reg_flag(s, x, ((vx - vy + 256) % 256) as u8, if vx >= vy { 1 } else { 0 }))
    } else if n == 6 {
        Some(set_reg_flag(s, x, vx / 2, vx % 2))
    } else if n == 7 {
        Some(set_reg_flag(s, x, ((vy - vx + 256) % 256) as u8, if vy >= vx { 1 } else { 0 }))
    } else if n == 0xE {
        Some(set_reg_flag(s, x, ((vx * 2) % 256) as u8, vx / 128))
    } else {
        None
    }
}

/// Bit `col` (0 is the leftmost) of row `row` of the sprite at `i`.
pub open spec fn sprite_bit(mem: Seq<u8>, i: u16, row: int, col: int) -> bool {
    (mem[wrap_addr(i + row)] >> ((7 - col) as u8)) & 1u8 == 1u8
}

/// Whether pixel `p` lies under an `n`-row sprite drawn at (`x0`, `y0`).
/// Pixels past the right or bottom edge are clipped.
pub open spec fn covers(p: int, x0: int, y0: int, n: int) -> bool {
    &&& x0 <= p % 64 < x0 + 8
    &&& y0 <= p / 64 < y0 + n
}

/// Position of pixel `p` within the sprite, counted row by row.
pub open spec fn sprite_order(p: int, x0: int, y0: int) -> int {
    (p / 64 - y0) * 8 + (p % 64 - x0)
}

/// Whether the first `done` sprite positions toggle pixel `p`.
pub open spec fn toggles(mem: Seq<u8>, i: u16, x0: int, y0: int, n: int, done: int, p: int) -> bool {
    &&& 0 <= p < DISPLAY_SIZE
    &&& covers(p, x0, y0, n)
    &&& sprite_order(p, x0, y0) < done
    &&& sprite_bit(mem, i, p / 64 - y0, p % 64 - x0)
}

/// The framebuffer after XOR-ing in the first `done` sprite positions.
pub open spec fn blit(disp: Seq<bool>, mem: Seq<u8>, i: u16, x0: int, y0: int, n: int, done: int) -> Seq<bool> {
    Seq::new(disp.len(), |p: int| disp[p] != toggles(mem, i, x0, y0, n, done, p))
}

/// Whether the first `done` sprite positions turn off a lit pixel.
pub open spec fn collides(disp: Seq<bool>, mem: Seq<u8>, i: u16, x0: int, y0: int, n: int, done: int) -> bool {
    exists|p: int| toggles(mem, i, x0, y0, n, done, p) && #[trigger] disp[p]
}

/// Dxyn: the sprite of `n` rows at `I`, drawn at (Vx mod 64, Vy mod 32).
pub open spec fn draw_spec(s: CpuState, x: int, y: int, n: int) -> CpuState {
    let x0 = (s.v[x] % 64) as int;
    let y0 = (s.v[y] % 32) as int;
    CpuState {
        display: blit(s.display, s.memory, s.i, x0, y0, n, n * 8),
        v: s.v.update(0xF, if collides(s.display, s.memory, s.i, x0, y0, n, n * 8) { 1 } else { 0 }),
        draw_flag: true,
        ..s
    }
}

/// Pixel (`px`, `py`) sits at index `py * 64 + px` of the framebuffer.
pub proof fn lemma_pixel_index(px: int, py: int)
    requires
        0 <= px < 64,
        0 <= py < 32,
    ensures
        0 <= py * 64 + px < DISPLAY_SIZE,
        (py * 64 + px) % 64 == px,
        (py * 64 + px) / 64 == py,
{
    lemma_fundamental_div_mod_converse(py * 64 + px, 64, py, px);
}

/// A covered pixel at sprite position `row * 8 + col` is at that row and
/// column of the sprite.
pub proof fn lemma_sprite_order_unique(p: int, x0: int, y0: int, n: int, row: int, col: int)
    requires
        covers(p, x0, y0, n),
        0 <= col < 8,
        sprite_order(p, x0, y0) == row * 8 + col,
    ensures
        p / 64 == y0 + row,
        p % 64 == x0 + col,
{
    let a = p / 64 - y0;
    let b = p % 64 - x0;
    lemma_fundamental_div_mod_converse(row * 8 + col, 8, a, b);
    lemma_fundamental_div_mod_converse(row * 8 + col, 8, row, col);
}

/// Drawing one more sprite position changes at most the pixel under it.
pub proof fn lemma_blit_step(
    d0: Seq<bool>,
    mem: Seq<u8>,
    i: u16,
    x0: int,
    y0: int,
    n: int,
    row: int,
    col: int,
)
    requires
        d0.len() == DISPLAY_SIZE,
        0 <= x0 < 64,
        0 <= y0 < 32,
        0 <= row < n,
        0 <= col < 8,
    ensures
        ({
            let k = row * 8 + col;
            let bit = sprite_bit(mem, i, row, col);
            let ps = (y0 + row) * 64 + x0 + col;
            if x0 + col < 64 && y0 + row < 32 {
                &&& 0 <= ps < DISPLAY_SIZE
                &&& blit(d0, mem, i, x0, y0, n, k)[ps] == d0[ps]
                &&& blit(d0, mem, i, x0, y0, n, k + 1) == blit(d0, mem, i, x0, y0, n, k).update(
                    ps,
                    d0[ps] != bit,
                )
                &&& collides(d0, mem, i, x0, y0, n, k + 1) == (collides(d0, mem, i, x0, y0, n, k) || (
                bit && d0[ps]))
            } else {
                &&& blit(d0, mem, i, x0, y0, n, k + 1) == blit(d0, mem, i, x0, y0, n, k)
                &&& collides(d0, mem, i, x0, y0, n, k + 1) == collides(d0, mem, i, x0, y0, n, k)
            }
        }),
{
    let k = row * 8 + col;
    let bit = sprite_bit(mem, i, row, col);
    let ps = (y0 + row) * 64 + x0 + col;
    let inside = x0 + col < 64 && y0 + row < 32;
    if inside {
        lemma_pixel_index(x0 + col, y0 + row);
        assert(sprite_order(ps, x0, y0) == k);
    }
    assert forall|p: int| #![trigger toggles(mem, i, x0, y0, n, k + 1, p)]
        toggles(mem, i, x0, y0, n, k + 1, p) == if inside && p == ps {
            bit
        } else {
            toggles(mem, i, x0, y0, n, k, p)
        } by {
        if toggles(mem, i, x0, y0, n, k + 1, p) && sprite_order(p, x0, y0) == k {
            lemma_sprite_order_unique(p, x0, y0, n, row, col);
            lemma_pixel_index(x0 + col, y0 + row);
            assert(p == (p / 64) * 64 + p % 64);
        }
    }
    if inside {
        assert(blit(d0, mem, i, x0, y0, n, k + 1) =~= blit(d0, mem, i, x0, y0, n, k).update(
            ps,
            d0[ps] != bit,
        ));
        if collides(d0, mem, i, x0, y0, n, k + 1) {
            let p = choose|p: int| toggles(mem, i, x0, y0, n, k + 1, p) && #[trigger] d0[p];
            if p != ps {
                assert(toggles(mem, i, x0, y0, n, k, p));
            }
        }
        if collides(d0, mem, i, x0, y0, n, k) {
            let p = choose|p: int| toggles(mem, i, x0, y0, n, k, p) && #[trigger] d0[p];
            assert(toggles(mem, i, x0, y0, n, k + 1, p));
        }
        if bit && d0[ps] {
            assert(toggles(mem, i, x0, y0, n, k + 1, ps));
        }
    } else {
        assert(blit(d0, mem, i, x0, y0, n, k + 1) =~= blit(d0, mem, i, x0, y0, n, k));
        if collides(d0, mem, i, x0, y0, n, k + 1) {
            let p = choose|p: int| toggles(mem, i, x0, y0, n, k + 1, p) && #[trigger] d0[p];
            assert(toggles(mem, i, x0, y0, n, k, p));
        }
        if collides(d0, mem, i, x0, y0, n, k) {
            let p = choose|p: int| toggles(mem, i, x0, y0, n, k, p) && #[trigger] d0[p];
            assert(toggles(mem, i, x0, y0, n, k + 1, p));
        }
    }
}

/// Memory after Fx55: V0..=Vx written from `I` on.
pub open spec fn stored_regs(mem: Seq<u8>, v: Seq<u8>, i: u16, count: int) -> Seq<u8> {
    Seq::new(
        mem.len(),
        |a: int|
            if wrap_addr(a - i) < count {
                v[wrap_addr(a - i)]
            } else {
                mem[a]
            },
    )
}

/// Registers after Fx65: V0..=Vx read from `I` on.
pub open spec fn loaded_regs(mem: Seq<u8>, v: Seq<u8>, i: u16, count: int) -> Seq<u8> {
    Seq::new(v.len(), |k: int| if k < count { mem[wrap_addr(i + k)] } else { v[k] })
}

/// Memory after Fx33: the decimal digits of `val` from `I` on.
pub open spec fn bcd_memory(mem: Seq<u8>, i: u16, val: u8) -> Seq<u8> {
    mem.update(wrap_addr(i as int), val / 100).update(wrap_addr(i + 1), (val / 10) % 10).update(
        wrap_addr(i + 2),
        val % 10,
    )
}

/// The Fx.. family, on the state after fetch.
pub open spec fn misc_spec(s: CpuState, x: int, nn: u8) -> Option<CpuState> {
    let vx = s.v[x];
    if nn == 0x07 {
        Some(set_reg(s, x, s.dt))
    } else if nn == 0x0A {
        Some(CpuState { awaiting_key: Some(x as u8), ..s })
    } else if nn == 0x15 {
        Some(CpuState { dt: vx, ..s })
    } else if nn == 0x18 {
        Some(CpuState { st: vx, ..s })
    } else if nn == 0x1E {
        Some(CpuState { i: ((s.i + vx) % 0x10000) as u16, ..s })
    } else if nn == 0x29 {
        Some(CpuState { i: (vx * 5) as u16, ..s })
    } else if nn == 0x33 {
        Some(CpuState { memory: bcd_memory(s.memory, s.i, vx), ..s })
    } else if nn == 0x55 {
        Some(CpuState { memory: stored_regs(s.memory, s.v, s.i, x + 1), ..s })
    } else if nn == 0x65 {
        Some(CpuState { v: loaded_regs(s.memory, s.v, s.i, x + 1), ..s })
    } else {
        None
    }
}

/// Control flow: 00E0, 00EE, 1nnn, 2nnn and Bnnn, on the state after fetch.
pub open spec fn flow_spec(s: CpuState, op: u16, address: u16) -> Result<CpuState, CpuError> {
    let f = family(op);
    let nnn = addr12(op);
    if f == 0 {
        if op == 0x00E0 {
            Ok(CpuState { display: Seq::new(DISPLAY_SIZE as nat, |p: int| false), ..s })
        } else if op == 0x00EE {
            if s.sp == 0 {
                Err(CpuError::StackUnderflow { opcode: op, address })
            } else {
                Ok(CpuState { pc: s.stack[s.sp - 1], sp: (s.sp - 1) as u16, ..s })
            }
        } else {
            Err(CpuError::InvalidOpcode { opcode: op, address })
        }
    } else if f == 1 {
        Ok(CpuState { pc: nnn, ..s })
    } else if f == 2 {
        if s.sp == STACK_SIZE {
            Err(CpuError::StackOverflow { opcode: op, address })
        } else {
            Ok(CpuState { stack: s.stack.update(s.sp as int, s.pc), sp: (s.sp + 1) as u16, pc: nnn, ..s })
        }
    } else {
        Ok(CpuState { pc: wrap_addr(nnn + s.v[0]) as u16, ..s })
    }
}

/// Conditional skips: 3xnn, 4xnn, 5xy0, 9xy0, Ex9E and ExA1; `None` for an
/// undefined variant.
pub open spec fn skip_spec(s: CpuState, op: u16) -> Option<CpuState> {
    let f = family(op);
    let vx = s.v[reg_x(op) as int];
    let vy = s.v[reg_y(op) as int];
    let nn = imm8(op);
    if f == 3 {
        Some(skip_if(s, vx == nn))
    } else if f == 4 {
        Some(skip_if(s, vx != nn))
    } else if f == 5 {
        if sub_op(op) == 0 { Some(skip_if(s, vx == vy)) } else { None }
    } else if f == 9 {
        if sub_op(op) == 0 { Some(skip_if(s, vx != vy)) } else { None }
    } else if nn == 0x9E {
        Some(skip_if(s, key_down(s.keypad, vx)))
    } else if nn == 0xA1 {
        Some(skip_if(s, !key_down(s.keypad, vx)))
    } else {
        None
    }
}

/// Register loads: 6xnn, 7xnn, Annn and Cxnn (`random` masked by nn).
pub open spec fn load_spec(s: CpuState, op: u16, random: u8) -> CpuState {
    let f = family(op);
    let x = reg_x(op) as int;
    let nn = imm8(op);
    if f == 6 {
        set_reg(s, x, nn)
    } else if f == 7 {
        set_reg(s, x, ((s.v[x] + nn) % 256) as u8)
    } else if f == 0xA {
        CpuState { i: addr12(op), ..s }
    } else {
        set_reg(s, x, random & nn)
    }
}

pub open spec fn defined_or_invalid(r: Option<CpuState>, op: u16, address: u16) -> Result<CpuState, CpuError> {
    match r {
        Some(t) => Ok(t),
        None => Err(CpuError::InvalidOpcode { opcode: op, address }),
    }
}

/// Executes `op`, fetched from `address`, on the state `s` after fetch;
/// `random` is the byte that RND masks.
#[verifier::opaque]
pub open spec fn execute_spec(s: CpuState, op: u16, random: u8, address: u16) -> Result<CpuState, CpuError> {
    let f = family(op);
    let x = reg_x(op) as int;
    let y = reg_y(op) as int;
    if f == 0 || f == 1 || f == 2 || f == 0xB {
        flow_spec(s, op, address)
    } else if f == 3 || f == 4 || f == 5 || f == 9 || f == 0xE {
        defined_or_invalid(skip_spec(s, op), op, address)
    } else if f == 6 || f == 7 || f == 0xA || f == 0xC {
        Ok(load_spec(s, op, random))
    } else if f == 8 {
        defined_or_invalid(alu_spec(s, x, y, sub_op(op)), op, address)
    } else if f == 0xD {
        Ok(draw_spec(s, x, y, sub_op(op) as int))
    } else {
        defined_or_invalid(misc_spec(s, x, imm8(op)), op, address)
    }
}

/// One step: finish a pending wait for a key, or fetch, advance the program
/// counter and execute. On an error only the fetch has taken effect, and the
/// machine is marked as stopped.
pub open spec fn step_spec(s: CpuState, random: u8) -> (CpuState, Result<(), CpuError>) {
    match s.awaiting_key {
        Some(x) => {
            if lowest_key(s.keypad) < 16 {
                (CpuState { v: s.v.update(x as int, lowest_key(s.keypad) as u8), awaiting_key: None, ..s }, Ok(()))
            } else {
                (s, Ok(()))
            }
        },
        None => {
            let op = opcode_at(s.memory, s.pc);
            let t = advance(s);
            match execute_spec(t, op, random, s.pc) {
                Ok(u) => (u, Ok(())),
                Err(e) => (CpuState { running: false, ..t }, Err(e)),
            }
        },
    }
}

} // verus!
