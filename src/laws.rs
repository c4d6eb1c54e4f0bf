use vstd::prelude::*;

use crate::decode::{addr12, family, imm8, reg_x, reg_y, sub_op};
use crate::font::{fontset, glyph, FONTSET_SIZE};
use crate::state::{
    advance, alu_spec, execute_spec, initial_memory, next_pc, opcode_at, skip_spec, step_spec,
    wrap_addr, CpuError, CpuState,
};

verus! {

/// Whether `s` is ready to fetch the word `op` at its program counter.
pub open spec fn about_to_execute(s: CpuState, op: u16) -> bool {
    &&& s.wf()
    &&& s.awaiting_key is None
    &&& opcode_at(s.memory, s.pc) == op
}

/// Adding an immediate (7xnn) never fails, wraps at 8 bits and leaves the
/// other registers, VF included, as they were.
pub proof fn law_add_immediate_wraps(s: CpuState, op: u16, random: u8, at: u16)
    requires
        s.wf(),
        family(op) == 7,
    ensures
        execute_spec(s, op, random, at) is Ok,
        ({
            let t = execute_spec(s, op, random, at)->Ok_0;
            let x = reg_x(op) as int;
            &&& t.v[x] == (s.v[x] + imm8(op)) % 256
            &&& forall|k: int| 0 <= k < 16 && k != x ==> t.v[k] == s.v[k]
            &&& t.memory == s.memory
            &&& t.i == s.i
            &&& t.pc == s.pc
        }),
{
    reveal(execute_spec);
}

/// Adding two registers (8xy4) never fails and sets VF to 1 exactly when the
/// sum exceeds 255, for every x, VF included. When Vx is not VF, it holds the
/// sum modulo 256 and the other registers below VF are kept.
pub proof fn law_add_registers_carry(s: CpuState, op: u16, random: u8, at: u16)
    requires
        s.wf(),
        family(op) == 8,
        sub_op(op) == 4,
    ensures
        execute_spec(s, op, random, at) is Ok,
        ({
            let t = execute_spec(s, op, random, at)->Ok_0;
            let x = reg_x(op) as int;
            let vx = s.v[x];
            let vy = s.v[reg_y(op) as int];
            &&& t.v[15] == if vx + vy > 255 { 1u8 } else { 0u8 }
            &&& x != 15 ==> t.v[x] == (vx + vy) % 256
            &&& forall|k: int| 0 <= k < 15 && k != x ==> t.v[k] == s.v[k]
        }),
{
    lemma_execute_alu(s, op, random, at);
}

/// Subtracting registers (8xy5) never fails and sets VF to 1 exactly when no
/// borrow occurs (Vx >= Vy), for every x, VF included. When Vx is not VF, it
/// holds (Vx - Vy) modulo 256 and the other registers below VF are kept.
pub proof fn law_sub_registers_borrow(s: CpuState, op: u16, random: u8, at: u16)
    requires
        s.wf(),
        family(op) == 8,
        sub_op(op) == 5,
    ensures
        execute_spec(s, op, random, at) is Ok,
        ({
            let t = execute_spec(s, op, random, at)->Ok_0;
            let x = reg_x(op) as int;
            let vx = s.v[x];
            let vy = s.v[reg_y(op) as int];
            &&& t.v[15] == if vx >= vy { 1u8 } else { 0u8 }
            &&& x != 15 ==> t.v[x] == (vx - vy) % 256
            &&& forall|k: int| 0 <= k < 15 && k != x ==> t.v[k] == s.v[k]
        }),
{
    lemma_execute_alu(s, op, random, at);
    let vx = s.v[reg_x(op) as int];
    let vy = s.v[reg_y(op) as int];
    assert((vx - vy + 256) % 256 == (vx - vy) % 256);
}

/// SHR (8xy6) sets VF to the low bit of Vx before the shift and SHL (8xyE)
/// to its high bit, for every value of Vx and every x, VF included. When Vx
/// is not VF, it holds the shifted value.
pub proof fn law_shift_flag(s: CpuState, op: u16, random: u8, at: u16)
    requires
        s.wf(),
        family(op) == 8,
        sub_op(op) == 6 || sub_op(op) == 0xE,
    ensures
        execute_spec(s, op, random, at) is Ok,
        ({
            let t = execute_spec(s, op, random, at)->Ok_0;
            let x = reg_x(op) as int;
            let vx = s.v[x];
            &&& sub_op(op) == 6 ==> t.v[15] == vx & 1
            &&& sub_op(op) == 6 && x != 15 ==> t.v[x] == vx >> 1u8
            &&& sub_op(op) == 0xE ==> t.v[15] == vx >> 7u8
            &&& sub_op(op) == 0xE && x != 15 ==> t.v[x] == (vx * 2) % 256
        }),
{
    lemma_execute_alu(s, op, random, at);
    let vx = s.v[reg_x(op) as int];
    assert(vx & 1 == vx % 2) by (bit_vector);
    assert(vx >> 1u8 == vx / 2) by (bit_vector);
    assert(vx >> 7u8 == vx / 128) by (bit_vector);
}

proof fn lemma_execute_alu(s: CpuState, op: u16, random: u8, at: u16)
    requires
        family(op) == 8,
    ensures
        execute_spec(s, op, random, at) == match alu_spec(
            s,
            reg_x(op) as int,
            reg_y(op) as int,
            sub_op(op),
        ) {
            Some(t) => Ok(t),
            None => Err(CpuError::InvalidOpcode { opcode: op, address: at }),
        },
{
    reveal(execute_spec);
}

/// The font-address instruction (Fx29) for a digit d never fails, sets I to
/// 5 * d and keeps registers and memory. On a machine whose glyph table at
/// address 0 is as built, the five bytes at I are then the glyph of d.
pub proof fn law_font_sprite_index(s: CpuState, op: u16, random: u8, at: u16)
    requires
        s.wf(),
        family(op) == 0xF,
        imm8(op) == 0x29,
        s.v[reg_x(op) as int] <= 15,
    ensures
        execute_spec(s, op, random, at) is Ok,
        ({
            let t = execute_spec(s, op, random, at)->Ok_0;
            let d = s.v[reg_x(op) as int] as int;
            &&& t.i == 5 * d
            &&& t.v == s.v
            &&& t.memory == s.memory
            &&& (forall|a: int| 0 <= a < FONTSET_SIZE ==> s.memory[a] == #[trigger] initial_memory()[a])
                ==> forall|k: int| 0 <= k < 5 ==> t.memory[t.i + k] == #[trigger] glyph(d)[k]
        }),
{
    reveal(execute_spec);
    let t = execute_spec(s, op, random, at)->Ok_0;
    let d = s.v[reg_x(op) as int] as int;
    assert(fontset().len() == 80);
    if forall|a: int| 0 <= a < FONTSET_SIZE ==> s.memory[a] == #[trigger] initial_memory()[a] {
        assert forall|k: int| 0 <= k < 5 implies t.memory[t.i + k] == #[trigger] glyph(d)[k] by {
            assert(s.memory[5 * d + k] == initial_memory()[5 * d + k]);
        }
    }
}

/// A jump (1nnn) sets the program counter to nnn and to nothing past it.
pub proof fn law_jump_sets_pc(s: CpuState, op: u16, random: u8)
    requires
        about_to_execute(s, op),
        family(op) == 1,
    ensures
        ({
            let (t, r) = step_spec(s, random);
            &&& r is Ok
            &&& t.pc == addr12(op)
        }),
{
    reveal(execute_spec);
}

/// A call (2nnn) followed by a return (00EE at nnn) comes back to the
/// instruction after the call, with the stack as deep as before.
pub proof fn law_call_then_return(s: CpuState, op: u16, r1: u8, r2: u8)
    requires
        about_to_execute(s, op),
        family(op) == 2,
        s.sp < 16,
        opcode_at(s.memory, addr12(op)) == 0x00EE,
    ensures
        ({
            let (t1, e1) = step_spec(s, r1);
            let (t2, e2) = step_spec(t1, r2);
            &&& e1 is Ok
            &&& e2 is Ok
            &&& t1.pc == addr12(op)
            &&& t2.pc == next_pc(s.pc)
            &&& t2.sp == s.sp
        }),
{
    let (t1, e1) = step_spec(s, r1);
    lemma_step_call(s, op, r1);
    lemma_step_return(t1, r2);
}

proof fn lemma_step_call(s: CpuState, op: u16, random: u8)
    requires
        about_to_execute(s, op),
        family(op) == 2,
        s.sp < 16,
    ensures
        ({
            let (t, r) = step_spec(s, random);
            &&& r is Ok
            &&& t == (CpuState {
                stack: s.stack.update(s.sp as int, next_pc(s.pc)),
                sp: (s.sp + 1) as u16,
                pc: addr12(op),
                ..s
            })
        }),
{
    reveal(execute_spec);
}

proof fn lemma_step_return(s: CpuState, random: u8)
    requires
        about_to_execute(s, 0x00EE),
        s.sp > 0,
    ensures
        ({
            let (t, r) = step_spec(s, random);
            &&& r is Ok
            &&& t.pc == s.stack[s.sp - 1]
            &&& t.sp == s.sp - 1
        }),
{
    reveal(execute_spec);
}

/// With no wait for a key pending, the skips (3xnn, 4xnn, 5xy0, 9xy0) move
/// the program counter on by four bytes when their condition holds and by two
/// when it does not, and change no register, memory or pixel.
pub proof fn law_skip_distance(s: CpuState, op: u16, random: u8)
    requires
        about_to_execute(s, op),
        family(op) == 3 || family(op) == 4 || ((family(op) == 5 || family(op) == 9) && sub_op(op)
            == 0),
    ensures
        ({
            let (t, r) = step_spec(s, random);
            let vx = s.v[reg_x(op) as int];
            let vy = s.v[reg_y(op) as int];
            let f = family(op);
            let cond = (f == 3 && vx == imm8(op)) || (f == 4 && vx != imm8(op)) || (f == 5 && vx
                == vy) || (f == 9 && vx != vy);
            &&& r is Ok
            &&& t.pc == if cond {
                wrap_addr(s.pc + 4)
            } else {
                wrap_addr(s.pc + 2)
            }
            &&& t.v == s.v
            &&& t.i == s.i
            &&& t.memory == s.memory
            &&& t.display == s.display
        }),
{
    lemma_step_skip(s, op, random);
    assert(((s.pc + 2) % 4096 + 2) % 4096 == (s.pc + 4) % 4096);
}

proof fn lemma_step_skip(s: CpuState, op: u16, random: u8)
    requires
        about_to_execute(s, op),
        family(op) == 3 || family(op) == 4 || family(op) == 5 || family(op) == 9,
        skip_spec(advance(s), op) is Some,
    ensures
        step_spec(s, random) == (skip_spec(advance(s), op)->Some_0, Ok::<(), CpuError>(())),
{
    reveal(execute_spec);
}

/// A jump to its own address is a fixed point: the step changes nothing,
/// the framebuffer included.
pub proof fn law_jump_to_self_is_fixed(s: CpuState, random: u8)
    requires
        about_to_execute(s, opcode_at(s.memory, s.pc)),
        family(opcode_at(s.memory, s.pc)) == 1,
        addr12(opcode_at(s.memory, s.pc)) == s.pc,
    ensures
        step_spec(s, random) == (s, Ok::<(), CpuError>(())),
{
    reveal(execute_spec);
}

} // verus!
