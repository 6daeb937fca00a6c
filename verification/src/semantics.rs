//! What each instruction does to the architectural state.
//!
//! Every function here is total. An instruction that cannot be carried out
//! yields an error and no new state. The program counter and the index
//! register are sixteen bits wide and wrap; registers are eight bits wide
//! and wrap.

use vstd::prelude::*;
use crate::display::{collides, drawn_screen};
use crate::error::EmuError;
use crate::model::{ArchState, NUM_KEYS, NUM_REGS, RAM_SIZE, SCREEN_HEIGHT, SCREEN_SIZE, SCREEN_WIDTH, STACK_SIZE, START_ADDR};
use crate::opcode::{decode_spec, Instruction};

verus! {

/// The result of an instruction: the next state, or why there is none.
pub type Step = Result<ArchState, EmuError>;

/// `i` reduced to eight bits.
pub open spec fn wrap8(i: int) -> u8 {
    (i % 256) as u8
}

/// `i` reduced to sixteen bits.
pub open spec fn wrap16(i: int) -> u16 {
    (i % 65536) as u16
}

/// `m` with register `x` set to `val`.
pub open spec fn with_reg(m: ArchState, x: int, val: u8) -> ArchState {
    ArchState { v: m.v.update(x, val), ..m }
}

/// `m` with the flag register VF set to 1 or 0.
pub open spec fn with_flag(m: ArchState, flag: bool) -> ArchState {
    with_reg(
        m,
        15,
        if flag {
            1u8
        } else {
            0u8
        },
    )
}

/// `m` with the program counter moved past one more instruction if `cond`
/// holds.
pub open spec fn skip_when(m: ArchState, cond: bool) -> ArchState {
    if cond {
        ArchState { pc: wrap16(m.pc + 2), ..m }
    } else {
        m
    }
}

/// `00E0`: every cell of the screen is dark.
pub open spec fn clear_screen(m: ArchState) -> ArchState {
    ArchState { screen: Seq::new(SCREEN_SIZE as nat, |p: int| false), ..m }
}

/// `00EE`: the newest return address leaves the stack and becomes the
/// program counter. With an empty stack there is nothing to return to.
pub open spec fn ret(m: ArchState) -> Step {
    if m.sp == 0 {
        Err(EmuError::StackUnderflow)
    } else {
        Ok(ArchState { pc: m.stack[m.sp - 1], sp: (m.sp - 1) as u16, ..m })
    }
}

/// `2NNN`: the program counter goes on the stack, then becomes `addr`.
/// With sixteen return addresses on the stack there is no room for it.
pub open spec fn call(m: ArchState, addr: u16) -> Step {
    if m.sp >= STACK_SIZE {
        Err(EmuError::StackOverflow)
    } else {
        Ok(
            ArchState {
                stack: m.stack.update(m.sp as int, m.pc),
                sp: (m.sp + 1) as u16,
                pc: addr,
                ..m
            },
        )
    }
}

/// `8XY4`: `V[x]` becomes `V[x] + V[y]` modulo 256, then VF becomes 1 if
/// the sum exceeded 255 and 0 if not. VF is written last.
pub open spec fn alu_add(m: ArchState, x: int, y: int) -> ArchState {
    let sum = m.v[x] + m.v[y];
    with_flag(with_reg(m, x, wrap8(sum)), sum > 255)
}

/// `8XY5`: `V[x]` becomes `V[x] - V[y]` modulo 256, then VF becomes 1 if
/// `V[x] >= V[y]` held before and 0 if not. VF is written last.
pub open spec fn alu_sub(m: ArchState, x: int, y: int) -> ArchState {
    with_flag(with_reg(m, x, wrap8(m.v[x] - m.v[y])), m.v[x] >= m.v[y])
}

/// `8XY7`: `V[x]` becomes `V[y] - V[x]` modulo 256, then VF becomes 1 if
/// `V[y] >= V[x]` held before and 0 if not. VF is written last.
pub open spec fn alu_sub_from(m: ArchState, x: int, y: int) -> ArchState {
    with_flag(with_reg(m, x, wrap8(m.v[y] - m.v[x])), m.v[y] >= m.v[x])
}

/// `8XY6`: `V[x]` is halved, then VF becomes the bit that dropped out.
/// VF is written last.
pub open spec fn alu_shift_right(m: ArchState, x: int) -> ArchState {
    with_flag(with_reg(m, x, (m.v[x] / 2) as u8), m.v[x] % 2 == 1)
}

/// `8XYE`: `V[x]` is doubled modulo 256, then VF becomes the bit that
/// dropped out. VF is written last.
pub open spec fn alu_shift_left(m: ArchState, x: int) -> ArchState {
    with_flag(with_reg(m, x, wrap8(m.v[x] * 2)), m.v[x] >= 128)
}

/// `DXYN`: the `n` bytes at the index register are drawn as a sprite with
/// its top left pixel at column `V[x]` mod 64, row `V[y]` mod 32; VF
/// becomes 1 if a lit cell went dark and 0 if not. A sprite that does not
/// lie in memory whole is not drawn.
pub open spec fn draw(m: ArchState, x: int, y: int, n: int) -> Step {
    if m.i + n > RAM_SIZE {
        Err(EmuError::MemoryOutOfRange)
    } else {
        let x0 = m.v[x] as int % (SCREEN_WIDTH as int);
        let y0 = m.v[y] as int % (SCREEN_HEIGHT as int);
        Ok(
            with_flag(
                ArchState { screen: drawn_screen(m.screen, m.ram, m.i as int, n, x0, y0), ..m },
                collides(m.screen, m.ram, m.i as int, n, x0, y0),
            ),
        )
    }
}

/// `EX9E` (`down`) and `EXA1` (`!down`): the next instruction is skipped
/// if key `V[x]` is in that position. There is no key above fifteen.
pub open spec fn skip_key(m: ArchState, x: int, down: bool) -> Step {
    if m.v[x] >= NUM_KEYS {
        Err(EmuError::KeyOutOfRange)
    } else {
        Ok(skip_when(m, m.keys[m.v[x] as int] == down))
    }
}

/// Key `k` is down and no key with a lower number is.
pub open spec fn is_lowest_pressed(keys: Seq<bool>, k: int) -> bool {
    &&& 0 <= k < keys.len()
    &&& keys[k]
    &&& forall|j: int| 0 <= j < k ==> !keys[j]
}

/// Some key is down.
pub open spec fn any_pressed(keys: Seq<bool>) -> bool {
    exists|k: int| 0 <= k < keys.len() && keys[k]
}

/// The lowest-numbered key that is down, where one is.
pub open spec fn lowest_pressed(keys: Seq<bool>) -> int {
    choose|k: int| is_lowest_pressed(keys, k)
}

/// `FX0A`: if a key is down, `V[x]` becomes the number of the lowest such
/// key. If none is, the program counter moves back by one instruction, so
/// that this instruction is the next one again.
pub open spec fn wait_key(m: ArchState, x: int) -> ArchState {
    if any_pressed(m.keys) {
        with_reg(m, x, lowest_pressed(m.keys) as u8)
    } else {
        ArchState { pc: wrap16(m.pc - 2), ..m }
    }
}

/// `FX33`: the hundreds, tens and ones of `V[x]` are written to memory at
/// the index register and the two bytes after it, which must lie in
/// memory.
pub open spec fn store_bcd(m: ArchState, x: int) -> Step {
    if m.i + 2 >= RAM_SIZE {
        Err(EmuError::MemoryOutOfRange)
    } else {
        let val = m.v[x];
        Ok(
            ArchState {
                ram: m.ram.update(m.i as int, (val / 100) as u8).update(
                    m.i + 1,
                    ((val / 10) % 10) as u8,
                ).update(m.i + 2, (val % 10) as u8),
                ..m
            },
        )
    }
}

/// `FX55`: `V[0]` to `V[x]` are written to memory from the index register
/// on, which must have room for them. The index register stays.
pub open spec fn store_regs(m: ArchState, x: int) -> Step {
    if m.i + x >= RAM_SIZE {
        Err(EmuError::MemoryOutOfRange)
    } else {
        Ok(
            ArchState {
                ram: Seq::new(
                    RAM_SIZE as nat,
                    |a: int|
                        if m.i <= a <= m.i + x {
                            m.v[a - m.i]
                        } else {
                            m.ram[a]
                        },
                ),
                ..m
            },
        )
    }
}

/// `FX65`: `V[0]` to `V[x]` are read from memory from the index register
/// on, all from within memory. The index register stays.
pub open spec fn load_regs(m: ArchState, x: int) -> Step {
    if m.i + x >= RAM_SIZE {
        Err(EmuError::MemoryOutOfRange)
    } else {
        Ok(
            ArchState {
                v: Seq::new(
                    NUM_REGS as nat,
                    |k: int|
                        if k <= x {
                            m.ram[m.i + k]
                        } else {
                            m.v[k]
                        },
                ),
                ..m
            },
        )
    }
}

/// The effect of one decoded instruction on a state whose program counter
/// already points past it. `rnd` is the byte that chance supplies; only
/// `Random` reads it.
pub open spec fn step(m: ArchState, ins: Instruction, rnd: u8) -> Step {
    match ins {
        Instruction::Nop => Ok(m),
        Instruction::ClearScreen => Ok(clear_screen(m)),
        Instruction::Return => ret(m),
        Instruction::Jump { addr } => Ok(ArchState { pc: addr, ..m }),
        Instruction::Call { addr } => call(m, addr),
        Instruction::SkipEqImm { x, nn } => Ok(skip_when(m, m.v[x as int] == nn)),
        Instruction::SkipNeImm { x, nn } => Ok(skip_when(m, m.v[x as int] != nn)),
        Instruction::SkipEqReg { x, y } => Ok(skip_when(m, m.v[x as int] == m.v[y as int])),
        Instruction::LoadImm { x, nn } => Ok(with_reg(m, x as int, nn)),
        Instruction::AddImm { x, nn } => Ok(with_reg(m, x as int, wrap8(m.v[x as int] + nn))),
        Instruction::Move { x, y } => Ok(with_reg(m, x as int, m.v[y as int])),
        Instruction::Or { x, y } => Ok(with_reg(m, x as int, m.v[x as int] | m.v[y as int])),
        Instruction::And { x, y } => Ok(with_reg(m, x as int, m.v[x as int] & m.v[y as int])),
        Instruction::Xor { x, y } => Ok(with_reg(m, x as int, m.v[x as int] ^ m.v[y as int])),
        Instruction::Add { x, y } => Ok(alu_add(m, x as int, y as int)),
        Instruction::Sub { x, y } => Ok(alu_sub(m, x as int, y as int)),
        Instruction::ShiftRight { x } => Ok(alu_shift_right(m, x as int)),
        Instruction::SubFrom { x, y } => Ok(alu_sub_from(m, x as int, y as int)),
        Instruction::ShiftLeft { x } => Ok(alu_shift_left(m, x as int)),
        Instruction::SkipNeReg { x, y } => Ok(skip_when(m, m.v[x as int] != m.v[y as int])),
        Instruction::LoadIndex { addr } => Ok(ArchState { i: addr, ..m }),
        Instruction::JumpOffset { addr } => Ok(ArchState { pc: wrap16(m.v[0] + addr), ..m }),
        Instruction::Random { x, nn } => Ok(with_reg(m, x as int, rnd & nn)),
        Instruction::Draw { x, y, n } => draw(m, x as int, y as int, n as int),
        Instruction::SkipKeyDown { x } => skip_key(m, x as int, true),
        Instruction::SkipKeyUp { x } => skip_key(m, x as int, false),
        Instruction::ReadDelay { x } => Ok(with_reg(m, x as int, m.dt)),
        Instruction::WaitKey { x } => Ok(wait_key(m, x as int)),
        Instruction::SetDelay { x } => Ok(ArchState { dt: m.v[x as int], ..m }),
        Instruction::SetSound { x } => Ok(ArchState { st: m.v[x as int], ..m }),
        Instruction::AddIndex { x } => Ok(ArchState { i: wrap16(m.i + m.v[x as int]), ..m }),
        Instruction::FontAddr { x } => Ok(ArchState { i: (m.v[x as int] * 5) as u16, ..m }),
        Instruction::StoreBcd { x } => store_bcd(m, x as int),
        Instruction::StoreRegs { x } => store_regs(m, x as int),
        Instruction::LoadRegs { x } => load_regs(m, x as int),
    }
}

/// The effect of the instruction word `op` on a state whose program
/// counter already points past it.
pub open spec fn execute_spec(m: ArchState, op: u16, rnd: u8) -> Step {
    match decode_spec(op) {
        Some(ins) => step(m, ins, rnd),
        None => Err(EmuError::UnimplementedOpcode { opcode: op }),
    }
}

/// Whether the instruction word `op` stands for the one instruction that
/// uses the random byte.
pub open spec fn reads_chance(op: u16) -> bool {
    decode_spec(op) matches Some(Instruction::Random { .. })
}

/// Both bytes of the instruction at the program counter lie in memory.
pub open spec fn can_fetch(m: ArchState) -> bool {
    m.pc + 1 < RAM_SIZE
}

/// The instruction word at the program counter, high byte first.
pub open spec fn fetched_word(m: ArchState) -> u16 {
    (m.ram[m.pc as int] * 256 + m.ram[m.pc + 1]) as u16
}

/// `m` with the program counter moved past the instruction it points at.
pub open spec fn fetched(m: ArchState) -> ArchState {
    ArchState { pc: (m.pc + 2) as u16, ..m }
}

/// One whole instruction: fetch, decode, execute.
pub open spec fn tick_spec(m: ArchState, rnd: u8) -> Step {
    if can_fetch(m) {
        execute_spec(fetched(m), fetched_word(m), rnd)
    } else {
        Err(EmuError::ProgramCounterOutOfRange)
    }
}

/// `m` with the bytes of `program` placed in memory from the start address
/// on.
pub open spec fn loaded(m: ArchState, program: Seq<u8>) -> ArchState {
    ArchState {
        ram: Seq::new(
            RAM_SIZE as nat,
            |a: int|
                if START_ADDR <= a < START_ADDR + program.len() {
                    program[a - START_ADDR]
                } else {
                    m.ram[a]
                },
        ),
        ..m
    }
}

/// `t` one lower, stopping at zero.
pub open spec fn count_down(t: u8) -> u8 {
    if t > 0 {
        (t - 1) as u8
    } else {
        0u8
    }
}

/// One tick of the 60 Hz clock.
pub open spec fn timers_spec(m: ArchState) -> ArchState {
    ArchState { dt: count_down(m.dt), st: count_down(m.st), ..m }
}

/// Whether an operation that started in `pre`, ended in `post` and
/// returned `r` did what `expected` asks: on success the new state is the
/// expected one; on failure the error is the expected one and the state
/// is unchanged.
pub open spec fn carried_out(
    pre: ArchState,
    expected: Step,
    post: ArchState,
    r: Result<(), EmuError>,
) -> bool {
    match expected {
        Ok(next) => r is Ok && post == next,
        Err(e) => r == Err::<(), EmuError>(e) && post == pre,
    }
}

/// A key that is down with none below it is the lowest pressed key.
pub proof fn lemma_lowest_pressed(keys: Seq<bool>, k: int)
    requires
        is_lowest_pressed(keys, k),
    ensures
        any_pressed(keys),
        lowest_pressed(keys) == k,
{
    let c = lowest_pressed(keys);
    assert(is_lowest_pressed(keys, c));
    if c < k {
        assert(!keys[c]);
    }
    if k < c {
        assert(!keys[k]);
    }
}

} // verus!
