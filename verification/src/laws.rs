//! Laws of the instruction set, proved of the model that the machine's
//! operations are specified by.

use vstd::prelude::*;
use crate::display::{collides, drawn_screen, sprite_covers};
use crate::model::{ArchState, NUM_REGS, RAM_SIZE, SCREEN_HEIGHT, SCREEN_SIZE, SCREEN_WIDTH};
use crate::opcode::{decode_spec, lemma_decode_wf, lemma_word_nibbles, word, Instruction};
use crate::semantics::{
    any_pressed, can_fetch, execute_spec, fetched, fetched_word, is_lowest_pressed,
    lemma_lowest_pressed, reads_chance, step, tick_spec, timers_spec,
};

verus! {

/// No instruction leads out of the well-formed states: memory, screen,
/// registers, stack and keys keep their sizes, and the stack never holds
/// more than sixteen return addresses.
pub proof fn law_step_keeps_well_formed(m: ArchState, ins: Instruction, rnd: u8)
    requires
        m.wf(),
        ins.wf(),
    ensures
        step(m, ins, rnd) matches Ok(next) ==> next.wf(),
{
}

/// Nor does a whole instruction cycle, or a tick of the timers.
pub proof fn law_tick_keeps_well_formed(m: ArchState, rnd: u8)
    requires
        m.wf(),
    ensures
        tick_spec(m, rnd) matches Ok(next) ==> next.wf(),
        timers_spec(m).wf(),
{
    if can_fetch(m) {
        lemma_decode_wf(fetched_word(m));
        if let Some(ins) = decode_spec(fetched_word(m)) {
            law_step_keeps_well_formed(fetched(m), ins, rnd);
        }
    }
}

/// The byte that chance supplies matters to one instruction only: every
/// other instruction word has the same effect whatever the byte.
pub proof fn law_chance_only_in_random(m: ArchState, op: u16, rnd1: u8, rnd2: u8)
    requires
        !reads_chance(op),
    ensures
        execute_spec(m, op, rnd1) == execute_spec(m, op, rnd2),
{
}

/// `CXNN` leaves in `V[X]` a byte that has no bit outside `NN`, and
/// changes nothing else.
pub proof fn law_random_is_masked(m: ArchState, x: u8, nn: u8, rnd: u8)
    requires
        m.wf(),
        x < NUM_REGS,
    ensures
        execute_spec(m, word(0xC, x as int, nn as int / 16, nn as int % 16), rnd) matches Ok(next)
            && next == (ArchState { v: m.v.update(x as int, next.v[x as int]), ..m })
            && next.v[x as int] & nn == next.v[x as int],
{
    lemma_word_nibbles(0xC, x as int, nn as int / 16, nn as int % 16);
    assert((rnd & nn) & nn == rnd & nn) by (bit_vector);
}

/// `8XY4` with `V[X] = a` and `V[Y] = b`: VF becomes 1 if `a + b`
/// exceeds 255 and 0 if not; `V[X]`, unless it is VF itself, becomes
/// `a + b` modulo 256; no other register and nothing else changes.
pub proof fn law_add(m: ArchState, x: u8, y: u8, rnd: u8)
    requires
        m.wf(),
        x < NUM_REGS,
        y < NUM_REGS,
    ensures
        execute_spec(m, word(8, x as int, y as int, 4), rnd) matches Ok(next) && {
            let a = m.v[x as int];
            let b = m.v[y as int];
            &&& next.v[15] == if a + b > 255 {
                1int
            } else {
                0int
            }
            &&& x != 15 ==> next.v[x as int] == (a + b) % 256
            &&& forall|k: int| 0 <= k < 15 && k != x ==> next.v[k] == m.v[k]
            &&& next == ArchState { v: next.v, ..m }
        },
{
    lemma_word_nibbles(8, x as int, y as int, 4);
}

/// `8XY5` with `V[X] = a` and `V[Y] = b`: VF becomes 1 if `a >= b` and 0
/// if not; `V[X]`, unless it is VF itself, becomes `a - b` modulo 256; no
/// other register and nothing else changes.
pub proof fn law_sub(m: ArchState, x: u8, y: u8, rnd: u8)
    requires
        m.wf(),
        x < NUM_REGS,
        y < NUM_REGS,
    ensures
        execute_spec(m, word(8, x as int, y as int, 5), rnd) matches Ok(next) && {
            let a = m.v[x as int];
            let b = m.v[y as int];
            &&& next.v[15] == if a >= b {
                1int
            } else {
                0int
            }
            &&& x != 15 ==> next.v[x as int] == (a - b) % 256
            &&& forall|k: int| 0 <= k < 15 && k != x ==> next.v[k] == m.v[k]
            &&& next == ArchState { v: next.v, ..m }
        },
{
    lemma_word_nibbles(8, x as int, y as int, 5);
}

/// `8XY7` with `V[X] = a` and `V[Y] = b`: VF becomes 1 if `b >= a` and 0
/// if not; `V[X]`, unless it is VF itself, becomes `b - a` modulo 256; no
/// other register and nothing else changes.
pub proof fn law_sub_from(m: ArchState, x: u8, y: u8, rnd: u8)
    requires
        m.wf(),
        x < NUM_REGS,
        y < NUM_REGS,
    ensures
        execute_spec(m, word(8, x as int, y as int, 7), rnd) matches Ok(next) && {
            let a = m.v[x as int];
            let b = m.v[y as int];
            &&& next.v[15] == if b >= a {
                1int
            } else {
                0int
            }
            &&& x != 15 ==> next.v[x as int] == (b - a) % 256
            &&& forall|k: int| 0 <= k < 15 && k != x ==> next.v[k] == m.v[k]
            &&& next == ArchState { v: next.v, ..m }
        },
{
    lemma_word_nibbles(8, x as int, y as int, 7);
}

/// `8XY6` with `V[X] = v`: VF becomes `v & 1`; `V[X]`, unless it is VF
/// itself, becomes `v >> 1`; no other register and nothing else changes,
/// whatever `Y` is.
pub proof fn law_shift_right(m: ArchState, x: u8, y: u8, rnd: u8)
    requires
        m.wf(),
        x < NUM_REGS,
        y < NUM_REGS,
    ensures
        execute_spec(m, word(8, x as int, y as int, 6), rnd) matches Ok(next) && {
            let val = m.v[x as int];
            &&& next.v[15] == val & 1
            &&& x != 15 ==> next.v[x as int] == val >> 1
            &&& forall|k: int| 0 <= k < 15 && k != x ==> next.v[k] == m.v[k]
            &&& next == ArchState { v: next.v, ..m }
        },
{
    lemma_word_nibbles(8, x as int, y as int, 6);
    let val = m.v[x as int];
    assert(val >> 1 == val / 2 && val & 1 == val % 2) by (bit_vector);
}

/// `8XYE` with `V[X] = v`: VF becomes `(v >> 7) & 1`; `V[X]`, unless it
/// is VF itself, becomes `v << 1` cut to eight bits, which is `2 * v`
/// modulo 256; no other register and nothing else changes, whatever `Y`
/// is.
pub proof fn law_shift_left(m: ArchState, x: u8, y: u8, rnd: u8)
    requires
        m.wf(),
        x < NUM_REGS,
        y < NUM_REGS,
    ensures
        execute_spec(m, word(8, x as int, y as int, 0xE), rnd) matches Ok(next) && {
            let val = m.v[x as int];
            &&& next.v[15] == (val >> 7) & 1
            &&& x != 15 ==> next.v[x as int] == val << 1
            &&& x != 15 ==> next.v[x as int] == (2 * val) % 256
            &&& forall|k: int| 0 <= k < 15 && k != x ==> next.v[k] == m.v[k]
            &&& next == ArchState { v: next.v, ..m }
        },
{
    lemma_word_nibbles(8, x as int, y as int, 0xE);
    let val = m.v[x as int];
    assert(val << 1 == (val * 2) % 256 && ((val >> 7) & 1) == (if val >= 128 {
        1u8
    } else {
        0u8
    })) by (bit_vector);
}

/// Whether `ins` is one of the four instructions that compare registers,
/// and its condition holds in `m`.
pub open spec fn skip_taken(m: ArchState, ins: Instruction) -> bool {
    match ins {
        Instruction::SkipEqImm { x, nn } => m.v[x as int] == nn,
        Instruction::SkipNeImm { x, nn } => m.v[x as int] != nn,
        Instruction::SkipEqReg { x, y } => m.v[x as int] == m.v[y as int],
        Instruction::SkipNeReg { x, y } => m.v[x as int] != m.v[y as int],
        _ => false,
    }
}

/// Whether `ins` is `3XNN`, `4XNN`, `5XY0` or `9XY0`.
pub open spec fn is_compare_skip(ins: Instruction) -> bool {
    ins is SkipEqImm || ins is SkipNeImm || ins is SkipEqReg || ins is SkipNeReg
}

/// Running `3XNN`, `4XNN`, `5XY0` or `9XY0` moves the program counter on
/// by four where the condition holds and by two where it does not, and
/// changes nothing else.
pub proof fn law_skip(m: ArchState, rnd: u8)
    requires
        m.wf(),
        can_fetch(m),
        decode_spec(fetched_word(m)) matches Some(ins) && is_compare_skip(ins),
    ensures
        tick_spec(m, rnd) matches Ok(next) && next == (ArchState { pc: next.pc, ..m }) && next.pc
            == m.pc + if skip_taken(m, decode_spec(fetched_word(m))->Some_0) {
            4int
        } else {
            2int
        },
{
}

/// A sprite drawn a second time at the same place undoes the first
/// drawing: the screen is as it was before the first. The second
/// drawing sets VF to 1 exactly if the sprite lit a cell the first time,
/// that is, if one of its pixels fell on a cell that was dark.
///
/// "At the same place" is a condition: where `X` or `Y` names VF, the
/// first drawing may move the place.
pub proof fn law_draw_twice(m: ArchState, x: u8, y: u8, n: u8, rnd: u8)
    requires
        m.wf(),
        x < NUM_REGS,
        y < NUM_REGS,
        n < 16,
        m.i + n <= RAM_SIZE,
        step(m, Instruction::Draw { x, y, n }, rnd) matches Ok(once) && once.v[x as int]
            % SCREEN_WIDTH as u8 == m.v[x as int] % SCREEN_WIDTH as u8 && once.v[y as int]
            % SCREEN_HEIGHT as u8 == m.v[y as int] % SCREEN_HEIGHT as u8,
    ensures
        ({
            let ins = Instruction::Draw { x, y, n };
            let x0 = m.v[x as int] as int % (SCREEN_WIDTH as int);
            let y0 = m.v[y as int] as int % (SCREEN_HEIGHT as int);
            let once = step(m, ins, rnd)->Ok_0;
            let lit_by_first = exists|p: int|
                0 <= p < SCREEN_SIZE && !m.screen[p] && #[trigger] sprite_covers(
                    m.ram,
                    m.i as int,
                    n as int,
                    x0,
                    y0,
                    p,
                );
            &&& step(once, ins, rnd) matches Ok(twice) && {
                &&& twice.screen == m.screen
                &&& twice.v[15] == if lit_by_first {
                    1int
                } else {
                    0int
                }
                &&& twice == ArchState { v: twice.v, ..m }
            }
        }),
{
    let ins = Instruction::Draw { x, y, n };
    let x0 = m.v[x as int] as int % (SCREEN_WIDTH as int);
    let y0 = m.v[y as int] as int % (SCREEN_HEIGHT as int);
    let i = m.i as int;
    let once = step(m, ins, rnd)->Ok_0;
    let twice = step(once, ins, rnd)->Ok_0;
    assert(once.screen == drawn_screen(m.screen, m.ram, i, n as int, x0, y0));
    assert(twice.screen == drawn_screen(once.screen, m.ram, i, n as int, x0, y0));
    assert(twice.screen =~= m.screen);
    let lit_by_first = exists|p: int|
        0 <= p < SCREEN_SIZE && !m.screen[p] && #[trigger] sprite_covers(
            m.ram,
            i,
            n as int,
            x0,
            y0,
            p,
        );
    if lit_by_first {
        let p = choose|p: int|
            0 <= p < SCREEN_SIZE && !m.screen[p] && #[trigger] sprite_covers(
                m.ram,
                i,
                n as int,
                x0,
                y0,
                p,
            );
        assert(once.screen[p]);
        assert(collides(once.screen, m.ram, i, n as int, x0, y0));
    }
    if collides(once.screen, m.ram, i, n as int, x0, y0) {
        let p = choose|p: int|
            0 <= p < SCREEN_SIZE && once.screen[p] && #[trigger] sprite_covers(
                m.ram,
                i,
                n as int,
                x0,
                y0,
                p,
            );
        assert(!m.screen[p]);
    }
}

/// Where the first of two drawings of a sprite at the same place met no
/// lit cell, the second sets VF to 0 exactly if the sprite has no lit
/// pixel at all; a sprite with a lit pixel meets, the second time, the
/// cells that it lit itself.
pub proof fn law_draw_twice_on_clear_ground(m: ArchState, x: u8, y: u8, n: u8, rnd: u8)
    requires
        m.wf(),
        x < NUM_REGS,
        y < NUM_REGS,
        n < 16,
        m.i + n <= RAM_SIZE,
        step(m, Instruction::Draw { x, y, n }, rnd) matches Ok(once) && once.v[x as int]
            % SCREEN_WIDTH as u8 == m.v[x as int] % SCREEN_WIDTH as u8 && once.v[y as int]
            % SCREEN_HEIGHT as u8 == m.v[y as int] % SCREEN_HEIGHT as u8 && once.v[15] == 0,
    ensures
        ({
            let ins = Instruction::Draw { x, y, n };
            let x0 = m.v[x as int] as int % (SCREEN_WIDTH as int);
            let y0 = m.v[y as int] as int % (SCREEN_HEIGHT as int);
            let once = step(m, ins, rnd)->Ok_0;
            step(once, ins, rnd) matches Ok(twice) && (twice.v[15] == 0 <==> forall|p: int|
                0 <= p < SCREEN_SIZE ==> !#[trigger] sprite_covers(
                    m.ram,
                    m.i as int,
                    n as int,
                    x0,
                    y0,
                    p,
                ))
        }),
{
    law_draw_twice(m, x, y, n, rnd);
    let x0 = m.v[x as int] as int % (SCREEN_WIDTH as int);
    let y0 = m.v[y as int] as int % (SCREEN_HEIGHT as int);
    assert(!collides(m.screen, m.ram, m.i as int, n as int, x0, y0));
    assert forall|p: int| 0 <= p < SCREEN_SIZE && #[trigger] sprite_covers(
        m.ram,
        m.i as int,
        n as int,
        x0,
        y0,
        p,
    ) implies !m.screen[p] by {}
}

/// `FX33` writes three decimal digits, and they are the digits of
/// `V[X]`: a hundred times the first plus ten times the second plus the
/// third is `V[X]`.
pub proof fn law_bcd(m: ArchState, x: u8, rnd: u8)
    requires
        m.wf(),
        x < NUM_REGS,
        m.i + 2 < RAM_SIZE,
    ensures
        execute_spec(m, word(0xF, x as int, 3, 3), rnd) matches Ok(next) && {
            let h = next.ram[m.i as int];
            let t = next.ram[m.i + 1];
            let o = next.ram[m.i + 2];
            &&& h < 10 && t < 10 && o < 10
            &&& 100 * h + 10 * t + o == m.v[x as int]
            &&& forall|a: int|
                0 <= a < RAM_SIZE && !(m.i <= a <= m.i + 2) ==> next.ram[a] == m.ram[a]
            &&& next == ArchState { ram: next.ram, ..m }
        },
{
    lemma_word_nibbles(0xF, x as int, 3, 3);
}

/// What `FX55` writes, `FX65` reads back: after `V[0..=X]` has been
/// stored at the index register, loading `V[0..=X]` from the same
/// address gives each of these registers the value it had when it was
/// stored, whatever the registers hold by then, as long as that part of
/// memory is as the store left it.
pub proof fn law_store_then_load(m: ArchState, later: ArchState, x: u8, rnd: u8)
    requires
        m.wf(),
        later.wf(),
        x < NUM_REGS,
        m.i + x < RAM_SIZE,
        later.i == m.i,
        execute_spec(m, word(0xF, x as int, 5, 5), rnd) matches Ok(stored) && forall|a: int|
            m.i <= a <= m.i + x ==> later.ram[a] == stored.ram[a],
    ensures
        execute_spec(later, word(0xF, x as int, 6, 5), rnd) matches Ok(back) && {
            &&& forall|k: int| 0 <= k <= x ==> back.v[k] == m.v[k]
            &&& forall|k: int| x < k < NUM_REGS ==> back.v[k] == later.v[k]
            &&& back == ArchState { v: back.v, ..later }
        },
{
    lemma_word_nibbles(0xF, x as int, 5, 5);
    lemma_word_nibbles(0xF, x as int, 6, 5);
}

/// `FX55` followed at once by `FX65` leaves every register as it was.
pub proof fn law_store_load_round_trip(m: ArchState, x: u8, rnd: u8)
    requires
        m.wf(),
        x < NUM_REGS,
        m.i + x < RAM_SIZE,
    ensures
        execute_spec(m, word(0xF, x as int, 5, 5), rnd) matches Ok(stored) && execute_spec(
            stored,
            word(0xF, x as int, 6, 5),
            rnd,
        ) == Ok::<ArchState, crate::error::EmuError>(stored),
{
    lemma_word_nibbles(0xF, x as int, 5, 5);
    lemma_word_nibbles(0xF, x as int, 6, 5);
    let stored = execute_spec(m, word(0xF, x as int, 5, 5), rnd)->Ok_0;
    let back = execute_spec(stored, word(0xF, x as int, 6, 5), rnd)->Ok_0;
    assert(back.v =~= stored.v);
}

/// While no key is down, running `FX0A` changes nothing at all: the
/// program counter is where it was, so the same instruction runs next.
pub proof fn law_wait_key_waits(m: ArchState, rnd: u8)
    requires
        m.wf(),
        can_fetch(m),
        decode_spec(fetched_word(m)) matches Some(ins) && ins is WaitKey,
        !any_pressed(m.keys),
    ensures
        tick_spec(m, rnd) == Ok::<ArchState, crate::error::EmuError>(m),
{
    let next = tick_spec(m, rnd)->Ok_0;
    assert(next =~= m);
}

/// Once a key is down, running `FX0A` puts the number of the lowest such
/// key in `V[X]` and goes on to the next instruction.
pub proof fn law_wait_key_resumes(m: ArchState, key: int, rnd: u8)
    requires
        m.wf(),
        can_fetch(m),
        decode_spec(fetched_word(m)) matches Some(ins) && ins is WaitKey,
        is_lowest_pressed(m.keys, key),
    ensures
        tick_spec(m, rnd) matches Ok(next) && {
            let x = decode_spec(fetched_word(m))->Some_0->WaitKey_x;
            &&& next.pc == m.pc + 2
            &&& next.v == m.v.update(x as int, key as u8)
            &&& next == ArchState { pc: next.pc, v: next.v, ..m }
        },
{
    lemma_lowest_pressed(m.keys, key);
}

} // verus!
