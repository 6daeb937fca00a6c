//! The machine itself: its storage, how it is made, and the operations
//! that read and change single parts of it.

use vstd::prelude::*;
use crate::error::EmuError;
use crate::model::{
    initial_state, ArchState, FONTSET, FONTSET_SIZE, NUM_KEYS, NUM_REGS, RAM_SIZE, SCREEN_SIZE,
    STACK_SIZE, START_ADDR,
};
use crate::semantics::{
    can_fetch, carried_out, clear_screen, fetched, fetched_word, loaded, timers_spec, with_reg,
};

verus! {

/// A CHIP-8 machine.
pub struct Emu {
    pc: u16,
    ram: [u8; RAM_SIZE],
    screen: [bool; SCREEN_SIZE],
    v_reg: [u8; NUM_REGS],
    i_reg: u16,
    sp: u16,
    stack: [u16; STACK_SIZE],
    keys: [bool; NUM_KEYS],
    dt: u8,
    st: u8,
}

impl View for Emu {
    type V = ArchState;

    closed spec fn view(&self) -> ArchState {
        ArchState {
            pc: self.pc,
            ram: self.ram@,
            screen: self.screen@,
            v: self.v_reg@,
            i: self.i_reg,
            sp: self.sp,
            stack: self.stack@,
            keys: self.keys@,
            dt: self.dt,
            st: self.st,
        }
    }
}

impl Default for Emu {
    /// A fresh machine: the glyphs at the bottom of memory, the program
    /// counter at the start address, everything else zero.
    fn default() -> (e: Self)
        ensures
            e@ == initial_state(),
            e@.wf(),
    {
        let mut e = Emu {
            pc: START_ADDR,
            ram: [0u8; RAM_SIZE],
            screen: [false; SCREEN_SIZE],
            v_reg: [0u8; NUM_REGS],
            i_reg: 0,
            sp: 0,
            stack: [0u16; STACK_SIZE],
            keys: [false; NUM_KEYS],
            dt: 0,
            st: 0,
        };
        let ghost blank = e;
        let mut k: usize = 0;
        while k < FONTSET_SIZE
            invariant
                k <= FONTSET_SIZE,
                e.pc == blank.pc,
                e.screen == blank.screen,
                e.v_reg == blank.v_reg,
                e.i_reg == blank.i_reg,
                e.sp == 0,
                e.stack == blank.stack,
                e.keys == blank.keys,
                e.dt == blank.dt,
                e.st == blank.st,
                forall|a: int| k <= a < RAM_SIZE ==> e.ram@[a] == 0,
                forall|a: int| 0 <= a < k ==> e.ram@[a] == FONTSET@[a],
            decreases FONTSET_SIZE - k,
        {
            e.ram[k] = FONTSET[k];
            k += 1;
        }
        assert(e@ =~= initial_state());
        e
    }
}

impl Emu {
    #[verifier::type_invariant]
    spec fn stack_in_bounds(&self) -> bool {
        self.sp <= STACK_SIZE
    }

    /// A fresh machine.
    pub fn new() -> (e: Self)
        ensures
            e@ == initial_state(),
            e@.wf(),
    {
        Self::default()
    }

    /// Puts the machine back into the state of a fresh one. Nothing of
    /// what it held before is left.
    pub fn reset(&mut self)
        ensures
            final(self)@ == initial_state(),
            final(self)@.wf(),
    {
        *self = Self::default();
    }

    /// Lowers each timer that is not yet zero by one.
    pub fn tick_timers(&mut self)
        ensures
            final(self)@ == timers_spec(old(self)@),
            final(self)@.wf(),
    {
        proof {
            use_type_invariant(&*self);
        }
        if self.dt > 0 {
            self.dt -= 1;
        }
        if self.st > 0 {
            self.st -= 1;
        }
    }

    /// Places `program` in memory from the start address on. A program
    /// that would reach past the end of memory is refused.
    pub fn load(&mut self, program: &[u8]) -> (r: Result<(), EmuError>)
        ensures
            carried_out(
                old(self)@,
                if program@.len() <= RAM_SIZE - START_ADDR {
                    Ok(loaded(old(self)@, program@))
                } else {
                    Err(EmuError::ProgramTooLarge)
                },
                final(self)@,
                r,
            ),
            final(self)@.wf(),
    {
        proof {
            use_type_invariant(&*self);
        }
        let start: usize = START_ADDR as usize;
        if program.len() > RAM_SIZE - start {
            return Err(EmuError::ProgramTooLarge);
        }
        let mut k: usize = 0;
        while k < program.len()
            invariant
                k <= program@.len() <= RAM_SIZE - start,
                start == START_ADDR,
                self.sp <= STACK_SIZE,
                self.pc == old(self).pc,
                self.screen == old(self).screen,
                self.v_reg == old(self).v_reg,
                self.i_reg == old(self).i_reg,
                self.sp == old(self).sp,
                self.stack == old(self).stack,
                self.keys == old(self).keys,
                self.dt == old(self).dt,
                self.st == old(self).st,
                forall|a: int|
                    0 <= a < RAM_SIZE ==> self.ram@[a] == if start <= a < start + k {
                        program@[a - start]
                    } else {
                        old(self).ram@[a]
                    },
            decreases program@.len() - k,
        {
            self.ram[start + k] = program[k];
            k += 1;
        }
        assert(self@ =~= loaded(old(self)@, program@));
        Ok(())
    }

    /// Marks key `key` as down or up. There are sixteen keys.
    pub fn set_key(&mut self, key: u8, pressed: bool) -> (r: Result<(), EmuError>)
        ensures
            carried_out(
                old(self)@,
                if key < NUM_KEYS {
                    Ok(ArchState { keys: old(self)@.keys.update(key as int, pressed), ..old(self)@ })
                } else {
                    Err(EmuError::KeyOutOfRange)
                },
                final(self)@,
                r,
            ),
            final(self)@.wf(),
    {
        proof {
            use_type_invariant(&*self);
        }
        if (key as usize) < NUM_KEYS {
            self.keys[key as usize] = pressed;
            Ok(())
        } else {
            Err(EmuError::KeyOutOfRange)
        }
    }

    /// The screen, row after row, `true` for a lit pixel.
    pub fn get_display(&self) -> (d: &[bool; SCREEN_SIZE])
        ensures
            d@ == self@.screen,
            self@.wf(),
    {
        proof {
            use_type_invariant(self);
        }
        &self.screen
    }

    /// The registers V0 to VF.
    pub fn registers(&self) -> (v: &[u8; NUM_REGS])
        ensures
            v@ == self@.v,
            self@.wf(),
    {
        proof {
            use_type_invariant(self);
        }
        &self.v_reg
    }

    /// The whole of memory.
    pub fn memory(&self) -> (ram: &[u8; RAM_SIZE])
        ensures
            ram@ == self@.ram,
            self@.wf(),
    {
        proof {
            use_type_invariant(self);
        }
        &self.ram
    }

    /// The sixteen stack slots.
    pub fn stack(&self) -> (s: &[u16; STACK_SIZE])
        ensures
            s@ == self@.stack,
            self@.wf(),
    {
        proof {
            use_type_invariant(self);
        }
        &self.stack
    }

    /// Which keys are down.
    pub fn keys(&self) -> (k: &[bool; NUM_KEYS])
        ensures
            k@ == self@.keys,
            self@.wf(),
    {
        proof {
            use_type_invariant(self);
        }
        &self.keys
    }

    /// The program counter.
    pub fn pc(&self) -> (pc: u16)
        ensures
            pc == self@.pc,
            self@.wf(),
    {
        proof {
            use_type_invariant(self);
        }
        self.pc
    }

    /// The index register.
    pub fn index(&self) -> (i: u16)
        ensures
            i == self@.i,
            self@.wf(),
    {
        proof {
            use_type_invariant(self);
        }
        self.i_reg
    }

    /// The number of return addresses on the stack.
    pub fn stack_pointer(&self) -> (sp: u16)
        ensures
            sp == self@.sp,
            self@.wf(),
    {
        proof {
            use_type_invariant(self);
        }
        self.sp
    }

    /// The delay timer.
    pub fn delay_timer(&self) -> (dt: u8)
        ensures
            dt == self@.dt,
            self@.wf(),
    {
        proof {
            use_type_invariant(self);
        }
        self.dt
    }

    /// The sound timer.
    pub fn sound_timer(&self) -> (st: u8)
        ensures
            st == self@.st,
            self@.wf(),
    {
        proof {
            use_type_invariant(self);
        }
        self.st
    }

    /// Puts `val` on the stack of return addresses, if a slot is free.
    pub fn push(&mut self, val: u16) -> (r: Result<(), EmuError>)
        ensures
            carried_out(
                old(self)@,
                if old(self)@.sp < STACK_SIZE {
                    Ok(
                        ArchState {
                            stack: old(self)@.stack.update(old(self)@.sp as int, val),
                            sp: (old(self)@.sp + 1) as u16,
                            ..old(self)@
                        },
                    )
                } else {
                    Err(EmuError::StackOverflow)
                },
                final(self)@,
                r,
            ),
            final(self)@.wf(),
    {
        proof {
            use_type_invariant(&*self);
        }
        if (self.sp as usize) < STACK_SIZE {
            self.stack[self.sp as usize] = val;
            self.sp += 1;
            Ok(())
        } else {
            Err(EmuError::StackOverflow)
        }
    }

    /// Takes the newest return address off the stack, if there is one.
    pub fn pop(&mut self) -> (r: Result<u16, EmuError>)
        ensures
            match r {
                Ok(val) => {
                    &&& old(self)@.sp > 0
                    &&& val == old(self)@.stack[old(self)@.sp - 1]
                    &&& final(self)@ == (ArchState {
                        sp: (old(self)@.sp - 1) as u16,
                        ..old(self)@
                    })
                },
                Err(e) => {
                    &&& old(self)@.sp == 0
                    &&& e == EmuError::StackUnderflow
                    &&& final(self)@ == old(self)@
                },
            },
            final(self)@.wf(),
    {
        proof {
            use_type_invariant(&*self);
        }
        if self.sp > 0 {
            self.sp -= 1;
            Ok(self.stack[self.sp as usize])
        } else {
            Err(EmuError::StackUnderflow)
        }
    }

    /// Reads the instruction word at the program counter, high byte
    /// first, and moves the program counter past it. Where the word does
    /// not lie in memory, nothing changes.
    pub fn fetch(&mut self) -> (r: Result<u16, EmuError>)
        ensures
            match r {
                Ok(op) => {
                    &&& can_fetch(old(self)@)
                    &&& op == fetched_word(old(self)@)
                    &&& final(self)@ == fetched(old(self)@)
                },
                Err(e) => {
                    &&& !can_fetch(old(self)@)
                    &&& e == EmuError::ProgramCounterOutOfRange
                    &&& final(self)@ == old(self)@
                },
            },
            final(self)@.wf(),
    {
        proof {
            use_type_invariant(&*self);
        }
        let at: usize = self.pc as usize;
        if at + 1 >= RAM_SIZE {
            return Err(EmuError::ProgramCounterOutOfRange);
        }
        let higher_byte: u16 = self.ram[at] as u16;
        let lower_byte: u16 = self.ram[at + 1] as u16;
        let op: u16 = (higher_byte << 8) | lower_byte;
        assert(op == higher_byte * 256 + lower_byte) by (bit_vector)
            requires
                op == (higher_byte << 8) | lower_byte,
                higher_byte < 256,
                lower_byte < 256,
        ;
        self.pc += 2;
        Ok(op)
    }

    /// Does nothing when run. It tells the verifier what the type keeps
    /// true of every machine.
    pub(crate) fn well_formed(&self)
        ensures
            self@.wf(),
    {
        proof {
            use_type_invariant(self);
        }
    }

    /// Register `x`.
    pub(crate) fn reg(&self, x: u8) -> (val: u8)
        requires
            x < NUM_REGS,
        ensures
            val == self@.v[x as int],
            self@.wf(),
    {
        proof {
            use_type_invariant(self);
        }
        self.v_reg[x as usize]
    }

    /// Sets register `x` to `val`.
    pub(crate) fn set_reg(&mut self, x: u8, val: u8)
        requires
            x < NUM_REGS,
        ensures
            final(self)@ == with_reg(old(self)@, x as int, val),
            final(self)@.wf(),
    {
        proof {
            use_type_invariant(&*self);
        }
        self.v_reg[x as usize] = val;
    }

    /// Sets the program counter.
    pub(crate) fn set_pc(&mut self, pc: u16)
        ensures
            final(self)@ == (ArchState { pc, ..old(self)@ }),
            final(self)@.wf(),
    {
        proof {
            use_type_invariant(&*self);
        }
        self.pc = pc;
    }

    /// Sets the index register.
    pub(crate) fn set_index(&mut self, i: u16)
        ensures
            final(self)@ == (ArchState { i, ..old(self)@ }),
            final(self)@.wf(),
    {
        proof {
            use_type_invariant(&*self);
        }
        self.i_reg = i;
    }

    /// Sets the delay timer.
    pub(crate) fn set_delay_timer(&mut self, dt: u8)
        ensures
            final(self)@ == (ArchState { dt, ..old(self)@ }),
            final(self)@.wf(),
    {
        proof {
            use_type_invariant(&*self);
        }
        self.dt = dt;
    }

    /// Sets the sound timer.
    pub(crate) fn set_sound_timer(&mut self, st: u8)
        ensures
            final(self)@ == (ArchState { st, ..old(self)@ }),
            final(self)@.wf(),
    {
        proof {
            use_type_invariant(&*self);
        }
        self.st = st;
    }

    /// The byte of memory at `addr`.
    pub(crate) fn mem(&self, addr: usize) -> (val: u8)
        requires
            addr < RAM_SIZE,
        ensures
            val == self@.ram[addr as int],
            self@.wf(),
    {
        proof {
            use_type_invariant(self);
        }
        self.ram[addr]
    }

    /// Sets the byte of memory at `addr`.
    pub(crate) fn set_mem(&mut self, addr: usize, val: u8)
        requires
            addr < RAM_SIZE,
        ensures
            final(self)@ == (ArchState {
                ram: old(self)@.ram.update(addr as int, val),
                ..old(self)@
            }),
            final(self)@.wf(),
    {
        proof {
            use_type_invariant(&*self);
        }
        self.ram[addr] = val;
    }

    /// Whether screen cell `cell` is lit.
    pub(crate) fn pixel(&self, cell: usize) -> (on: bool)
        requires
            cell < SCREEN_SIZE,
        ensures
            on == self@.screen[cell as int],
            self@.wf(),
    {
        proof {
            use_type_invariant(self);
        }
        self.screen[cell]
    }

    /// Lights or darkens screen cell `cell`.
    pub(crate) fn set_pixel(&mut self, cell: usize, on: bool)
        requires
            cell < SCREEN_SIZE,
        ensures
            final(self)@ == (ArchState {
                screen: old(self)@.screen.update(cell as int, on),
                ..old(self)@
            }),
            final(self)@.wf(),
    {
        proof {
            use_type_invariant(&*self);
        }
        self.screen[cell] = on;
    }

    /// Darkens every screen cell.
    pub(crate) fn clear_display(&mut self)
        ensures
            final(self)@ == clear_screen(old(self)@),
            final(self)@.wf(),
    {
        proof {
            use_type_invariant(&*self);
        }
        self.screen = [false; SCREEN_SIZE];
        assert(self@ =~= clear_screen(old(self)@));
    }

    /// Whether key `key` is down.
    pub(crate) fn key_down(&self, key: u8) -> (down: bool)
        requires
            key < NUM_KEYS,
        ensures
            down == self@.keys[key as int],
            self@.wf(),
    {
        proof {
            use_type_invariant(self);
        }
        self.keys[key as usize]
    }
}

} // verus!
