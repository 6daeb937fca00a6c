//! Carrying out instructions on the machine.

use vstd::prelude::*;
use crate::display::{
    collides_upto, covers_upto, drawn_screen, lemma_draw_end, lemma_draw_pixel, lemma_draw_start,
};
use crate::entropy::random_byte;
use crate::error::EmuError;
use crate::machine::Emu;
use crate::model::{
    ArchState, NUM_KEYS, NUM_REGS, RAM_SIZE, SCREEN_HEIGHT, SCREEN_SIZE, SCREEN_WIDTH,
};
use crate::opcode::{decode, lemma_decode_wf, Instruction};
use crate::semantics::{
    alu_add, alu_shift_left, alu_shift_right, alu_sub, alu_sub_from, any_pressed, call,
    can_fetch, carried_out, draw, execute_spec, fetched_word, lemma_lowest_pressed, load_regs,
    reads_chance, ret, skip_key, skip_when, step, store_bcd, store_regs, tick_spec, wait_key,
};

verus! {

/// The decimal digits of a byte: hundreds, tens, ones.
pub fn bcd_digits(val: u8) -> (d: (u8, u8, u8))
    ensures
        d.0 == val / 100,
        d.1 == (val / 10) % 10,
        d.2 == val % 10,
        d.0 < 10 && d.1 < 10 && d.2 < 10,
        100 * d.0 + 10 * d.1 + d.2 == val,
{
    (val / 100, (val / 10) % 10, val % 10)
}

impl Emu {
    /// Returns from a subroutine: the newest return address leaves the
    /// stack and becomes the program counter.
    fn op_return(&mut self) -> (r: Result<(), EmuError>)
        ensures
            carried_out(old(self)@, ret(old(self)@), final(self)@, r),
            final(self)@.wf(),
    {
        match self.pop() {
            Ok(addr) => {
                self.set_pc(addr);
                Ok(())
            },
            Err(e) => Err(e),
        }
    }

    /// Calls the subroutine at `addr`: the program counter goes on the
    /// stack as the return address, then becomes `addr`.
    fn op_call(&mut self, addr: u16) -> (r: Result<(), EmuError>)
        ensures
            carried_out(old(self)@, call(old(self)@, addr), final(self)@, r),
            final(self)@.wf(),
    {
        let pc = self.pc();
        match self.push(pc) {
            Ok(()) => {
                self.set_pc(addr);
                Ok(())
            },
            Err(e) => Err(e),
        }
    }

    /// Moves the program counter past the next instruction if `cond`
    /// holds.
    fn skip_next(&mut self, cond: bool)
        ensures
            final(self)@ == skip_when(old(self)@, cond),
            final(self)@.wf(),
    {
        let pc = self.pc();
        if cond {
            self.set_pc(pc.wrapping_add(2));
        }
    }

    /// `V[x] += V[y]`; VF becomes 1 if the sum does not fit in a byte,
    /// else 0.
    fn op_add(&mut self, x: u8, y: u8)
        requires
            x < NUM_REGS,
            y < NUM_REGS,
        ensures
            final(self)@ == alu_add(old(self)@, x as int, y as int),
            final(self)@.wf(),
    {
        let a = self.reg(x);
        let b = self.reg(y);
        let carry: u8 = if a as u16 + b as u16 > 255 {
            1
        } else {
            0
        };
        self.set_reg(x, a.wrapping_add(b));
        self.set_reg(0xF, carry);
    }

    /// `V[x] -= V[y]`; VF becomes 1 if nothing was borrowed, else 0.
    fn op_sub(&mut self, x: u8, y: u8)
        requires
            x < NUM_REGS,
            y < NUM_REGS,
        ensures
            final(self)@ == alu_sub(old(self)@, x as int, y as int),
            final(self)@.wf(),
    {
        let a = self.reg(x);
        let b = self.reg(y);
        let no_borrow: u8 = if a >= b {
            1
        } else {
            0
        };
        self.set_reg(x, a.wrapping_sub(b));
        self.set_reg(0xF, no_borrow);
    }

    /// `V[x] = V[y] - V[x]`; VF becomes 1 if nothing was borrowed, else 0.
    fn op_sub_from(&mut self, x: u8, y: u8)
        requires
            x < NUM_REGS,
            y < NUM_REGS,
        ensures
            final(self)@ == alu_sub_from(old(self)@, x as int, y as int),
            final(self)@.wf(),
    {
        let a = self.reg(x);
        let b = self.reg(y);
        let no_borrow: u8 = if b >= a {
            1
        } else {
            0
        };
        self.set_reg(x, b.wrapping_sub(a));
        self.set_reg(0xF, no_borrow);
    }

    /// `V[x] >>= 1`; VF becomes the bit that was shifted out.
    fn op_shift_right(&mut self, x: u8)
        requires
            x < NUM_REGS,
        ensures
            final(self)@ == alu_shift_right(old(self)@, x as int),
            final(self)@.wf(),
    {
        let val = self.reg(x);
        let bit0: u8 = val & 0x1;
        assert(val >> 1 == val / 2 && (val & 0x1) == val % 2) by (bit_vector);
        self.set_reg(x, val >> 1);
        self.set_reg(0xF, bit0);
    }

    /// `V[x] <<= 1`; VF becomes the bit that was shifted out.
    fn op_shift_left(&mut self, x: u8)
        requires
            x < NUM_REGS,
        ensures
            final(self)@ == alu_shift_left(old(self)@, x as int),
            final(self)@.wf(),
    {
        let val = self.reg(x);
        let bit7: u8 = (val >> 7) & 1;
        assert(val << 1 == (val * 2) % 256 && ((val >> 7) & 1) == (if val >= 128 {
            1u8
        } else {
            0u8
        })) by (bit_vector);
        self.set_reg(x, val << 1);
        self.set_reg(0xF, bit7);
    }

    /// Skips the next instruction if key `V[x]` is down (`down`) or up
    /// (`!down`).
    fn op_skip_key(&mut self, x: u8, down: bool) -> (r: Result<(), EmuError>)
        requires
            x < NUM_REGS,
        ensures
            carried_out(old(self)@, skip_key(old(self)@, x as int, down), final(self)@, r),
            final(self)@.wf(),
    {
        let key = self.reg(x);
        if (key as usize) < NUM_KEYS {
            let is_down = self.key_down(key);
            self.skip_next(is_down == down);
            Ok(())
        } else {
            Err(EmuError::KeyOutOfRange)
        }
    }

    /// Looks for a key that is down, lowest number first. If there is
    /// one, `V[x]` becomes its number. If there is none, the program
    /// counter goes back by one instruction, so that this instruction is
    /// the next one again.
    fn op_wait_key(&mut self, x: u8)
        requires
            x < NUM_REGS,
        ensures
            final(self)@ == wait_key(old(self)@, x as int),
            final(self)@.wf(),
    {
        let pc = self.pc();
        let mut key: u8 = 0;
        while key < 16
            invariant
                key <= 16,
                x < NUM_REGS,
                self@ == old(self)@,
                self@.wf(),
                pc == self@.pc,
                forall|j: int| 0 <= j < key ==> !self@.keys[j],
            decreases 16 - key,
        {
            if self.key_down(key) {
                proof {
                    lemma_lowest_pressed(self@.keys, key as int);
                }
                self.set_reg(x, key);
                return ;
            }
            key += 1;
        }
        assert(!any_pressed(self@.keys));
        self.set_pc(pc.wrapping_sub(2));
    }

    /// Writes the hundreds, tens and ones of `V[x]` to memory at the
    /// index register and the two bytes after it.
    fn op_store_bcd(&mut self, x: u8) -> (r: Result<(), EmuError>)
        requires
            x < NUM_REGS,
        ensures
            carried_out(old(self)@, store_bcd(old(self)@, x as int), final(self)@, r),
            final(self)@.wf(),
    {
        let base: usize = self.index() as usize;
        if base + 2 >= RAM_SIZE {
            return Err(EmuError::MemoryOutOfRange);
        }
        let (hundred, ten, one) = bcd_digits(self.reg(x));
        self.set_mem(base, hundred);
        self.set_mem(base + 1, ten);
        self.set_mem(base + 2, one);
        Ok(())
    }

    /// Copies `V[0..=x]` to memory from the index register on.
    fn op_store_regs(&mut self, x: u8) -> (r: Result<(), EmuError>)
        requires
            x < NUM_REGS,
        ensures
            carried_out(old(self)@, store_regs(old(self)@, x as int), final(self)@, r),
            final(self)@.wf(),
    {
        let base: usize = self.index() as usize;
        if base + x as usize >= RAM_SIZE {
            return Err(EmuError::MemoryOutOfRange);
        }
        let mut k: u8 = 0;
        while k <= x
            invariant
                k <= x + 1,
                x < NUM_REGS,
                base == old(self)@.i,
                base + x < RAM_SIZE,
                self@.wf(),
                old(self)@.wf(),
                self@ == (ArchState { ram: self@.ram, ..old(self)@ }),
                forall|a: int|
                    0 <= a < RAM_SIZE ==> self@.ram[a] == if base <= a < base + k {
                        old(self)@.v[a - base]
                    } else {
                        old(self)@.ram[a]
                    },
            decreases x + 1 - k,
        {
            let val = self.reg(k);
            self.set_mem(base + k as usize, val);
            k += 1;
        }
        assert(self@ =~= store_regs(old(self)@, x as int)->Ok_0);
        Ok(())
    }

    /// Copies memory from the index register on into `V[0..=x]`.
    fn op_load_regs(&mut self, x: u8) -> (r: Result<(), EmuError>)
        requires
            x < NUM_REGS,
        ensures
            carried_out(old(self)@, load_regs(old(self)@, x as int), final(self)@, r),
            final(self)@.wf(),
    {
        let base: usize = self.index() as usize;
        if base + x as usize >= RAM_SIZE {
            return Err(EmuError::MemoryOutOfRange);
        }
        let mut k: u8 = 0;
        while k <= x
            invariant
                k <= x + 1,
                x < NUM_REGS,
                base == old(self)@.i,
                base + x < RAM_SIZE,
                self@.wf(),
                old(self)@.wf(),
                self@ == (ArchState { v: self@.v, ..old(self)@ }),
                forall|j: int|
                    0 <= j < NUM_REGS ==> self@.v[j] == if j < k {
                        old(self)@.ram[base + j]
                    } else {
                        old(self)@.v[j]
                    },
            decreases x + 1 - k,
        {
            let val = self.mem(base + k as usize);
            self.set_reg(k, val);
            k += 1;
        }
        assert(self@ =~= load_regs(old(self)@, x as int)->Ok_0);
        Ok(())
    }

    /// Draws the `n`-row sprite that memory holds at the index register,
    /// with its top left pixel at column `V[x]` mod 64, row `V[y]` mod 32.
    /// Each lit pixel of the sprite toggles the cell it falls on, columns
    /// and rows wrapping round the screen. VF becomes 1 if a cell that
    /// was lit went dark, else 0.
    fn op_draw(&mut self, x: u8, y: u8, n: u8) -> (r: Result<(), EmuError>)
        requires
            x < NUM_REGS,
            y < NUM_REGS,
            n < 16,
        ensures
            carried_out(old(self)@, draw(old(self)@, x as int, y as int, n as int), final(self)@, r),
            final(self)@.wf(),
    {
        let base: usize = self.index() as usize;
        if base + n as usize > RAM_SIZE {
            return Err(EmuError::MemoryOutOfRange);
        }
        let x0: usize = self.reg(x) as usize % SCREEN_WIDTH;
        let y0: usize = self.reg(y) as usize % SCREEN_HEIGHT;
        let ghost pre = self@;
        let mut flipped = false;
        proof {
            lemma_draw_start(pre.screen, pre.ram, base as int, n as int, x0 as int, y0 as int);
        }
        let mut row: u8 = 0;
        while row < n
            invariant
                row <= n < 16,
                base + n <= RAM_SIZE,
                x0 < SCREEN_WIDTH,
                y0 < SCREEN_HEIGHT,
                pre.wf(),
                self@.wf(),
                self@ == (ArchState { screen: self@.screen, ..pre }),
                forall|p: int|
                    0 <= p < SCREEN_SIZE ==> self@.screen[p] == (pre.screen[p] ^ covers_upto(
                        pre.ram,
                        base as int,
                        n as int,
                        x0 as int,
                        y0 as int,
                        p,
                        8 * row,
                    )),
                flipped == collides_upto(
                    pre.screen,
                    pre.ram,
                    base as int,
                    n as int,
                    x0 as int,
                    y0 as int,
                    8 * row,
                ),
            decreases n - row,
        {
            let pixels = self.mem(base + row as usize);
            let mut col: u8 = 0;
            while col < 8
                invariant
                    col <= 8,
                    row < n < 16,
                    base + n <= RAM_SIZE,
                    x0 < SCREEN_WIDTH,
                    y0 < SCREEN_HEIGHT,
                    pixels == pre.ram[base + row],
                    pre.wf(),
                    self@.wf(),
                    self@ == (ArchState { screen: self@.screen, ..pre }),
                    forall|p: int|
                        0 <= p < SCREEN_SIZE ==> self@.screen[p] == (pre.screen[p] ^ covers_upto(
                            pre.ram,
                            base as int,
                            n as int,
                            x0 as int,
                            y0 as int,
                            p,
                            8 * row + col,
                        )),
                    flipped == collides_upto(
                        pre.screen,
                        pre.ram,
                        base as int,
                        n as int,
                        x0 as int,
                        y0 as int,
                        8 * row + col,
                    ),
                decreases 8 - col,
            {
                proof {
                    lemma_draw_pixel(
                        pre.screen,
                        pre.ram,
                        base as int,
                        n as int,
                        x0 as int,
                        y0 as int,
                        row as int,
                        col as int,
                    );
                }
                if (pixels & (0x80u8 >> col)) != 0 {
                    let cx: usize = (x0 + col as usize) % SCREEN_WIDTH;
                    let cy: usize = (y0 + row as usize) % SCREEN_HEIGHT;
                    let cell: usize = cx + SCREEN_WIDTH * cy;
                    let was_lit = self.pixel(cell);
                    flipped = flipped || was_lit;
                    self.set_pixel(cell, !was_lit);
                }
                col += 1;
            }
            row += 1;
        }
        proof {
            lemma_draw_end(pre.screen, pre.ram, base as int, n as int, x0 as int, y0 as int);
            assert(self@.screen =~= drawn_screen(
                pre.screen,
                pre.ram,
                base as int,
                n as int,
                x0 as int,
                y0 as int,
            ));
        }
        self.set_reg(
            0xF,
            if flipped {
                1
            } else {
                0
            },
        );
        Ok(())
    }

    /// Carries out an instruction that steers the program: a jump, a
    /// call, a return, a skip, or the wait for a key.
    fn run_control(&mut self, ins: Instruction) -> (r: Result<(), EmuError>)
        requires
            ins.wf(),
            ins.is_control(),
        ensures
            forall|rnd: u8| carried_out(old(self)@, #[trigger] step(old(self)@, ins, rnd), final(self)@, r),
            final(self)@.wf(),
    {
        self.well_formed();
        match ins {
            Instruction::Return => self.op_return(),
            Instruction::Jump { addr } => {
                self.set_pc(addr);
                Ok(())
            },
            Instruction::Call { addr } => self.op_call(addr),
            Instruction::SkipEqImm { x, nn } => {
                let vx = self.reg(x);
                self.skip_next(vx == nn);
                Ok(())
            },
            Instruction::SkipNeImm { x, nn } => {
                let vx = self.reg(x);
                self.skip_next(vx != nn);
                Ok(())
            },
            Instruction::SkipEqReg { x, y } => {
                let vx = self.reg(x);
                let vy = self.reg(y);
                self.skip_next(vx == vy);
                Ok(())
            },
            Instruction::SkipNeReg { x, y } => {
                let vx = self.reg(x);
                let vy = self.reg(y);
                self.skip_next(vx != vy);
                Ok(())
            },
            Instruction::JumpOffset { addr } => {
                let v0 = self.reg(0);
                self.set_pc(v0 as u16 + addr);
                Ok(())
            },
            Instruction::SkipKeyDown { x } => self.op_skip_key(x, true),
            Instruction::SkipKeyUp { x } => self.op_skip_key(x, false),
            Instruction::WaitKey { x } => {
                self.op_wait_key(x);
                Ok(())
            },
            _ => Ok(()),
        }
    }

    /// Carries out an instruction that computes a register, with `rnd` as
    /// the byte that `Random` uses.
    fn run_register(&mut self, ins: Instruction, rnd: u8)
        requires
            ins.wf(),
            ins.is_register(),
        ensures
            step(old(self)@, ins, rnd) == Ok::<ArchState, EmuError>(final(self)@),
            final(self)@.wf(),
    {
        self.well_formed();
        match ins {
            Instruction::LoadImm { x, nn } => {
                self.set_reg(x, nn);
            },
            Instruction::AddImm { x, nn } => {
                let vx = self.reg(x);
                self.set_reg(x, vx.wrapping_add(nn));
            },
            Instruction::Move { x, y } => {
                let vy = self.reg(y);
                self.set_reg(x, vy);
            },
            Instruction::Or { x, y } => {
                let vx = self.reg(x);
                let vy = self.reg(y);
                self.set_reg(x, vx | vy);
            },
            Instruction::And { x, y } => {
                let vx = self.reg(x);
                let vy = self.reg(y);
                self.set_reg(x, vx & vy);
            },
            Instruction::Xor { x, y } => {
                let vx = self.reg(x);
                let vy = self.reg(y);
                self.set_reg(x, vx ^ vy);
            },
            Instruction::Add { x, y } => {
                self.op_add(x, y);
            },
            Instruction::Sub { x, y } => {
                self.op_sub(x, y);
            },
            Instruction::ShiftRight { x } => {
                self.op_shift_right(x);
            },
            Instruction::SubFrom { x, y } => {
                self.op_sub_from(x, y);
            },
            Instruction::ShiftLeft { x } => {
                self.op_shift_left(x);
            },
            Instruction::Random { x, nn } => {
                self.set_reg(x, rnd & nn);
            },
            Instruction::ReadDelay { x } => {
                let dt = self.delay_timer();
                self.set_reg(x, dt);
            },
            _ => {},
        }
    }

    /// Carries out an instruction that works on the screen, the timers,
    /// the index register or memory.
    fn run_device(&mut self, ins: Instruction) -> (r: Result<(), EmuError>)
        requires
            ins.wf(),
            !ins.is_control(),
            !ins.is_register(),
        ensures
            forall|rnd: u8| carried_out(old(self)@, #[trigger] step(old(self)@, ins, rnd), final(self)@, r),
            final(self)@.wf(),
    {
        self.well_formed();
        match ins {
            Instruction::Nop => Ok(()),
            Instruction::ClearScreen => {
                self.clear_display();
                Ok(())
            },
            Instruction::LoadIndex { addr } => {
                self.set_index(addr);
                Ok(())
            },
            Instruction::Draw { x, y, n } => self.op_draw(x, y, n),
            Instruction::SetDelay { x } => {
                let vx = self.reg(x);
                self.set_delay_timer(vx);
                Ok(())
            },
            Instruction::SetSound { x } => {
                let vx = self.reg(x);
                self.set_sound_timer(vx);
                Ok(())
            },
            Instruction::AddIndex { x } => {
                let vx = self.reg(x);
                let i = self.index();
                self.set_index(i.wrapping_add(vx as u16));
                Ok(())
            },
            Instruction::FontAddr { x } => {
                let vx = self.reg(x);
                self.set_index(vx as u16 * 5);
                Ok(())
            },
            Instruction::StoreBcd { x } => self.op_store_bcd(x),
            Instruction::StoreRegs { x } => self.op_store_regs(x),
            Instruction::LoadRegs { x } => self.op_load_regs(x),
            _ => Ok(()),
        }
    }

    /// Carries out one decoded instruction. The program counter is taken
    /// to point past it already. `rnd` is the byte that `Random` uses.
    fn run(&mut self, ins: Instruction, rnd: u8) -> (r: Result<(), EmuError>)
        requires
            ins.wf(),
        ensures
            carried_out(old(self)@, step(old(self)@, ins, rnd), final(self)@, r),
            final(self)@.wf(),
    {
        match ins {
            Instruction::Return
            | Instruction::Jump { .. }
            | Instruction::Call { .. }
            | Instruction::SkipEqImm { .. }
            | Instruction::SkipNeImm { .. }
            | Instruction::SkipEqReg { .. }
            | Instruction::SkipNeReg { .. }
            | Instruction::JumpOffset { .. }
            | Instruction::SkipKeyDown { .. }
            | Instruction::SkipKeyUp { .. }
            | Instruction::WaitKey { .. } => self.run_control(ins),
            Instruction::LoadImm { .. }
            | Instruction::AddImm { .. }
            | Instruction::Move { .. }
            | Instruction::Or { .. }
            | Instruction::And { .. }
            | Instruction::Xor { .. }
            | Instruction::Add { .. }
            | Instruction::Sub { .. }
            | Instruction::ShiftRight { .. }
            | Instruction::SubFrom { .. }
            | Instruction::ShiftLeft { .. }
            | Instruction::Random { .. }
            | Instruction::ReadDelay { .. } => {
                self.run_register(ins, rnd);
                Ok(())
            },
            _ => self.run_device(ins),
        }
    }

    /// Decodes the instruction word `op` and carries it out, with `rnd`
    /// as the byte that chance supplies. The program counter is taken to
    /// point past the instruction already. A word that stands for no
    /// instruction is refused, and the error names it.
    pub fn execute_with(&mut self, op: u16, rnd: u8) -> (r: Result<(), EmuError>)
        ensures
            carried_out(old(self)@, execute_spec(old(self)@, op, rnd), final(self)@, r),
            final(self)@.wf(),
    {
        self.well_formed();
        match decode(op) {
            Some(ins) => {
                proof {
                    lemma_decode_wf(op);
                }
                self.run(ins, rnd)
            },
            None => Err(EmuError::UnimplementedOpcode { opcode: op }),
        }
    }

    /// Decodes the instruction word `op` and carries it out. Where the
    /// instruction asks for a random byte, one is drawn; what then holds
    /// is that the machine did what the instruction does with some byte.
    pub fn execute(&mut self, op: u16) -> (r: Result<(), EmuError>)
        ensures
            exists|rnd: u8|
                carried_out(old(self)@, #[trigger] execute_spec(old(self)@, op, rnd), final(self)@, r),
            !reads_chance(op) ==> carried_out(
                old(self)@,
                execute_spec(old(self)@, op, 0),
                final(self)@,
                r,
            ),
            final(self)@.wf(),
    {
        self.well_formed();
        match decode(op) {
            Some(ins) => {
                proof {
                    lemma_decode_wf(op);
                }
                let rnd: u8 = match ins {
                    Instruction::Random { .. } => random_byte(),
                    _ => 0,
                };
                let r = self.run(ins, rnd);
                assert(carried_out(old(self)@, execute_spec(old(self)@, op, rnd), self@, r));
                r
            },
            None => {
                assert(carried_out(
                    old(self)@,
                    execute_spec(old(self)@, op, 0),
                    self@,
                    Err(EmuError::UnimplementedOpcode { opcode: op }),
                ));
                Err(EmuError::UnimplementedOpcode { opcode: op })
            },
        }
    }

    /// Runs one whole instruction: fetches the word at the program
    /// counter, decodes it and carries it out, with `rnd` as the byte that
    /// chance supplies. If any of this fails, the machine is left as it
    /// was, program counter included.
    pub fn tick_with(&mut self, rnd: u8) -> (r: Result<(), EmuError>)
        ensures
            carried_out(old(self)@, tick_spec(old(self)@, rnd), final(self)@, r),
            final(self)@.wf(),
    {
        let start = self.pc();
        let op = match self.fetch() {
            Ok(op) => op,
            Err(e) => {
                return Err(e);
            },
        };
        match self.execute_with(op, rnd) {
            Ok(()) => Ok(()),
            Err(e) => {
                self.set_pc(start);
                assert(self@ =~= old(self)@);
                Err(e)
            },
        }
    }

    /// Runs one whole instruction: fetches the word at the program
    /// counter, decodes it and carries it out. If any of this fails, the
    /// machine is left as it was, program counter included. Where the
    /// instruction asks for a random byte, one is drawn.
    pub fn tick(&mut self) -> (r: Result<(), EmuError>)
        ensures
            exists|rnd: u8|
                carried_out(old(self)@, #[trigger] tick_spec(old(self)@, rnd), final(self)@, r),
            can_fetch(old(self)@) && !reads_chance(fetched_word(old(self)@)) ==> carried_out(
                old(self)@,
                tick_spec(old(self)@, 0),
                final(self)@,
                r,
            ),
            final(self)@.wf(),
    {
        let start = self.pc();
        let op = match self.fetch() {
            Ok(op) => op,
            Err(e) => {
                assert(carried_out(old(self)@, tick_spec(old(self)@, 0), self@, Err(e)));
                return Err(e);
            },
        };
        let ghost mid = self@;
        let r = self.execute(op);
        let ghost rnd = choose|rnd: u8|
            carried_out(mid, #[trigger] execute_spec(mid, op, rnd), self@, r);
        match r {
            Ok(()) => {
                assert(carried_out(old(self)@, tick_spec(old(self)@, rnd), self@, r));
                Ok(())
            },
            Err(e) => {
                self.set_pc(start);
                assert(self@ =~= old(self)@);
                assert(carried_out(old(self)@, tick_spec(old(self)@, rnd), self@, r));
                Err(e)
            },
        }
    }
}

} // verus!
