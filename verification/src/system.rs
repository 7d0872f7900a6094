//! The executable machine: state, construction, and the cycle driver.
//!
//! Every public operation is specified against the mathematical model in
//! `model`: the constructor builds `init_machine()`, and each cycle performs
//! `tick_spec` for some byte of randomness.

use vstd::prelude::*;

use rand::Rng;

use crate::model::{
    blank_display, display_wf, draw_bits, draw_rows, exec_op_spec, fetch_word, font, frame_running,
    frame_spec, group_0_spec, group_1_spec, group_2_spec, group_3_spec, group_4_spec, group_5_spec,
    group_6_spec, group_7_spec, group_8_spec, group_9_spec, group_a_spec, group_b_spec,
    group_c_spec, group_d_spec, group_e_spec, group_f_spec, init_machine, key_index,
    lemma_addr_mask, lemma_exec_op_wf, lemma_flip, lemma_frame_push, lemma_key_index_le,
    lemma_nibbles, lemma_pow2_16, load_regs, low_nibble, mem_addr, pixel_at, reg_x, reg_y,
    set_key_spec, store_regs, tick_running, tick_spec, toggle_pixel, write_rom_spec, Machine,
    COLOR_WIDTH, HEIGHT, LOAD_OFFSET, MAX_INDEX, MEM_SIZE, TICKS_PER_FRAME, WIDTH,
};

verus! {

/// The machine state: registers, memory, call stack, timers, display
/// surface, and the input latch.
pub struct System {
    /// The sixteen general-purpose registers; register 15 is the flag.
    pub v: Vec<u8>,
    /// The 16-bit index register.
    pub i: u16,
    /// Byte offset of the next instruction word.
    pub pc: usize,
    /// Index of the top of the return stack; 0 means empty.
    pub sp: usize,
    /// Decremented once per cycle while above zero.
    pub delay_timer: u8,
    /// Decremented once per cycle while above zero.
    pub sound_timer: u8,
    /// Saved program-counter values; entry 0 is never used.
    pub stack: Vec<usize>,
    /// The flat byte memory: font below the load offset, program above.
    pub mem: Vec<u8>,
    /// The display surface, four bytes per pixel, row-major.
    pub vmem: Vec<u8>,
    /// Bit k is set iff logical key k is held.
    pub input: u16,
    /// The input mask at the end of the previous cycle.
    pub previous_input: u16,
}

impl View for System {
    type V = Machine;

    open spec fn view(&self) -> Machine {
        Machine {
            regs: self.v@,
            index: self.i,
            pc: self.pc as int,
            sp: self.sp as int,
            delay: self.delay_timer,
            sound: self.sound_timer,
            stack: self.stack@.map(|k: int, a: usize| a as int),
            mem: self.mem@,
            vmem: self.vmem@,
            input: self.input,
            prev_input: self.previous_input,
        }
    }
}

/// Relies on `rand::thread_rng` and `rand::Rng::gen_range`, which draws a
/// value uniformly from the half-open range below 255.
#[verifier::external_body]
fn random_byte() -> (r: u8)
    ensures
        r < 255,
{
    let mut rng = rand::thread_rng();
    rng.gen_range(0, 255)
}

/// Returns the most significant nibble of an instruction word.
pub fn get_op_group(op: u16) -> (r: u16)
    ensures
        r == op / 0x1000,
        r < 16,
{
    crate::ops::get_op_code(op)
}

/// Splits an instruction word into its high and low bytes.
pub fn split_op(op: u16) -> (r: (u8, u8))
    ensures
        r.0 == op / 0x100,
        r.1 == op % 0x100,
{
    crate::ops::split_op(op)
}

impl System {
    /// Constructs a zeroed machine with the glyph font preloaded and the
    /// program counter at the load offset.
    pub fn new() -> (s: System)
        ensures
            s@ == init_machine(),
            s@.wf(),
    {
        let glyphs: Vec<u8> = vec![
            0xF0, 0x90, 0x90, 0x90, 0xF0, // 0
            0x20, 0x60, 0x20, 0x20, 0x70, // 1
            0xF0, 0x10, 0xF0, 0x80, 0xF0, // 2
            0xF0, 0x10, 0xF0, 0x10, 0xF0, // 3
            0x90, 0x90, 0xF0, 0x10, 0x10, // 4
            0xF0, 0x80, 0xF0, 0x10, 0xF0, // 5
            0xF0, 0x80, 0xF0, 0x90, 0xF0, // 6
            0xF0, 0x10, 0x20, 0x40, 0x40, // 7
            0xF0, 0x90, 0xF0, 0x90, 0xF0, // 8
            0xF0, 0x90, 0xF0, 0x10, 0xF0, // 9
            0xF0, 0x90, 0xF0, 0x90, 0x90, // A
            0xE0, 0x90, 0xE0, 0x90, 0xE0, // B
            0xF0, 0x80, 0x80, 0x80, 0xF0, // C
            0xE0, 0x90, 0x90, 0x90, 0xE0, // D
            0xF0, 0x80, 0xF0, 0x80, 0xF0, // E
            0xF0, 0x80, 0xF0, 0x80, 0x80, // F
        ];
        proof {
            assert(glyphs@ =~= font());
        }
        let mut mem: Vec<u8> = vec![0u8; MEM_SIZE];
        let mut k: usize = 0;
        while k < 80
            invariant
                glyphs@ == font(),
                mem@.len() == MEM_SIZE,
                k <= 80,
                forall|j: int| 0 <= j < k ==> mem@[j] == font()[j],
                forall|j: int| k <= j < MEM_SIZE ==> mem@[j] == 0,
            decreases 80 - k,
        {
            let b = glyphs[k];
            mem.set(k, b);
            k += 1;
        }
        let s = System {
            v: vec![0u8; 16],
            i: 0,
            pc: LOAD_OFFSET,
            sp: 0,
            delay_timer: 0,
            sound_timer: 0,
            stack: vec![0usize; 16],
            mem,
            vmem: vec![0u8; MAX_INDEX],
            input: 0,
            previous_input: 0,
        };
        proof {
            assert(s@.regs =~= init_machine().regs);
            assert(s@.stack =~= init_machine().stack);
            assert(s@.mem =~= init_machine().mem);
            assert(s@.vmem =~= init_machine().vmem);
            assert(s@ =~= init_machine());
            assert forall|p: int|
                0 <= p < WIDTH * HEIGHT implies #[trigger] crate::model::pixel_wf(s@.vmem, p) by {}
        }
        s
    }

    /// Copies a program image into memory at the load offset.  The image
    /// must fit in the memory above the reserved region.
    pub fn write_rom(&mut self, rom: Vec<u8>)
        requires
            old(self)@.wf(),
            rom@.len() <= MEM_SIZE - LOAD_OFFSET,
        ensures
            final(self)@ == write_rom_spec(old(self)@, rom@),
            final(self)@.wf(),
    {
        let mut k: usize = 0;
        while k < rom.len()
            invariant
                old(self)@.wf(),
                rom@.len() <= MEM_SIZE - LOAD_OFFSET,
                k <= rom@.len(),
                self@ == (Machine { mem: self@.mem, ..old(self)@ }),
                self@.mem.len() == MEM_SIZE,
                forall|j: int|
                    LOAD_OFFSET <= j < LOAD_OFFSET + k ==> self@.mem[j] == rom@[j - LOAD_OFFSET],
                forall|j: int|
                    (0 <= j < LOAD_OFFSET || LOAD_OFFSET + k <= j < MEM_SIZE) ==> self@.mem[j]
                        == old(self)@.mem[j],
            decreases rom@.len() - k,
        {
            let b = rom[k];
            self.mem.set(LOAD_OFFSET + k, b);
            k += 1;
        }
        proof {
            assert(self@.mem =~= write_rom_spec(old(self)@, rom@).mem);
            assert(self@ =~= write_rom_spec(old(self)@, rom@));
        }
    }

    /// Sets or clears one bit of the input mask.
    pub fn set_key(&mut self, key: u8, value: bool)
        requires
            key < 16,
        ensures
            final(self)@ == set_key_spec(old(self)@, key, value),
    {
        if value {
            self.input = self.input | (1u16 << (key as u16));
        } else {
            self.input = self.input & !(1u16 << (key as u16));
        }
        proof {
            assert(self@ =~= set_key_spec(old(self)@, key, value));
        }
    }

    /// Read-only view of the display surface, for a renderer to blit:
    /// four bytes per logical pixel, row-major, top-left origin.
    pub fn get_framebuffer(&self) -> (r: &[u8])
        ensures
            r@ == self@.vmem,
    {
        self.vmem.as_slice()
    }

    /// Group 0: 0x00E0 clears the screen, 0x00EE returns from a subroutine.
    fn op_group_0(&mut self, op: u16)
        requires
            old(self)@.wf(),
        ensures
            final(self)@ == group_0_spec(old(self)@, op),
    {
        let low = crate::ops::split_op(op).1;
        match low {
            0xE0 => {
                let mut j: usize = 0;
                while j < MAX_INDEX
                    invariant
                        self@ == (Machine { vmem: self@.vmem, ..old(self)@ }),
                        self@.vmem.len() == MAX_INDEX,
                        j <= MAX_INDEX,
                        forall|m: int| 0 <= m < j ==> self@.vmem[m] == 0,
                    decreases MAX_INDEX - j,
                {
                    self.vmem.set(j, 0);
                    j += 1;
                }
                proof {
                    assert(self@.vmem =~= blank_display());
                    assert(self@ =~= group_0_spec(old(self)@, op));
                }
            }
            0xEE => {
                if self.sp > 0 {
                    self.pc = self.stack[self.sp];
                    self.sp = self.sp - 1;
                }
                proof {
                    assert(self@ =~= group_0_spec(old(self)@, op));
                }
            }
            _ => {
                proof {
                    assert(self@ =~= group_0_spec(old(self)@, op));
                }
            }
        }
    }

    /// Group 1: absolute jump.
    fn op_group_1(&mut self, op: u16)
        ensures
            final(self)@ == group_1_spec(old(self)@, op),
    {
        self.pc = (op & 0x0FFF) as usize;
        proof {
            lemma_addr_mask(op);
            assert(self@ =~= group_1_spec(old(self)@, op));
        }
    }

    /// Group 2: push the program counter on the stack and jump.
    fn op_group_2(&mut self, op: u16)
        requires
            old(self)@.wf(),
        ensures
            final(self)@ == group_2_spec(old(self)@, op),
    {
        if self.sp < 15 {
            self.sp = self.sp + 1;
            self.stack.set(self.sp, self.pc);
            self.pc = (op & 0x0FFF) as usize;
            proof {
                lemma_addr_mask(op);
                assert(self@.stack =~= group_2_spec(old(self)@, op).stack);
            }
        }
        proof {
            assert(self@ =~= group_2_spec(old(self)@, op));
        }
    }

    /// Group 3: skip the next instruction if the register equals the literal.
    fn op_group_3(&mut self, op: u16)
        requires
            old(self)@.wf(),
        ensures
            final(self)@ == group_3_spec(old(self)@, op),
    {
        let words = crate::ops::get_op_words(op);
        let register = words[1] as usize;
        let value = crate::ops::combine_words(words[2], words[3]);
        if self.v[register] == value {
            self.pc = (self.pc + 2) % MEM_SIZE;
        }
        proof {
            lemma_nibbles(op);
            assert(self@ =~= group_3_spec(old(self)@, op));
        }
    }

    /// Group 4: skip the next instruction if the register differs from the
    /// literal.
    fn op_group_4(&mut self, op: u16)
        requires
            old(self)@.wf(),
        ensures
            final(self)@ == group_4_spec(old(self)@, op),
    {
        let words = crate::ops::get_op_words(op);
        let register = words[1] as usize;
        let value = crate::ops::combine_words(words[2], words[3]);
        if self.v[register] != value {
            self.pc = (self.pc + 2) % MEM_SIZE;
        }
        proof {
            lemma_nibbles(op);
            assert(self@ =~= group_4_spec(old(self)@, op));
        }
    }

    /// Group 5: skip the next instruction if the two registers are equal.
    fn op_group_5(&mut self, op: u16)
        requires
            old(self)@.wf(),
        ensures
            final(self)@ == group_5_spec(old(self)@, op),
    {
        let words = crate::ops::get_op_words(op);
        let register = words[1] as usize;
        let cmp_register = words[2] as usize;
        if self.v[register] == self.v[cmp_register] {
            self.pc = (self.pc + 2) % MEM_SIZE;
        }
        proof {
            assert(self@ =~= group_5_spec(old(self)@, op));
        }
    }

    /// Group 6: load the literal byte into the register.
    fn op_group_6(&mut self, op: u16)
        requires
            old(self)@.wf(),
        ensures
            final(self)@ == group_6_spec(old(self)@, op),
    {
        let words = crate::ops::get_op_words(op);
        let register = words[1] as usize;
        let value = crate::ops::combine_words(words[2], words[3]);
        self.v.set(register, value);
        proof {
            lemma_nibbles(op);
            assert(self@ =~= group_6_spec(old(self)@, op));
        }
    }

    /// Group 7: add the literal byte to the register, wrapping, leaving the
    /// flag register alone.
    fn op_group_7(&mut self, op: u16)
        requires
            old(self)@.wf(),
        ensures
            final(self)@ == group_7_spec(old(self)@, op),
    {
        let words = crate::ops::get_op_words(op);
        let register = words[1] as usize;
        let value = crate::ops::combine_words(words[2], words[3]);
        let cur = self.v[register];
        self.v.set(register, cur.wrapping_add(value));
        proof {
            lemma_nibbles(op);
            assert(self@ =~= group_7_spec(old(self)@, op));
        }
    }

    /// Group 8: the register-to-register ALU operations, selected by the low
    /// nibble; the flag register takes the carry, borrow, or shifted-out bit
    /// before the result is written.
    #[verifier::rlimit(60)]
    fn op_group_8(&mut self, op: u16)
        requires
            old(self)@.wf(),
        ensures
            final(self)@ == group_8_spec(old(self)@, op),
    {
        let words = crate::ops::get_op_words(op);
        let register1 = words[1] as usize;
        let register2 = words[2] as usize;
        match words[3] {
            0x0 => {
                let val = self.v[register2];
                self.v.set(register1, val);
            }
            0x1 => {
                let val = self.v[register1] | self.v[register2];
                self.v.set(register1, val);
            }
            0x2 => {
                let val = self.v[register1] & self.v[register2];
                self.v.set(register1, val);
            }
            0x3 => {
                let val = self.v[register1] ^ self.v[register2];
                self.v.set(register1, val);
            }
            0x4 => {
                let vx = self.v[register1];
                let vy = self.v[register2];
                let flag: u8 = if vx as u16 + vy as u16 >= 256 {
                    1
                } else {
                    0
                };
                self.v.set(0xF, flag);
                self.v.set(register1, vx.wrapping_add(vy));
            }
            0x5 => {
                let vx = self.v[register1];
                let vy = self.v[register2];
                let flag: u8 = if vx < vy {
                    1
                } else {
                    0
                };
                self.v.set(0xF, flag);
                self.v.set(register1, vx.wrapping_sub(vy));
            }
            0x6 => {
                let vx = self.v[register1];
                self.v.set(0xF, vx & 1);
                self.v.set(register1, vx >> 1);
                proof {
                    assert((vx & 1) == vx % 2 && (vx >> 1u8) == vx / 2) by (bit_vector);
                }
            }
            0x7 => {
                let vx = self.v[register1];
                let vy = self.v[register2];
                let flag: u8 = if vy < vx {
                    1
                } else {
                    0
                };
                self.v.set(0xF, flag);
                self.v.set(register1, vy.wrapping_sub(vx));
            }
            0xE => {
                let vx = self.v[register1];
                self.v.set(0xF, vx >> 7);
                self.v.set(register1, vx << 1);
                proof {
                    assert((vx >> 7u8) == vx / 128 && (vx << 1u8) == (2 * vx) % 256)
                        by (bit_vector);
                }
            }
            _ => {}
        }
        proof {
            assert(self@ =~= group_8_spec(old(self)@, op));
        }
    }

    /// Group 9: skip the next instruction if the two registers differ.
    fn op_group_9(&mut self, op: u16)
        requires
            old(self)@.wf(),
        ensures
            final(self)@ == group_9_spec(old(self)@, op),
    {
        let words = crate::ops::get_op_words(op);
        let register = words[1] as usize;
        let cmp_register = words[2] as usize;
        if self.v[register] != self.v[cmp_register] {
            self.pc = (self.pc + 2) % MEM_SIZE;
        }
        proof {
            assert(self@ =~= group_9_spec(old(self)@, op));
        }
    }

    /// Group A: load the 12-bit address operand into the index register.
    fn op_group_a(&mut self, op: u16)
        ensures
            final(self)@ == group_a_spec(old(self)@, op),
    {
        self.i = op & 0x0FFF;
        proof {
            lemma_addr_mask(op);
            assert(self@ =~= group_a_spec(old(self)@, op));
        }
    }

    /// Group B: jump to register 0 plus the literal byte, as a one-byte sum.
    fn op_group_b(&mut self, op: u16)
        requires
            old(self)@.wf(),
        ensures
            final(self)@ == group_b_spec(old(self)@, op),
    {
        let low = crate::ops::split_op(op).1;
        self.pc = (self.v[0] as usize + low as usize) % 256;
        proof {
            assert(self@ =~= group_b_spec(old(self)@, op));
        }
    }

    /// Group C: load a random byte masked by the literal into the register.
    fn op_group_c(&mut self, op: u16)
        requires
            old(self)@.wf(),
        ensures
            exists|r: u8| final(self)@ == group_c_spec(old(self)@, op, r),
    {
        let words = crate::ops::get_op_words(op);
        let register = words[1] as usize;
        let value = crate::ops::combine_words(words[2], words[3]);
        let rand_val = random_byte();
        self.v.set(register, rand_val & value);
        proof {
            lemma_nibbles(op);
            assert(self@ =~= group_c_spec(old(self)@, op, rand_val));
        }
    }

    /// Group D: draw a sprite read from memory at the index register, with
    /// XOR compositing and collision reporting in the flag register.
    fn op_group_d(&mut self, op: u16)
        requires
            old(self)@.wf(),
        ensures
            final(self)@ == group_d_spec(old(self)@, op),
    {
        let words = crate::ops::get_op_words(op);
        let x = self.v[words[1] as usize] as usize;
        let y = self.v[words[2] as usize] as usize;
        let num_bytes = words[3] as usize;

        let mut has_collision = false;
        let mut idx: usize = 0;
        while idx < num_bytes
            invariant
                old(self)@.wf(),
                x == old(self)@.regs[reg_x(op)],
                y == old(self)@.regs[reg_y(op)],
                x < 256,
                y < 256,
                num_bytes == low_nibble(op),
                num_bytes < 16,
                idx <= num_bytes,
                self@ == (Machine { vmem: self@.vmem, ..old(self)@ }),
                self@.vmem.len() == MAX_INDEX,
                display_wf(self@.vmem),
                self@.vmem == draw_rows(
                    old(self)@.vmem,
                    false,
                    old(self)@.mem,
                    old(self)@.index as int,
                    y as int,
                    x as int,
                    idx as int,
                ).0,
                has_collision == draw_rows(
                    old(self)@.vmem,
                    false,
                    old(self)@.mem,
                    old(self)@.index as int,
                    y as int,
                    x as int,
                    idx as int,
                ).1,
            decreases num_bytes - idx,
        {
            let byte = self.mem[(self.i as usize + idx) % MEM_SIZE];
            let ghost row_vm = self@.vmem;
            let ghost row_col = has_collision;
            let mut split: usize = 0;
            while split < 8
                invariant
                    old(self)@.wf(),
                    x < 256,
                    y < 256,
                    idx < 16,
                    split <= 8,
                    self@ == (Machine { vmem: self@.vmem, ..old(self)@ }),
                    self@.vmem.len() == MAX_INDEX,
                    display_wf(self@.vmem),
                    self@.vmem == draw_bits(
                        row_vm,
                        row_col,
                        byte,
                        y + idx,
                        x as int,
                        split as int,
                    ).0,
                    has_collision == draw_bits(
                        row_vm,
                        row_col,
                        byte,
                        y + idx,
                        x as int,
                        split as int,
                    ).1,
                decreases 8 - split,
            {
                if byte & (0x80u8 >> (split as u8)) != 0 {
                    let pix = ((y + idx) * WIDTH + (x + split)) % (WIDTH * HEIGHT);
                    let base = pix * COLOR_WIDTH;
                    proof {
                        assert(pix == pixel_at(y + idx, x as int + split));
                        assert(base + 3 < MAX_INDEX);
                    }
                    let ghost before = self@.vmem;
                    if !has_collision {
                        has_collision = self.vmem[base] > 0;
                    }
                    let b0 = self.vmem[base];
                    self.vmem.set(base, b0 ^ 0xFF);
                    let b1 = self.vmem[base + 1];
                    self.vmem.set(base + 1, b1 ^ 0xFF);
                    let b2 = self.vmem[base + 2];
                    self.vmem.set(base + 2, b2 ^ 0xFF);
                    let b3 = self.vmem[base + 3];
                    self.vmem.set(base + 3, b3 ^ 0xFF);
                    proof {
                        lemma_flip(b0);
                        lemma_flip(b1);
                        lemma_flip(b2);
                        lemma_flip(b3);
                        assert(self@.vmem =~= toggle_pixel(before, pix as int));
                        crate::model::lemma_toggle_wf(before, pix as int);
                    }
                }
                split += 1;
            }
            idx += 1;
        }
        let flag: u8 = if has_collision {
            1
        } else {
            0
        };
        self.v.set(0xF, flag);
        proof {
            assert(self@ =~= group_d_spec(old(self)@, op));
        }
    }

    /// Group E: skip depending on whether the key numbered by the register
    /// is held.
    fn op_group_e(&mut self, op: u16)
        requires
            old(self)@.wf(),
        ensures
            final(self)@ == group_e_spec(old(self)@, op),
    {
        let words = crate::ops::get_op_words(op);
        let register = words[1] as usize;
        let instruction = crate::ops::combine_words(words[2], words[3]);
        let key = self.v[register];
        let mask: u16 = if key < 16 {
            1u16 << (key as u16)
        } else {
            0
        };
        match instruction {
            0x9E => {
                if mask & self.input > 0 {
                    self.pc = (self.pc + 2) % MEM_SIZE;
                }
            }
            0xA1 => {
                if mask & self.input == 0 {
                    self.pc = (self.pc + 2) % MEM_SIZE;
                }
            }
            _ => {}
        }
        proof {
            lemma_nibbles(op);
            assert(self@ =~= group_e_spec(old(self)@, op));
        }
    }

    /// Group F: timers, the blocking key wait, index arithmetic, font
    /// lookup, binary-coded decimal, and block register transfers.
    #[verifier::rlimit(80)]
    fn op_group_f(&mut self, op: u16)
        requires
            old(self)@.wf(),
        ensures
            final(self)@ == group_f_spec(old(self)@, op),
    {
        let words = crate::ops::get_op_words(op);
        let register = words[1] as usize;
        let instruction = crate::ops::combine_words(words[2], words[3]);
        proof {
            lemma_nibbles(op);
        }
        match instruction {
            0x07 => {
                let d = self.delay_timer;
                self.v.set(register, d);
                proof {
                    assert(self@ =~= group_f_spec(old(self)@, op));
                }
            }
            0x0A => {
                if self.previous_input == self.input {
                    self.pc = (self.pc + (MEM_SIZE - 2)) % MEM_SIZE;
                } else {
                    let diff = self.input ^ self.previous_input;
                    proof {
                        lemma_pow2_16();
                        lemma_key_index_le(diff as int, 15);
                        crate::model::lemma_key_index_nonneg(diff as int);
                    }
                    let mut d = diff;
                    let mut key_value: u8 = 0;
                    while d >= 2
                        invariant
                            key_index(diff as int) == key_value + key_index(d as int),
                            key_value + key_index(d as int) <= 15,
                            key_index(d as int) >= 0,
                        decreases d,
                    {
                        d = d / 2;
                        key_value = key_value + 1;
                        proof {
                            crate::model::lemma_key_index_nonneg(d as int);
                        }
                    }
                    self.v.set(register, key_value);
                }
                proof {
                    assert(self@ =~= group_f_spec(old(self)@, op));
                }
            }
            0x15 => {
                self.delay_timer = self.v[register];
                proof {
                    assert(self@ =~= group_f_spec(old(self)@, op));
                }
            }
            0x18 => {
                self.sound_timer = self.v[register];
                proof {
                    assert(self@ =~= group_f_spec(old(self)@, op));
                }
            }
            0x1E => {
                self.i = ((self.i as usize + self.v[register] as usize) % 0x10000) as u16;
                proof {
                    assert(self@ =~= group_f_spec(old(self)@, op));
                }
            }
            0x29 => {
                let vx = self.v[register];
                self.i = vx.wrapping_mul(5) as u16;
                proof {
                    assert(self@ =~= group_f_spec(old(self)@, op));
                }
            }
            0x33 => {
                let vx = self.v[register];
                let base0 = self.i as usize % MEM_SIZE;
                let base1 = (self.i as usize + 1) % MEM_SIZE;
                let base2 = (self.i as usize + 2) % MEM_SIZE;
                self.mem.set(base0, vx / 100);
                self.mem.set(base1, (vx / 10) % 10);
                self.mem.set(base2, vx % 10);
                proof {
                    assert(self@ =~= group_f_spec(old(self)@, op));
                }
            }
            0x55 => {
                let mut rr: usize = 0;
                while rr < register
                    invariant
                        old(self)@.wf(),
                        register == reg_x(op),
                        register < 16,
                        rr <= register,
                        self@ == (Machine { mem: self@.mem, ..old(self)@ }),
                        self@.mem.len() == MEM_SIZE,
                        self@.mem == store_regs(
                            old(self)@.mem,
                            old(self)@.regs,
                            old(self)@.index as int,
                            rr as int,
                        ),
                    decreases register - rr,
                {
                    let a = (self.i as usize + rr) % MEM_SIZE;
                    let val = self.v[rr];
                    self.mem.set(a, val);
                    rr += 1;
                }
                self.i = ((self.i as usize + register + 1) % 0x10000) as u16;
                proof {
                    assert(self@ =~= group_f_spec(old(self)@, op));
                }
            }
            0x65 => {
                let mut rr: usize = 0;
                while rr < register
                    invariant
                        old(self)@.wf(),
                        register == reg_x(op),
                        register < 16,
                        rr <= register,
                        self@ == (Machine { regs: self@.regs, ..old(self)@ }),
                        self@.regs.len() == 16,
                        self@.regs == load_regs(
                            old(self)@.regs,
                            old(self)@.mem,
                            old(self)@.index as int,
                            rr as int,
                        ),
                    decreases register - rr,
                {
                    let a = (self.i as usize + rr) % MEM_SIZE;
                    let val = self.mem[a];
                    self.v.set(rr, val);
                    rr += 1;
                }
                self.i = ((self.i as usize + register + 1) % 0x10000) as u16;
                proof {
                    assert(self@ =~= group_f_spec(old(self)@, op));
                }
            }
            _ => {
                proof {
                    assert(self@ =~= group_f_spec(old(self)@, op));
                }
            }
        }
    }

    /// Reads the instruction word at the program counter: two consecutive
    /// bytes, big-endian.
    fn fetch(&self) -> (w: u16)
        requires
            self@.wf(),
        ensures
            w == fetch_word(self@),
    {
        let hi = self.mem[self.pc];
        let lo = self.mem[(self.pc + 1) % MEM_SIZE];
        proof {
            assert(((hi as u16) << 8u16 | lo as u16) == hi as u16 * 256 + lo as u16)
                by (bit_vector);
        }
        (hi as u16) << 8 | lo as u16
    }

    /// Decodes the group selector and runs the matching handler: a flat
    /// dispatch over the sixteen instruction groups.
    fn execute_op(&mut self, op: u16)
        requires
            old(self)@.wf(),
        ensures
            exists|r: u8| final(self)@ == exec_op_spec(old(self)@, op, r),
    {
        let group = get_op_group(op);
        match group {
            0x0 => {
                self.op_group_0(op);
                proof {
                    assert(self@ == exec_op_spec(old(self)@, op, 0u8));
                }
            }
            0x1 => {
                self.op_group_1(op);
                proof {
                    assert(self@ == exec_op_spec(old(self)@, op, 0u8));
                }
            }
            0x2 => {
                self.op_group_2(op);
                proof {
                    assert(self@ == exec_op_spec(old(self)@, op, 0u8));
                }
            }
            0x3 => {
                self.op_group_3(op);
                proof {
                    assert(self@ == exec_op_spec(old(self)@, op, 0u8));
                }
            }
            0x4 => {
                self.op_group_4(op);
                proof {
                    assert(self@ == exec_op_spec(old(self)@, op, 0u8));
                }
            }
            0x5 => {
                self.op_group_5(op);
                proof {
                    assert(self@ == exec_op_spec(old(self)@, op, 0u8));
                }
            }
            0x6 => {
                self.op_group_6(op);
                proof {
                    assert(self@ == exec_op_spec(old(self)@, op, 0u8));
                }
            }
            0x7 => {
                self.op_group_7(op);
                proof {
                    assert(self@ == exec_op_spec(old(self)@, op, 0u8));
                }
            }
            0x8 => {
                self.op_group_8(op);
                proof {
                    assert(self@ == exec_op_spec(old(self)@, op, 0u8));
                }
            }
            0x9 => {
                self.op_group_9(op);
                proof {
                    assert(self@ == exec_op_spec(old(self)@, op, 0u8));
                }
            }
            0xA => {
                self.op_group_a(op);
                proof {
                    assert(self@ == exec_op_spec(old(self)@, op, 0u8));
                }
            }
            0xB => {
                self.op_group_b(op);
                proof {
                    assert(self@ == exec_op_spec(old(self)@, op, 0u8));
                }
            }
            0xC => {
                self.op_group_c(op);
                proof {
                    let r = choose|r: u8| self@ == group_c_spec(old(self)@, op, r);
                    assert(self@ == exec_op_spec(old(self)@, op, r));
                }
            }
            0xD => {
                self.op_group_d(op);
                proof {
                    assert(self@ == exec_op_spec(old(self)@, op, 0u8));
                }
            }
            0xE => {
                self.op_group_e(op);
                proof {
                    assert(self@ == exec_op_spec(old(self)@, op, 0u8));
                }
            }
            _ => {
                self.op_group_f(op);
                proof {
                    assert(self@ == exec_op_spec(old(self)@, op, 0u8));
                }
            }
        }
    }

    /// Executes exactly one instruction: fetch the word at the program
    /// counter, advance past it, run the handler, decrement both timers, and
    /// latch the input mask for edge detection.  Returns whether the
    /// instruction word now at the program counter is non-zero, a crude
    /// still-running signal.
    pub fn tick(&mut self) -> (running: bool)
        requires
            old(self)@.wf(),
        ensures
            exists|r: u8| final(self)@ == tick_spec(old(self)@, r),
            final(self)@.wf(),
            running == tick_running(final(self)@),
    {
        let op = self.fetch();
        self.pc = (self.pc + 2) % MEM_SIZE;
        let ghost s1 = self@;
        proof {
            assert(s1 =~= (Machine { pc: mem_addr(old(self)@.pc + 2), ..old(self)@ }));
        }
        self.execute_op(op);
        let ghost r = choose|r: u8| self@ == exec_op_spec(s1, op, r);
        if self.sound_timer > 0 {
            self.sound_timer = self.sound_timer - 1;
        }
        if self.delay_timer > 0 {
            self.delay_timer = self.delay_timer - 1;
        }
        self.previous_input = self.input;
        proof {
            lemma_exec_op_wf(s1, op, r);
            assert(self@ =~= tick_spec(old(self)@, r));
        }
        self.fetch() != 0
    }

    /// Executes one display frame's worth of instruction cycles and reports
    /// whether any of them signalled the still-running condition.  The
    /// caller paces frames; the machine itself keeps no time.
    pub fn run_to_next_frame(&mut self) -> (running: bool)
        requires
            old(self)@.wf(),
        ensures
            exists|rs: Seq<u8>|
                rs.len() == TICKS_PER_FRAME && final(self)@ == frame_spec(old(self)@, rs)
                    && running == frame_running(old(self)@, rs),
            final(self)@.wf(),
    {
        let mut end_execution = false;
        let ghost mut rs: Seq<u8> = Seq::empty();
        let mut c: usize = 0;
        while c < TICKS_PER_FRAME
            invariant
                c <= TICKS_PER_FRAME,
                rs.len() == c,
                self@ == frame_spec(old(self)@, rs),
                end_execution == frame_running(old(self)@, rs),
                self@.wf(),
            decreases TICKS_PER_FRAME - c,
        {
            let ghost pre = self@;
            let t = self.tick();
            proof {
                let r = choose|r: u8| self@ == tick_spec(pre, r);
                lemma_frame_push(old(self)@, rs, r);
                rs = rs.push(r);
            }
            end_execution = end_execution || t;
            c += 1;
        }
        end_execution
    }
}

} // verus!
