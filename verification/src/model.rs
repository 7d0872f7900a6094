//! Mathematical model of the machine.
//!
//! `Machine` is the specification-level view of the interpreter state, and
//! the `*_spec` functions below give the meaning of each instruction group as
//! pure functions from state to state.  The executable interpreter in
//! `system` is proved to follow these functions step by step.
//!
//! Two behaviours the instruction set leaves undefined are given a fixed
//! policy here, stated once and relied on throughout:
//! - every memory address (program counter, index-register reads and writes)
//!   is taken modulo the memory size, so address arithmetic wraps instead of
//!   running off the end of memory;
//! - a subroutine call on a full return stack, and a return on an empty one,
//!   are ignored entirely (the instruction becomes a no-op).

use vstd::prelude::*;

verus! {

/// Number of bytes of addressable memory.
pub const MEM_SIZE: usize = 4096;

/// First address of a loaded program image; everything below is reserved.
pub const LOAD_OFFSET: usize = 0x200;

/// Logical display width in pixels.
pub const WIDTH: usize = 64;

/// Logical display height in pixels.
pub const HEIGHT: usize = 32;

/// Bytes per logical pixel: one intensity replicated over four channels.
pub const COLOR_WIDTH: usize = 4;

/// Total bytes of display memory.
pub const MAX_INDEX: usize = WIDTH * HEIGHT * COLOR_WIDTH;

/// The specification-level machine state.
#[verifier::ext_equal]
pub ghost struct Machine {
    /// The sixteen general-purpose byte registers; register 15 doubles as
    /// the carry/borrow/collision flag.
    pub regs: Seq<u8>,
    /// The 16-bit index register used for memory block operations and
    /// sprite addressing.
    pub index: u16,
    /// Byte offset into memory of the next instruction word.
    pub pc: int,
    /// Index of the top of the return stack; 0 means the stack is empty.
    pub sp: int,
    /// The delay timer, decremented once per cycle while above zero.
    pub delay: u8,
    /// The sound timer, decremented once per cycle while above zero.
    pub sound: u8,
    /// Saved program-counter values; entry 0 is never used.
    pub stack: Seq<int>,
    /// The flat byte memory.
    pub mem: Seq<u8>,
    /// The display surface, four bytes per pixel, row-major.
    pub vmem: Seq<u8>,
    /// Bit k is set iff logical key k is currently held.
    pub input: u16,
    /// The value of `input` at the end of the previous cycle.
    pub prev_input: u16,
}

/// One logical pixel is stored as four identical bytes, fully dark (0x00)
/// or fully lit (0xFF).
pub open spec fn pixel_wf(vmem: Seq<u8>, p: int) -> bool {
    &&& (vmem[4 * p] == 0 || vmem[4 * p] == 0xFF)
    &&& vmem[4 * p + 1] == vmem[4 * p]
    &&& vmem[4 * p + 2] == vmem[4 * p]
    &&& vmem[4 * p + 3] == vmem[4 * p]
}

/// The display invariant: every pixel's four bytes agree and are 0x00 or 0xFF.
pub open spec fn display_wf(vmem: Seq<u8>) -> bool {
    forall|p: int| 0 <= p < WIDTH * HEIGHT ==> #[trigger] pixel_wf(vmem, p)
}

impl Machine {
    /// Well-formedness of the machine state: field sizes, the program
    /// counter and stack pointer in range, saved addresses in range, and the
    /// display invariant.
    pub open spec fn wf(self) -> bool {
        &&& self.regs.len() == 16
        &&& self.stack.len() == 16
        &&& self.mem.len() == MEM_SIZE
        &&& self.vmem.len() == MAX_INDEX
        &&& 0 <= self.pc < MEM_SIZE
        &&& 0 <= self.sp < 16
        &&& forall|k: int| 0 <= k < 16 ==> 0 <= #[trigger] self.stack[k] < MEM_SIZE
        &&& display_wf(self.vmem)
    }
}

// ---------------------------------------------------------------------------
// Instruction word fields
// ---------------------------------------------------------------------------

/// The group selector: the most significant nibble.
pub open spec fn group_of(op: u16) -> int {
    op as int / 0x1000
}

/// The first register nibble (bits 8..12).
pub open spec fn reg_x(op: u16) -> int {
    (op as int / 0x100) % 0x10
}

/// The second register nibble (bits 4..8).
pub open spec fn reg_y(op: u16) -> int {
    (op as int / 0x10) % 0x10
}

/// The literal byte operand (bits 0..8).
pub open spec fn low_byte(op: u16) -> int {
    op as int % 0x100
}

/// The low nibble operand (bits 0..4).
pub open spec fn low_nibble(op: u16) -> int {
    op as int % 0x10
}

/// The 12-bit address operand (bits 0..12).
pub open spec fn address_of(op: u16) -> int {
    op as int % 0x1000
}

// ---------------------------------------------------------------------------
// Small helpers
// ---------------------------------------------------------------------------

/// Reduction of a value to one byte, the wrapping (modulo 256) semantics the
/// arithmetic instructions use.
pub open spec fn wrap_byte(n: int) -> u8 {
    (n % 256) as u8
}

/// Reduction of a value to the 16-bit index register.
pub open spec fn wrap_u16(n: int) -> u16 {
    (n % 0x10000) as u16
}

/// Reduction of an address into memory, the wraparound policy for every
/// memory access.
pub open spec fn mem_addr(a: int) -> int {
    a % (MEM_SIZE as int)
}

/// A timer decrements by one per cycle while above zero, never below.
pub open spec fn dec_timer(t: u8) -> u8 {
    if t > 0 {
        (t - 1) as u8
    } else {
        0
    }
}

/// Advancing the program counter over one skipped instruction.
pub open spec fn skip_spec(s: Machine) -> Machine {
    Machine { pc: mem_addr(s.pc + 2), ..s }
}

/// The instruction word fetched at the program counter: two consecutive
/// bytes, big-endian.
pub open spec fn fetch_word(s: Machine) -> u16 {
    (s.mem[s.pc] * 256 + s.mem[mem_addr(s.pc + 1)]) as u16
}

/// The complement of a display byte; XOR with 0xFF toggles between the two
/// well-formed intensities.
pub open spec fn flip(b: u8) -> u8 {
    (255 - b) as u8
}

/// The index of the single set bit of `d` (in general, of its highest set
/// bit): the key computed by the wait-for-key instruction from the changed
/// input mask.
pub open spec fn key_index(d: int) -> int
    decreases d,
{
    if d >= 2 {
        1 + key_index(d / 2)
    } else {
        0
    }
}

// ---------------------------------------------------------------------------
// Group 0: clear screen, subroutine return
// ---------------------------------------------------------------------------

/// A fully dark display.
pub open spec fn blank_display() -> Seq<u8> {
    Seq::new(MAX_INDEX as nat, |j: int| 0u8)
}

/// Group 0: 0x00E0 clears the display, 0x00EE returns from a subroutine
/// (ignored on an empty stack), anything else is a no-op.
pub open spec fn group_0_spec(s: Machine, op: u16) -> Machine {
    if low_byte(op) == 0xE0 {
        Machine { vmem: blank_display(), ..s }
    } else if low_byte(op) == 0xEE {
        if s.sp > 0 {
            Machine { pc: s.stack[s.sp], sp: s.sp - 1, ..s }
        } else {
            s
        }
    } else {
        s
    }
}

// ---------------------------------------------------------------------------
// Groups 1 and 2: jump, subroutine call
// ---------------------------------------------------------------------------

/// Group 1: absolute jump to the 12-bit address operand.
pub open spec fn group_1_spec(s: Machine, op: u16) -> Machine {
    Machine { pc: address_of(op), ..s }
}

/// Group 2: push the program counter and jump (ignored on a full stack).
pub open spec fn group_2_spec(s: Machine, op: u16) -> Machine {
    if s.sp < 15 {
        Machine {
            sp: s.sp + 1,
            stack: s.stack.update(s.sp + 1, s.pc),
            pc: address_of(op),
            ..s
        }
    } else {
        s
    }
}

// ---------------------------------------------------------------------------
// Groups 3, 4, 5, 9: conditional skips
// ---------------------------------------------------------------------------

/// Group 3: skip the next instruction if the register equals the literal.
pub open spec fn group_3_spec(s: Machine, op: u16) -> Machine {
    if s.regs[reg_x(op)] == low_byte(op) {
        skip_spec(s)
    } else {
        s
    }
}

/// Group 4: skip the next instruction if the register differs from the literal.
pub open spec fn group_4_spec(s: Machine, op: u16) -> Machine {
    if s.regs[reg_x(op)] != low_byte(op) {
        skip_spec(s)
    } else {
        s
    }
}

/// Group 5: skip the next instruction if the two registers are equal.
pub open spec fn group_5_spec(s: Machine, op: u16) -> Machine {
    if s.regs[reg_x(op)] == s.regs[reg_y(op)] {
        skip_spec(s)
    } else {
        s
    }
}

/// Group 9: skip the next instruction if the two registers differ.
pub open spec fn group_9_spec(s: Machine, op: u16) -> Machine {
    if s.regs[reg_x(op)] != s.regs[reg_y(op)] {
        skip_spec(s)
    } else {
        s
    }
}

// ---------------------------------------------------------------------------
// Groups 6 and 7: literal load and add
// ---------------------------------------------------------------------------

/// Group 6: load the literal byte into the register.
pub open spec fn group_6_spec(s: Machine, op: u16) -> Machine {
    Machine { regs: s.regs.update(reg_x(op), low_byte(op) as u8), ..s }
}

/// Group 7: add the literal byte to the register, wrapping, without touching
/// the flag register.
pub open spec fn group_7_spec(s: Machine, op: u16) -> Machine {
    Machine { regs: s.regs.update(reg_x(op), wrap_byte(s.regs[reg_x(op)] + low_byte(op))), ..s }
}

// ---------------------------------------------------------------------------
// Group 8: register-to-register ALU operations
// ---------------------------------------------------------------------------

/// Group 8, selected by the low nibble: copy, or, and, xor, add with carry,
/// subtract with borrow, shift right, reverse subtract, shift left.  The
/// flag register is written before the result, so a result aimed at
/// register 15 overwrites the flag.  Unknown selectors are no-ops.
pub open spec fn group_8_spec(s: Machine, op: u16) -> Machine {
    let x = reg_x(op);
    let y = reg_y(op);
    let vx = s.regs[x];
    let vy = s.regs[y];
    let n = low_nibble(op);
    if n == 0x0 {
        Machine { regs: s.regs.update(x, vy), ..s }
    } else if n == 0x1 {
        Machine { regs: s.regs.update(x, vx | vy), ..s }
    } else if n == 0x2 {
        Machine { regs: s.regs.update(x, vx & vy), ..s }
    } else if n == 0x3 {
        Machine { regs: s.regs.update(x, vx ^ vy), ..s }
    } else if n == 0x4 {
        let flag: u8 = if vx + vy >= 256 { 1 } else { 0 };
        Machine { regs: s.regs.update(0xF, flag).update(x, wrap_byte(vx + vy)), ..s }
    } else if n == 0x5 {
        let flag: u8 = if vx < vy { 1 } else { 0 };
        Machine { regs: s.regs.update(0xF, flag).update(x, wrap_byte(vx - vy)), ..s }
    } else if n == 0x6 {
        let flag: u8 = (vx % 2) as u8;
        Machine { regs: s.regs.update(0xF, flag).update(x, (vx / 2) as u8), ..s }
    } else if n == 0x7 {
        let flag: u8 = if vy < vx { 1 } else { 0 };
        Machine { regs: s.regs.update(0xF, flag).update(x, wrap_byte(vy - vx)), ..s }
    } else if n == 0xE {
        let flag: u8 = (vx / 128) as u8;
        Machine { regs: s.regs.update(0xF, flag).update(x, wrap_byte(2 * vx)), ..s }
    } else {
        s
    }
}

// ---------------------------------------------------------------------------
// Groups A, B, C: set index, offset jump, masked random
// ---------------------------------------------------------------------------

/// Group A: load the 12-bit address operand into the index register.
pub open spec fn group_a_spec(s: Machine, op: u16) -> Machine {
    Machine { index: address_of(op) as u16, ..s }
}

/// Group B: jump to register 0 plus the literal byte, as a one-byte sum.
pub open spec fn group_b_spec(s: Machine, op: u16) -> Machine {
    Machine { pc: wrap_byte(s.regs[0] + low_byte(op)) as int, ..s }
}

/// Group C: load a random byte masked by the literal into the register.
/// The byte `r` is whatever the machine's randomness source produced.
pub open spec fn group_c_spec(s: Machine, op: u16, r: u8) -> Machine {
    Machine { regs: s.regs.update(reg_x(op), r & (low_byte(op) as u8)), ..s }
}

// ---------------------------------------------------------------------------
// Group D: sprite drawing
// ---------------------------------------------------------------------------

/// The logical pixel toggled for sprite row `y` and column `x`: address
/// arithmetic wraps modulo the total pixel count, not row and column
/// independently.
pub open spec fn pixel_at(y: int, x: int) -> int {
    (y * (WIDTH as int) + x) % ((WIDTH * HEIGHT) as int)
}

/// Whether bit `j` (most significant first) of a sprite row byte is set.
pub open spec fn sprite_bit(b: u8, j: int) -> bool {
    b & (0x80u8 >> (j as u8)) != 0
}

/// Powers of two; 1 at and below zero.
pub open spec fn pow2_bit(k: int) -> int
    decreases k,
{
    if k <= 0 {
        1
    } else {
        2 * pow2_bit(k - 1)
    }
}

/// XOR-toggles the four bytes of logical pixel `p` between dark and lit.
pub open spec fn toggle_pixel(vmem: Seq<u8>, p: int) -> Seq<u8> {
    vmem.update(4 * p, flip(vmem[4 * p])).update(4 * p + 1, flip(vmem[4 * p + 1])).update(
        4 * p + 2,
        flip(vmem[4 * p + 2]),
    ).update(4 * p + 3, flip(vmem[4 * p + 3]))
}

/// The display and collision flag after processing the first `nbits` bits of
/// one sprite row byte `b`, destined for row `y` starting at column `x`.  A
/// pixel that is lit at the moment it is toggled latches the collision flag.
pub open spec fn draw_bits(vmem: Seq<u8>, col: bool, b: u8, y: int, x: int, nbits: int) -> (Seq<
    u8,
>, bool)
    decreases nbits,
{
    if nbits <= 0 {
        (vmem, col)
    } else {
        let prev = draw_bits(vmem, col, b, y, x, nbits - 1);
        let j = nbits - 1;
        if sprite_bit(b, j) {
            let p = pixel_at(y, x + j);
            (toggle_pixel(prev.0, p), prev.1 || prev.0[4 * p] > 0)
        } else {
            prev
        }
    }
}

/// The display and collision flag after drawing the first `nrows` rows of a
/// sprite read from memory at `base`, at column `x` and row `y`.
pub open spec fn draw_rows(
    vmem: Seq<u8>,
    col: bool,
    mem: Seq<u8>,
    base: int,
    y: int,
    x: int,
    nrows: int,
) -> (Seq<u8>, bool)
    decreases nrows,
{
    if nrows <= 0 {
        (vmem, col)
    } else {
        let prev = draw_rows(vmem, col, mem, base, y, x, nrows - 1);
        let r = nrows - 1;
        draw_bits(prev.0, prev.1, mem[mem_addr(base + r)], y + r, x, 8)
    }
}

/// The pixels one sprite row byte toggles, in drawing order.
pub open spec fn row_toggles(b: u8, y: int, x: int, nbits: int) -> Seq<int>
    decreases nbits,
{
    if nbits <= 0 {
        Seq::empty()
    } else {
        row_toggles(b, y, x, nbits - 1) + (if sprite_bit(b, nbits - 1) {
            seq![pixel_at(y, x + (nbits - 1))]
        } else {
            Seq::empty()
        })
    }
}

/// The pixels a whole sprite toggles, in drawing order.
pub open spec fn sprite_toggles(mem: Seq<u8>, base: int, y: int, x: int, nrows: int) -> Seq<int>
    decreases nrows,
{
    if nrows <= 0 {
        Seq::empty()
    } else {
        sprite_toggles(mem, base, y, x, nrows - 1) + row_toggles(
            mem[mem_addr(base + (nrows - 1))],
            y + (nrows - 1),
            x,
            8,
        )
    }
}

/// The pixels the sprite drawn by instruction `op` in state `s` toggles.
pub open spec fn sprite_toggles_of(s: Machine, op: u16) -> Seq<int> {
    sprite_toggles(
        s.mem,
        s.index as int,
        s.regs[reg_y(op)] as int,
        s.regs[reg_x(op)] as int,
        low_nibble(op),
    )
}

/// Toggling a list of pixels in order.
pub open spec fn apply_toggles(vmem: Seq<u8>, ts: Seq<int>) -> Seq<u8>
    decreases ts.len(),
{
    if ts.len() == 0 {
        vmem
    } else {
        apply_toggles(toggle_pixel(vmem, ts[0]), ts.drop_first())
    }
}

/// All entries denote pixels of the display.
pub open spec fn toggles_in_range(ts: Seq<int>) -> bool {
    forall|i: int| 0 <= i < ts.len() ==> 0 <= #[trigger] ts[i] < WIDTH * HEIGHT
}

/// Group D: draw an n-row sprite from memory at the index register, at the
/// column and row held in the two registers; register 15 reports whether any
/// toggled pixel was already lit.
pub open spec fn group_d_spec(s: Machine, op: u16) -> Machine {
    let x = s.regs[reg_x(op)] as int;
    let y = s.regs[reg_y(op)] as int;
    let drawn = draw_rows(s.vmem, false, s.mem, s.index as int, y, x, low_nibble(op));
    Machine {
        vmem: drawn.0,
        regs: s.regs.update(0xF, if drawn.1 { 1u8 } else { 0u8 }),
        ..s
    }
}

// ---------------------------------------------------------------------------
// Group E: key tests
// ---------------------------------------------------------------------------

/// The input-mask bit for a key value; keys 16 and above select no bit.
pub open spec fn key_mask(k: u8) -> u16 {
    if k < 16 {
        1u16 << (k as u16)
    } else {
        0
    }
}

/// Group E: 0x9E skips if the key numbered by the register is held, 0xA1
/// skips if it is not; anything else is a no-op.
pub open spec fn group_e_spec(s: Machine, op: u16) -> Machine {
    let mask = key_mask(s.regs[reg_x(op)]);
    if low_byte(op) == 0x9E {
        if mask & s.input != 0 {
            skip_spec(s)
        } else {
            s
        }
    } else if low_byte(op) == 0xA1 {
        if mask & s.input == 0 {
            skip_spec(s)
        } else {
            s
        }
    } else {
        s
    }
}

// ---------------------------------------------------------------------------
// Group F: timers, key wait, index, font, BCD, block transfer
// ---------------------------------------------------------------------------

/// The wait-for-key instruction: while the input mask is unchanged since the
/// previous cycle the instruction rewinds the program counter to re-execute
/// itself; once the mask differs, the index of the changed bit is stored.
/// If several bits change at once, the index of the highest one is stored:
/// the edge detection assumes a single change per cycle.
pub open spec fn key_wait_spec(s: Machine, op: u16) -> Machine {
    if s.prev_input == s.input {
        Machine { pc: mem_addr(s.pc - 2), ..s }
    } else {
        Machine {
            regs: s.regs.update(reg_x(op), key_index((s.input ^ s.prev_input) as int) as u8),
            ..s
        }
    }
}

/// Writes registers 0 up to (excluding) `n` to memory at `base`.
pub open spec fn store_regs(mem: Seq<u8>, regs: Seq<u8>, base: int, n: int) -> Seq<u8>
    decreases n,
{
    if n <= 0 {
        mem
    } else {
        store_regs(mem, regs, base, n - 1).update(mem_addr(base + (n - 1)), regs[n - 1])
    }
}

/// Loads registers 0 up to (excluding) `n` from memory at `base`.
pub open spec fn load_regs(regs: Seq<u8>, mem: Seq<u8>, base: int, n: int) -> Seq<u8>
    decreases n,
{
    if n <= 0 {
        regs
    } else {
        load_regs(regs, mem, base, n - 1).update(n - 1, mem[mem_addr(base + (n - 1))])
    }
}

/// Group F, selected by the low byte: timer reads and writes, the blocking
/// key wait, index increment, font glyph lookup, binary-coded-decimal
/// decomposition, and block register transfers.  Unknown selectors are
/// no-ops.
pub open spec fn group_f_spec(s: Machine, op: u16) -> Machine {
    let x = reg_x(op);
    let nn = low_byte(op);
    if nn == 0x07 {
        Machine { regs: s.regs.update(x, s.delay), ..s }
    } else if nn == 0x0A {
        key_wait_spec(s, op)
    } else if nn == 0x15 {
        Machine { delay: s.regs[x], ..s }
    } else if nn == 0x18 {
        Machine { sound: s.regs[x], ..s }
    } else if nn == 0x1E {
        Machine { index: wrap_u16(s.index + s.regs[x]), ..s }
    } else if nn == 0x29 {
        Machine { index: wrap_byte(5 * s.regs[x]) as u16, ..s }
    } else if nn == 0x33 {
        let vx = s.regs[x];
        Machine {
            mem: s.mem.update(mem_addr(s.index as int), (vx / 100) as u8).update(
                mem_addr(s.index + 1),
                ((vx / 10) % 10) as u8,
            ).update(mem_addr(s.index + 2), (vx % 10) as u8),
            ..s
        }
    } else if nn == 0x55 {
        Machine {
            mem: store_regs(s.mem, s.regs, s.index as int, x),
            index: wrap_u16(s.index + x + 1),
            ..s
        }
    } else if nn == 0x65 {
        Machine {
            regs: load_regs(s.regs, s.mem, s.index as int, x),
            index: wrap_u16(s.index + x + 1),
            ..s
        }
    } else {
        s
    }
}

// ---------------------------------------------------------------------------
// Dispatch, cycle, frame, construction
// ---------------------------------------------------------------------------

/// The meaning of one instruction word: dispatch on the group selector.
/// The byte `r` is the machine's randomness for this instruction; only
/// group C reads it.
pub open spec fn exec_op_spec(s: Machine, op: u16, r: u8) -> Machine {
    let g = group_of(op);
    if g == 0x0 {
        group_0_spec(s, op)
    } else if g == 0x1 {
        group_1_spec(s, op)
    } else if g == 0x2 {
        group_2_spec(s, op)
    } else if g == 0x3 {
        group_3_spec(s, op)
    } else if g == 0x4 {
        group_4_spec(s, op)
    } else if g == 0x5 {
        group_5_spec(s, op)
    } else if g == 0x6 {
        group_6_spec(s, op)
    } else if g == 0x7 {
        group_7_spec(s, op)
    } else if g == 0x8 {
        group_8_spec(s, op)
    } else if g == 0x9 {
        group_9_spec(s, op)
    } else if g == 0xA {
        group_a_spec(s, op)
    } else if g == 0xB {
        group_b_spec(s, op)
    } else if g == 0xC {
        group_c_spec(s, op, r)
    } else if g == 0xD {
        group_d_spec(s, op)
    } else if g == 0xE {
        group_e_spec(s, op)
    } else {
        group_f_spec(s, op)
    }
}

/// One full cycle: fetch the instruction word at the program counter,
/// advance the program counter past it, execute the instruction, decrement
/// both timers, and latch the input mask for edge detection.
pub open spec fn tick_spec(s: Machine, r: u8) -> Machine {
    let op = fetch_word(s);
    let executed = exec_op_spec(Machine { pc: mem_addr(s.pc + 2), ..s }, op, r);
    Machine {
        sound: dec_timer(executed.sound),
        delay: dec_timer(executed.delay),
        prev_input: executed.input,
        ..executed
    }
}

/// The crude still-running signal a cycle reports: whether the instruction
/// word now at the program counter is non-zero.
pub open spec fn tick_running(s: Machine) -> bool {
    fetch_word(s) != 0
}

/// The machine after a batch of cycles whose randomness bytes are `rs`.
pub open spec fn frame_spec(s: Machine, rs: Seq<u8>) -> Machine
    decreases rs.len(),
{
    if rs.len() == 0 {
        s
    } else {
        frame_spec(tick_spec(s, rs[0]), rs.drop_first())
    }
}

/// Whether any cycle of the batch reported the still-running signal.
pub open spec fn frame_running(s: Machine, rs: Seq<u8>) -> bool
    decreases rs.len(),
{
    if rs.len() == 0 {
        false
    } else {
        tick_running(tick_spec(s, rs[0])) || frame_running(tick_spec(s, rs[0]), rs.drop_first())
    }
}

/// Cycles per display frame.
pub const TICKS_PER_FRAME: usize = 9;

/// The fixed hexadecimal glyph font preloaded into reserved memory:
/// 16 glyphs of 5 rows, one bit pattern per row.
pub open spec fn font() -> Seq<u8> {
    seq![
        0xF0u8, 0x90, 0x90, 0x90, 0xF0, // 0
        0x20, 0x60, 0x20, 0x20, 0x70, // 1
        0xF0, 0x10, 0xF0, 0x80, 0xF0, // 2
        0xF0, 0x10, 0xF0, 0x10, 0xF0, // 3
        0x90, 0x90, 0xF0, 0x10, 0x10, // 4
        0xF0, 0x80, 0xF0, 0x10, 0xF0, // 5
        0xF0, 0x80, 0xF0, 0x90, 0xF0, // 6
        0xF0, 0x10, 0x20, 0x40, 0x40, // 7
        0xF0, 0x90, 0xF0, 0x90, 0xF0, // 8
        0xF0, 0x90, 0xF0, 0x10, 0xF0, // 9
        0xF0, 0x90, 0xF0, 0x90, 0x90, // A
        0xE0, 0x90, 0xE0, 0x90, 0xE0, // B
        0xF0, 0x80, 0x80, 0x80, 0xF0, // C
        0xE0, 0x90, 0x90, 0x90, 0xE0, // D
        0xF0, 0x80, 0xF0, 0x80, 0xF0, // E
        0xF0, 0x80, 0xF0, 0x80, 0x80, // F
    ]
}

/// Memory at power-on: the font in the first bytes, zero elsewhere.
pub open spec fn init_mem() -> Seq<u8> {
    Seq::new(
        MEM_SIZE as nat,
        |a: int|
            if 0 <= a < font().len() {
                font()[a]
            } else {
                0u8
            },
    )
}

/// The machine at power-on: everything zeroed, the font preloaded, the
/// program counter at the load offset.
pub open spec fn init_machine() -> Machine {
    Machine {
        regs: Seq::new(16, |k: int| 0u8),
        index: 0,
        pc: LOAD_OFFSET as int,
        sp: 0,
        delay: 0,
        sound: 0,
        stack: Seq::new(16, |k: int| 0int),
        mem: init_mem(),
        vmem: blank_display(),
        input: 0,
        prev_input: 0,
    }
}

/// The machine after a program image is copied in at the load offset.
pub open spec fn write_rom_spec(s: Machine, rom: Seq<u8>) -> Machine {
    Machine {
        mem: Seq::new(
            MEM_SIZE as nat,
            |a: int|
                if LOAD_OFFSET <= a < LOAD_OFFSET + rom.len() {
                    rom[a - LOAD_OFFSET]
                } else {
                    s.mem[a]
                },
        ),
        ..s
    }
}

/// The machine after one key bit is set or cleared.
pub open spec fn set_key_spec(s: Machine, key: u8, value: bool) -> Machine {
    Machine {
        input: if value {
            s.input | (1u16 << (key as u16))
        } else {
            s.input & !(1u16 << (key as u16))
        },
        ..s
    }
}

// ---------------------------------------------------------------------------
// Arithmetic restatements of the bitwise forms the executable code computes
// ---------------------------------------------------------------------------

/// The literal byte operand is the two low nibbles combined.
pub proof fn lemma_nibbles(op: u16)
    ensures
        16 * reg_y(op) + low_nibble(op) == low_byte(op),
{
    assert(16 * ((op / 16) % 16) + op % 16 == op % 256) by (bit_vector);
}

/// Masking with the low twelve bits is reduction modulo 0x1000.
pub proof fn lemma_addr_mask(op: u16)
    ensures
        (op & 0x0FFF) == op % 0x1000,
{
    assert((op & 0x0FFF) == op % 0x1000) by (bit_vector);
}

/// XOR with 0xFF is the byte complement.
pub proof fn lemma_flip(b: u8)
    ensures
        (b ^ 0xFF) == flip(b),
{
    assert((b ^ 0xFF) == 255 - b) by (bit_vector);
}

// ---------------------------------------------------------------------------
// Bounds for the key index
// ---------------------------------------------------------------------------

/// Sixteen doublings of one.
pub proof fn lemma_pow2_16()
    ensures
        pow2_bit(16) == 0x10000,
{
    reveal_with_fuel(pow2_bit, 17);
}

/// The key index is never negative.
pub proof fn lemma_key_index_nonneg(d: int)
    requires
        0 <= d,
    ensures
        key_index(d) >= 0,
    decreases d,
{
    if d >= 2 {
        lemma_key_index_nonneg(d / 2);
    }
}

/// The key index of a value below the b+1st power of two is at most b.
pub proof fn lemma_key_index_le(d: int, b: int)
    requires
        0 <= d,
        0 <= b,
        d < pow2_bit(b + 1),
    ensures
        key_index(d) <= b,
    decreases b,
{
    if d >= 2 {
        assert(pow2_bit(b + 1) == 2 * pow2_bit(b));
        if b == 0 {
            reveal_with_fuel(pow2_bit, 2);
        } else {
            lemma_key_index_le(d / 2, b - 1);
        }
    }
}

// ---------------------------------------------------------------------------
// Shape preservation of the recursive helpers
// ---------------------------------------------------------------------------

/// A block store leaves the memory size unchanged.
pub proof fn lemma_store_regs_len(mem: Seq<u8>, regs: Seq<u8>, base: int, n: int)
    requires
        mem.len() == MEM_SIZE,
    ensures
        store_regs(mem, regs, base, n).len() == mem.len(),
    decreases n,
{
    if n > 0 {
        lemma_store_regs_len(mem, regs, base, n - 1);
    }
}

/// A block load leaves the register count unchanged.
pub proof fn lemma_load_regs_len(regs: Seq<u8>, mem: Seq<u8>, base: int, n: int)
    requires
        n <= regs.len(),
    ensures
        load_regs(regs, mem, base, n).len() == regs.len(),
    decreases n,
{
    if n > 0 {
        lemma_load_regs_len(regs, mem, base, n - 1);
    }
}

/// Toggling a pixel keeps the display well formed.
pub proof fn lemma_toggle_wf(vmem: Seq<u8>, p: int)
    requires
        vmem.len() == MAX_INDEX,
        display_wf(vmem),
        0 <= p < WIDTH * HEIGHT,
    ensures
        toggle_pixel(vmem, p).len() == MAX_INDEX,
        display_wf(toggle_pixel(vmem, p)),
{
    let t = toggle_pixel(vmem, p);
    assert forall|q: int| 0 <= q < WIDTH * HEIGHT implies #[trigger] pixel_wf(t, q) by {
        assert(pixel_wf(vmem, q));
    }
}

/// Drawing the bits of one sprite row keeps the display well formed.
pub proof fn lemma_draw_bits_wf(vmem: Seq<u8>, col: bool, b: u8, y: int, x: int, nbits: int)
    requires
        vmem.len() == MAX_INDEX,
        display_wf(vmem),
    ensures
        draw_bits(vmem, col, b, y, x, nbits).0.len() == MAX_INDEX,
        display_wf(draw_bits(vmem, col, b, y, x, nbits).0),
    decreases nbits,
{
    if nbits > 0 {
        lemma_draw_bits_wf(vmem, col, b, y, x, nbits - 1);
        let prev = draw_bits(vmem, col, b, y, x, nbits - 1);
        if sprite_bit(b, nbits - 1) {
            lemma_toggle_wf(prev.0, pixel_at(y, x + (nbits - 1)));
        }
    }
}

/// Drawing a sprite keeps the display well formed.
pub proof fn lemma_draw_rows_wf(
    vmem: Seq<u8>,
    col: bool,
    mem: Seq<u8>,
    base: int,
    y: int,
    x: int,
    nrows: int,
)
    requires
        vmem.len() == MAX_INDEX,
        display_wf(vmem),
    ensures
        draw_rows(vmem, col, mem, base, y, x, nrows).0.len() == MAX_INDEX,
        display_wf(draw_rows(vmem, col, mem, base, y, x, nrows).0),
    decreases nrows,
{
    if nrows > 0 {
        lemma_draw_rows_wf(vmem, col, mem, base, y, x, nrows - 1);
        let prev = draw_rows(vmem, col, mem, base, y, x, nrows - 1);
        lemma_draw_bits_wf(prev.0, prev.1, mem[mem_addr(base + (nrows - 1))], y + (nrows - 1), x, 8);
    }
}

// ---------------------------------------------------------------------------
// Well-formedness is preserved by every instruction and every cycle
// ---------------------------------------------------------------------------

/// Executing any instruction on a well-formed machine yields a well-formed
/// machine, whatever the randomness byte was.
pub proof fn lemma_exec_op_wf(s: Machine, op: u16, r: u8)
    requires
        s.wf(),
    ensures
        exec_op_spec(s, op, r).wf(),
{
    let g = group_of(op);
    if g == 0xD {
        lemma_draw_rows_wf(
            s.vmem,
            false,
            s.mem,
            s.index as int,
            s.regs[reg_y(op)] as int,
            s.regs[reg_x(op)] as int,
            low_nibble(op),
        );
    } else if g == 0xF {
        if low_byte(op) == 0x55 {
            lemma_store_regs_len(s.mem, s.regs, s.index as int, reg_x(op));
        } else if low_byte(op) == 0x65 {
            lemma_load_regs_len(s.regs, s.mem, s.index as int, reg_x(op));
        }
    }
}

/// One cycle on a well-formed machine yields a well-formed machine.
pub proof fn lemma_tick_wf(s: Machine, r: u8)
    requires
        s.wf(),
    ensures
        tick_spec(s, r).wf(),
{
    lemma_exec_op_wf(Machine { pc: mem_addr(s.pc + 2), ..s }, fetch_word(s), r);
}

// ---------------------------------------------------------------------------
// Frames grow one cycle at a time
// ---------------------------------------------------------------------------

/// Appending one cycle to a batch runs that cycle on the batch's result.
#[verifier::rlimit(60)]
pub proof fn lemma_frame_push(s: Machine, rs: Seq<u8>, r: u8)
    ensures
        frame_spec(s, rs.push(r)) == tick_spec(frame_spec(s, rs), r),
        frame_running(s, rs.push(r)) == (frame_running(s, rs) || tick_running(
            tick_spec(frame_spec(s, rs), r),
        )),
    decreases rs.len(),
{
    if rs.len() == 0 {
        reveal_with_fuel(frame_spec, 2);
        reveal_with_fuel(frame_running, 2);
        assert(rs.push(r)[0] == r);
        assert(rs.push(r).drop_first() =~= Seq::<u8>::empty());
        assert(frame_spec(s, rs.push(r)) == tick_spec(s, r));
        assert(frame_spec(s, rs) == s);
        assert(frame_running(s, rs.push(r)) == tick_running(tick_spec(s, r)));
    } else {
        assert(rs.push(r)[0] == rs[0]);
        assert(rs.push(r).drop_first() =~= rs.drop_first().push(r));
        lemma_frame_push(tick_spec(s, rs[0]), rs.drop_first(), r);
        assert(frame_spec(s, rs.push(r)) == frame_spec(
            tick_spec(s, rs[0]),
            rs.drop_first().push(r),
        ));
        assert(frame_spec(s, rs) == frame_spec(tick_spec(s, rs[0]), rs.drop_first()));
    }
}

} // verus!
