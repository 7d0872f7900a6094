//! Laws of the instruction set, proved against the model.
//!
//! Each proof function states a behaviour of the machine for all states that
//! meet its premises, over the same specification functions the executable
//! interpreter is proved to follow.

use vstd::prelude::*;

use crate::model::{
    apply_toggles, draw_bits, draw_rows, exec_op_spec, fetch_word, group_of, key_index, low_byte,
    low_nibble, mem_addr, pixel_at, reg_x, reg_y, row_toggles, sprite_bit, sprite_toggles,
    sprite_toggles_of, tick_spec, toggle_pixel, toggles_in_range, wrap_u16, Machine, HEIGHT,
    MAX_INDEX, MEM_SIZE, WIDTH,
};

verus! {

/// Adding a register that holds 200 to itself wraps to 144 (200 + 200 modulo
/// 256) and sets the flag register to 1, whichever register it is (the flag
/// register itself excepted: there the result overwrites the flag).
pub proof fn lemma_add_with_carry_wraps(s: Machine, op: u16, r: u8)
    requires
        s.wf(),
        group_of(op) == 0x8,
        low_nibble(op) == 0x4,
        reg_y(op) == reg_x(op),
        reg_x(op) != 0xF,
        s.regs[reg_x(op)] == 200,
    ensures
        exec_op_spec(s, op, r).regs[reg_x(op)] == 144,
        exec_op_spec(s, op, r).regs[0xF] == 1,
{
}

/// Subtracting a register that holds 10 from one that holds 5 wraps to 251
/// and sets the flag register to 1 (borrow taken).
pub proof fn lemma_subtract_with_borrow_wraps(s: Machine, op: u16, r: u8)
    requires
        s.wf(),
        group_of(op) == 0x8,
        low_nibble(op) == 0x5,
        reg_x(op) != 0xF,
        s.regs[reg_x(op)] == 5,
        s.regs[reg_y(op)] == 10,
    ensures
        exec_op_spec(s, op, r).regs[reg_x(op)] == 251,
        exec_op_spec(s, op, r).regs[0xF] == 1,
{
}

/// A subroutine call followed by a return resumes at the instruction after
/// the call, with the stack pointer back at its pre-call value.
pub proof fn lemma_call_then_return(s: Machine, r1: u8, r2: u8)
    requires
        s.wf(),
        s.sp < 15,
        fetch_word(s) == 0x2204,
        s.mem[0x204] == 0x00,
        s.mem[0x205] == 0xEE,
    ensures
        tick_spec(tick_spec(s, r1), r2).pc == mem_addr(s.pc + 2),
        tick_spec(tick_spec(s, r1), r2).sp == s.sp,
{
    let s1 = tick_spec(s, r1);
    assert(s1.pc == 0x204);
    assert(s1.sp == s.sp + 1);
    assert(s1.stack[s.sp + 1] == mem_addr(s.pc + 2));
    assert(s1.mem == s.mem);
    assert(fetch_word(s1) == 0x00EE);
}

/// Skip-if-equal-literal advances the program counter by 4 in total from its
/// pre-fetch position when the register matches the literal, and by 2 when
/// it does not.
pub proof fn lemma_skip_if_equal_literal(s: Machine, r: u8)
    requires
        s.wf(),
        group_of(fetch_word(s)) == 0x3,
    ensures
        s.regs[reg_x(fetch_word(s))] == low_byte(fetch_word(s)) ==> tick_spec(s, r).pc == mem_addr(
            s.pc + 4,
        ),
        s.regs[reg_x(fetch_word(s))] != low_byte(fetch_word(s)) ==> tick_spec(s, r).pc == mem_addr(
            s.pc + 2,
        ),
{
}

/// While the input mask is unchanged since the previous cycle, the blocking
/// key wait leaves the program counter where it was, so the instruction
/// re-executes on the next cycle.
#[verifier::rlimit(60)]
pub proof fn lemma_key_wait_blocks(s: Machine, r: u8)
    requires
        s.wf(),
        group_of(fetch_word(s)) == 0xF,
        low_byte(fetch_word(s)) == 0x0A,
        s.prev_input == s.input,
    ensures
        tick_spec(s, r).pc == s.pc,
{
}

/// On the cycle where the input mask has changed from 0b0000_0000 to
/// 0b0000_0010, the key wait stores key index 1 in its destination register
/// and lets the program counter move on.
pub proof fn lemma_key_wait_observes_change(s: Machine, r: u8)
    requires
        s.wf(),
        group_of(fetch_word(s)) == 0xF,
        low_byte(fetch_word(s)) == 0x0A,
        s.prev_input == 0b0000_0000,
        s.input == 0b0000_0010,
    ensures
        tick_spec(s, r).regs[reg_x(fetch_word(s))] == 1,
        tick_spec(s, r).pc == mem_addr(s.pc + 2),
{
    assert((0b0000_0010u16 ^ 0b0000_0000u16) == 2) by (bit_vector);
    reveal_with_fuel(key_index, 3);
}

/// Storing registers 0, 1, 2 to memory at the index register and loading
/// them back from the same base address round-trips their values exactly,
/// and each transfer leaves the index register advanced by 3 + 1 from its
/// pre-transfer value.
pub proof fn lemma_block_transfer_round_trip(s: Machine, r1: u8, r2: u8)
    requires
        s.wf(),
    ensures
        ({
            let stored = exec_op_spec(s, 0xF355, r1);
            let reloaded = exec_op_spec(Machine { index: s.index, ..stored }, 0xF365, r2);
            &&& reloaded.regs[0] == s.regs[0]
            &&& reloaded.regs[1] == s.regs[1]
            &&& reloaded.regs[2] == s.regs[2]
            &&& stored.index == wrap_u16(s.index + 4)
            &&& reloaded.index == wrap_u16(s.index + 4)
        }),
{
    let base = s.index as int;
    let stored = exec_op_spec(s, 0xF355, r1);
    let reloaded = exec_op_spec(Machine { index: s.index, ..stored }, 0xF365, r2);
    reveal_with_fuel(crate::model::store_regs, 4);
    reveal_with_fuel(crate::model::load_regs, 4);
    lemma_mod_injective(base, base + 1, MEM_SIZE as int);
    lemma_mod_injective(base, base + 2, MEM_SIZE as int);
    lemma_mod_injective(base + 1, base + 2, MEM_SIZE as int);
    assert(stored.mem[mem_addr(base)] == s.regs[0]);
    assert(stored.mem[mem_addr(base + 1)] == s.regs[1]);
    assert(stored.mem[mem_addr(base + 2)] == s.regs[2]);
}

// ---------------------------------------------------------------------------
// Sprite drawing as a list of pixel toggles
// ---------------------------------------------------------------------------

/// Toggling a list of pixels in order, one sublist after the other.
pub proof fn lemma_apply_concat(vmem: Seq<u8>, a: Seq<int>, b: Seq<int>)
    ensures
        apply_toggles(vmem, a + b) == apply_toggles(apply_toggles(vmem, a), b),
    decreases a.len(),
{
    if a.len() == 0 {
        assert(a + b =~= b);
    } else {
        assert((a + b)[0] == a[0]);
        assert((a + b).drop_first() =~= a.drop_first() + b);
        lemma_apply_concat(toggle_pixel(vmem, a[0]), a.drop_first(), b);
    }
}

/// Toggles of two pixels commute.
pub proof fn lemma_toggle_comm(vmem: Seq<u8>, p: int, q: int)
    requires
        vmem.len() == MAX_INDEX,
        0 <= p < WIDTH * HEIGHT,
        0 <= q < WIDTH * HEIGHT,
    ensures
        toggle_pixel(toggle_pixel(vmem, p), q) == toggle_pixel(toggle_pixel(vmem, q), p),
{
    if p != q {
        assert(toggle_pixel(toggle_pixel(vmem, p), q) =~= toggle_pixel(toggle_pixel(vmem, q), p));
    }
}

/// Toggling the same pixel twice restores the display.
pub proof fn lemma_toggle_invol(vmem: Seq<u8>, p: int)
    requires
        vmem.len() == MAX_INDEX,
        0 <= p < WIDTH * HEIGHT,
    ensures
        toggle_pixel(toggle_pixel(vmem, p), p) == vmem,
{
    assert(toggle_pixel(toggle_pixel(vmem, p), p) =~= vmem);
}

/// A single toggle commutes with a whole list of toggles.
pub proof fn lemma_apply_toggle_comm(vmem: Seq<u8>, ts: Seq<int>, p: int)
    requires
        vmem.len() == MAX_INDEX,
        toggles_in_range(ts),
        0 <= p < WIDTH * HEIGHT,
    ensures
        apply_toggles(toggle_pixel(vmem, p), ts) == toggle_pixel(apply_toggles(vmem, ts), p),
    decreases ts.len(),
{
    if ts.len() != 0 {
        assert(toggles_in_range(ts.drop_first()));
        lemma_toggle_comm(vmem, p, ts[0]);
        lemma_apply_toggle_comm(toggle_pixel(vmem, ts[0]), ts.drop_first(), p);
    }
}

/// Toggling the same list of pixels twice restores the display.
pub proof fn lemma_apply_twice(vmem: Seq<u8>, ts: Seq<int>)
    requires
        vmem.len() == MAX_INDEX,
        toggles_in_range(ts),
    ensures
        apply_toggles(apply_toggles(vmem, ts), ts) == vmem,
    decreases ts.len(),
{
    if ts.len() != 0 {
        let t = ts[0];
        let rest = ts.drop_first();
        assert(toggles_in_range(rest));
        let v1 = toggle_pixel(vmem, t);
        lemma_apply_toggle_comm(v1, rest, t);
        lemma_toggle_invol(vmem, t);
        lemma_apply_twice(vmem, rest);
        assert(apply_toggles(apply_toggles(vmem, ts), ts) == apply_toggles(
            toggle_pixel(apply_toggles(v1, rest), t),
            rest,
        ));
        assert(toggle_pixel(apply_toggles(v1, rest), t) == apply_toggles(
            toggle_pixel(v1, t),
            rest,
        ));
    }
}

/// The display a row of sprite bits produces is its toggle list applied.
pub proof fn lemma_draw_bits_apply(vmem: Seq<u8>, col: bool, b: u8, y: int, x: int, nbits: int)
    ensures
        draw_bits(vmem, col, b, y, x, nbits).0 == apply_toggles(vmem, row_toggles(b, y, x, nbits)),
    decreases nbits,
{
    if nbits <= 0 {
    } else {
        lemma_draw_bits_apply(vmem, col, b, y, x, nbits - 1);
        let prev_row = row_toggles(b, y, x, nbits - 1);
        if sprite_bit(b, nbits - 1) {
            let p = pixel_at(y, x + (nbits - 1));
            lemma_apply_concat(vmem, prev_row, seq![p]);
            reveal_with_fuel(apply_toggles, 2);
            assert(seq![p][0] == p);
            assert(seq![p].drop_first() =~= Seq::<int>::empty());
            assert(apply_toggles(apply_toggles(vmem, prev_row), seq![p]) == toggle_pixel(
                apply_toggles(vmem, prev_row),
                p,
            ));
        } else {
            assert(row_toggles(b, y, x, nbits) =~= prev_row);
        }
    }
}

/// The display a sprite produces is its toggle list applied.
pub proof fn lemma_draw_rows_apply(
    vmem: Seq<u8>,
    col: bool,
    mem: Seq<u8>,
    base: int,
    y: int,
    x: int,
    nrows: int,
)
    ensures
        draw_rows(vmem, col, mem, base, y, x, nrows).0 == apply_toggles(
            vmem,
            sprite_toggles(mem, base, y, x, nrows),
        ),
    decreases nrows,
{
    if nrows <= 0 {
    } else {
        lemma_draw_rows_apply(vmem, col, mem, base, y, x, nrows - 1);
        let prev = draw_rows(vmem, col, mem, base, y, x, nrows - 1);
        let row = row_toggles(mem[mem_addr(base + (nrows - 1))], y + (nrows - 1), x, 8);
        lemma_draw_bits_apply(prev.0, prev.1, mem[mem_addr(base + (nrows - 1))], y + (nrows - 1), x, 8);
        lemma_apply_concat(vmem, sprite_toggles(mem, base, y, x, nrows - 1), row);
    }
}

/// Whether `t` is one of the pixels of sprite row `y` starting at column
/// `x`, within the first `nbits` bit positions.
pub open spec fn is_row_pixel(t: int, y: int, x: int, nbits: int) -> bool {
    exists|bb: int| 0 <= bb < nbits && t == #[trigger] pixel_at(y, x + bb)
}

/// Whether `t` is one of the pixels of an `nrows`-row sprite at `(x, y)`.
pub open spec fn is_sprite_pixel(t: int, y: int, x: int, nrows: int) -> bool {
    exists|rr: int, bb: int|
        0 <= rr < nrows && 0 <= bb < 8 && t == #[trigger] pixel_at(y + rr, x + bb)
}

/// The toggles of one sprite row lie in its own row of pixels: each is a
/// valid pixel of that row, and no pixel appears twice.
pub proof fn lemma_row_toggles_props(b: u8, y: int, x: int, nbits: int)
    requires
        0 <= x,
        0 <= y,
        nbits <= 8,
    ensures
        toggles_in_range(row_toggles(b, y, x, nbits)),
        row_toggles(b, y, x, nbits).no_duplicates(),
        forall|i: int|
            0 <= i < row_toggles(b, y, x, nbits).len() ==> is_row_pixel(
                #[trigger] row_toggles(b, y, x, nbits)[i],
                y,
                x,
                nbits,
            ),
    decreases nbits,
{
    if nbits > 0 {
        lemma_row_toggles_props(b, y, x, nbits - 1);
        let prev = row_toggles(b, y, x, nbits - 1);
        let cur = row_toggles(b, y, x, nbits);
        assert forall|i: int| 0 <= i < prev.len() implies is_row_pixel(
            #[trigger] cur[i],
            y,
            x,
            nbits,
        ) by {
            assert(is_row_pixel(prev[i], y, x, nbits - 1));
            let bb = choose|bb: int| 0 <= bb < nbits - 1 && prev[i] == #[trigger] pixel_at(y, x + bb);
            assert(cur[i] == prev[i]);
            assert(cur[i] == pixel_at(y, x + bb));
        }
        if sprite_bit(b, nbits - 1) {
            let p = pixel_at(y, x + (nbits - 1));
            assert(cur.len() == prev.len() + 1);
            assert(cur[cur.len() - 1] == p);
            assert(0 <= p < WIDTH * HEIGHT);
            assert(is_row_pixel(p, y, x, nbits));
            assert forall|i: int| 0 <= i < prev.len() implies prev[i] != p by {
                assert(is_row_pixel(prev[i], y, x, nbits - 1));
                let bb = choose|bb: int|
                    0 <= bb < nbits - 1 && prev[i] == #[trigger] pixel_at(y, x + bb);
                lemma_mod_injective(
                    y * (WIDTH as int) + x + bb,
                    y * (WIDTH as int) + x + (nbits - 1),
                    (WIDTH * HEIGHT) as int,
                );
            }
            assert(cur.no_duplicates());
        } else {
            assert(cur =~= prev);
        }
    }
}

/// The toggles of a whole sprite are valid pixels of the sprite's rows, and
/// no pixel appears twice.
pub proof fn lemma_sprite_toggles_props(mem: Seq<u8>, base: int, y: int, x: int, nrows: int)
    requires
        0 <= x,
        0 <= y,
        nrows <= 32,
    ensures
        toggles_in_range(sprite_toggles(mem, base, y, x, nrows)),
        sprite_toggles(mem, base, y, x, nrows).no_duplicates(),
        forall|i: int|
            0 <= i < sprite_toggles(mem, base, y, x, nrows).len() ==> is_sprite_pixel(
                #[trigger] sprite_toggles(mem, base, y, x, nrows)[i],
                y,
                x,
                nrows,
            ),
    decreases nrows,
{
    if nrows > 0 {
        lemma_sprite_toggles_props(mem, base, y, x, nrows - 1);
        lemma_row_toggles_props(mem[mem_addr(base + (nrows - 1))], y + (nrows - 1), x, 8);
        let prev = sprite_toggles(mem, base, y, x, nrows - 1);
        let row = row_toggles(mem[mem_addr(base + (nrows - 1))], y + (nrows - 1), x, 8);
        let cur = sprite_toggles(mem, base, y, x, nrows);
        assert(cur.len() == prev.len() + row.len());
        assert(forall|i: int| 0 <= i < prev.len() ==> cur[i] == prev[i]);
        assert(forall|i: int| 0 <= i < row.len() ==> cur[prev.len() + i] == row[i]);
        assert forall|i: int, j: int|
            0 <= i < prev.len() && 0 <= j < row.len() implies prev[i] != row[j] by {
            assert(is_sprite_pixel(prev[i], y, x, nrows - 1));
            assert(is_row_pixel(row[j], y + (nrows - 1), x, 8));
            let (rr, bb) = choose|rr: int, bb: int|
                0 <= rr < nrows - 1 && 0 <= bb < 8 && prev[i] == #[trigger] pixel_at(
                    y + rr,
                    x + bb,
                );
            let bj = choose|bj: int|
                0 <= bj < 8 && row[j] == #[trigger] pixel_at(y + (nrows - 1), x + bj);
            lemma_mod_injective(
                (y + rr) * (WIDTH as int) + x + bb,
                (y + (nrows - 1)) * (WIDTH as int) + x + bj,
                (WIDTH * HEIGHT) as int,
            );
        }
        assert forall|i: int, j: int|
            0 <= i < cur.len() && 0 <= j < cur.len() && i != j implies cur[i] != cur[j] by {
            if i < prev.len() && j < prev.len() {
                assert(prev[i] != prev[j]);
            } else if i >= prev.len() && j >= prev.len() {
                assert(row[i - prev.len()] != row[j - prev.len()]);
            } else if i < prev.len() {
                assert(cur[i] == prev[i]);
                assert(cur[j] == row[j - prev.len()]);
                assert(prev[i] != row[j - prev.len()]);
            } else {
                assert(cur[j] == prev[j]);
                assert(cur[i] == row[i - prev.len()]);
                assert(prev[j] != row[i - prev.len()]);
            }
        }
        assert forall|i: int| 0 <= i < cur.len() implies is_sprite_pixel(
            #[trigger] cur[i],
            y,
            x,
            nrows,
        ) by {
            if i < prev.len() {
                assert(is_sprite_pixel(prev[i], y, x, nrows - 1));
                let (rr, bb) = choose|rr: int, bb: int|
                    0 <= rr < nrows - 1 && 0 <= bb < 8 && prev[i] == #[trigger] pixel_at(
                        y + rr,
                        x + bb,
                    );
                assert(cur[i] == pixel_at(y + rr, x + bb));
            } else {
                assert(is_row_pixel(row[i - prev.len()], y + (nrows - 1), x, 8));
                let bj = choose|bj: int|
                    0 <= bj < 8 && row[i - prev.len()] == #[trigger] pixel_at(
                        y + (nrows - 1),
                        x + bj,
                    );
                assert(cur[i] == pixel_at(y + (nrows - 1), x + bj));
            }
        }
    }
}

/// A pixel no toggle in the list names keeps all four of its bytes.
pub proof fn lemma_apply_untouched(vmem: Seq<u8>, ts: Seq<int>, q: int)
    requires
        vmem.len() == MAX_INDEX,
        toggles_in_range(ts),
        0 <= q < WIDTH * HEIGHT,
        forall|i: int| 0 <= i < ts.len() ==> #[trigger] ts[i] != q,
    ensures
        apply_toggles(vmem, ts)[4 * q] == vmem[4 * q],
    decreases ts.len(),
{
    if ts.len() != 0 {
        assert(toggles_in_range(ts.drop_first()));
        lemma_apply_untouched(toggle_pixel(vmem, ts[0]), ts.drop_first(), q);
    }
}

/// Toggling a list of distinct dark pixels lights every one of them.
pub proof fn lemma_apply_lights(vmem: Seq<u8>, ts: Seq<int>)
    requires
        vmem.len() == MAX_INDEX,
        toggles_in_range(ts),
        ts.no_duplicates(),
        forall|i: int| 0 <= i < ts.len() ==> vmem[4 * #[trigger] ts[i]] == 0,
    ensures
        forall|i: int|
            0 <= i < ts.len() ==> apply_toggles(vmem, ts)[4 * #[trigger] ts[i]] == 0xFF,
    decreases ts.len(),
{
    if ts.len() != 0 {
        let t = ts[0];
        let rest = ts.drop_first();
        let v1 = toggle_pixel(vmem, t);
        assert(toggles_in_range(rest));
        assert(rest.no_duplicates());
        assert(v1[4 * t] == 0xFF);
        assert forall|i: int| 0 <= i < rest.len() implies v1[4 * #[trigger] rest[i]] == 0 by {
            assert(rest[i] == ts[i + 1]);
            assert(ts[i + 1] != t);
        }
        lemma_apply_lights(v1, rest);
        assert forall|i: int| 0 <= i < rest.len() implies #[trigger] rest[i] != t by {
            assert(rest[i] == ts[i + 1]);
        }
        lemma_apply_untouched(v1, rest, t);
        assert forall|i: int|
            0 <= i < ts.len() implies apply_toggles(vmem, ts)[4 * #[trigger] ts[i]] == 0xFF by {
            if i == 0 {
                assert(apply_toggles(vmem, ts) == apply_toggles(v1, rest));
            } else {
                assert(ts[i] == rest[i - 1]);
            }
        }
    }
}

/// A latched collision stays latched for the rest of a row.
pub proof fn lemma_draw_bits_col_latched(vmem: Seq<u8>, b: u8, y: int, x: int, nbits: int)
    ensures
        draw_bits(vmem, true, b, y, x, nbits).1,
    decreases nbits,
{
    if nbits > 0 {
        lemma_draw_bits_col_latched(vmem, b, y, x, nbits - 1);
    }
}

/// A latched collision stays latched for the rest of a sprite.
pub proof fn lemma_draw_rows_col_latched(
    vmem: Seq<u8>,
    mem: Seq<u8>,
    base: int,
    y: int,
    x: int,
    nrows: int,
)
    ensures
        draw_rows(vmem, true, mem, base, y, x, nrows).1,
    decreases nrows,
{
    if nrows > 0 {
        lemma_draw_rows_col_latched(vmem, mem, base, y, x, nrows - 1);
        let prev = draw_rows(vmem, true, mem, base, y, x, nrows - 1);
        lemma_draw_bits_col_latched(prev.0, mem[mem_addr(base + (nrows - 1))], y + (nrows - 1), x, 8);
    }
}

/// A row with no toggles changes nothing.
pub proof fn lemma_draw_bits_no_toggles(vmem: Seq<u8>, col: bool, b: u8, y: int, x: int, nbits: int)
    requires
        row_toggles(b, y, x, nbits).len() == 0,
    ensures
        draw_bits(vmem, col, b, y, x, nbits).0 == vmem,
        draw_bits(vmem, col, b, y, x, nbits).1 == col,
    decreases nbits,
{
    if nbits > 0 {
        assert(row_toggles(b, y, x, nbits - 1).len() == 0);
        lemma_draw_bits_no_toggles(vmem, col, b, y, x, nbits - 1);
    }
}

/// A sprite with no toggles changes nothing.
pub proof fn lemma_draw_rows_no_toggles(
    vmem: Seq<u8>,
    col: bool,
    mem: Seq<u8>,
    base: int,
    y: int,
    x: int,
    nrows: int,
)
    requires
        sprite_toggles(mem, base, y, x, nrows).len() == 0,
    ensures
        draw_rows(vmem, col, mem, base, y, x, nrows).0 == vmem,
        draw_rows(vmem, col, mem, base, y, x, nrows).1 == col,
    decreases nrows,
{
    if nrows > 0 {
        assert(sprite_toggles(mem, base, y, x, nrows - 1).len() == 0);
        lemma_draw_rows_no_toggles(vmem, col, mem, base, y, x, nrows - 1);
        lemma_draw_bits_no_toggles(
            vmem,
            col,
            mem[mem_addr(base + (nrows - 1))],
            y + (nrows - 1),
            x,
            8,
        );
    }
}

/// If the first pixel a row would toggle is lit, the row reports a
/// collision.
pub proof fn lemma_draw_bits_first_lit(vmem: Seq<u8>, b: u8, y: int, x: int, nbits: int)
    requires
        row_toggles(b, y, x, nbits).len() > 0,
        vmem[4 * row_toggles(b, y, x, nbits)[0]] > 0,
    ensures
        draw_bits(vmem, false, b, y, x, nbits).1,
    decreases nbits,
{
    if nbits > 0 {
        let prev_row = row_toggles(b, y, x, nbits - 1);
        if prev_row.len() > 0 {
            assert(row_toggles(b, y, x, nbits)[0] == prev_row[0]);
            lemma_draw_bits_first_lit(vmem, b, y, x, nbits - 1);
            if sprite_bit(b, nbits - 1) {
                assert(draw_bits(vmem, false, b, y, x, nbits).1);
            }
        } else {
            assert(sprite_bit(b, nbits - 1));
            lemma_draw_bits_no_toggles(vmem, false, b, y, x, nbits - 1);
            assert(row_toggles(b, y, x, nbits)[0] == pixel_at(y, x + (nbits - 1)));
        }
    }
}

/// If the first pixel a sprite would toggle is lit, the draw reports a
/// collision.
pub proof fn lemma_draw_rows_first_lit(
    vmem: Seq<u8>,
    mem: Seq<u8>,
    base: int,
    y: int,
    x: int,
    nrows: int,
)
    requires
        sprite_toggles(mem, base, y, x, nrows).len() > 0,
        vmem[4 * sprite_toggles(mem, base, y, x, nrows)[0]] > 0,
    ensures
        draw_rows(vmem, false, mem, base, y, x, nrows).1,
    decreases nrows,
{
    if nrows > 0 {
        let prev_ts = sprite_toggles(mem, base, y, x, nrows - 1);
        let row = row_toggles(mem[mem_addr(base + (nrows - 1))], y + (nrows - 1), x, 8);
        if prev_ts.len() > 0 {
            assert(sprite_toggles(mem, base, y, x, nrows)[0] == prev_ts[0]);
            lemma_draw_rows_first_lit(vmem, mem, base, y, x, nrows - 1);
            let prev = draw_rows(vmem, false, mem, base, y, x, nrows - 1);
            lemma_draw_bits_col_latched(
                prev.0,
                mem[mem_addr(base + (nrows - 1))],
                y + (nrows - 1),
                x,
                8,
            );
        } else {
            lemma_draw_rows_no_toggles(vmem, false, mem, base, y, x, nrows - 1);
            assert(sprite_toggles(mem, base, y, x, nrows)[0] == row[0]);
            lemma_draw_bits_first_lit(vmem, mem[mem_addr(base + (nrows - 1))], y + (nrows - 1), x, 8);
        }
    }
}

// ---------------------------------------------------------------------------
// The double-draw law
// ---------------------------------------------------------------------------

/// Drawing the same sprite at the same location twice toggles every touched
/// pixel back to its original state: the display is restored exactly.  The
/// two register operands must not be the flag register, which the first draw
/// overwrites with its collision result.
pub proof fn lemma_draw_twice_restores(s: Machine, op: u16, r1: u8, r2: u8)
    requires
        s.wf(),
        group_of(op) == 0xD,
        reg_x(op) != 0xF,
        reg_y(op) != 0xF,
    ensures
        exec_op_spec(exec_op_spec(s, op, r1), op, r2).vmem == s.vmem,
{
    let x = s.regs[reg_x(op)] as int;
    let y = s.regs[reg_y(op)] as int;
    let n = low_nibble(op);
    let base = s.index as int;
    let ts = sprite_toggles(s.mem, base, y, x, n);
    let s1 = exec_op_spec(s, op, r1);
    lemma_sprite_toggles_props(s.mem, base, y, x, n);
    lemma_draw_rows_apply(s.vmem, false, s.mem, base, y, x, n);
    lemma_draw_rows_apply(s1.vmem, false, s.mem, base, y, x, n);
    lemma_apply_twice(s.vmem, ts);
}

/// The second of two identical draws reports a collision, provided the
/// sprite toggles at least one pixel and every pixel it touches starts dark.
pub proof fn lemma_second_draw_collides(s: Machine, op: u16, r1: u8, r2: u8)
    requires
        s.wf(),
        group_of(op) == 0xD,
        reg_x(op) != 0xF,
        reg_y(op) != 0xF,
        sprite_toggles_of(s, op).len() > 0,
        forall|i: int|
            0 <= i < sprite_toggles_of(s, op).len() ==> s.vmem[4 * #[trigger] sprite_toggles_of(
                s,
                op,
            )[i]] == 0,
    ensures
        exec_op_spec(exec_op_spec(s, op, r1), op, r2).regs[0xF] == 1,
{
    let x = s.regs[reg_x(op)] as int;
    let y = s.regs[reg_y(op)] as int;
    let n = low_nibble(op);
    let base = s.index as int;
    let ts = sprite_toggles(s.mem, base, y, x, n);
    let s1 = exec_op_spec(s, op, r1);
    lemma_sprite_toggles_props(s.mem, base, y, x, n);
    lemma_draw_rows_apply(s.vmem, false, s.mem, base, y, x, n);
    lemma_apply_lights(s.vmem, ts);
    assert(s1.vmem[4 * ts[0]] == 0xFF);
    lemma_draw_rows_first_lit(s1.vmem, s.mem, base, y, x, n);
}

/// Two distinct values less than one modulus apart have distinct remainders.
pub proof fn lemma_mod_injective(a: int, b: int, m: int)
    requires
        0 <= a,
        0 <= b,
        a != b,
        0 < m,
        -m < a - b < m,
    ensures
        a % m != b % m,
{
    vstd::arithmetic::div_mod::lemma_fundamental_div_mod(a, m);
    vstd::arithmetic::div_mod::lemma_fundamental_div_mod(b, m);
    if a % m == b % m {
        let k = a / m - b / m;
        assert(a - b == m * k) by (nonlinear_arith)
            requires
                a == m * (a / m) + a % m,
                b == m * (b / m) + b % m,
                a % m == b % m,
                k == a / m - b / m,
        ;
        if k >= 1 {
            assert(m * k >= m) by (nonlinear_arith)
                requires
                    k >= 1,
                    m > 0,
            ;
        } else if k <= -1 {
            assert(m * k <= -m) by (nonlinear_arith)
                requires
                    k <= -1,
                    m > 0,
            ;
        }
    }
}

} // verus!
