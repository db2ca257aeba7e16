//! Laws of the interpreter: properties that relate several steps or
//! several states, proved once and for all from the step relation.
use vstd::prelude::*;
use crate::opcode::{lemma_field_bounds, op_family, op_n, op_x, op_y};
use crate::state::{MachineView, StepError, initial_mem_byte, is_initial, view_wf, MEMORY_SIZE};
use crate::step_spec::{
    cycle_rel, draw_collides, first_pressed_from, skip_pc, sprite_hits, step_rel, with_reg,
};

verus! {

/// Law: a reset machine is byte-identical to a freshly constructed one —
/// registers, memory, stack, timers, keypad and framebuffer all zero
/// except the installed font table, with the program counter at the
/// program load address. Both operations ensure `is_initial`, and the
/// initial state is unique.
pub proof fn lemma_reset_matches_new(a: MachineView, b: MachineView)
    requires
        is_initial(a),
        is_initial(b),
    ensures
        a == b,
{
    assert forall|i: int| 0 <= i < 4096 implies a.mem[i] == b.mem[i] by {
        assert(a.mem[i] == initial_mem_byte(i));
        assert(b.mem[i] == initial_mem_byte(i));
    }
    assert(a.mem =~= b.mem);
    assert(a =~= b);
}

/// Law: for every arithmetic instruction with a defined flag outcome
/// (add with carry, both subtractions with borrow, both shifts), the
/// flag written to register 15 and the result written to register `x`
/// are determined by the operand registers alone: two machines that
/// differ only in the flag register's prior value produce the same flag
/// and the same result. The operand registers must not themselves be the
/// flag register, else the operand is the prior flag.
pub proof fn lemma_flag_independent_of_prior_flag(
    pre1: MachineView,
    post1: MachineView,
    pre2: MachineView,
    post2: MachineView,
    hi: u8,
    lo: u8,
    r1: Result<(), StepError>,
    r2: Result<(), StepError>,
)
    requires
        view_wf(pre1),
        op_family(hi) == 0x8,
        op_n(lo) == 0x4 || op_n(lo) == 0x5 || op_n(lo) == 0x6 || op_n(lo) == 0x7 || op_n(lo)
            == 0xE,
        op_x(hi) != 15,
        op_y(lo) != 15,
        pre2 == (MachineView { regs: pre1.regs.update(15, pre2.regs[15]), ..pre1 }),
        step_rel(pre1, post1, hi, lo, r1),
        step_rel(pre2, post2, hi, lo, r2),
    ensures
        r1 is Ok,
        r2 is Ok,
        post1.regs[15] == post2.regs[15],
        post1.regs[op_x(hi) as int] == post2.regs[op_x(hi) as int],
{
    lemma_field_bounds(hi, lo);
    assert(pre2.regs[op_x(hi) as int] == pre1.regs[op_x(hi) as int]);
    assert(pre2.regs[op_y(lo) as int] == pre1.regs[op_y(lo) as int]);
}

/// Law: clear-screen followed by a draw leaves the machine in exactly
/// the state that the single draw produces from a blank screen: two
/// machines that differ only in what is on screen agree on everything
/// after clearing and drawing. The clear is idempotent and erases all
/// history of the framebuffer.
pub proof fn lemma_clear_then_draw(
    pre1: MachineView,
    mid1: MachineView,
    post1: MachineView,
    pre2: MachineView,
    mid2: MachineView,
    post2: MachineView,
    hi: u8,
    lo: u8,
    rc1: Result<(), StepError>,
    rc2: Result<(), StepError>,
    rd1: Result<(), StepError>,
    rd2: Result<(), StepError>,
)
    requires
        op_family(hi) == 0xD,
        pre2 == (MachineView { video: pre2.video, ..pre1 }),
        step_rel(pre1, mid1, 0x00, 0xE0, rc1),
        step_rel(pre2, mid2, 0x00, 0xE0, rc2),
        step_rel(mid1, post1, hi, lo, rd1),
        step_rel(mid2, post2, hi, lo, rd2),
    ensures
        post1 == post2,
        rd1 is Ok <==> rd2 is Ok,
{
    lemma_field_bounds(hi, lo);
    assert(op_family(0x00) == 0x0) by (bit_vector);
    assert(mid1 =~= mid2);
}

/// Law: drawing the same sprite twice at the same position with no other
/// state change restores the framebuffer exactly (each toggle is its own
/// inverse); and if some toggled cell was unlit before the first draw,
/// the second draw finds it lit and reports a collision in the flag
/// register. The origin registers must not be the flag register, which
/// the first draw overwrites.
pub proof fn lemma_draw_twice_restores(
    pre: MachineView,
    mid: MachineView,
    post: MachineView,
    hi: u8,
    lo: u8,
    r1: Result<(), StepError>,
    r2: Result<(), StepError>,
)
    requires
        view_wf(pre),
        op_family(hi) == 0xD,
        op_x(hi) != 15,
        op_y(lo) != 15,
        pre.index + op_n(lo) <= MEMORY_SIZE,
        step_rel(pre, mid, hi, lo, r1),
        step_rel(mid, post, hi, lo, r2),
    ensures
        r1 is Ok,
        r2 is Ok,
        post.video == pre.video,
        post.mem == pre.mem,
        post.pc == pre.pc,
        post.index == pre.index,
        post.sp == pre.sp,
        post.stack == pre.stack,
        post.delay == pre.delay,
        post.sound == pre.sound,
        post.keys == pre.keys,
        forall|i: int| 0 <= i < 16 && i != 15 ==> post.regs[i] == pre.regs[i],
        (exists|cell: int|
            0 <= cell < 2048 && !pre.video[cell] && sprite_hits(
                pre.mem,
                pre.index as int,
                pre.regs[op_x(hi) as int] as int % 64,
                pre.regs[op_y(lo) as int] as int % 32,
                op_n(lo) as int,
                cell,
            )) ==> post.regs[15] == 1,
{
    lemma_field_bounds(hi, lo);
    let x = op_x(hi) as int;
    let y = op_y(lo) as int;
    let n = op_n(lo) as int;
    let xp = pre.regs[x] as int % 64;
    let yp = pre.regs[y] as int % 32;
    let idx = pre.index as int;
    assert(mid.regs[x] == pre.regs[x]);
    assert(mid.regs[y] == pre.regs[y]);
    assert(post.video =~= pre.video);
    if exists|cell: int|
        0 <= cell < 2048 && !pre.video[cell] && sprite_hits(pre.mem, idx, xp, yp, n, cell) {
        let cell = choose|cell: int|
            0 <= cell < 2048 && !pre.video[cell] && sprite_hits(pre.mem, idx, xp, yp, n, cell);
        assert(mid.video[cell]);
        assert(draw_collides(mid.mem, idx, xp, yp, n, mid.video));
    }
}

/// No key at or above `k` is pressed exactly when the scan from `k`
/// finds none.
pub proof fn lemma_first_pressed_none(keys: Seq<bool>, k: int)
    requires
        0 <= k <= 16,
    ensures
        k <= first_pressed_from(keys, k) <= 16,
        first_pressed_from(keys, k) == 16 <==> (forall|j: int| k <= j < 16 ==> !keys[j]),
    decreases 16 - k,
{
    if k < 16 {
        lemma_first_pressed_none(keys, k + 1);
    }
}

/// A scan that finds a key returns the lowest pressed index at or above
/// `k`, and that key is pressed.
pub proof fn lemma_first_pressed_found(keys: Seq<bool>, k: int)
    requires
        0 <= k <= 16,
        first_pressed_from(keys, k) < 16,
    ensures
        k <= first_pressed_from(keys, k) < 16,
        keys[first_pressed_from(keys, k)],
        forall|j: int| k <= j < first_pressed_from(keys, k) ==> !keys[j],
    decreases 16 - k,
{
    if k < 16 && !keys[k] {
        lemma_first_pressed_found(keys, k + 1);
    }
}

/// Law: while no key is pressed, a key-wait cycle makes no net progress:
/// the machine afterwards, program counter included, is exactly the
/// machine before.
pub proof fn lemma_key_wait_no_key(pre: MachineView, post: MachineView, r: Result<(), StepError>)
    requires
        view_wf(pre),
        pre.pc + 1 < MEMORY_SIZE,
        op_family(pre.mem[pre.pc as int]) == 0xF,
        pre.mem[pre.pc as int + 1] == 0x0A,
        forall|k: int| 0 <= k < 16 ==> !pre.keys[k],
        cycle_rel(pre, post, r),
    ensures
        r is Ok,
        post == pre,
{
    lemma_field_bounds(pre.mem[pre.pc as int], pre.mem[pre.pc as int + 1]);
    lemma_first_pressed_none(pre.keys, 0);
    assert(post =~= pre);
}

/// Law: the first key-wait cycle after any key becomes pressed proceeds
/// normally: the counter stays advanced past the instruction and the
/// destination register receives the lowest pressed key's index.
pub proof fn lemma_key_wait_key_pressed(
    pre: MachineView,
    post: MachineView,
    r: Result<(), StepError>,
)
    requires
        view_wf(pre),
        pre.pc + 1 < MEMORY_SIZE,
        op_family(pre.mem[pre.pc as int]) == 0xF,
        pre.mem[pre.pc as int + 1] == 0x0A,
        exists|k: int| 0 <= k < 16 && pre.keys[k],
        cycle_rel(pre, post, r),
    ensures
        r is Ok,
        post.pc == pre.pc + 2,
        post == with_reg(
            MachineView { pc: (pre.pc + 2) as u16, ..pre },
            op_x(pre.mem[pre.pc as int]) as int,
            first_pressed_from(pre.keys, 0) as u8,
        ),
        pre.keys[first_pressed_from(pre.keys, 0)],
        forall|j: int| 0 <= j < first_pressed_from(pre.keys, 0) ==> !pre.keys[j],
{
    lemma_field_bounds(pre.mem[pre.pc as int], pre.mem[pre.pc as int + 1]);
    lemma_first_pressed_none(pre.keys, 0);
    assert(first_pressed_from(pre.keys, 0) < 16);
    lemma_first_pressed_found(pre.keys, 0);
    let x = op_x(pre.mem[pre.pc as int]) as int;
    assert(post.pc == pre.pc + 2);
}

/// Law: a call followed by a return restores the program counter to the
/// instruction immediately after the call, and the stack pointer to its
/// pre-call value; registers, memory, timers, keypad and framebuffer are
/// untouched throughout.
pub proof fn lemma_call_return_round_trip(
    pre: MachineView,
    mid: MachineView,
    post: MachineView,
    hi: u8,
    lo: u8,
    r1: Result<(), StepError>,
    r2: Result<(), StepError>,
)
    requires
        view_wf(pre),
        op_family(hi) == 0x2,
        pre.sp < 16,
        step_rel(pre, mid, hi, lo, r1),
        step_rel(mid, post, 0x00, 0xEE, r2),
    ensures
        r1 is Ok,
        r2 is Ok,
        post.pc == pre.pc,
        post.sp == pre.sp,
        post.regs == pre.regs,
        post.mem == pre.mem,
        post.video == pre.video,
        post.keys == pre.keys,
        post.delay == pre.delay,
        post.sound == pre.sound,
        post.index == pre.index,
{
    lemma_field_bounds(hi, lo);
    assert(op_family(0x00) == 0x0) by (bit_vector);
    assert(mid.stack[pre.sp as int] == pre.pc);
}

/// The condition a conditional-skip instruction tests, by family.
pub open spec fn skip_cond(m: MachineView, hi: u8, lo: u8) -> bool {
    let fam = op_family(hi);
    let x = op_x(hi) as int;
    let y = op_y(lo) as int;
    if fam == 0x3 {
        m.regs[x] == lo
    } else if fam == 0x4 {
        m.regs[x] != lo
    } else if fam == 0x5 {
        m.regs[x] == m.regs[y]
    } else if fam == 0x9 {
        m.regs[x] != m.regs[y]
    } else if fam == 0xE && lo == 0x9E {
        m.keys[m.regs[x] as int]
    } else {
        !m.keys[m.regs[x] as int]
    }
}

/// Law: a conditional-skip cycle advances the program counter by exactly
/// 4 when the condition holds (the normal 2 plus a 2-byte skip) and by
/// exactly 2 otherwise, and changes nothing else.
pub proof fn lemma_skip_advance(pre: MachineView, post: MachineView, r: Result<(), StepError>)
    requires
        view_wf(pre),
        pre.pc + 1 < MEMORY_SIZE,
        ({
            let fam = op_family(pre.mem[pre.pc as int]);
            let lo = pre.mem[pre.pc as int + 1];
            ||| fam == 0x3
            ||| fam == 0x4
            ||| fam == 0x5
            ||| fam == 0x9
            ||| (fam == 0xE && (lo == 0x9E || lo == 0xA1) && pre.regs[op_x(
                pre.mem[pre.pc as int],
            ) as int] < 16)
        }),
        cycle_rel(pre, post, r),
    ensures
        r is Ok,
        skip_cond(pre, pre.mem[pre.pc as int], pre.mem[pre.pc as int + 1]) ==> post.pc == pre.pc
            + 4,
        !skip_cond(pre, pre.mem[pre.pc as int], pre.mem[pre.pc as int + 1]) ==> post.pc == pre.pc
            + 2,
        post == (MachineView { pc: post.pc, ..pre }),
{
    lemma_field_bounds(pre.mem[pre.pc as int], pre.mem[pre.pc as int + 1]);
    let fetched = MachineView { pc: (pre.pc + 2) as u16, ..pre };
    assert(skip_pc(fetched, true) == pre.pc + 4);
}

} // verus!
