//! The step relation: the mathematical statement of what one
//! fetch-decode-execute step does to the machine, for each of the 35
//! instructions. The interpreter in `exec` is proved against this
//! relation, and the laws in `laws` are proved from it.
//!
//! Throughout, `pre` is the machine state *after* the fetch has advanced
//! the program counter past the instruction, so control-transfer
//! instructions simply assign the counter.
use vstd::prelude::*;
use crate::opcode::{op_family, op_x, op_y, op_n, op_nnn};
use crate::state::{MachineView, StepError, FONTSET_START_ADDRESS, MEMORY_SIZE, STACK_DEPTH};

verus! {

/// 8-bit wrapping addition.
pub open spec fn wrap_add8(a: u8, b: u8) -> u8 {
    if a + b < 256 {
        (a + b) as u8
    } else {
        (a + b - 256) as u8
    }
}

/// 8-bit wrapping subtraction.
pub open spec fn wrap_sub8(a: u8, b: u8) -> u8 {
    if a >= b {
        (a - b) as u8
    } else {
        (a - b + 256) as u8
    }
}

/// 16-bit wrapping addition of a byte.
pub open spec fn wrap_add16(a: u16, b: u8) -> u16 {
    if a + b <= 0xFFFF {
        (a + b) as u16
    } else {
        (a + b - 0x10000) as u16
    }
}

/// The flag register's encoding of a condition: exactly 1 or 0.
pub open spec fn flag_val(cond: bool) -> u8 {
    if cond {
        1
    } else {
        0
    }
}

/// The state with one register replaced.
pub open spec fn with_reg(m: MachineView, i: int, v: u8) -> MachineView {
    MachineView { regs: m.regs.update(i, v), ..m }
}

/// The state with the flag register (register 15) replaced. Written over
/// `with_reg` so that the flag assignment is visibly the last act.
pub open spec fn with_flag(m: MachineView, f: u8) -> MachineView {
    with_reg(m, 15, f)
}

/// The program counter after a conditional skip: two further bytes on a
/// match (the fetch already advanced past the instruction itself).
pub open spec fn skip_pc(m: MachineView, cond: bool) -> u16 {
    if cond {
        (m.pc + 2) as u16
    } else {
        m.pc
    }
}

/// Distance from origin `o` forward to coordinate `c` on a wrapping axis
/// of length `m`: the unique `d` in `[0, m)` with `(o + d) % m == c`,
/// for `c` and `o` in `[0, m)`.
pub open spec fn offset_in(c: int, o: int, m: int) -> int {
    if c >= o {
        c - o
    } else {
        c - o + m
    }
}

/// The place value of sprite column `col`: sprite rows are one byte wide,
/// most significant bit leftmost.
pub open spec fn bit_weight(col: u8) -> u8 {
    if col == 0 {
        128
    } else if col == 1 {
        64
    } else if col == 2 {
        32
    } else if col == 3 {
        16
    } else if col == 4 {
        8
    } else if col == 5 {
        4
    } else if col == 6 {
        2
    } else {
        1
    }
}

/// Whether the sprite bit at column `col` of row byte `byte` is set.
pub open spec fn sprite_bit(byte: u8, col: u8) -> bool {
    byte / bit_weight(col) % 2 == 1
}

/// Whether the draw of an 8-wide, `n`-high sprite read from `mem` at
/// `idx`, with origin `(xp, yp)`, toggles framebuffer cell `cell`
/// (row-major index). Coordinates wrap around the 64x32 grid, so the
/// cell is toggled exactly when it lies within the sprite's wrapped
/// footprint and the corresponding sprite bit is set.
pub open spec fn sprite_hits(mem: Seq<u8>, idx: int, xp: int, yp: int, n: int, cell: int) -> bool {
    let row = offset_in(cell / 64, yp, 32);
    let col = offset_in(cell % 64, xp, 64);
    row < n && col < 8 && sprite_bit(mem[idx + row], col as u8)
}

/// The wrapped column coordinate of sprite column `k` drawn at origin
/// column `xp`.
pub open spec fn wrap_col(xp: int, k: int) -> int {
    if xp + k < 64 {
        xp + k
    } else {
        xp + k - 64
    }
}

/// The wrapped row coordinate of sprite row `k` drawn at origin row `yp`.
pub open spec fn wrap_row(yp: int, k: int) -> int {
    if yp + k < 32 {
        yp + k
    } else {
        yp + k - 32
    }
}

/// Whether the first `k` columns of one sprite row byte toggle
/// framebuffer cell `cell`, for a row drawn at wrapped row coordinate
/// `ry` with origin column `xp`.
pub open spec fn row_hits(byte: u8, xp: int, ry: int, k: int, cell: int) -> bool {
    let col = offset_in(cell % 64, xp, 64);
    cell / 64 == ry && col < k && sprite_bit(byte, col as u8)
}

/// Extending one row's scan by one column toggles exactly one further
/// cell, the wrapped cell of column `k`, and only if that sprite bit is
/// set.
pub proof fn lemma_row_hits_extend(byte: u8, xp: int, ry: int, k: int, cell: int)
    requires
        0 <= xp < 64,
        0 <= ry < 32,
        0 <= k < 8,
        0 <= cell < 2048,
    ensures
        row_hits(byte, xp, ry, k + 1, cell) == (row_hits(byte, xp, ry, k, cell) || (cell == ry * 64
            + wrap_col(xp, k) && sprite_bit(byte, k as u8))),
{
    let c = cell % 64;
    let rw = cell / 64;
    assert(cell == 64 * rw + c && 0 <= c < 64) by (nonlinear_arith)
        requires
            0 <= cell < 2048,
            c == cell % 64,
            rw == cell / 64,
    ;
    if cell == ry * 64 + wrap_col(xp, k) {
        assert(rw == ry && c == wrap_col(xp, k)) by (nonlinear_arith)
            requires
                cell == ry * 64 + wrap_col(xp, k),
                cell == 64 * rw + c,
                0 <= c < 64,
                0 <= wrap_col(xp, k) < 64,
                0 <= ry < 32,
                0 <= rw,
        ;
        assert(offset_in(c, xp, 64) == k);
    } else {
        if rw == ry && offset_in(c, xp, 64) == k {
            assert(c == wrap_col(xp, k));
            assert(cell == ry * 64 + wrap_col(xp, k));
        }
    }
}

/// Extending the sprite scan by one row adds exactly that row's toggles:
/// rows wrap to distinct coordinates, so no cell is counted twice.
pub proof fn lemma_sprite_hits_extend(
    mem: Seq<u8>,
    idx: int,
    xp: int,
    yp: int,
    k: int,
    cell: int,
)
    requires
        0 <= xp < 64,
        0 <= yp < 32,
        0 <= k < 16,
        0 <= cell < 2048,
    ensures
        sprite_hits(mem, idx, xp, yp, k + 1, cell) == (sprite_hits(mem, idx, xp, yp, k, cell)
            || row_hits(mem[idx + k], xp, wrap_row(yp, k), 8, cell)),
{
    let c = cell % 64;
    let rw = cell / 64;
    assert(cell == 64 * rw + c && 0 <= c < 64 && 0 <= rw < 32) by (nonlinear_arith)
        requires
            0 <= cell < 2048,
            c == cell % 64,
            rw == cell / 64,
    ;
    assert(offset_in(rw, yp, 32) == k <==> rw == wrap_row(yp, k));
}

/// Whether the draw collides: some cell lit before the draw is toggled.
pub open spec fn draw_collides(
    mem: Seq<u8>,
    idx: int,
    xp: int,
    yp: int,
    n: int,
    video: Seq<bool>,
) -> bool {
    exists|cell: int| 0 <= cell < 2048 && video[cell] && sprite_hits(mem, idx, xp, yp, n, cell)
}

/// Whether the first `k` columns of one sprite row collide with `video`.
pub open spec fn row_collides(byte: u8, xp: int, ry: int, k: int, video: Seq<bool>) -> bool {
    exists|cell: int| 0 <= cell < 2048 && video[cell] && row_hits(byte, xp, ry, k, cell)
}

/// The cell a sprite row's column `k` toggles is untouched by earlier
/// rows of the sprite and by earlier columns of the same row: rows and
/// columns wrap to distinct coordinates.
pub proof fn lemma_current_cell_fresh(
    mem: Seq<u8>,
    idx: int,
    byte: u8,
    xp: int,
    yp: int,
    row: int,
    col: int,
)
    requires
        0 <= xp < 64,
        0 <= yp < 32,
        0 <= row < 16,
        0 <= col < 8,
    ensures
        0 <= wrap_row(yp, row) * 64 + wrap_col(xp, col) < 2048,
        !sprite_hits(mem, idx, xp, yp, row, wrap_row(yp, row) * 64 + wrap_col(xp, col)),
        !row_hits(byte, xp, wrap_row(yp, row), col, wrap_row(yp, row) * 64 + wrap_col(xp, col)),
{
    let ry = wrap_row(yp, row);
    let cx = wrap_col(xp, col);
    let cur = ry * 64 + cx;
    assert(cur / 64 == ry && cur % 64 == cx) by (nonlinear_arith)
        requires
            cur == ry * 64 + cx,
            0 <= cx < 64,
            0 <= ry < 32,
    ;
    assert(offset_in(cur / 64, yp, 32) == row);
    assert(offset_in(cur % 64, xp, 64) == col);
}

/// Extending one row's collision scan by one column: the scan collides
/// exactly when it did before or the newly toggled cell was lit.
pub proof fn lemma_row_collides_extend(byte: u8, xp: int, ry: int, k: int, video: Seq<bool>)
    requires
        0 <= xp < 64,
        0 <= ry < 32,
        0 <= k < 8,
    ensures
        row_collides(byte, xp, ry, k + 1, video) == (row_collides(byte, xp, ry, k, video) || (
        sprite_bit(byte, k as u8) && video[ry * 64 + wrap_col(xp, k)])),
{
    let cur = ry * 64 + wrap_col(xp, k);
    assert(0 <= cur < 2048);
    if row_collides(byte, xp, ry, k + 1, video) {
        let cell = choose|cell: int|
            0 <= cell < 2048 && video[cell] && row_hits(byte, xp, ry, k + 1, cell);
        lemma_row_hits_extend(byte, xp, ry, k, cell);
    }
    if row_collides(byte, xp, ry, k, video) {
        let cell = choose|cell: int|
            0 <= cell < 2048 && video[cell] && row_hits(byte, xp, ry, k, cell);
        lemma_row_hits_extend(byte, xp, ry, k, cell);
        assert(row_hits(byte, xp, ry, k + 1, cell));
    }
    if sprite_bit(byte, k as u8) && video[cur] {
        lemma_row_hits_extend(byte, xp, ry, k, cur);
        assert(row_hits(byte, xp, ry, k + 1, cur));
    }
}

/// Extending the sprite's collision scan by one row: the scan collides
/// exactly when it did before or the new row collides.
pub proof fn lemma_draw_collides_extend(
    mem: Seq<u8>,
    idx: int,
    xp: int,
    yp: int,
    k: int,
    video: Seq<bool>,
)
    requires
        0 <= xp < 64,
        0 <= yp < 32,
        0 <= k < 16,
    ensures
        draw_collides(mem, idx, xp, yp, k + 1, video) == (draw_collides(mem, idx, xp, yp, k, video)
            || row_collides(mem[idx + k], xp, wrap_row(yp, k), 8, video)),
{
    if draw_collides(mem, idx, xp, yp, k + 1, video) {
        let cell = choose|cell: int|
            0 <= cell < 2048 && video[cell] && sprite_hits(mem, idx, xp, yp, k + 1, cell);
        lemma_sprite_hits_extend(mem, idx, xp, yp, k, cell);
    }
    if draw_collides(mem, idx, xp, yp, k, video) {
        let cell = choose|cell: int|
            0 <= cell < 2048 && video[cell] && sprite_hits(mem, idx, xp, yp, k, cell);
        lemma_sprite_hits_extend(mem, idx, xp, yp, k, cell);
        assert(sprite_hits(mem, idx, xp, yp, k + 1, cell));
    }
    if row_collides(mem[idx + k], xp, wrap_row(yp, k), 8, video) {
        let cell = choose|cell: int|
            0 <= cell < 2048 && video[cell] && row_hits(mem[idx + k], xp, wrap_row(yp, k), 8, cell);
        lemma_sprite_hits_extend(mem, idx, xp, yp, k, cell);
        assert(sprite_hits(mem, idx, xp, yp, k + 1, cell));
    }
}

/// The draw instruction: XOR-toggle the sprite's set bits into the
/// framebuffer with wraparound, and set the flag register to 1 exactly
/// when a lit cell was toggled off. A sprite row outside memory is a
/// reported fault that changes nothing.
pub open spec fn draw_rel(
    pre: MachineView,
    post: MachineView,
    x: int,
    y: int,
    n: int,
    r: Result<(), StepError>,
) -> bool {
    if pre.index + n > MEMORY_SIZE {
        post == pre && r == Err::<(), StepError>(StepError::MemoryOutOfBounds)
    } else {
        let xp = pre.regs[x] as int % 64;
        let yp = pre.regs[y] as int % 32;
        let idx = pre.index as int;
        let toggled = MachineView {
            video: Seq::new(
                2048,
                |cell: int| pre.video[cell] != sprite_hits(pre.mem, idx, xp, yp, n, cell),
            ),
            ..pre
        };
        post == with_flag(toggled, flag_val(draw_collides(pre.mem, idx, xp, yp, n, pre.video)))
            && r is Ok
    }
}

/// Index of the first pressed key at or above `k`, or 16 if none is.
pub open spec fn first_pressed_from(keys: Seq<bool>, k: int) -> int
    decreases 16 - k,
{
    if k < 0 || k >= 16 {
        16
    } else if keys[k] {
        k
    } else {
        first_pressed_from(keys, k + 1)
    }
}

/// The blocking key-wait: if any key is pressed, store the lowest pressed
/// index; otherwise undo the fetch's advance so the same instruction is
/// fetched again next cycle.
pub open spec fn key_wait_rel(
    pre: MachineView,
    post: MachineView,
    x: int,
    r: Result<(), StepError>,
) -> bool {
    let k = first_pressed_from(pre.keys, 0);
    if k < 16 {
        post == with_reg(pre, x, k as u8) && r is Ok
    } else {
        post == MachineView { pc: (pre.pc - 2) as u16, ..pre } && r is Ok
    }
}

/// The register-to-register arithmetic family, selected by the low
/// nibble `n`. Results wrap modulo 256; each operation with a defined
/// flag outcome writes the flag register (register 15) as its last act,
/// from the pre-instruction operand values.
pub open spec fn alu_rel(
    pre: MachineView,
    post: MachineView,
    x: int,
    y: int,
    n: u8,
    hi: u8,
    lo: u8,
    r: Result<(), StepError>,
) -> bool {
    let vx = pre.regs[x];
    let vy = pre.regs[y];
    if n == 0x0 {
        post == with_reg(pre, x, vy) && r is Ok
    } else if n == 0x1 {
        post == with_reg(pre, x, vx | vy) && r is Ok
    } else if n == 0x2 {
        post == with_reg(pre, x, vx & vy) && r is Ok
    } else if n == 0x3 {
        post == with_reg(pre, x, vx ^ vy) && r is Ok
    } else if n == 0x4 {
        post == with_flag(with_reg(pre, x, wrap_add8(vx, vy)), flag_val(vx + vy > 255)) && r is Ok
    } else if n == 0x5 {
        post == with_flag(with_reg(pre, x, wrap_sub8(vx, vy)), flag_val(vx > vy)) && r is Ok
    } else if n == 0x6 {
        post == with_flag(with_reg(pre, x, (vx / 2) as u8), flag_val(vx % 2 == 1)) && r is Ok
    } else if n == 0x7 {
        post == with_flag(with_reg(pre, x, wrap_sub8(vy, vx)), flag_val(vy > vx)) && r is Ok
    } else if n == 0xE {
        post == with_flag(with_reg(pre, x, wrap_add8(vx, vx)), flag_val(vx >= 128)) && r is Ok
    } else {
        post == pre && r == Err::<(), StepError>(
            StepError::UnknownOpcode { higher_byte: hi, lower_byte: lo },
        )
    }
}

/// The binary-coded-decimal store: hundreds, tens and ones digits of the
/// register value at the index address and the two following it.
pub open spec fn bcd_rel(
    pre: MachineView,
    post: MachineView,
    x: int,
    r: Result<(), StepError>,
) -> bool {
    if pre.index + 2 >= MEMORY_SIZE {
        post == pre && r == Err::<(), StepError>(StepError::MemoryOutOfBounds)
    } else {
        let v = pre.regs[x];
        let idx = pre.index as int;
        post == MachineView {
            mem: pre.mem.update(idx, (v / 100) as u8).update(idx + 1, (v / 10 % 10) as u8).update(
                idx + 2,
                (v % 10) as u8,
            ),
            ..pre
        } && r is Ok
    }
}

/// Register block store: registers 0 through `x` inclusive written to
/// memory starting at the index register, which itself is unchanged.
pub open spec fn store_regs_rel(
    pre: MachineView,
    post: MachineView,
    x: int,
    r: Result<(), StepError>,
) -> bool {
    let idx = pre.index as int;
    if idx + x >= MEMORY_SIZE {
        post == pre && r == Err::<(), StepError>(StepError::MemoryOutOfBounds)
    } else {
        post == MachineView {
            mem: Seq::new(
                MEMORY_SIZE as nat,
                |a: int| if idx <= a <= idx + x {
                    pre.regs[a - idx]
                } else {
                    pre.mem[a]
                },
            ),
            ..pre
        } && r is Ok
    }
}

/// Register block load: registers 0 through `x` inclusive read from
/// memory starting at the index register, which itself is unchanged.
pub open spec fn load_regs_rel(
    pre: MachineView,
    post: MachineView,
    x: int,
    r: Result<(), StepError>,
) -> bool {
    let idx = pre.index as int;
    if idx + x >= MEMORY_SIZE {
        post == pre && r == Err::<(), StepError>(StepError::MemoryOutOfBounds)
    } else {
        post == MachineView {
            regs: Seq::new(
                16,
                |i: int| if i <= x {
                    pre.mem[idx + i]
                } else {
                    pre.regs[i]
                },
            ),
            ..pre
        } && r is Ok
    }
}

/// The miscellaneous family selected by leading nibble 0xF: key-wait,
/// timer transfers, index arithmetic, glyph lookup, the decimal store and
/// the register block transfers.
pub open spec fn misc_rel(
    pre: MachineView,
    post: MachineView,
    x: int,
    hi: u8,
    lo: u8,
    r: Result<(), StepError>,
) -> bool {
    if lo == 0x07 {
        post == with_reg(pre, x, pre.delay) && r is Ok
    } else if lo == 0x0A {
        key_wait_rel(pre, post, x, r)
    } else if lo == 0x15 {
        post == MachineView { delay: pre.regs[x], ..pre } && r is Ok
    } else if lo == 0x18 {
        post == MachineView { sound: pre.regs[x], ..pre } && r is Ok
    } else if lo == 0x1E {
        // The base instruction set defines no flag outcome here; the index
        // register wraps modulo 2^16 and the flag register is untouched.
        post == MachineView { index: wrap_add16(pre.index, pre.regs[x]), ..pre } && r is Ok
    } else if lo == 0x29 {
        post == MachineView {
            index: (FONTSET_START_ADDRESS + 5 * pre.regs[x]) as u16,
            ..pre
        } && r is Ok
    } else if lo == 0x33 {
        bcd_rel(pre, post, x, r)
    } else if lo == 0x55 {
        store_regs_rel(pre, post, x, r)
    } else if lo == 0x65 {
        load_regs_rel(pre, post, x, r)
    } else {
        post == pre && r == Err::<(), StepError>(
            StepError::UnknownOpcode { higher_byte: hi, lower_byte: lo },
        )
    }
}

/// The complete decode-and-execute step relation: what executing the
/// instruction `(hi, lo)` from state `pre` (program counter already
/// advanced past it) does. Every outcome `r` other than `Ok` leaves the
/// state unchanged except that a reported unknown opcode is a no-op with
/// the counter already advanced; no memory access ever falls outside the
/// 4096 bytes.
pub open spec fn step_rel(
    pre: MachineView,
    post: MachineView,
    hi: u8,
    lo: u8,
    r: Result<(), StepError>,
) -> bool {
    let fam = op_family(hi);
    let x = op_x(hi) as int;
    let y = op_y(lo) as int;
    let kk = lo;
    let nnn = op_nnn(hi, lo);
    if fam == 0x0 {
        if lo == 0xE0 {
            post == MachineView { video: Seq::new(2048, |cell: int| false), ..pre } && r is Ok
        } else if lo == 0xEE {
            if pre.sp == 0 {
                post == pre && r == Err::<(), StepError>(StepError::StackUnderflow)
            } else {
                post == MachineView {
                    sp: (pre.sp - 1) as u8,
                    pc: pre.stack[pre.sp - 1],
                    ..pre
                } && r is Ok
            }
        } else {
            post == pre && r == Err::<(), StepError>(
                StepError::UnknownOpcode { higher_byte: hi, lower_byte: lo },
            )
        }
    } else if fam == 0x1 {
        post == MachineView { pc: nnn, ..pre } && r is Ok
    } else if fam == 0x2 {
        if pre.sp >= STACK_DEPTH {
            post == pre && r == Err::<(), StepError>(StepError::StackOverflow)
        } else {
            post == MachineView {
                stack: pre.stack.update(pre.sp as int, pre.pc),
                sp: (pre.sp + 1) as u8,
                pc: nnn,
                ..pre
            } && r is Ok
        }
    } else if fam == 0x3 {
        post == MachineView { pc: skip_pc(pre, pre.regs[x] == kk), ..pre } && r is Ok
    } else if fam == 0x4 {
        post == MachineView { pc: skip_pc(pre, pre.regs[x] != kk), ..pre } && r is Ok
    } else if fam == 0x5 {
        post == MachineView { pc: skip_pc(pre, pre.regs[x] == pre.regs[y]), ..pre } && r is Ok
    } else if fam == 0x6 {
        post == with_reg(pre, x, kk) && r is Ok
    } else if fam == 0x7 {
        post == with_reg(pre, x, wrap_add8(pre.regs[x], kk)) && r is Ok
    } else if fam == 0x8 {
        alu_rel(pre, post, x, y, op_n(lo), hi, lo, r)
    } else if fam == 0x9 {
        post == MachineView { pc: skip_pc(pre, pre.regs[x] != pre.regs[y]), ..pre } && r is Ok
    } else if fam == 0xA {
        post == MachineView { index: nnn, ..pre } && r is Ok
    } else if fam == 0xB {
        post == MachineView { pc: (nnn + pre.regs[0]) as u16, ..pre } && r is Ok
    } else if fam == 0xC {
        // The drawn byte is uniform over 0..=255 and process-local, so the
        // relation only says that some byte was masked into the register.
        (exists|b: u8| post == with_reg(pre, x, b & kk)) && r is Ok
    } else if fam == 0xD {
        draw_rel(pre, post, x, y, op_n(lo) as int, r)
    } else if fam == 0xE {
        if lo == 0x9E || lo == 0xA1 {
            if pre.regs[x] >= 16 {
                post == pre && r == Err::<(), StepError>(StepError::KeyOutOfRange)
            } else {
                let pressed = pre.keys[pre.regs[x] as int];
                let cond = if lo == 0x9E {
                    pressed
                } else {
                    !pressed
                };
                post == MachineView { pc: skip_pc(pre, cond), ..pre } && r is Ok
            }
        } else {
            post == pre && r == Err::<(), StepError>(
                StepError::UnknownOpcode { higher_byte: hi, lower_byte: lo },
            )
        }
    } else {
        misc_rel(pre, post, x, hi, lo, r)
    }
}

/// One whole cycle from state `pre`: fetching outside memory is a
/// reported fault that changes nothing; otherwise the two bytes at the
/// program counter are executed with the counter advanced past them.
pub open spec fn cycle_rel(pre: MachineView, post: MachineView, r: Result<(), StepError>) -> bool {
    if pre.pc + 1 >= MEMORY_SIZE {
        post == pre && r == Err::<(), StepError>(StepError::MemoryOutOfBounds)
    } else {
        let fetched = MachineView { pc: (pre.pc + 2) as u16, ..pre };
        step_rel(fetched, post, pre.mem[pre.pc as int], pre.mem[pre.pc as int + 1], r)
    }
}

} // verus!
