//! Arithmetic lemmas the interpreter's proofs lean on, and the laws
//! that relate several instructions to one another, stated and proved
//! over the instruction transition predicates.

use vstd::prelude::*;

use vstd::arithmetic::div_mod::{
    lemma_fundamental_div_mod, lemma_mod_add_multiples_vanish, lemma_mod_multiples_vanish,
    lemma_mod_sub_multiples_vanish, lemma_small_mod,
};
use vstd::arithmetic::mul::lemma_mul_unary_negation;

use crate::emu::{Emu, EmuError};
use crate::semantics::{
    covered_before, dispatch, draw_pixel, hit_before, op_n, op_x, op_y, pix, sem_00ee, sem_2nnn,
    sem_cxnn, sem_dxyn, sem_fx55, sem_fx65, sprite_bit, sprite_collides, sprite_covers,
    sprite_lights, unchanged_state,
};

verus! {

/// The operand fields of an instruction word stay within their widths.
pub proof fn lemma_op_fields(op: u16)
    by (bit_vector)
    ensures
        (op & 0x0f00) >> 8u16 < 16,
        (op & 0x00f0) >> 4u16 < 16,
        op & 0x000f < 16,
        op & 0x00ff < 256,
        op & 0x0fff < 0x1000,
{
}

/// An instruction's transition never reads the machine's instruction
/// word register: two pre states that differ only there admit the same
/// transitions.
pub proof fn lemma_dispatch_same_state(
    op: u16,
    pre1: Emu,
    pre2: Emu,
    post: Emu,
    r: Result<(), EmuError>,
)
    requires
        unchanged_state(pre1, pre2),
        dispatch(op, pre2, post, r),
    ensures
        dispatch(op, pre1, post, r),
{
    if op & 0xf000 == 0xc000 {
        let b = choose|b: u8| sem_cxnn(op, pre2, post, b);
        assert(sem_cxnn(op, pre1, post, b));
    }
}

/// The remainder of a value within one modulus of the range `[0, m)`:
/// a single wrap in either direction.
pub proof fn lemma_mod_in_range(s: int, m: int)
    requires
        0 < m,
        -m <= s < 2 * m,
    ensures
        s % m == (if s < 0 {
            s + m
        } else if s < m {
            s
        } else {
            s - m
        }),
{
    if s < 0 {
        lemma_mod_add_multiples_vanish(s, m);
        lemma_small_mod((s + m) as nat, m as nat);
    } else if s < m {
        lemma_small_mod(s as nat, m as nat);
    } else {
        lemma_mod_sub_multiples_vanish(s, m);
        lemma_small_mod((s - m) as nat, m as nat);
    }
}

/// Wrapping an offset below `m` around a base and mapping back:
/// `((base + a) % m - base) % m` recovers `a`.
pub proof fn lemma_wrap_forward(base: int, a: int, m: int)
    requires
        0 < m,
        0 <= a < m,
        0 <= base,
    ensures
        ((base + a) % m - base) % m == a,
{
    let s = base + a;
    let q = s / m;
    lemma_fundamental_div_mod(s, m);
    lemma_mul_unary_negation(m, q);
    lemma_mod_multiples_vanish(-q, a, m);
    lemma_small_mod(a as nat, m as nat);
}

/// Compositing one more sprite cell — row `r`, column `c` — moves the
/// covered set by exactly the one display cell that cell wraps to.
pub proof fn lemma_draw_step(sx: int, sy: int, nrows: int, r: int, c: int)
    requires
        0 <= sx,
        0 <= sy,
        0 <= r < nrows,
        nrows <= 64,
        0 <= c < 8,
    ensures
        ({
            let k = r * 8 + c;
            let px0 = (sx + c) % 128;
            let py0 = (sy + r) % 64;
            &&& 0 <= px0 < 128
            &&& 0 <= py0 < 64
            &&& (px0 - sx) % 128 == c
            &&& (py0 - sy) % 64 == r
            &&& covered_before(sx, sy, nrows, px0, py0, k + 1)
            &&& !covered_before(sx, sy, nrows, px0, py0, k)
            &&& forall|px: int, py: int|
                0 <= px < 128 && 0 <= py < 64 && !(px == px0 && py == py0)
                    ==> covered_before(sx, sy, nrows, px, py, k + 1) == covered_before(
                    sx,
                    sy,
                    nrows,
                    px,
                    py,
                    k,
                )
        }),
{
    let k = r * 8 + c;
    let px0 = (sx + c) % 128;
    let py0 = (sy + r) % 64;
    lemma_wrap_forward(sx, c, 128);
    lemma_wrap_forward(sy, r, 64);
    assert forall|px: int, py: int|
        0 <= px < 128 && 0 <= py < 64 && !(px == px0 && py == py0) implies covered_before(
        sx,
        sy,
        nrows,
        px,
        py,
        k + 1,
    ) == covered_before(sx, sy, nrows, px, py, k) by {
        let cc = (px - sx) % 128;
        let rr = (py - sy) % 64;
        if cc < 8 && rr < nrows && rr * 8 + cc == k {
            assert(rr == r && cc == c);
            lemma_wrap_backward(sx, px, 128);
            lemma_wrap_backward(sy, py, 64);
            assert(false);
        }
    }
}

/// Compositing one more sprite cell extends each hit set by that cell's
/// own contribution and nothing else.
pub proof fn lemma_hit_step(
    g: Seq<bool>,
    sx: int,
    sy: int,
    rows: Seq<u8>,
    r: int,
    c: int,
    want: bool,
)
    requires
        0 <= r < rows.len(),
        0 <= c < 8,
    ensures
        hit_before(g, sx, sy, rows, r * 8 + c + 1, want) == (hit_before(
            g,
            sx,
            sy,
            rows,
            r * 8 + c,
            want,
        ) || (sprite_bit(rows[r], c) && g[pix((sx + c) % 128, (sy + r) % 64)] == want)),
{
    let k = r * 8 + c;
    if hit_before(g, sx, sy, rows, k + 1, want) {
        let (rr, cc) = choose|rr: int, cc: int|
            0 <= rr < rows.len() && 0 <= cc < 8 && rr * 8 + cc < k + 1 && sprite_bit(rows[rr], cc)
                && g[pix((sx + cc) % 128, (sy + rr) % 64)] == want;
        if rr * 8 + cc == k {
            assert(rr == r && cc == c);
        } else {
            assert(hit_before(g, sx, sy, rows, k, want));
        }
    }
    if hit_before(g, sx, sy, rows, k, want) {
        let (rr, cc) = choose|rr: int, cc: int|
            0 <= rr < rows.len() && 0 <= cc < 8 && rr * 8 + cc < k && sprite_bit(rows[rr], cc)
                && g[pix((sx + cc) % 128, (sy + rr) % 64)] == want;
        assert(0 <= rr < rows.len() && 0 <= cc < 8 && rr * 8 + cc < k + 1 && sprite_bit(
            rows[rr],
            cc,
        ) && g[pix((sx + cc) % 128, (sy + rr) % 64)] == want);
        assert(hit_before(g, sx, sy, rows, k + 1, want));
    }
    if sprite_bit(rows[r], c) && g[pix((sx + c) % 128, (sy + r) % 64)] == want {
        assert(0 <= r < rows.len() && 0 <= c < 8 && r * 8 + c < k + 1 && sprite_bit(rows[r], c)
            && g[pix((sx + c) % 128, (sy + r) % 64)] == want);
        assert(hit_before(g, sx, sy, rows, k + 1, want));
    }
}

/// Once every sprite cell is composited, the hit sets are exactly the
/// collision and light-up signals, and the covered set is exactly the
/// cells the sprite wraps onto.
pub proof fn lemma_hit_complete(g: Seq<bool>, sx: int, sy: int, rows: Seq<u8>)
    ensures
        hit_before(g, sx, sy, rows, rows.len() as int * 8, true) == sprite_collides(g, sx, sy, rows),
        hit_before(g, sx, sy, rows, rows.len() as int * 8, false) == sprite_lights(g, sx, sy, rows),
        forall|px: int, py: int| #![auto]
            covered_before(sx, sy, rows.len() as int, px, py, rows.len() as int * 8)
                == sprite_covers(sx, sy, rows.len() as int, px, py),
{
    let n = rows.len() as int;
    if hit_before(g, sx, sy, rows, n * 8, true) {
        let (rr, cc) = choose|rr: int, cc: int|
            0 <= rr < rows.len() && 0 <= cc < 8 && rr * 8 + cc < n * 8 && sprite_bit(rows[rr], cc)
                && g[pix((sx + cc) % 128, (sy + rr) % 64)] == true;
        assert(sprite_collides(g, sx, sy, rows));
    }
    if sprite_collides(g, sx, sy, rows) {
        let (rr, cc) = choose|rr: int, cc: int|
            0 <= rr < rows.len() && 0 <= cc < 8 && sprite_bit(rows[rr], cc) && g[pix(
                (sx + cc) % 128,
                (sy + rr) % 64,
            )];
        assert(rr * 8 + cc < n * 8);
        assert(0 <= rr < rows.len() && 0 <= cc < 8 && rr * 8 + cc < n * 8 && sprite_bit(
            rows[rr],
            cc,
        ) && g[pix((sx + cc) % 128, (sy + rr) % 64)] == true);
        assert(hit_before(g, sx, sy, rows, n * 8, true));
    }
    if hit_before(g, sx, sy, rows, n * 8, false) {
        let (rr, cc) = choose|rr: int, cc: int|
            0 <= rr < rows.len() && 0 <= cc < 8 && rr * 8 + cc < n * 8 && sprite_bit(rows[rr], cc)
                && g[pix((sx + cc) % 128, (sy + rr) % 64)] == false;
        assert(sprite_lights(g, sx, sy, rows));
    }
    if sprite_lights(g, sx, sy, rows) {
        let (rr, cc) = choose|rr: int, cc: int|
            0 <= rr < rows.len() && 0 <= cc < 8 && sprite_bit(rows[rr], cc) && !g[pix(
                (sx + cc) % 128,
                (sy + rr) % 64,
            )];
        assert(rr * 8 + cc < n * 8);
        assert(0 <= rr < rows.len() && 0 <= cc < 8 && rr * 8 + cc < n * 8 && sprite_bit(
            rows[rr],
            cc,
        ) && g[pix((sx + cc) % 128, (sy + rr) % 64)] == false);
        assert(hit_before(g, sx, sy, rows, n * 8, false));
    }
}

/// A cell index below `m` is recovered from its own wrapped offset:
/// `(base + (px - base) % m) % m == px`.
pub proof fn lemma_wrap_backward(base: int, px: int, m: int)
    requires
        0 < m,
        0 <= px < m,
        0 <= base,
    ensures
        (base + (px - base) % m) % m == px,
{
    let d = (px - base) % m;
    let q = (px - base) / m;
    lemma_fundamental_div_mod(px - base, m);
    lemma_mul_unary_negation(m, q);
    lemma_mod_multiples_vanish(-q, px, m);
    lemma_small_mod(px as nat, m as nat);
}


/// Law: calling a subroutine and then returning from it resumes
/// execution two bytes past the call site, with the stack pointer back
/// at its pre-call value.
pub proof fn lemma_call_return_round_trip(op: u16, pre: Emu, mid: Emu, post: Emu)
    requires
        pre.wf(),
        pre.pc + 2 <= u16::MAX,
        sem_2nnn(op, pre, mid, Ok::<(), EmuError>(())),
        sem_00ee(mid, post, Ok::<(), EmuError>(())),
    ensures
        post.pc == pre.pc + 2,
        post.sp == pre.sp,
{
    lemma_mod_in_range(pre.pc + 2, 0x10000);
}

/// Law: drawing the same sprite at the same position twice returns the
/// display to its pre-draw state, and the second draw reports a
/// collision exactly when the first draw lit some pixel. The selector
/// nibbles must not name the flag register, which the first draw
/// overwrites.
pub proof fn lemma_sprite_double_draw(op: u16, pre: Emu, mid: Emu, post: Emu)
    requires
        pre.wf(),
        op_x(op) != 15,
        op_y(op) != 15,
        sem_dxyn(op, pre, mid, Ok::<(), EmuError>(())),
        sem_dxyn(op, mid, post, Ok::<(), EmuError>(())),
    ensures
        ({
            let n = op_n(op) as int;
            let idx = pre.ram_idx as int;
            let sx = pre.v@[op_x(op) as int] as int;
            let sy = pre.v@[op_y(op) as int] as int;
            let rows = if n == 0 {
                Seq::<u8>::empty()
            } else {
                pre.ram@.subrange(idx, idx + n)
            };
            &&& post.gfx@ == pre.gfx@
            &&& post.v@[15] == (if sprite_lights(pre.gfx@, sx, sy, rows) {
                1u8
            } else {
                0u8
            })
        }),
{
    lemma_op_fields(op);
    let n = op_n(op) as int;
    let idx = pre.ram_idx as int;
    let x = op_x(op) as int;
    let y = op_y(op) as int;
    let sx = pre.v@[x] as int;
    let sy = pre.v@[y] as int;
    let rows = if n == 0 {
        Seq::<u8>::empty()
    } else {
        pre.ram@.subrange(idx, idx + n)
    };
    assert(mid.v@[x] == pre.v@[x] && mid.v@[y] == pre.v@[y]);
    assert((if n == 0 {
        Seq::<u8>::empty()
    } else {
        mid.ram@.subrange(idx, idx + n)
    }) == rows);

    // the display comes back: each covered pixel is XORed twice
    assert forall|i: int| 0 <= i < 8192 implies post.gfx@[i] == pre.gfx@[i] by {
        let px = i / 64;
        let py = i % 64;
        assert(pix(px, py) == i);
        assert(mid.gfx@[pix(px, py)] == draw_pixel(pre.gfx@, sx, sy, rows, px, py));
        assert(post.gfx@[pix(px, py)] == draw_pixel(mid.gfx@, sx, sy, rows, px, py));
    }
    assert(pre.gfx@.len() == 8192 && mid.gfx@.len() == 8192 && post.gfx@.len() == 8192);
    assert(post.gfx@ =~= pre.gfx@);

    // the second draw collides exactly where the first one lit a pixel
    if sprite_collides(mid.gfx@, sx, sy, rows) {
        let (r, c) = choose|r: int, c: int|
            0 <= r < rows.len() && 0 <= c < 8 && sprite_bit(rows[r], c) && mid.gfx@[pix(
                (sx + c) % 128,
                (sy + r) % 64,
            )];
        lemma_wrap_forward(sx, c, 128);
        lemma_wrap_forward(sy, r, 64);
        assert(mid.gfx@[pix((sx + c) % 128, (sy + r) % 64)] == draw_pixel(
            pre.gfx@,
            sx,
            sy,
            rows,
            (sx + c) % 128,
            (sy + r) % 64,
        ));
        assert(!pre.gfx@[pix((sx + c) % 128, (sy + r) % 64)]);
        assert(sprite_lights(pre.gfx@, sx, sy, rows));
    }
    if sprite_lights(pre.gfx@, sx, sy, rows) {
        let (r, c) = choose|r: int, c: int|
            0 <= r < rows.len() && 0 <= c < 8 && sprite_bit(rows[r], c) && !pre.gfx@[pix(
                (sx + c) % 128,
                (sy + r) % 64,
            )];
        lemma_wrap_forward(sx, c, 128);
        lemma_wrap_forward(sy, r, 64);
        assert(mid.gfx@[pix((sx + c) % 128, (sy + r) % 64)] == draw_pixel(
            pre.gfx@,
            sx,
            sy,
            rows,
            (sx + c) % 128,
            (sy + r) % 64,
        ));
        assert(mid.gfx@[pix((sx + c) % 128, (sy + r) % 64)]);
        assert(sprite_collides(mid.gfx@, sx, sy, rows));
    }
}

/// Law: storing registers v0 through vx to memory and then loading the
/// same registers back from the same region reproduces the original
/// register file, whatever the two instruction words' other fields are.
pub proof fn lemma_store_load_round_trip(op1: u16, op2: u16, pre: Emu, mid: Emu, post: Emu)
    requires
        pre.wf(),
        op_x(op1) == op_x(op2),
        sem_fx55(op1, pre, mid, Ok::<(), EmuError>(())),
        sem_fx65(op2, mid, post, Ok::<(), EmuError>(())),
    ensures
        post.v@ == pre.v@,
{
    lemma_op_fields(op1);
    let x = op_x(op1) as int;
    let idx = pre.ram_idx as int;
    assert(mid.ram_idx == pre.ram_idx);
    assert forall|i: int| 0 <= i < 16 implies post.v@[i] == pre.v@[i] by {
        if i <= x {
            assert(mid.ram@[idx + i] == pre.v@[i]);
        }
    }
    assert(post.v@ =~= pre.v@);
}


} // verus!
