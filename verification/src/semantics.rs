//! Mathematical specifications for the interpreter: operand field
//! extraction, the font table, and one transition predicate per
//! instruction, relating the machine state before an instruction to the
//! state after it.

use vstd::prelude::*;

use crate::emu::{Emu, EmuError, ShiftQuirk};

verus! {

// ---------------------------------------------------------------------
// Operand fields of a 16-bit instruction word.
// ---------------------------------------------------------------------

/// The `x` register selector: bits 8..12 of the word.
pub open spec fn op_x(op: u16) -> u16 {
    (op & 0x0f00) >> 8u16
}

/// The `y` register selector: bits 4..8 of the word.
pub open spec fn op_y(op: u16) -> u16 {
    (op & 0x00f0) >> 4u16
}

/// The low nibble, used as a sprite height.
pub open spec fn op_n(op: u16) -> u16 {
    op & 0x000f
}

/// The low byte, used as an immediate operand.
pub open spec fn op_nn(op: u16) -> u8 {
    (op & 0x00ff) as u8
}

/// The low 12 bits, used as an absolute address.
pub open spec fn op_nnn(op: u16) -> u16 {
    op & 0x0fff
}

// ---------------------------------------------------------------------
// 8-bit and 16-bit wraparound arithmetic.
// ---------------------------------------------------------------------

pub open spec fn wrap_add8(a: u8, b: u8) -> u8 {
    ((a + b) % 256) as u8
}

pub open spec fn wrap_sub8(a: u8, b: u8) -> u8 {
    ((a - b) % 256) as u8
}

/// An 8-bit left shift by one, dropping the high bit.
pub open spec fn shl1(a: u8) -> u8 {
    ((2 * a) % 256) as u8
}

pub open spec fn wrap16(n: int) -> u16 {
    (n % 0x10000) as u16
}

// ---------------------------------------------------------------------
// The font table: sixteen glyphs of five rows each.
// ---------------------------------------------------------------------

pub open spec fn glyph5(a: u8, b: u8, c: u8, d: u8, e: u8) -> Seq<u8> {
    seq![a, b, c, d, e]
}

/// The 80 bytes of the built-in hexadecimal font, glyph 0x0 first.
pub open spec fn font_seq() -> Seq<u8> {
    glyph5(0xf0, 0x90, 0x90, 0x90, 0xf0) + glyph5(0x20, 0x60, 0x20, 0x20, 0x70)
        + glyph5(0xf0, 0x10, 0xf0, 0x80, 0xf0) + glyph5(0xf0, 0x10, 0xf0, 0x10, 0xf0)
        + glyph5(0x90, 0x90, 0xf0, 0x10, 0x10) + glyph5(0xf0, 0x80, 0xf0, 0x10, 0xf0)
        + glyph5(0xf0, 0x80, 0xf0, 0x90, 0xf0) + glyph5(0xf0, 0x10, 0x20, 0x40, 0x40)
        + glyph5(0xf0, 0x90, 0xf0, 0x90, 0xf0) + glyph5(0xf0, 0x90, 0xf0, 0x10, 0xf0)
        + glyph5(0xf0, 0x90, 0xf0, 0x90, 0x90) + glyph5(0xe0, 0x90, 0xe0, 0x90, 0xe0)
        + glyph5(0xf0, 0x80, 0x80, 0x80, 0xf0) + glyph5(0xe0, 0x90, 0x90, 0x90, 0xe0)
        + glyph5(0xf0, 0x80, 0xf0, 0x80, 0xf0) + glyph5(0xf0, 0x80, 0xf0, 0x80, 0x80)
}

// ---------------------------------------------------------------------
// Whole-machine shapes.
// ---------------------------------------------------------------------

/// All registers, timers, stack, keys and display at their power-on
/// values; the program counter at the program start address.
pub open spec fn base_regs(e: Emu) -> bool {
    &&& e.pc == 0x200
    &&& e.sp == 0
    &&& e.opcode == 0
    &&& e.ram_idx == 0
    &&& e.dt == 0
    &&& e.st == 0
    &&& e.draw == false
    &&& e.v@.len() == 16
    &&& forall|i: int| 0 <= i < 16 ==> e.v@[i] == 0
    &&& e.stack@.len() == 16
    &&& forall|i: int| 0 <= i < 16 ==> e.stack@[i] == 0
    &&& e.keys@.len() == 16
    &&& forall|i: int| 0 <= i < 16 ==> e.keys@[i] == false
    &&& e.gfx@.len() == 8192
    &&& forall|i: int| 0 <= i < 8192 ==> e.gfx@[i] == false
}

/// Memory as it stands right after construction and a load of `rom`:
/// the font table low, zeroes up to the program start, the image, and
/// zeroes above it.
pub open spec fn loaded_ram(ram: Seq<u8>, rom: Seq<u8>) -> bool {
    &&& ram.len() == 4096
    &&& forall|i: int| 0 <= i < 80 ==> ram[i] == font_seq()[i]
    &&& forall|i: int| 80 <= i < 512 ==> ram[i] == 0
    &&& forall|i: int| 512 <= i < 512 + rom.len() ==> ram[i] == rom[i - 512]
    &&& forall|i: int| 512 + rom.len() <= i < 4096 ==> ram[i] == 0
}

// ---------------------------------------------------------------------
// Frame predicates: which fields an instruction may touch. The fields
// no instruction ever writes (keys, the cached image, the quirk
// selection) are grouped once; the instruction word register is handled
// by the fetch/decode contracts, never by an instruction itself.
// ---------------------------------------------------------------------

pub open spec fn frame_fixed(pre: Emu, post: Emu) -> bool {
    &&& post.keys@ == pre.keys@
    &&& post.rom@ == pre.rom@
    &&& post.quirk == pre.quirk
}

/// Every field except the instruction word register is unchanged.
pub open spec fn unchanged_state(pre: Emu, post: Emu) -> bool {
    &&& frame_fixed(pre, post)
    &&& post.gfx@ == pre.gfx@
    &&& post.draw == pre.draw
    &&& post.ram@ == pre.ram@
    &&& post.v@ == pre.v@
    &&& post.ram_idx == pre.ram_idx
    &&& post.pc == pre.pc
    &&& post.dt == pre.dt
    &&& post.st == pre.st
    &&& post.stack@ == pre.stack@
    &&& post.sp == pre.sp
}

/// Only the display pixels may differ: the frame of a host writing a
/// pixel by hand.
pub open spec fn frame_gfx_only(pre: Emu, post: Emu) -> bool {
    &&& frame_fixed(pre, post)
    &&& post.draw == pre.draw
    &&& post.ram@ == pre.ram@
    &&& post.v@ == pre.v@
    &&& post.ram_idx == pre.ram_idx
    &&& post.pc == pre.pc
    &&& post.dt == pre.dt
    &&& post.st == pre.st
    &&& post.stack@ == pre.stack@
    &&& post.sp == pre.sp
    &&& post.opcode == pre.opcode
}

/// Only the program counter may differ.
pub open spec fn frame_pc(pre: Emu, post: Emu) -> bool {
    &&& frame_fixed(pre, post)
    &&& post.gfx@ == pre.gfx@
    &&& post.draw == pre.draw
    &&& post.ram@ == pre.ram@
    &&& post.v@ == pre.v@
    &&& post.ram_idx == pre.ram_idx
    &&& post.dt == pre.dt
    &&& post.st == pre.st
    &&& post.stack@ == pre.stack@
    &&& post.sp == pre.sp
}

/// Only the register file and the program counter may differ.
pub open spec fn frame_v_pc(pre: Emu, post: Emu) -> bool {
    &&& frame_fixed(pre, post)
    &&& post.gfx@ == pre.gfx@
    &&& post.draw == pre.draw
    &&& post.ram@ == pre.ram@
    &&& post.ram_idx == pre.ram_idx
    &&& post.dt == pre.dt
    &&& post.st == pre.st
    &&& post.stack@ == pre.stack@
    &&& post.sp == pre.sp
}

/// Only the call stack, its pointer and the program counter may differ.
pub open spec fn frame_stack_pc(pre: Emu, post: Emu) -> bool {
    &&& frame_fixed(pre, post)
    &&& post.gfx@ == pre.gfx@
    &&& post.draw == pre.draw
    &&& post.ram@ == pre.ram@
    &&& post.v@ == pre.v@
    &&& post.ram_idx == pre.ram_idx
    &&& post.dt == pre.dt
    &&& post.st == pre.st
}

/// Only the index register and the program counter may differ.
pub open spec fn frame_idx_pc(pre: Emu, post: Emu) -> bool {
    &&& frame_fixed(pre, post)
    &&& post.gfx@ == pre.gfx@
    &&& post.draw == pre.draw
    &&& post.ram@ == pre.ram@
    &&& post.v@ == pre.v@
    &&& post.dt == pre.dt
    &&& post.st == pre.st
    &&& post.stack@ == pre.stack@
    &&& post.sp == pre.sp
}

/// Only the register file, the index register and the program counter
/// may differ.
pub open spec fn frame_v_idx_pc(pre: Emu, post: Emu) -> bool {
    &&& frame_fixed(pre, post)
    &&& post.gfx@ == pre.gfx@
    &&& post.draw == pre.draw
    &&& post.ram@ == pre.ram@
    &&& post.dt == pre.dt
    &&& post.st == pre.st
    &&& post.stack@ == pre.stack@
    &&& post.sp == pre.sp
}

/// Only the display, the redraw flag and the program counter may differ.
pub open spec fn frame_gfx_pc(pre: Emu, post: Emu) -> bool {
    &&& frame_fixed(pre, post)
    &&& post.ram@ == pre.ram@
    &&& post.v@ == pre.v@
    &&& post.ram_idx == pre.ram_idx
    &&& post.dt == pre.dt
    &&& post.st == pre.st
    &&& post.stack@ == pre.stack@
    &&& post.sp == pre.sp
}

/// Only the display, the redraw flag, the register file and the program
/// counter may differ.
pub open spec fn frame_gfx_v_pc(pre: Emu, post: Emu) -> bool {
    &&& frame_fixed(pre, post)
    &&& post.ram@ == pre.ram@
    &&& post.ram_idx == pre.ram_idx
    &&& post.dt == pre.dt
    &&& post.st == pre.st
    &&& post.stack@ == pre.stack@
    &&& post.sp == pre.sp
}

/// Only memory and the program counter may differ.
pub open spec fn frame_ram_pc(pre: Emu, post: Emu) -> bool {
    &&& frame_fixed(pre, post)
    &&& post.gfx@ == pre.gfx@
    &&& post.draw == pre.draw
    &&& post.v@ == pre.v@
    &&& post.ram_idx == pre.ram_idx
    &&& post.dt == pre.dt
    &&& post.st == pre.st
    &&& post.stack@ == pre.stack@
    &&& post.sp == pre.sp
}

/// Only the delay timer and the program counter may differ.
pub open spec fn frame_dt_pc(pre: Emu, post: Emu) -> bool {
    &&& frame_fixed(pre, post)
    &&& post.gfx@ == pre.gfx@
    &&& post.draw == pre.draw
    &&& post.ram@ == pre.ram@
    &&& post.v@ == pre.v@
    &&& post.ram_idx == pre.ram_idx
    &&& post.st == pre.st
    &&& post.stack@ == pre.stack@
    &&& post.sp == pre.sp
}

/// Only the sound timer and the program counter may differ.
pub open spec fn frame_st_pc(pre: Emu, post: Emu) -> bool {
    &&& frame_fixed(pre, post)
    &&& post.gfx@ == pre.gfx@
    &&& post.draw == pre.draw
    &&& post.ram@ == pre.ram@
    &&& post.v@ == pre.v@
    &&& post.ram_idx == pre.ram_idx
    &&& post.dt == pre.dt
    &&& post.stack@ == pre.stack@
    &&& post.sp == pre.sp
}

/// Only the two timers may differ: the frame of a timer tick.
pub open spec fn frame_timers(pre: Emu, post: Emu) -> bool {
    &&& frame_fixed(pre, post)
    &&& post.gfx@ == pre.gfx@
    &&& post.draw == pre.draw
    &&& post.ram@ == pre.ram@
    &&& post.v@ == pre.v@
    &&& post.ram_idx == pre.ram_idx
    &&& post.pc == pre.pc
    &&& post.stack@ == pre.stack@
    &&& post.sp == pre.sp
    &&& post.opcode == pre.opcode
}

// ---------------------------------------------------------------------
// Per-instruction transition predicates. Each one pins every field of
// the post state except the instruction word register, which the
// fetch/decode contracts pin separately.
// ---------------------------------------------------------------------

/// Clear the display, mark it dirty.
pub open spec fn sem_00e0(pre: Emu, post: Emu) -> bool {
    &&& frame_gfx_pc(pre, post)
    &&& post.gfx@.len() == pre.gfx@.len()
    &&& forall|i: int| 0 <= i < post.gfx@.len() ==> post.gfx@[i] == false
    &&& post.draw == true
    &&& post.pc == pre.pc + 2
}

/// Return from a subroutine: pop, resume past the call site. The popped
/// address plus two is reduced modulo 2^16, which never differs from the
/// plain sum for addresses a well-formed program can push.
pub open spec fn sem_00ee(pre: Emu, post: Emu, r: Result<(), EmuError>) -> bool {
    if pre.sp >= 1 {
        &&& r == Ok::<(), EmuError>(())
        &&& frame_stack_pc(pre, post)
        &&& post.stack@ == pre.stack@
        &&& post.sp == pre.sp - 1
        &&& post.pc == wrap16(pre.stack@[pre.sp - 1] + 2)
    } else {
        &&& r == Err::<(), EmuError>(EmuError::StackUnderflow)
        &&& unchanged_state(pre, post)
    }
}

/// Jump to an absolute address.
pub open spec fn sem_1nnn(op: u16, pre: Emu, post: Emu) -> bool {
    &&& frame_pc(pre, post)
    &&& post.pc == op_nnn(op)
}

/// Call: push the current program counter, then jump.
pub open spec fn sem_2nnn(op: u16, pre: Emu, post: Emu, r: Result<(), EmuError>) -> bool {
    if pre.sp < 16 {
        &&& r == Ok::<(), EmuError>(())
        &&& frame_stack_pc(pre, post)
        &&& post.stack@ == pre.stack@.update(pre.sp as int, pre.pc)
        &&& post.sp == pre.sp + 1
        &&& post.pc == op_nnn(op)
    } else {
        &&& r == Err::<(), EmuError>(EmuError::StackOverflow)
        &&& unchanged_state(pre, post)
    }
}

/// Skip the next instruction if `vx` equals the immediate.
pub open spec fn sem_3xnn(op: u16, pre: Emu, post: Emu) -> bool {
    &&& frame_pc(pre, post)
    &&& post.pc == pre.pc + (if pre.v@[op_x(op) as int] == op_nn(op) { 4int } else { 2int })
}

/// Skip the next instruction if `vx` differs from the immediate.
pub open spec fn sem_4xnn(op: u16, pre: Emu, post: Emu) -> bool {
    &&& frame_pc(pre, post)
    &&& post.pc == pre.pc + (if pre.v@[op_x(op) as int] != op_nn(op) { 4int } else { 2int })
}

/// Skip the next instruction if `vx` equals `vy`.
pub open spec fn sem_5xy0(op: u16, pre: Emu, post: Emu) -> bool {
    &&& frame_pc(pre, post)
    &&& post.pc == pre.pc + (if pre.v@[op_x(op) as int] == pre.v@[op_y(op) as int] {
        4int
    } else {
        2int
    })
}

/// Load an immediate into `vx`.
pub open spec fn sem_6xnn(op: u16, pre: Emu, post: Emu) -> bool {
    &&& frame_v_pc(pre, post)
    &&& post.v@ == pre.v@.update(op_x(op) as int, op_nn(op))
    &&& post.pc == pre.pc + 2
}

/// Add an immediate to `vx` with 8-bit wraparound; no flag.
pub open spec fn sem_7xnn(op: u16, pre: Emu, post: Emu) -> bool {
    &&& frame_v_pc(pre, post)
    &&& post.v@ == pre.v@.update(
        op_x(op) as int,
        wrap_add8(pre.v@[op_x(op) as int], op_nn(op)),
    )
    &&& post.pc == pre.pc + 2
}

/// Copy `vy` into `vx`.
pub open spec fn sem_8xy0(op: u16, pre: Emu, post: Emu) -> bool {
    &&& frame_v_pc(pre, post)
    &&& post.v@ == pre.v@.update(op_x(op) as int, pre.v@[op_y(op) as int])
    &&& post.pc == pre.pc + 2
}

/// Bitwise OR of `vy` into `vx`.
pub open spec fn sem_8xy1(op: u16, pre: Emu, post: Emu) -> bool {
    &&& frame_v_pc(pre, post)
    &&& post.v@ == pre.v@.update(
        op_x(op) as int,
        pre.v@[op_x(op) as int] | pre.v@[op_y(op) as int],
    )
    &&& post.pc == pre.pc + 2
}

/// Bitwise AND of `vy` into `vx`.
pub open spec fn sem_8xy2(op: u16, pre: Emu, post: Emu) -> bool {
    &&& frame_v_pc(pre, post)
    &&& post.v@ == pre.v@.update(
        op_x(op) as int,
        pre.v@[op_x(op) as int] & pre.v@[op_y(op) as int],
    )
    &&& post.pc == pre.pc + 2
}

/// Bitwise XOR of `vy` into `vx`.
pub open spec fn sem_8xy3(op: u16, pre: Emu, post: Emu) -> bool {
    &&& frame_v_pc(pre, post)
    &&& post.v@ == pre.v@.update(
        op_x(op) as int,
        pre.v@[op_x(op) as int] ^ pre.v@[op_y(op) as int],
    )
    &&& post.pc == pre.pc + 2
}

/// Add `vy` to `vx` modulo 256; the flag register reports the carry.
pub open spec fn sem_8xy4(op: u16, pre: Emu, post: Emu) -> bool {
    let x = op_x(op) as int;
    let y = op_y(op) as int;
    let vx = pre.v@[x];
    let vy = pre.v@[y];
    &&& frame_v_pc(pre, post)
    &&& post.v@ == pre.v@.update(x, wrap_add8(vx, vy)).update(
        15,
        if vx + vy >= 256 { 1u8 } else { 0u8 },
    )
    &&& post.pc == pre.pc + 2
}

/// Subtract `vy` from `vx` modulo 256; the flag register reports
/// "no borrow" as 1.
pub open spec fn sem_8xy5(op: u16, pre: Emu, post: Emu) -> bool {
    let x = op_x(op) as int;
    let y = op_y(op) as int;
    let vx = pre.v@[x];
    let vy = pre.v@[y];
    &&& frame_v_pc(pre, post)
    &&& post.v@ == pre.v@.update(x, wrap_sub8(vx, vy)).update(
        15,
        if vy > vx { 0u8 } else { 1u8 },
    )
    &&& post.pc == pre.pc + 2
}

/// Shift right, original-hardware variant: `vx` receives `vy` shifted,
/// the flag register first receives the low bit of `vy`. When `y`
/// selects the flag register itself, the shift reads the just-written
/// flag, as the hardware-faithful write order implies.
pub open spec fn sem_8xy6_orig(op: u16, pre: Emu, post: Emu) -> bool {
    let x = op_x(op) as int;
    let y = op_y(op) as int;
    let a = pre.v@.update(15, pre.v@[y] & 1);
    &&& frame_v_pc(pre, post)
    &&& post.v@ == a.update(x, a[y] >> 1u8)
    &&& post.pc == pre.pc + 2
}

/// Shift right, revised variant: `vx` is shifted in place, the flag
/// register first receives its low bit.
pub open spec fn sem_8xy6(op: u16, pre: Emu, post: Emu) -> bool {
    let x = op_x(op) as int;
    let a = pre.v@.update(15, pre.v@[x] & 1);
    &&& frame_v_pc(pre, post)
    &&& post.v@ == a.update(x, a[x] >> 1u8)
    &&& post.pc == pre.pc + 2
}

/// Set `vx` to `vy` minus `vx` modulo 256; the flag register reports
/// "no borrow" as 1.
pub open spec fn sem_8xy7(op: u16, pre: Emu, post: Emu) -> bool {
    let x = op_x(op) as int;
    let y = op_y(op) as int;
    let vx = pre.v@[x];
    let vy = pre.v@[y];
    &&& frame_v_pc(pre, post)
    &&& post.v@ == pre.v@.update(x, wrap_sub8(vy, vx)).update(
        15,
        if vx > vy { 0u8 } else { 1u8 },
    )
    &&& post.pc == pre.pc + 2
}

/// Shift left, original-hardware variant: `vx` receives `vy` shifted,
/// the flag register first receives the high bit of `vy` — the bit the
/// shift pushes out.
pub open spec fn sem_8xye_orig(op: u16, pre: Emu, post: Emu) -> bool {
    let x = op_x(op) as int;
    let y = op_y(op) as int;
    let a = pre.v@.update(15, (pre.v@[y] >> 7u8) & 1);
    &&& frame_v_pc(pre, post)
    &&& post.v@ == a.update(x, shl1(a[y]))
    &&& post.pc == pre.pc + 2
}

/// Shift left, revised variant: `vx` is shifted in place, the flag
/// register first receives its high bit — the bit the shift pushes out.
pub open spec fn sem_8xye(op: u16, pre: Emu, post: Emu) -> bool {
    let x = op_x(op) as int;
    let a = pre.v@.update(15, (pre.v@[x] >> 7u8) & 1);
    &&& frame_v_pc(pre, post)
    &&& post.v@ == a.update(x, shl1(a[x]))
    &&& post.pc == pre.pc + 2
}

/// Skip the next instruction if `vx` differs from `vy`.
pub open spec fn sem_9xy0(op: u16, pre: Emu, post: Emu) -> bool {
    &&& frame_pc(pre, post)
    &&& post.pc == pre.pc + (if pre.v@[op_x(op) as int] != pre.v@[op_y(op) as int] {
        4int
    } else {
        2int
    })
}

/// Load an absolute address into the index register.
pub open spec fn sem_annn(op: u16, pre: Emu, post: Emu) -> bool {
    &&& frame_idx_pc(pre, post)
    &&& post.ram_idx == op_nnn(op)
    &&& post.pc == pre.pc + 2
}

/// Jump to an absolute address plus `v0`; the sum is not masked.
pub open spec fn sem_bnnn(op: u16, pre: Emu, post: Emu) -> bool {
    &&& frame_pc(pre, post)
    &&& post.pc == op_nnn(op) + pre.v@[0]
}

/// Store `byte` masked by the immediate into `vx`: the shape of the
/// random-number instruction once the drawn byte is fixed.
pub open spec fn sem_cxnn(op: u16, pre: Emu, post: Emu, byte: u8) -> bool {
    &&& frame_v_pc(pre, post)
    &&& post.v@ == pre.v@.update(op_x(op) as int, byte & op_nn(op))
    &&& post.pc == pre.pc + 2
}

// ---------------------------------------------------------------------
// Sprite drawing.
// ---------------------------------------------------------------------

/// Flat display index of pixel column `x`, row `y`.
pub open spec fn pix(x: int, y: int) -> int {
    x * 64 + y
}

/// Whether sprite row byte `row` has its bit for column `c` set
/// (bit 7 is the leftmost column).
pub open spec fn sprite_bit(row: u8, c: int) -> bool {
    (row >> ((7 - c) as u8)) & 1 == 1
}

/// Whether display cell (`px`, `py`) is written by a sprite of
/// `nrows` rows drawn with its origin at (`sx`, `sy`), with both
/// coordinates wrapping.
pub open spec fn sprite_covers(sx: int, sy: int, nrows: int, px: int, py: int) -> bool {
    &&& (px - sx) % 128 < 8
    &&& (py - sy) % 64 < nrows
}

/// The value of display cell (`px`, `py`) after drawing `rows` at
/// origin (`sx`, `sy`) over display `g`: covered cells are XORed with
/// their sprite bit, all others keep their value.
pub open spec fn draw_pixel(g: Seq<bool>, sx: int, sy: int, rows: Seq<u8>, px: int, py: int) -> bool {
    if sprite_covers(sx, sy, rows.len() as int, px, py) {
        g[pix(px, py)] != sprite_bit(rows[(py - sy) % 64], (px - sx) % 128)
    } else {
        g[pix(px, py)]
    }
}

/// Whether the draw turns some lit pixel off: the collision signal.
pub open spec fn sprite_collides(g: Seq<bool>, sx: int, sy: int, rows: Seq<u8>) -> bool {
    exists|r: int, c: int|
        0 <= r < rows.len() && 0 <= c < 8 && sprite_bit(rows[r], c) && g[pix(
            (sx + c) % 128,
            (sy + r) % 64,
        )]
}

/// Whether the draw turns some unlit pixel on: the redraw signal.
pub open spec fn sprite_lights(g: Seq<bool>, sx: int, sy: int, rows: Seq<u8>) -> bool {
    exists|r: int, c: int|
        0 <= r < rows.len() && 0 <= c < 8 && sprite_bit(rows[r], c) && !g[pix(
            (sx + c) % 128,
            (sy + r) % 64,
        )]
}

/// Whether the sprite cell that maps to display cell (`px`, `py`) has
/// been processed once the first `k` cells, in row-major order, are
/// done: cell row `r`, column `c` is processed when `r * 8 + c < k`.
pub open spec fn covered_before(sx: int, sy: int, nrows: int, px: int, py: int, k: int) -> bool {
    let cc = (px - sx) % 128;
    let rr = (py - sy) % 64;
    &&& cc < 8
    &&& rr < nrows
    &&& rr * 8 + cc < k
}

/// The value of display cell (`px`, `py`) once the first `k` sprite
/// cells have been composited: processed cells are XORed with their
/// sprite bit, the rest keep their value.
pub open spec fn draw_pixel_before(
    g: Seq<bool>,
    sx: int,
    sy: int,
    rows: Seq<u8>,
    px: int,
    py: int,
    k: int,
) -> bool {
    if covered_before(sx, sy, rows.len() as int, px, py, k) {
        g[pix(px, py)] != sprite_bit(rows[(py - sy) % 64], (px - sx) % 128)
    } else {
        g[pix(px, py)]
    }
}

/// Whether some sprite cell among the first `k`, in row-major order,
/// has its bit set and meets a display cell whose value is `want`.
pub open spec fn hit_before(
    g: Seq<bool>,
    sx: int,
    sy: int,
    rows: Seq<u8>,
    k: int,
    want: bool,
) -> bool {
    exists|rr: int, cc: int|
        0 <= rr < rows.len() && 0 <= cc < 8 && rr * 8 + cc < k && sprite_bit(rows[rr], cc) && g[pix(
            (sx + cc) % 128,
            (sy + rr) % 64,
        )] == want
}

/// The draw loop's invariant: with the first `k` sprite cells
/// composited, the display, the flag register and the redraw flag stand
/// exactly as the processed cells dictate, and nothing else has moved.
pub open spec fn draw_progress(
    pre: Emu,
    cur: Emu,
    sx: int,
    sy: int,
    rows: Seq<u8>,
    k: int,
) -> bool {
    &&& frame_gfx_v_pc(pre, cur)
    &&& cur.pc == pre.pc
    &&& cur.opcode == pre.opcode
    &&& cur.gfx@.len() == pre.gfx@.len()
    &&& forall|px: int, py: int|
        #![trigger pix(px, py)]
        0 <= px < 128 && 0 <= py < 64 ==> cur.gfx@[pix(px, py)] == draw_pixel_before(
            pre.gfx@,
            sx,
            sy,
            rows,
            px,
            py,
            k,
        )
    &&& cur.v@ == pre.v@.update(
        15,
        if hit_before(pre.gfx@, sx, sy, rows, k, true) { 1u8 } else { 0u8 },
    )
    &&& cur.draw == (pre.draw || hit_before(pre.gfx@, sx, sy, rows, k, false))
}

/// Draw a sprite: XOR-composite `n` rows read at the index register
/// onto the display at origin (`vx`, `vy`); the flag register reports a
/// collision, the redraw flag is raised when some pixel lights up.
/// Reading rows past the top of memory is a fault that leaves the
/// machine unchanged.
pub open spec fn sem_dxyn(op: u16, pre: Emu, post: Emu, r: Result<(), EmuError>) -> bool {
    let n = op_n(op) as int;
    let idx = pre.ram_idx as int;
    if n > 0 && idx + n > 4096 {
        &&& r == Err::<(), EmuError>(EmuError::MemoryOutOfRange)
        &&& unchanged_state(pre, post)
    } else {
        let sx = pre.v@[op_x(op) as int] as int;
        let sy = pre.v@[op_y(op) as int] as int;
        let rows = if n == 0 {
            Seq::<u8>::empty()
        } else {
            pre.ram@.subrange(idx, idx + n)
        };
        &&& r == Ok::<(), EmuError>(())
        &&& frame_gfx_v_pc(pre, post)
        &&& post.gfx@.len() == pre.gfx@.len()
        &&& forall|px: int, py: int|
            #![trigger pix(px, py)]
            0 <= px < 128 && 0 <= py < 64 ==> post.gfx@[pix(px, py)] == draw_pixel(
                pre.gfx@,
                sx,
                sy,
                rows,
                px,
                py,
            )
        &&& post.v@ == pre.v@.update(
            15,
            if sprite_collides(pre.gfx@, sx, sy, rows) { 1u8 } else { 0u8 },
        )
        &&& post.draw == (pre.draw || sprite_lights(pre.gfx@, sx, sy, rows))
        &&& post.pc == pre.pc + 2
    }
}

/// Skip the next instruction if the key selected by `vx` is pressed.
/// A register value past the last key is a fault.
pub open spec fn sem_ex9e(op: u16, pre: Emu, post: Emu, r: Result<(), EmuError>) -> bool {
    let k = pre.v@[op_x(op) as int] as int;
    if k < 16 {
        &&& r == Ok::<(), EmuError>(())
        &&& frame_pc(pre, post)
        &&& post.pc == pre.pc + (if pre.keys@[k] { 4int } else { 2int })
    } else {
        &&& r == Err::<(), EmuError>(EmuError::KeyOutOfRange)
        &&& unchanged_state(pre, post)
    }
}

/// Skip the next instruction if the key selected by `vx` is not
/// pressed. A register value past the last key is a fault.
pub open spec fn sem_exa1(op: u16, pre: Emu, post: Emu, r: Result<(), EmuError>) -> bool {
    let k = pre.v@[op_x(op) as int] as int;
    if k < 16 {
        &&& r == Ok::<(), EmuError>(())
        &&& frame_pc(pre, post)
        &&& post.pc == pre.pc + (if pre.keys@[k] { 2int } else { 4int })
    } else {
        &&& r == Err::<(), EmuError>(EmuError::KeyOutOfRange)
        &&& unchanged_state(pre, post)
    }
}

/// Copy the delay timer into `vx`.
pub open spec fn sem_fx07(op: u16, pre: Emu, post: Emu) -> bool {
    &&& frame_v_pc(pre, post)
    &&& post.v@ == pre.v@.update(op_x(op) as int, pre.dt)
    &&& post.pc == pre.pc + 2
}

/// The lowest pressed key among the first sixteen, or 16 when none is
/// pressed, scanning upward from `i`.
pub open spec fn first_key_from(keys: Seq<bool>, i: int) -> int
    decreases 16 - i,
{
    if i >= 16 {
        16
    } else if keys[i] {
        i
    } else {
        first_key_from(keys, i + 1)
    }
}

/// The lowest pressed key, or 16 when none is pressed.
pub open spec fn first_key(keys: Seq<bool>) -> int {
    first_key_from(keys, 0)
}

/// Wait for a key: when some key is pressed, store the lowest pressed
/// key index into `vx` and move on; when none is, leave the whole state
/// unchanged so that the same instruction is fetched again.
pub open spec fn sem_fx0a(op: u16, pre: Emu, post: Emu) -> bool {
    if first_key(pre.keys@) < 16 {
        &&& frame_v_pc(pre, post)
        &&& post.v@ == pre.v@.update(op_x(op) as int, first_key(pre.keys@) as u8)
        &&& post.pc == pre.pc + 2
    } else {
        unchanged_state(pre, post)
    }
}

/// Copy `vx` into the delay timer.
pub open spec fn sem_fx15(op: u16, pre: Emu, post: Emu) -> bool {
    &&& frame_dt_pc(pre, post)
    &&& post.dt == pre.v@[op_x(op) as int]
    &&& post.pc == pre.pc + 2
}

/// Copy `vx` into the sound timer.
pub open spec fn sem_fx18(op: u16, pre: Emu, post: Emu) -> bool {
    &&& frame_st_pc(pre, post)
    &&& post.st == pre.v@[op_x(op) as int]
    &&& post.pc == pre.pc + 2
}

/// Add `vx` to the index register: the flag register reports whether
/// the raw sum exceeds 0xfff, and the index register receives the sum
/// reduced modulo 0x1000 either way.
pub open spec fn sem_fx1e(op: u16, pre: Emu, post: Emu) -> bool {
    let sum = pre.ram_idx + pre.v@[op_x(op) as int];
    &&& frame_v_idx_pc(pre, post)
    &&& post.v@ == pre.v@.update(15, if sum > 0xfff { 1u8 } else { 0u8 })
    &&& post.ram_idx == sum % 0x1000
    &&& post.pc == pre.pc + 2
}

/// Point the index register at the font glyph for the value of `vx`:
/// each glyph occupies five bytes from address zero.
pub open spec fn sem_fx29(op: u16, pre: Emu, post: Emu) -> bool {
    &&& frame_idx_pc(pre, post)
    &&& post.ram_idx == 5 * pre.v@[op_x(op) as int]
    &&& post.pc == pre.pc + 2
}

/// Store the decimal digits of `vx` at the index register: hundreds,
/// tens, ones. Writing past the top of memory is a fault.
pub open spec fn sem_fx33(op: u16, pre: Emu, post: Emu, r: Result<(), EmuError>) -> bool {
    let idx = pre.ram_idx as int;
    let vx = pre.v@[op_x(op) as int];
    if idx + 3 <= 4096 {
        &&& r == Ok::<(), EmuError>(())
        &&& frame_ram_pc(pre, post)
        &&& post.ram@ == pre.ram@.update(idx, (vx / 100) as u8).update(
            idx + 1,
            ((vx / 10) % 10) as u8,
        ).update(idx + 2, (vx % 10) as u8)
        &&& post.pc == pre.pc + 2
    } else {
        &&& r == Err::<(), EmuError>(EmuError::MemoryOutOfRange)
        &&& unchanged_state(pre, post)
    }
}

/// Store registers `v0` through `vx` into memory at the index register,
/// which is itself left unchanged. Writing past the top of memory is a
/// fault.
pub open spec fn sem_fx55(op: u16, pre: Emu, post: Emu, r: Result<(), EmuError>) -> bool {
    let x = op_x(op) as int;
    let idx = pre.ram_idx as int;
    if idx + x + 1 <= 4096 {
        &&& r == Ok::<(), EmuError>(())
        &&& frame_ram_pc(pre, post)
        &&& post.ram@.len() == pre.ram@.len()
        &&& forall|i: int|
            0 <= i < 4096 ==> post.ram@[i] == (if idx <= i <= idx + x {
                pre.v@[i - idx]
            } else {
                pre.ram@[i]
            })
        &&& post.pc == pre.pc + 2
    } else {
        &&& r == Err::<(), EmuError>(EmuError::MemoryOutOfRange)
        &&& unchanged_state(pre, post)
    }
}

/// Load registers `v0` through `vx` from memory at the index register,
/// which is itself left unchanged. Reading past the top of memory is a
/// fault.
pub open spec fn sem_fx65(op: u16, pre: Emu, post: Emu, r: Result<(), EmuError>) -> bool {
    let x = op_x(op) as int;
    let idx = pre.ram_idx as int;
    if idx + x + 1 <= 4096 {
        &&& r == Ok::<(), EmuError>(())
        &&& frame_v_pc(pre, post)
        &&& post.v@.len() == pre.v@.len()
        &&& forall|i: int|
            0 <= i < 16 ==> post.v@[i] == (if i <= x {
                pre.ram@[idx + i]
            } else {
                pre.v@[i]
            })
        &&& post.pc == pre.pc + 2
    } else {
        &&& r == Err::<(), EmuError>(EmuError::MemoryOutOfRange)
        &&& unchanged_state(pre, post)
    }
}

/// A word no dispatch level recognizes: the fault carries the word and
/// the machine is left unchanged.
pub open spec fn sem_unknown(op: u16, pre: Emu, post: Emu, r: Result<(), EmuError>) -> bool {
    &&& r == Err::<(), EmuError>(EmuError::UnknownOpcode(op))
    &&& unchanged_state(pre, post)
}

/// One 60Hz tick: each nonzero timer is decremented by one, a zero
/// timer is held at zero; nothing else moves.
pub open spec fn sem_tick(pre: Emu, post: Emu) -> bool {
    &&& frame_timers(pre, post)
    &&& post.dt == (if pre.dt > 0 { pre.dt - 1 } else { 0int })
    &&& post.st == (if pre.st > 0 { pre.st - 1 } else { 0int })
}

// ---------------------------------------------------------------------
// Dispatch and the full cycle.
// ---------------------------------------------------------------------

/// How one instruction word `op` transforms the machine: the decode
/// table. Classification is by the high nibble, then for five families
/// by the low nibble or low byte; the shift instructions follow the
/// configured quirk.
pub open spec fn dispatch(op: u16, pre: Emu, post: Emu, r: Result<(), EmuError>) -> bool {
    let top = op & 0xf000;
    if top == 0x0000 {
        if op & 0x00ff == 0x00e0 {
            r == Ok::<(), EmuError>(()) && sem_00e0(pre, post)
        } else if op & 0x00ff == 0x00ee {
            sem_00ee(pre, post, r)
        } else {
            sem_unknown(op, pre, post, r)
        }
    } else if top == 0x1000 {
        r == Ok::<(), EmuError>(()) && sem_1nnn(op, pre, post)
    } else if top == 0x2000 {
        sem_2nnn(op, pre, post, r)
    } else if top == 0x3000 {
        r == Ok::<(), EmuError>(()) && sem_3xnn(op, pre, post)
    } else if top == 0x4000 {
        r == Ok::<(), EmuError>(()) && sem_4xnn(op, pre, post)
    } else if top == 0x5000 {
        if op & 0x000f == 0x0000 {
            r == Ok::<(), EmuError>(()) && sem_5xy0(op, pre, post)
        } else {
            sem_unknown(op, pre, post, r)
        }
    } else if top == 0x6000 {
        r == Ok::<(), EmuError>(()) && sem_6xnn(op, pre, post)
    } else if top == 0x7000 {
        r == Ok::<(), EmuError>(()) && sem_7xnn(op, pre, post)
    } else if top == 0x8000 {
        let low = op & 0x000f;
        if low == 0x0000 {
            r == Ok::<(), EmuError>(()) && sem_8xy0(op, pre, post)
        } else if low == 0x0001 {
            r == Ok::<(), EmuError>(()) && sem_8xy1(op, pre, post)
        } else if low == 0x0002 {
            r == Ok::<(), EmuError>(()) && sem_8xy2(op, pre, post)
        } else if low == 0x0003 {
            r == Ok::<(), EmuError>(()) && sem_8xy3(op, pre, post)
        } else if low == 0x0004 {
            r == Ok::<(), EmuError>(()) && sem_8xy4(op, pre, post)
        } else if low == 0x0005 {
            r == Ok::<(), EmuError>(()) && sem_8xy5(op, pre, post)
        } else if low == 0x0006 {
            r == Ok::<(), EmuError>(()) && (if pre.quirk == ShiftQuirk::Revised {
                sem_8xy6(op, pre, post)
            } else {
                sem_8xy6_orig(op, pre, post)
            })
        } else if low == 0x0007 {
            r == Ok::<(), EmuError>(()) && sem_8xy7(op, pre, post)
        } else if low == 0x000e {
            r == Ok::<(), EmuError>(()) && (if pre.quirk == ShiftQuirk::Revised {
                sem_8xye(op, pre, post)
            } else {
                sem_8xye_orig(op, pre, post)
            })
        } else {
            sem_unknown(op, pre, post, r)
        }
    } else if top == 0x9000 {
        r == Ok::<(), EmuError>(()) && sem_9xy0(op, pre, post)
    } else if top == 0xa000 {
        r == Ok::<(), EmuError>(()) && sem_annn(op, pre, post)
    } else if top == 0xb000 {
        r == Ok::<(), EmuError>(()) && sem_bnnn(op, pre, post)
    } else if top == 0xc000 {
        r == Ok::<(), EmuError>(()) && exists|b: u8| sem_cxnn(op, pre, post, b)
    } else if top == 0xd000 {
        sem_dxyn(op, pre, post, r)
    } else if top == 0xe000 {
        let low = op & 0x000f;
        if low == 0x000e {
            sem_ex9e(op, pre, post, r)
        } else if low == 0x0001 {
            sem_exa1(op, pre, post, r)
        } else {
            sem_unknown(op, pre, post, r)
        }
    } else if top == 0xf000 {
        let low = op & 0x00ff;
        if low == 0x0007 {
            r == Ok::<(), EmuError>(()) && sem_fx07(op, pre, post)
        } else if low == 0x000a {
            r == Ok::<(), EmuError>(()) && sem_fx0a(op, pre, post)
        } else if low == 0x0015 {
            r == Ok::<(), EmuError>(()) && sem_fx15(op, pre, post)
        } else if low == 0x0018 {
            r == Ok::<(), EmuError>(()) && sem_fx18(op, pre, post)
        } else if low == 0x001e {
            r == Ok::<(), EmuError>(()) && sem_fx1e(op, pre, post)
        } else if low == 0x0029 {
            r == Ok::<(), EmuError>(()) && sem_fx29(op, pre, post)
        } else if low == 0x0033 {
            sem_fx33(op, pre, post, r)
        } else if low == 0x0055 {
            sem_fx55(op, pre, post, r)
        } else if low == 0x0065 {
            sem_fx65(op, pre, post, r)
        } else {
            sem_unknown(op, pre, post, r)
        }
    } else {
        sem_unknown(op, pre, post, r)
    }
}

/// Loading a program image: an image over 3584 bytes is refused and
/// nothing moves; otherwise the image is cached and copied into memory
/// at the program start address, the rest of the machine untouched.
pub open spec fn sem_load(pre: Emu, post: Emu, rom: Seq<u8>, r: Result<(), EmuError>) -> bool {
    if rom.len() > 3584 {
        &&& r == Err::<(), EmuError>(EmuError::RomTooLarge)
        &&& unchanged_state(pre, post)
        &&& post.opcode == pre.opcode
    } else {
        &&& r == Ok::<(), EmuError>(())
        &&& post.rom@ == rom
        &&& post.ram@.len() == 4096
        &&& forall|i: int|
            0 <= i < 4096 ==> post.ram@[i] == (if 512 <= i < 512 + rom.len() {
                rom[i - 512]
            } else {
                pre.ram@[i]
            })
        &&& post.gfx@ == pre.gfx@
        &&& post.draw == pre.draw
        &&& post.keys@ == pre.keys@
        &&& post.v@ == pre.v@
        &&& post.ram_idx == pre.ram_idx
        &&& post.pc == pre.pc
        &&& post.dt == pre.dt
        &&& post.st == pre.st
        &&& post.stack@ == pre.stack@
        &&& post.sp == pre.sp
        &&& post.opcode == pre.opcode
        &&& post.quirk == pre.quirk
    }
}

/// The instruction word at the program counter, read big-endian.
pub open spec fn fetch_word(pre: Emu) -> u16 {
    (pre.ram@[pre.pc as int] * 256 + pre.ram@[pre.pc as int + 1]) as u16
}

/// One full cycle: fetch the word at the program counter, then apply
/// its transition. A program counter within two bytes of the top of
/// memory cannot be fetched and is a fault that leaves the machine
/// unchanged.
pub open spec fn cycle_spec(pre: Emu, post: Emu, r: Result<(), EmuError>) -> bool {
    if pre.pc + 1 < 4096 {
        &&& post.opcode == fetch_word(pre)
        &&& dispatch(fetch_word(pre), pre, post, r)
    } else {
        &&& r == Err::<(), EmuError>(EmuError::MemoryOutOfRange)
        &&& post.opcode == pre.opcode
        &&& unchanged_state(pre, post)
    }
}

} // verus!
