//! The machine state and the interpreter: construction with the font
//! table pre-loaded, ROM loading and reset, the fetch/decode/execute
//! cycle with one handler per instruction, and the timer tick.

use vstd::prelude::*;

use crate::laws::{
    lemma_draw_step, lemma_hit_complete, lemma_hit_step, lemma_mod_in_range, lemma_op_fields,
};
use crate::semantics::{
    base_regs, covered_before, draw_pixel_before, draw_progress, fetch_word, first_key_from,
    font_seq,
    frame_ram_pc, frame_v_pc, glyph5, hit_before, loaded_ram, op_n, op_x, op_y, pix, sem_00e0,
    sem_00ee, sem_1nnn, sem_2nnn, sem_3xnn, sem_4xnn, sem_5xy0, sem_dxyn, sprite_bit,
    sem_6xnn, sem_7xnn, sem_8xy0, sem_8xy1, sem_8xy2, sem_8xy3, sem_8xy4, sem_8xy5, sem_8xy6,
    sem_8xy6_orig, sem_8xy7, sem_8xye, sem_8xye_orig, sem_9xy0, sem_annn, sem_bnnn, sem_cxnn,
    sem_ex9e, sem_exa1, sem_fx07, sem_fx0a, sem_fx15, sem_fx18, sem_fx1e, sem_fx29, sem_fx33,
    sem_fx55, sem_fx65, sem_load, sem_tick, unchanged_state, cycle_spec, dispatch,
};

use crate::{GFX_H, GFX_W};

verus! {

/// Which of the two documented shift-instruction behaviors the machine
/// follows: the original interpreter shifted `vy` into `vx`, the
/// revised one shifts `vx` in place. Most programs expect the revised
/// behavior, so it is the default.
#[derive(Clone, Copy, Debug, PartialEq, Eq, Structural)]
pub enum ShiftQuirk {
    Original,
    Revised,
}

/// A fault surfaced by the interpreter instead of a halt: the one
/// recoverable condition is the load-time capacity check, the rest end
/// the current execution.
#[derive(Clone, Copy, Debug, PartialEq, Eq, Structural)]
pub enum EmuError {
    /// A program image larger than the 3584 bytes of program memory.
    RomTooLarge,
    /// An instruction word no dispatch level recognizes, carried along.
    UnknownOpcode(u16),
    /// A memory access past the 4096-byte address space.
    MemoryOutOfRange,
    /// A subroutine call with all sixteen stack slots in use.
    StackOverflow,
    /// A return with no call outstanding.
    StackUnderflow,
    /// A key query through a register holding a value past the last key.
    KeyOutOfRange,
}

/// The machine state: memory with the font table low, the register
/// file, the index register, the program counter, the call stack, the
/// two timers, the display buffer with its redraw flag, the keypad
/// snapshot, and the cached program image that backs `reset`.
pub struct Emu {
    /// Display pixels, one flag per pixel, grouped by column: column
    /// `x`, row `y` is at flat index `x * GFX_H + y`.
    pub gfx: Vec<bool>,
    /// One "is pressed" flag per key, written by the host.
    pub keys: Vec<bool>,
    /// Raised when a sprite draw lights a pixel or the display is
    /// cleared; the host lowers it after rendering.
    pub draw: bool,
    /// The instruction word most recently fetched.
    pub opcode: u16,
    /// 4096 bytes of memory; the font table sits below 0x050 and the
    /// program image starts at 0x200.
    pub ram: Vec<u8>,
    /// The sixteen 8-bit registers; `v[0xf]` doubles as the
    /// carry/borrow/collision flag.
    pub v: Vec<u8>,
    /// The 16-bit index register used as a memory pointer.
    pub ram_idx: u16,
    /// The program counter.
    pub pc: u16,
    /// The delay timer.
    pub dt: u8,
    /// The sound timer; the machine beeps while it is nonzero.
    pub st: u8,
    /// Sixteen return-address slots.
    pub stack: Vec<u16>,
    /// The next free stack slot.
    pub sp: usize,
    /// The loaded program image, kept so `reset` can reload it.
    pub rom: Vec<u8>,
    /// The selected shift-instruction behavior.
    pub quirk: ShiftQuirk,
}

impl Emu {
    /// The structural invariant: every collection has its fixed size,
    /// the stack pointer stays within the sixteen slots, and the cached
    /// image fits program memory.
    pub open spec fn wf(self) -> bool {
        &&& self.v@.len() == 16
        &&& self.ram@.len() == 4096
        &&& self.stack@.len() == 16
        &&& self.keys@.len() == 16
        &&& self.gfx@.len() == 8192
        &&& self.sp <= 16
        &&& self.rom@.len() <= 3584
    }

    /// Flat display index of column `x`, row `y`.
    pub open spec fn pixel_at(self, x: int, y: int) -> bool {
        self.gfx@[x * 64 + y]
    }

    /// A machine with the font table in low memory and everything else
    /// zeroed; no program is loaded yet.
    pub fn new() -> (e: Emu)
        ensures
            e.wf(),
            base_regs(e),
            e.quirk == ShiftQuirk::Revised,
            e.rom@ == Seq::<u8>::empty(),
            loaded_ram(e.ram@, Seq::<u8>::empty()),
    {
        let font = font_table();
        let mut ram: Vec<u8> = repeat_value(4096, 0u8);
        let mut i: usize = 0;
        while i < 80
            invariant
                i <= 80,
                ram@.len() == 4096,
                font@ == font_seq(),
                font@.len() == 80,
                forall|j: int| 0 <= j < i ==> ram@[j] == font_seq()[j],
                forall|j: int| i <= j < 4096 ==> ram@[j] == 0,
            decreases 80 - i,
        {
            let b = font[i];
            ram[i] = b;
            i = i + 1;
        }
        Emu {
            gfx: repeat_value(8192, false),
            keys: repeat_value(16, false),
            draw: false,
            opcode: 0,
            ram,
            v: repeat_value(16, 0u8),
            ram_idx: 0,
            pc: 0x200,
            dt: 0,
            st: 0,
            stack: repeat_value(16, 0u16),
            sp: 0,
            rom: Vec::new(),
            quirk: ShiftQuirk::Revised,
        }
    }

    /// Read one display pixel.
    pub fn pixel(&self, x: usize, y: usize) -> (b: bool)
        requires
            self.wf(),
            x < GFX_W,
            y < GFX_H,
        ensures
            b == self.pixel_at(x as int, y as int),
    {
        self.gfx[x * GFX_H + y]
    }

    /// Write one display pixel; meant for hosts and tests that set up a
    /// display state by hand.
    pub fn set_pixel(&mut self, x: usize, y: usize, on: bool)
        requires
            old(self).wf(),
            x < GFX_W,
            y < GFX_H,
        ensures
            final(self).wf(),
            final(self).gfx@ == old(self).gfx@.update(x as int * 64 + y as int, on),
            crate::semantics::frame_gfx_only(*old(self), *final(self)),
    {
        self.gfx[x * GFX_H + y] = on;
    }

    /// One timer tick: decrement each nonzero timer, holding at zero.
    pub fn update_timers(&mut self)
        requires
            old(self).wf(),
        ensures
            final(self).wf(),
            sem_tick(*old(self), *final(self)),
    {
        if self.dt > 0 {
            self.dt = self.dt - 1;
        }
        if self.st > 0 {
            self.st = self.st - 1;
        }
    }

    /// Whether the sound should be playing: exactly while the sound
    /// timer is nonzero.
    pub fn beeping(&self) -> (b: bool)
        ensures
            b == (self.st > 0),
    {
        return self.st > 0;
    }

    /// Jump to address nnn.
    pub fn execute_opcode_1nnn(&mut self)
        requires
            old(self).wf(),
        ensures
            final(self).wf(),
            final(self).opcode == old(self).opcode,
            sem_1nnn(old(self).opcode, *old(self), *final(self)),
    {
        let nnn = self.opcode & 0x0fff;
        self.pc = nnn;
    }

    /// Set vx to nn.
    pub fn execute_opcode_6xnn(&mut self)
        requires
            old(self).wf(),
            old(self).pc + 2 <= u16::MAX,
        ensures
            final(self).wf(),
            final(self).opcode == old(self).opcode,
            sem_6xnn(old(self).opcode, *old(self), *final(self)),
    {
        proof {
            lemma_op_fields(self.opcode);
        }
        let x = (self.opcode & 0x0f00) >> 8;
        let nn = self.opcode & 0x00ff;
        self.v[x as usize] = nn as u8;
        self.pc = self.pc + 2;
    }

    /// Set the index register to the address nnn.
    pub fn execute_opcode_annn(&mut self)
        requires
            old(self).wf(),
            old(self).pc + 2 <= u16::MAX,
        ensures
            final(self).wf(),
            final(self).opcode == old(self).opcode,
            sem_annn(old(self).opcode, *old(self), *final(self)),
    {
        let nnn = self.opcode & 0x0fff;
        self.ram_idx = nnn;
        self.pc = self.pc + 2;
    }

    /// Clear the screen.
    pub fn execute_opcode_00e0(&mut self)
        requires
            old(self).wf(),
            old(self).pc + 2 <= u16::MAX,
        ensures
            final(self).wf(),
            final(self).opcode == old(self).opcode,
            sem_00e0(*old(self), *final(self)),
    {
        let ghost pre = *self;
        let mut i: usize = 0;
        while i < 8192
            invariant
                i <= 8192,
                self.gfx@.len() == 8192,
                forall|j: int| 0 <= j < i ==> self.gfx@[j] == false,
                crate::semantics::frame_gfx_only(pre, *self),
            decreases 8192 - i,
        {
            self.gfx[i] = false;
            i = i + 1;
        }
        self.draw = true;
        self.pc = self.pc + 2;
    }

    /// Return from the last subroutine.
    pub fn execute_opcode_00ee(&mut self) -> (r: Result<(), EmuError>)
        requires
            old(self).wf(),
        ensures
            final(self).wf(),
            final(self).opcode == old(self).opcode,
            sem_00ee(*old(self), *final(self), r),
    {
        if self.sp < 1 {
            return Err(EmuError::StackUnderflow);
        }
        self.sp = self.sp - 1;
        let top = self.stack[self.sp];
        self.pc = top.wrapping_add(2);
        proof {
            lemma_mod_in_range(top + 2, 0x10000);
        }
        Ok(())
    }

    /// Call the subroutine at nnn: push the current program counter.
    pub fn execute_opcode_2nnn(&mut self) -> (r: Result<(), EmuError>)
        requires
            old(self).wf(),
        ensures
            final(self).wf(),
            final(self).opcode == old(self).opcode,
            sem_2nnn(old(self).opcode, *old(self), *final(self), r),
    {
        if self.sp >= 16 {
            return Err(EmuError::StackOverflow);
        }
        let nnn = self.opcode & 0x0fff;
        self.stack[self.sp] = self.pc;
        self.sp = self.sp + 1;
        self.pc = nnn;
        Ok(())
    }

    /// Skip the next instruction if vx equals nn.
    pub fn execute_opcode_3xnn(&mut self)
        requires
            old(self).wf(),
            old(self).pc + 4 <= u16::MAX,
        ensures
            final(self).wf(),
            final(self).opcode == old(self).opcode,
            sem_3xnn(old(self).opcode, *old(self), *final(self)),
    {
        proof {
            lemma_op_fields(self.opcode);
        }
        let x = (self.opcode & 0x0f00) >> 8;
        let nn = self.opcode & 0x00ff;
        self.pc = self.pc + (if self.v[x as usize] == nn as u8 { 4 } else { 2 });
    }

    /// Skip the next instruction if vx does not equal nn.
    pub fn execute_opcode_4xnn(&mut self)
        requires
            old(self).wf(),
            old(self).pc + 4 <= u16::MAX,
        ensures
            final(self).wf(),
            final(self).opcode == old(self).opcode,
            sem_4xnn(old(self).opcode, *old(self), *final(self)),
    {
        proof {
            lemma_op_fields(self.opcode);
        }
        let x = (self.opcode & 0x0f00) >> 8;
        let nn = self.opcode & 0x00ff;
        self.pc = self.pc + (if self.v[x as usize] != nn as u8 { 4 } else { 2 });
    }

    /// Skip the next instruction if vx equals vy.
    pub fn execute_opcode_5xy0(&mut self)
        requires
            old(self).wf(),
            old(self).pc + 4 <= u16::MAX,
        ensures
            final(self).wf(),
            final(self).opcode == old(self).opcode,
            sem_5xy0(old(self).opcode, *old(self), *final(self)),
    {
        proof {
            lemma_op_fields(self.opcode);
        }
        let x = (self.opcode & 0x0f00) >> 8;
        let y = (self.opcode & 0x00f0) >> 4;
        self.pc = self.pc + (if self.v[x as usize] == self.v[y as usize] { 4 } else { 2 });
    }

    /// Add nn to vx with 8-bit wraparound; no flag.
    pub fn execute_opcode_7xnn(&mut self)
        requires
            old(self).wf(),
            old(self).pc + 2 <= u16::MAX,
        ensures
            final(self).wf(),
            final(self).opcode == old(self).opcode,
            sem_7xnn(old(self).opcode, *old(self), *final(self)),
    {
        proof {
            lemma_op_fields(self.opcode);
        }
        let x = (self.opcode & 0x0f00) >> 8;
        let nn = self.opcode & 0x00ff;
        let vx = self.v[x as usize];
        let nnb = nn as u8;
        self.v[x as usize] = vx.wrapping_add(nnb);
        proof {
            lemma_mod_in_range(vx + nnb, 256);
        }
        self.pc = self.pc + 2;
    }

    /// Set vx to the value of vy.
    pub fn execute_opcode_8xy0(&mut self)
        requires
            old(self).wf(),
            old(self).pc + 2 <= u16::MAX,
        ensures
            final(self).wf(),
            final(self).opcode == old(self).opcode,
            sem_8xy0(old(self).opcode, *old(self), *final(self)),
    {
        proof {
            lemma_op_fields(self.opcode);
        }
        let x = (self.opcode & 0x0f00) >> 8;
        let y = (self.opcode & 0x00f0) >> 4;
        let vy = self.v[y as usize];
        self.v[x as usize] = vy;
        self.pc = self.pc + 2;
    }

    /// Set vx to vx OR vy.
    pub fn execute_opcode_8xy1(&mut self)
        requires
            old(self).wf(),
            old(self).pc + 2 <= u16::MAX,
        ensures
            final(self).wf(),
            final(self).opcode == old(self).opcode,
            sem_8xy1(old(self).opcode, *old(self), *final(self)),
    {
        proof {
            lemma_op_fields(self.opcode);
        }
        let x = (self.opcode & 0x0f00) >> 8;
        let y = (self.opcode & 0x00f0) >> 4;
        let vx = self.v[x as usize];
        let vy = self.v[y as usize];
        self.v[x as usize] = vx | vy;
        self.pc = self.pc + 2;
    }

    /// Set vx to vx AND vy.
    pub fn execute_opcode_8xy2(&mut self)
        requires
            old(self).wf(),
            old(self).pc + 2 <= u16::MAX,
        ensures
            final(self).wf(),
            final(self).opcode == old(self).opcode,
            sem_8xy2(old(self).opcode, *old(self), *final(self)),
    {
        proof {
            lemma_op_fields(self.opcode);
        }
        let x = (self.opcode & 0x0f00) >> 8;
        let y = (self.opcode & 0x00f0) >> 4;
        let vx = self.v[x as usize];
        let vy = self.v[y as usize];
        self.v[x as usize] = vx & vy;
        self.pc = self.pc + 2;
    }

    /// Set vx to vx XOR vy.
    pub fn execute_opcode_8xy3(&mut self)
        requires
            old(self).wf(),
            old(self).pc + 2 <= u16::MAX,
        ensures
            final(self).wf(),
            final(self).opcode == old(self).opcode,
            sem_8xy3(old(self).opcode, *old(self), *final(self)),
    {
        proof {
            lemma_op_fields(self.opcode);
        }
        let x = (self.opcode & 0x0f00) >> 8;
        let y = (self.opcode & 0x00f0) >> 4;
        let vx = self.v[x as usize];
        let vy = self.v[y as usize];
        self.v[x as usize] = vx ^ vy;
        self.pc = self.pc + 2;
    }

    /// Add vy to vx modulo 256 and set the flag register to 1 exactly
    /// when the sum carried.
    pub fn execute_opcode_8xy4(&mut self)
        requires
            old(self).wf(),
            old(self).pc + 2 <= u16::MAX,
        ensures
            final(self).wf(),
            final(self).opcode == old(self).opcode,
            sem_8xy4(old(self).opcode, *old(self), *final(self)),
    {
        proof {
            lemma_op_fields(self.opcode);
        }
        let x = (self.opcode & 0x0f00) >> 8;
        let y = (self.opcode & 0x00f0) >> 4;
        let vx = self.v[x as usize];
        let vy = self.v[y as usize];
        self.v[x as usize] = vx.wrapping_add(vy);
        proof {
            lemma_mod_in_range(vx + vy, 256);
        }
        let carried = self.v[x as usize] < vy;
        self.v[15] = if carried {
            1
        } else {
            0
        };
        self.pc = self.pc + 2;
    }

    /// Subtract vy from vx modulo 256 and set the flag register to 0
    /// exactly when the subtraction borrowed.
    pub fn execute_opcode_8xy5(&mut self)
        requires
            old(self).wf(),
            old(self).pc + 2 <= u16::MAX,
        ensures
            final(self).wf(),
            final(self).opcode == old(self).opcode,
            sem_8xy5(old(self).opcode, *old(self), *final(self)),
    {
        proof {
            lemma_op_fields(self.opcode);
        }
        let x = (self.opcode & 0x0f00) >> 8;
        let y = (self.opcode & 0x00f0) >> 4;
        let vx = self.v[x as usize];
        let vy = self.v[y as usize];
        self.v[x as usize] = vx.wrapping_sub(vy);
        proof {
            lemma_mod_in_range(vx - vy, 256);
        }
        let borrowed = vy > vx;
        self.v[15] = if borrowed {
            0
        } else {
            1
        };
        self.pc = self.pc + 2;
    }

    /// Shift right, original-hardware variant: store vy shifted right
    /// one bit into vx, with the flag register receiving the low bit of
    /// vy first. Selected by the `Original` quirk.
    pub fn execute_opcode_8xy6_orig_not_used(&mut self)
        requires
            old(self).wf(),
            old(self).pc + 2 <= u16::MAX,
        ensures
            final(self).wf(),
            final(self).opcode == old(self).opcode,
            sem_8xy6_orig(old(self).opcode, *old(self), *final(self)),
    {
        proof {
            lemma_op_fields(self.opcode);
        }
        let x = (self.opcode & 0x0f00) >> 8;
        let y = (self.opcode & 0x00f0) >> 4;
        self.v[15] = self.v[y as usize] & 0x01;
        let vy_now = self.v[y as usize];
        self.v[x as usize] = vy_now >> 1;
        self.pc = self.pc + 2;
    }

    /// Shift right, revised variant: shift vx in place, with the flag
    /// register receiving its low bit first. Selected by the `Revised`
    /// quirk, the default.
    pub fn execute_opcode_8xy6(&mut self)
        requires
            old(self).wf(),
            old(self).pc + 2 <= u16::MAX,
        ensures
            final(self).wf(),
            final(self).opcode == old(self).opcode,
            sem_8xy6(old(self).opcode, *old(self), *final(self)),
    {
        proof {
            lemma_op_fields(self.opcode);
        }
        let x = (self.opcode & 0x0f00) >> 8;
        self.v[15] = self.v[x as usize] & 0x01;
        let vx_now = self.v[x as usize];
        self.v[x as usize] = vx_now >> 1;
        self.pc = self.pc + 2;
    }

    /// Set vx to vy minus vx modulo 256 and set the flag register to 0
    /// exactly when the subtraction borrowed.
    pub fn execute_opcode_8xy7(&mut self)
        requires
            old(self).wf(),
            old(self).pc + 2 <= u16::MAX,
        ensures
            final(self).wf(),
            final(self).opcode == old(self).opcode,
            sem_8xy7(old(self).opcode, *old(self), *final(self)),
    {
        proof {
            lemma_op_fields(self.opcode);
        }
        let x = (self.opcode & 0x0f00) >> 8;
        let y = (self.opcode & 0x00f0) >> 4;
        let vx = self.v[x as usize];
        let vy = self.v[y as usize];
        self.v[x as usize] = vy.wrapping_sub(vx);
        proof {
            lemma_mod_in_range(vy - vx, 256);
        }
        let borrowed = vx > vy;
        self.v[15] = if borrowed {
            0
        } else {
            1
        };
        self.pc = self.pc + 2;
    }

    /// Shift left, original-hardware variant: store vy shifted left one
    /// bit into vx, with the flag register first receiving the high bit
    /// of vy — the bit shifted out. Selected by the `Original` quirk.
    pub fn execute_opcode_8xye_orig_not_used(&mut self)
        requires
            old(self).wf(),
            old(self).pc + 2 <= u16::MAX,
        ensures
            final(self).wf(),
            final(self).opcode == old(self).opcode,
            sem_8xye_orig(old(self).opcode, *old(self), *final(self)),
    {
        proof {
            lemma_op_fields(self.opcode);
        }
        let x = (self.opcode & 0x0f00) >> 8;
        let y = (self.opcode & 0x00f0) >> 4;
        self.v[15] = (self.v[y as usize] >> 7) & 0x01;
        let vy_now = self.v[y as usize];
        proof {
            assert(vy_now << 1u8 == ((2 * vy_now) % 256) as u8) by (bit_vector);
        }
        self.v[x as usize] = vy_now << 1;
        self.pc = self.pc + 2;
    }

    /// Shift left, revised variant: shift vx in place, with the flag
    /// register first receiving its high bit — the bit shifted out.
    /// Selected by the `Revised` quirk, the default.
    pub fn execute_opcode_8xye(&mut self)
        requires
            old(self).wf(),
            old(self).pc + 2 <= u16::MAX,
        ensures
            final(self).wf(),
            final(self).opcode == old(self).opcode,
            sem_8xye(old(self).opcode, *old(self), *final(self)),
    {
        proof {
            lemma_op_fields(self.opcode);
        }
        let x = (self.opcode & 0x0f00) >> 8;
        self.v[15] = (self.v[x as usize] >> 7) & 0x01;
        let vx_now = self.v[x as usize];
        proof {
            assert(vx_now << 1u8 == ((2 * vx_now) % 256) as u8) by (bit_vector);
        }
        self.v[x as usize] = vx_now << 1;
        self.pc = self.pc + 2;
    }

    /// Skip the next instruction if vx does not equal vy.
    pub fn execute_opcode_9xy0(&mut self)
        requires
            old(self).wf(),
            old(self).pc + 4 <= u16::MAX,
        ensures
            final(self).wf(),
            final(self).opcode == old(self).opcode,
            sem_9xy0(old(self).opcode, *old(self), *final(self)),
    {
        proof {
            lemma_op_fields(self.opcode);
        }
        let x = (self.opcode & 0x0f00) >> 8;
        let y = (self.opcode & 0x00f0) >> 4;
        self.pc = self.pc + (if self.v[x as usize] != self.v[y as usize] { 4 } else { 2 });
    }

    /// Jump to the address nnn plus v0; the sum is not masked.
    pub fn execute_opcode_bnnn(&mut self)
        requires
            old(self).wf(),
        ensures
            final(self).wf(),
            final(self).opcode == old(self).opcode,
            sem_bnnn(old(self).opcode, *old(self), *final(self)),
    {
        proof {
            lemma_op_fields(self.opcode);
        }
        let nnn = self.opcode & 0x0fff;
        self.pc = nnn + (self.v[0] as u16);
    }

    /// The random-number instruction with the drawn byte handed in:
    /// store the byte masked by nn into vx. Verified for every value of
    /// the byte.
    pub fn execute_opcode_cxnn_with(&mut self, byte: u8)
        requires
            old(self).wf(),
            old(self).pc + 2 <= u16::MAX,
        ensures
            final(self).wf(),
            final(self).opcode == old(self).opcode,
            sem_cxnn(old(self).opcode, *old(self), *final(self), byte),
    {
        proof {
            lemma_op_fields(self.opcode);
        }
        let x = (self.opcode & 0x0f00) >> 8;
        let nn = self.opcode & 0x00ff;
        self.v[x as usize] = byte & (nn as u8);
        self.pc = self.pc + 2;
    }

    /// Set vx to a random byte masked by nn. Whatever byte the
    /// generator returns, the result is that byte masked.
    pub fn execute_opcode_cxnn(&mut self)
        requires
            old(self).wf(),
            old(self).pc + 2 <= u16::MAX,
        ensures
            final(self).wf(),
            final(self).opcode == old(self).opcode,
            exists|b: u8| sem_cxnn(old(self).opcode, *old(self), *final(self), b),
    {
        let b = random_byte();
        self.execute_opcode_cxnn_with(b);
    }

    /// Skip the next instruction if the key selected by vx is pressed.
    pub fn execute_opcode_ex9e(&mut self) -> (r: Result<(), EmuError>)
        requires
            old(self).wf(),
            old(self).pc + 4 <= u16::MAX,
        ensures
            final(self).wf(),
            final(self).opcode == old(self).opcode,
            sem_ex9e(old(self).opcode, *old(self), *final(self), r),
    {
        proof {
            lemma_op_fields(self.opcode);
        }
        let x = (self.opcode & 0x0f00) >> 8;
        let key = self.v[x as usize];
        if key >= 16 {
            return Err(EmuError::KeyOutOfRange);
        }
        let pressed = self.keys[key as usize];
        self.pc = self.pc + (if pressed { 4 } else { 2 });
        Ok(())
    }

    /// Skip the next instruction if the key selected by vx is not
    /// pressed.
    pub fn execute_opcode_exa1(&mut self) -> (r: Result<(), EmuError>)
        requires
            old(self).wf(),
            old(self).pc + 4 <= u16::MAX,
        ensures
            final(self).wf(),
            final(self).opcode == old(self).opcode,
            sem_exa1(old(self).opcode, *old(self), *final(self), r),
    {
        proof {
            lemma_op_fields(self.opcode);
        }
        let x = (self.opcode & 0x0f00) >> 8;
        let key = self.v[x as usize];
        if key >= 16 {
            return Err(EmuError::KeyOutOfRange);
        }
        let pressed = self.keys[key as usize];
        self.pc = self.pc + (if !pressed { 4 } else { 2 });
        Ok(())
    }

    /// Set vx to the value of the delay timer.
    pub fn execute_opcode_fx07(&mut self)
        requires
            old(self).wf(),
            old(self).pc + 2 <= u16::MAX,
        ensures
            final(self).wf(),
            final(self).opcode == old(self).opcode,
            sem_fx07(old(self).opcode, *old(self), *final(self)),
    {
        proof {
            lemma_op_fields(self.opcode);
        }
        let x = (self.opcode & 0x0f00) >> 8;
        let dt = self.dt;
        self.v[x as usize] = dt;
        self.pc = self.pc + 2;
    }

    /// Wait for a keypress, then store it in vx: when some key is
    /// pressed the lowest pressed index wins and the program counter
    /// advances; when none is, nothing moves, so the same instruction
    /// runs again on the next cycle.
    pub fn execute_opcode_fx0a(&mut self)
        requires
            old(self).wf(),
            old(self).pc + 2 <= u16::MAX,
        ensures
            final(self).wf(),
            final(self).opcode == old(self).opcode,
            sem_fx0a(old(self).opcode, *old(self), *final(self)),
    {
        proof {
            lemma_op_fields(self.opcode);
        }
        let x = (self.opcode & 0x0f00) >> 8;
        let mut i: usize = 16;
        let mut found: usize = 16;
        while i > 0
            invariant
                i <= 16,
                self.keys@.len() == 16,
                found == first_key_from(self.keys@, i as int),
            decreases i,
        {
            i = i - 1;
            if self.keys[i] {
                found = i;
            }
        }
        if found < 16 {
            self.v[x as usize] = found as u8;
            self.pc = self.pc + 2;
        }
    }

    /// Set the delay timer to vx.
    pub fn execute_opcode_fx15(&mut self)
        requires
            old(self).wf(),
            old(self).pc + 2 <= u16::MAX,
        ensures
            final(self).wf(),
            final(self).opcode == old(self).opcode,
            sem_fx15(old(self).opcode, *old(self), *final(self)),
    {
        proof {
            lemma_op_fields(self.opcode);
        }
        let x = (self.opcode & 0x0f00) >> 8;
        self.dt = self.v[x as usize];
        self.pc = self.pc + 2;
    }

    /// Set the sound timer to vx.
    pub fn execute_opcode_fx18(&mut self)
        requires
            old(self).wf(),
            old(self).pc + 2 <= u16::MAX,
        ensures
            final(self).wf(),
            final(self).opcode == old(self).opcode,
            sem_fx18(old(self).opcode, *old(self), *final(self)),
    {
        proof {
            lemma_op_fields(self.opcode);
        }
        let x = (self.opcode & 0x0f00) >> 8;
        self.st = self.v[x as usize];
        self.pc = self.pc + 2;
    }

    /// Add vx to the index register: the flag register reports whether
    /// the raw sum exceeds 0xfff, and the index register receives the
    /// sum reduced modulo 0x1000 either way.
    pub fn execute_opcode_fx1e(&mut self)
        requires
            old(self).wf(),
            old(self).pc + 2 <= u16::MAX,
        ensures
            final(self).wf(),
            final(self).opcode == old(self).opcode,
            sem_fx1e(old(self).opcode, *old(self), *final(self)),
    {
        proof {
            lemma_op_fields(self.opcode);
        }
        let x = (self.opcode & 0x0f00) >> 8;
        let vx = self.v[x as usize];
        let sum: u32 = (self.ram_idx as u32) + (vx as u32);
        let overflowed = sum > 0x0fff;
        self.v[15] = if overflowed {
            1
        } else {
            0
        };
        self.ram_idx = (sum % 0x1000) as u16;
        self.pc = self.pc + 2;
    }

    /// Set the index register to the font glyph for the value of vx:
    /// each glyph occupies five bytes from address zero.
    pub fn execute_opcode_fx29(&mut self)
        requires
            old(self).wf(),
            old(self).pc + 2 <= u16::MAX,
        ensures
            final(self).wf(),
            final(self).opcode == old(self).opcode,
            sem_fx29(old(self).opcode, *old(self), *final(self)),
    {
        proof {
            lemma_op_fields(self.opcode);
        }
        let x = (self.opcode & 0x0f00) >> 8;
        let fchar = self.v[x as usize];
        self.ram_idx = (fchar as u16) * 5;
        self.pc = self.pc + 2;
    }

    /// Store the decimal digits of vx: hundreds at the index register,
    /// tens one past it, ones two past it.
    pub fn execute_opcode_fx33(&mut self) -> (r: Result<(), EmuError>)
        requires
            old(self).wf(),
            old(self).pc + 2 <= u16::MAX,
        ensures
            final(self).wf(),
            final(self).opcode == old(self).opcode,
            sem_fx33(old(self).opcode, *old(self), *final(self), r),
    {
        proof {
            lemma_op_fields(self.opcode);
        }
        let x = (self.opcode & 0x0f00) >> 8;
        if self.ram_idx as usize + 3 > 4096 {
            return Err(EmuError::MemoryOutOfRange);
        }
        let vx = self.v[x as usize];
        let idx = self.ram_idx as usize;
        self.ram[idx] = vx / 100;
        self.ram[idx + 1] = (vx / 10) % 10;
        self.ram[idx + 2] = vx % 10;
        self.pc = self.pc + 2;
        Ok(())
    }

    /// Store v0 through vx into memory at the index register, which is
    /// itself left unchanged.
    pub fn execute_opcode_fx55(&mut self) -> (r: Result<(), EmuError>)
        requires
            old(self).wf(),
            old(self).pc + 2 <= u16::MAX,
        ensures
            final(self).wf(),
            final(self).opcode == old(self).opcode,
            sem_fx55(old(self).opcode, *old(self), *final(self), r),
    {
        proof {
            lemma_op_fields(self.opcode);
        }
        let x = ((self.opcode & 0x0f00) >> 8) as usize;
        if self.ram_idx as usize + x + 1 > 4096 {
            return Err(EmuError::MemoryOutOfRange);
        }
        let idx = self.ram_idx as usize;
        let ghost pre = *self;
        let mut i: usize = 0;
        while i < x + 1
            invariant
                i <= x + 1,
                x < 16,
                idx + x + 1 <= 4096,
                self.ram@.len() == 4096,
                self.v@.len() == 16,
                frame_ram_pc(pre, *self),
                self.pc == pre.pc,
                self.opcode == pre.opcode,
                forall|j: int| idx <= j < idx + i ==> self.ram@[j] == pre.v@[j - idx],
                forall|j: int|
                    0 <= j < 4096 && !(idx <= j < idx + i) ==> self.ram@[j] == pre.ram@[j],
            decreases x + 1 - i,
        {
            let b = self.v[i];
            self.ram[idx + i] = b;
            i = i + 1;
        }
        self.pc = self.pc + 2;
        Ok(())
    }

    /// Fill v0 through vx from memory at the index register, which is
    /// itself left unchanged.
    pub fn execute_opcode_fx65(&mut self) -> (r: Result<(), EmuError>)
        requires
            old(self).wf(),
            old(self).pc + 2 <= u16::MAX,
        ensures
            final(self).wf(),
            final(self).opcode == old(self).opcode,
            sem_fx65(old(self).opcode, *old(self), *final(self), r),
    {
        proof {
            lemma_op_fields(self.opcode);
        }
        let x = ((self.opcode & 0x0f00) >> 8) as usize;
        if self.ram_idx as usize + x + 1 > 4096 {
            return Err(EmuError::MemoryOutOfRange);
        }
        let idx = self.ram_idx as usize;
        let ghost pre = *self;
        let mut i: usize = 0;
        while i < x + 1
            invariant
                i <= x + 1,
                x < 16,
                idx + x + 1 <= 4096,
                self.v@.len() == 16,
                self.ram@.len() == 4096,
                frame_v_pc(pre, *self),
                self.pc == pre.pc,
                self.opcode == pre.opcode,
                forall|j: int| 0 <= j < i ==> self.v@[j] == pre.ram@[idx + j],
                forall|j: int| i <= j < 16 ==> self.v@[j] == pre.v@[j],
            decreases x + 1 - i,
        {
            let b = self.ram[idx + i];
            self.v[i] = b;
            i = i + 1;
        }
        self.pc = self.pc + 2;
        Ok(())
    }

    /// Draw a sprite at position vx, vy with n rows of sprite data read
    /// at the index register: each set bit is XORed onto the display
    /// with both coordinates wrapping. The flag register is cleared and
    /// then reports whether any lit pixel went dark, and the redraw
    /// flag is raised when any pixel lights up.
    pub fn execute_opcode_dxyn(&mut self) -> (r: Result<(), EmuError>)
        requires
            old(self).wf(),
            old(self).pc + 2 <= u16::MAX,
        ensures
            final(self).wf(),
            final(self).opcode == old(self).opcode,
            sem_dxyn(old(self).opcode, *old(self), *final(self), r),
    {
        proof {
            lemma_op_fields(self.opcode);
        }
        let ghost pre = *self;
        let x = (self.opcode & 0x0f00) >> 8;
        let y = (self.opcode & 0x00f0) >> 4;
        let n = (self.opcode & 0x000f) as usize;
        if n > 0 && self.ram_idx as usize + n > 4096 {
            return Err(EmuError::MemoryOutOfRange);
        }
        let gfx_start_x = self.v[x as usize];
        let gfx_start_y = self.v[y as usize];
        let idx = self.ram_idx as usize;
        let ghost sx = gfx_start_x as int;
        let ghost sy = gfx_start_y as int;
        let ghost rows = if n == 0 {
            Seq::<u8>::empty()
        } else {
            pre.ram@.subrange(idx as int, idx as int + n as int)
        };
        self.v[15] = 0x00;
        proof {
            assert(!hit_before(pre.gfx@, sx, sy, rows, 0, true));
            assert(!hit_before(pre.gfx@, sx, sy, rows, 0, false));
            assert forall|px: int, py: int| 0 <= px < 128 && 0 <= py < 64 implies self.gfx@[pix(
                px,
                py,
            )] == draw_pixel_before(pre.gfx@, sx, sy, rows, px, py, 0) by {
                assert(!crate::semantics::covered_before(sx, sy, rows.len() as int, px, py, 0));
            }
            assert(draw_progress(pre, *self, sx, sy, rows, 0));
        }
        let mut y_off: usize = 0;
        while y_off < n
            invariant
                y_off <= n,
                n < 16,
                n > 0 ==> idx + n <= 4096,
                n == op_n(pre.opcode),
                idx == pre.ram_idx,
                pre.wf(),
                sx == pre.v@[op_x(pre.opcode) as int],
                sy == pre.v@[op_y(pre.opcode) as int],
                0 <= sx < 256,
                0 <= sy < 256,
                gfx_start_x == sx,
                gfx_start_y == sy,
                n > 0 ==> rows == pre.ram@.subrange(idx as int, idx as int + n as int),
                rows.len() == n,
                draw_progress(pre, *self, sx, sy, rows, y_off * 8),
            decreases n - y_off,
        {
            let sprt_row = self.ram[idx + y_off];
            proof {
                assert(sprt_row == rows[y_off as int]);
            }
            let mut x_off: usize = 0;
            while x_off < 8
                invariant
                    x_off <= 8,
                    y_off < n,
                    n < 16,
                    idx + n <= 4096,
                    n == op_n(pre.opcode),
                    idx == pre.ram_idx,
                    pre.wf(),
                    sx == pre.v@[op_x(pre.opcode) as int],
                    sy == pre.v@[op_y(pre.opcode) as int],
                    0 <= sx < 256,
                    0 <= sy < 256,
                    rows == pre.ram@.subrange(idx as int, idx as int + n as int),
                    rows.len() == n,
                    self.gfx@.len() == 8192,
                    sprt_row == rows[y_off as int],
                    gfx_start_x == sx,
                    gfx_start_y == sy,
                    draw_progress(pre, *self, sx, sy, rows, y_off * 8 + x_off),
                decreases 8 - x_off,
            {
                proof {
                    lemma_draw_step(sx, sy, rows.len() as int, y_off as int, x_off as int);
                    lemma_hit_step(pre.gfx@, sx, sy, rows, y_off as int, x_off as int, true);
                    lemma_hit_step(pre.gfx@, sx, sy, rows, y_off as int, x_off as int, false);
                }
                let gfx_x = (gfx_start_x as usize + x_off) % GFX_W;
                let gfx_y = (gfx_start_y as usize + y_off) % GFX_H;
                let pixel_index = gfx_x * GFX_H + gfx_y;
                let sprt_pix = (sprt_row >> (7 - x_off) as u8) & 1 == 1;
                let gfx_pix = self.gfx[pixel_index];
                let gfx_pix_after = gfx_pix ^ sprt_pix;
                proof {
                    assert(gfx_x as int == (sx + x_off as int) % 128);
                    assert(gfx_y as int == (sy + y_off as int) % 64);
                    assert(pixel_index as int == pix(gfx_x as int, gfx_y as int));
                    assert(gfx_pix == pre.gfx@[pix(gfx_x as int, gfx_y as int)]);
                    assert(sprt_pix == sprite_bit(rows[y_off as int], x_off as int));
                }
                if gfx_pix != gfx_pix_after {
                    self.gfx[pixel_index] = gfx_pix_after;
                    if gfx_pix_after {
                        self.draw = true;
                    } else {
                        self.v[15] = 0x01;
                    }
                }
                proof {
                    let k1 = y_off * 8 + x_off + 1;
                    assert(self.v@ =~= pre.v@.update(
                        15,
                        if hit_before(pre.gfx@, sx, sy, rows, k1 as int, true) {
                            1u8
                        } else {
                            0u8
                        },
                    ));
                    assert(self.draw == (pre.draw || hit_before(
                        pre.gfx@,
                        sx,
                        sy,
                        rows,
                        k1 as int,
                        false,
                    )));
                    assert forall|px: int, py: int| 0 <= px < 128 && 0 <= py < 64 implies self.gfx@[pix(
                        px,
                        py,
                    )] == draw_pixel_before(pre.gfx@, sx, sy, rows, px, py, k1 as int) by {
                        let px0 = (sx + x_off as int) % 128;
                        let py0 = (sy + y_off as int) % 64;
                        if px == px0 && py == py0 {
                            assert(covered_before(sx, sy, rows.len() as int, px, py, k1 as int));
                            assert(pix(px, py) == pixel_index as int);
                        } else {
                            assert(pix(px, py) != pixel_index as int);
                            assert(covered_before(sx, sy, rows.len() as int, px, py, k1 as int)
                                == covered_before(
                                sx,
                                sy,
                                rows.len() as int,
                                px,
                                py,
                                (y_off * 8 + x_off) as int,
                            ));
                        }
                    }
                }
                x_off = x_off + 1;
            }
            y_off = y_off + 1;
        }
        proof {
            lemma_hit_complete(pre.gfx@, sx, sy, rows);
            assert forall|px: int, py: int| 0 <= px < 128 && 0 <= py < 64 implies self.gfx@[pix(
                px,
                py,
            )] == crate::semantics::draw_pixel(pre.gfx@, sx, sy, rows, px, py) by {
                assert(self.gfx@[pix(px, py)] == draw_pixel_before(
                    pre.gfx@,
                    sx,
                    sy,
                    rows,
                    px,
                    py,
                    n * 8,
                ));
            }
        }
        self.pc = self.pc + 2;
        Ok(())
    }

    /// Fetch the instruction word the program counter points at,
    /// big-endian. A program counter within two bytes of the top of
    /// memory is a fault.
    pub fn fetch_opcode(&mut self) -> (r: Result<(), EmuError>)
        requires
            old(self).wf(),
        ensures
            final(self).wf(),
            unchanged_state(*old(self), *final(self)),
            if old(self).pc + 1 < 4096 {
                r == Ok::<(), EmuError>(()) && final(self).opcode == fetch_word(*old(self))
            } else {
                r == Err::<(), EmuError>(EmuError::MemoryOutOfRange) && final(self).opcode
                    == old(self).opcode
            },
    {
        if self.pc as usize + 1 >= 4096 {
            return Err(EmuError::MemoryOutOfRange);
        }
        let hbyte = self.ram[self.pc as usize];
        let lbyte = self.ram[self.pc as usize + 1];
        proof {
            assert((hbyte as u16) << 8u16 | (lbyte as u16) == hbyte as u16 * 256 + lbyte as u16)
                by (bit_vector);
        }
        self.opcode = (hbyte as u16) << 8 | (lbyte as u16);
        Ok(())
    }

    /// The fault value for a word no dispatch level recognizes,
    /// carrying the word itself.
    pub fn unknown_opcode(&self) -> (e: EmuError)
        ensures
            e == EmuError::UnknownOpcode(self.opcode),
    {
        EmuError::UnknownOpcode(self.opcode)
    }

    /// Classify the fetched instruction word by its high nibble — and,
    /// for five families, by its low nibble or byte — and run the
    /// matching handler. The handler alone advances or redirects the
    /// program counter. An unrecognized word at any level is surfaced,
    /// never skipped.
    pub fn decode_and_execute_opcode(&mut self) -> (r: Result<(), EmuError>)
        requires
            old(self).wf(),
            old(self).pc + 4 <= u16::MAX,
        ensures
            final(self).wf(),
            final(self).opcode == old(self).opcode,
            dispatch(old(self).opcode, *old(self), *final(self), r),
    {
        let top = self.opcode & 0xf000;
        match top {
            0x0000 => {
                let low = self.opcode & 0x00ff;
                if low == 0x00e0 {
                    self.execute_opcode_00e0();
                    Ok(())
                } else if low == 0x00ee {
                    self.execute_opcode_00ee()
                } else {
                    Err(self.unknown_opcode())
                }
            },
            0x1000 => {
                self.execute_opcode_1nnn();
                Ok(())
            },
            0x2000 => self.execute_opcode_2nnn(),
            0x3000 => {
                self.execute_opcode_3xnn();
                Ok(())
            },
            0x4000 => {
                self.execute_opcode_4xnn();
                Ok(())
            },
            0x5000 => {
                let low = self.opcode & 0x000f;
                if low == 0x0000 {
                    self.execute_opcode_5xy0();
                    Ok(())
                } else {
                    Err(self.unknown_opcode())
                }
            },
            0x6000 => {
                self.execute_opcode_6xnn();
                Ok(())
            },
            0x7000 => {
                self.execute_opcode_7xnn();
                Ok(())
            },
            0x8000 => {
                let low = self.opcode & 0x000f;
                match low {
                    0x0000 => {
                        self.execute_opcode_8xy0();
                        Ok(())
                    },
                    0x0001 => {
                        self.execute_opcode_8xy1();
                        Ok(())
                    },
                    0x0002 => {
                        self.execute_opcode_8xy2();
                        Ok(())
                    },
                    0x0003 => {
                        self.execute_opcode_8xy3();
                        Ok(())
                    },
                    0x0004 => {
                        self.execute_opcode_8xy4();
                        Ok(())
                    },
                    0x0005 => {
                        self.execute_opcode_8xy5();
                        Ok(())
                    },
                    0x0006 => {
                        match self.quirk {
                            ShiftQuirk::Revised => self.execute_opcode_8xy6(),
                            ShiftQuirk::Original => self.execute_opcode_8xy6_orig_not_used(),
                        }
                        Ok(())
                    },
                    0x0007 => {
                        self.execute_opcode_8xy7();
                        Ok(())
                    },
                    0x000e => {
                        match self.quirk {
                            ShiftQuirk::Revised => self.execute_opcode_8xye(),
                            ShiftQuirk::Original => self.execute_opcode_8xye_orig_not_used(),
                        }
                        Ok(())
                    },
                    _ => Err(self.unknown_opcode()),
                }
            },
            0x9000 => {
                self.execute_opcode_9xy0();
                Ok(())
            },
            0xa000 => {
                self.execute_opcode_annn();
                Ok(())
            },
            0xb000 => {
                self.execute_opcode_bnnn();
                Ok(())
            },
            0xc000 => {
                self.execute_opcode_cxnn();
                Ok(())
            },
            0xd000 => self.execute_opcode_dxyn(),
            0xe000 => {
                let low = self.opcode & 0x000f;
                if low == 0x000e {
                    self.execute_opcode_ex9e()
                } else if low == 0x0001 {
                    self.execute_opcode_exa1()
                } else {
                    Err(self.unknown_opcode())
                }
            },
            0xf000 => {
                let low = self.opcode & 0x00ff;
                match low {
                    0x0007 => {
                        self.execute_opcode_fx07();
                        Ok(())
                    },
                    0x000a => {
                        self.execute_opcode_fx0a();
                        Ok(())
                    },
                    0x0015 => {
                        self.execute_opcode_fx15();
                        Ok(())
                    },
                    0x0018 => {
                        self.execute_opcode_fx18();
                        Ok(())
                    },
                    0x001e => {
                        self.execute_opcode_fx1e();
                        Ok(())
                    },
                    0x0029 => {
                        self.execute_opcode_fx29();
                        Ok(())
                    },
                    0x0033 => self.execute_opcode_fx33(),
                    0x0055 => self.execute_opcode_fx55(),
                    0x0065 => self.execute_opcode_fx65(),
                    _ => Err(self.unknown_opcode()),
                }
            },
            _ => Err(self.unknown_opcode()),
        }
    }

    /// One full cycle: fetch the instruction word the program counter
    /// points at, then decode and execute it. Exactly one instruction's
    /// transition is applied; a fault leaves its cause in the result.
    pub fn execute_cycle(&mut self) -> (r: Result<(), EmuError>)
        requires
            old(self).wf(),
        ensures
            final(self).wf(),
            cycle_spec(*old(self), *final(self), r),
    {
        match self.fetch_opcode() {
            Err(e) => {
                return Err(e);
            },
            Ok(_) => {},
        }
        let ghost mid = *self;
        let r = self.decode_and_execute_opcode();
        proof {
            crate::laws::lemma_dispatch_same_state(mid.opcode, *old(self), mid, *self, r);
        }
        r
    }

    /// Load a program image: refuse one larger than the 3584 bytes of
    /// program memory, leaving the machine unchanged; otherwise cache it
    /// for reset and copy it into memory at the program start address.
    pub fn load_rom(&mut self, rom: Vec<u8>) -> (r: Result<(), EmuError>)
        requires
            old(self).wf(),
        ensures
            final(self).wf(),
            sem_load(*old(self), *final(self), rom@, r),
    {
        if rom.len() > 3584 {
            return Err(EmuError::RomTooLarge);
        }
        let ghost pre = *self;
        self.rom = rom;
        let mut i: usize = 0;
        while i < self.rom.len()
            invariant
                self.rom@ == rom@,
                rom@.len() <= 3584,
                i <= rom@.len(),
                self.ram@.len() == 4096,
                self.gfx@ == pre.gfx@,
                self.draw == pre.draw,
                self.keys@ == pre.keys@,
                self.v@ == pre.v@,
                self.ram_idx == pre.ram_idx,
                self.pc == pre.pc,
                self.dt == pre.dt,
                self.st == pre.st,
                self.stack@ == pre.stack@,
                self.sp == pre.sp,
                self.opcode == pre.opcode,
                self.quirk == pre.quirk,
                pre.ram@.len() == 4096,
                forall|j: int| 512 <= j < 512 + i ==> self.ram@[j] == rom@[j - 512],
                forall|j: int|
                    0 <= j < 4096 && !(512 <= j < 512 + i) ==> self.ram@[j] == pre.ram@[j],
            decreases rom@.len() - i,
        {
            let b = self.rom[i];
            self.ram[512 + i] = b;
            i = i + 1;
        }
        Ok(())
    }

    /// Restore the machine to its just-loaded state: every register,
    /// timer, stack slot, key and pixel back to its power-on value, the
    /// cached program image reloaded, and the configured shift quirk
    /// kept. With no image ever loaded this simply restores the
    /// power-on state.
    pub fn reset(&mut self)
        requires
            old(self).wf(),
        ensures
            final(self).wf(),
            base_regs(*final(self)),
            final(self).quirk == old(self).quirk,
            final(self).rom@ == old(self).rom@,
            loaded_ram(final(self).ram@, old(self).rom@),
    {
        let rom = copy_bytes(&self.rom);
        let quirk = self.quirk;
        *self = Emu::new();
        self.quirk = quirk;
        let r = self.load_rom(rom);
        match r {
            Ok(_) => {},
            Err(_) => {
                proof {
                    assert(false);
                }
            },
        }
    }
}

/// A vector holding `n` copies of `val`.
fn repeat_value<T: Copy>(n: usize, val: T) -> (v: Vec<T>)
    ensures
        v@.len() == n,
        forall|i: int| 0 <= i < n ==> v@[i] == val,
{
    let mut v: Vec<T> = Vec::new();
    let mut i: usize = 0;
    while i < n
        invariant
            i <= n,
            v@.len() == i,
            forall|j: int| 0 <= j < i ==> v@[j] == val,
        decreases n - i,
    {
        v.push(val);
        i = i + 1;
    }
    v
}

/// A fresh copy of a byte vector.
fn copy_bytes(src: &Vec<u8>) -> (v: Vec<u8>)
    ensures
        v@ == src@,
{
    let mut v: Vec<u8> = Vec::new();
    let mut i: usize = 0;
    while i < src.len()
        invariant
            i <= src@.len(),
            v@ == src@.subrange(0, i as int),
        decreases src@.len() - i,
    {
        let b = src[i];
        v.push(b);
        proof {
            assert(v@ =~= src@.subrange(0, i + 1));
        }
        i = i + 1;
    }
    proof {
        assert(v@ =~= src@);
    }
    v
}

/// Append one five-row glyph to the table being built.
fn push_glyph(t: &mut Vec<u8>, a: u8, b: u8, c: u8, d: u8, e: u8)
    ensures
        final(t)@ == old(t)@ + glyph5(a, b, c, d, e),
{
    t.push(a);
    t.push(b);
    t.push(c);
    t.push(d);
    t.push(e);
    proof {
        assert(t@ =~= old(t)@ + glyph5(a, b, c, d, e));
    }
}

/// The built-in font table as a vector: sixteen glyphs, eighty bytes.
fn font_table() -> (t: Vec<u8>)
    ensures
        t@ == font_seq(),
        t@.len() == 80,
{
    let mut t: Vec<u8> = Vec::new();
    push_glyph(&mut t, 0xf0, 0x90, 0x90, 0x90, 0xf0);
    push_glyph(&mut t, 0x20, 0x60, 0x20, 0x20, 0x70);
    push_glyph(&mut t, 0xf0, 0x10, 0xf0, 0x80, 0xf0);
    push_glyph(&mut t, 0xf0, 0x10, 0xf0, 0x10, 0xf0);
    push_glyph(&mut t, 0x90, 0x90, 0xf0, 0x10, 0x10);
    push_glyph(&mut t, 0xf0, 0x80, 0xf0, 0x10, 0xf0);
    push_glyph(&mut t, 0xf0, 0x80, 0xf0, 0x90, 0xf0);
    push_glyph(&mut t, 0xf0, 0x10, 0x20, 0x40, 0x40);
    push_glyph(&mut t, 0xf0, 0x90, 0xf0, 0x90, 0xf0);
    push_glyph(&mut t, 0xf0, 0x90, 0xf0, 0x10, 0xf0);
    push_glyph(&mut t, 0xf0, 0x90, 0xf0, 0x90, 0x90);
    push_glyph(&mut t, 0xe0, 0x90, 0xe0, 0x90, 0xe0);
    push_glyph(&mut t, 0xf0, 0x80, 0x80, 0x80, 0xf0);
    push_glyph(&mut t, 0xe0, 0x90, 0x90, 0x90, 0xe0);
    push_glyph(&mut t, 0xf0, 0x80, 0xf0, 0x80, 0xf0);
    push_glyph(&mut t, 0xf0, 0x80, 0xf0, 0x80, 0x80);
    proof {
        assert(t@ =~= font_seq());
    }
    t
}

/// Relies on `rand::random`: draws one uniformly distributed random
/// byte from the thread-local generator; nothing is assumed of the
/// value drawn.
#[verifier::external_body]
fn random_byte() -> u8 {
    rand::random::<u8>()
}

} // verus!
