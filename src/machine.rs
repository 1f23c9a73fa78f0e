//! The machine as mathematics: its state as sequences and integers, and what
//! each instruction, each timer tick and each program load does to it.

use vstd::prelude::*;
use crate::keypad::{key_down, lowest_pressed};

verus! {

/// Bytes of addressable memory.
pub const MEMORY_SIZE: usize = 4096;

/// Where a program is loaded and where execution starts.
pub const PROGRAM_START: u16 = 0x200;

/// Longest program that fits between `PROGRAM_START` and the end of memory.
pub const MAX_PROGRAM_LEN: usize = 3584;

/// Register that receives carry, borrow, shifted-out and collision flags.
pub const FLAG_REGISTER: usize = 15;

/// Number of return addresses the call stack holds.
pub const STACK_DEPTH: usize = 16;

/// Framebuffer width in pixels.
pub const SCREEN_WIDTH: usize = 64;

/// Framebuffer height in pixels.
pub const SCREEN_HEIGHT: usize = 32;

/// A fatal condition reported to the driving loop.
#[derive(Debug, Clone, Copy, PartialEq, Eq, Structural)]
pub enum CpuError {
    /// A call was made with 16 return addresses already on the stack.
    StackOverflow,
    /// A return was made with no return address on the stack.
    StackUnderflow,
    /// A program does not fit between `PROGRAM_START` and the end of memory.
    RomTooLarge,
    /// The operating system could not seed the random number generator.
    EntropyUnavailable,
}

/// The whole state of the machine, as the contracts speak of it.
pub struct MachineState {
    pub memory: Seq<u8>,
    pub registers: Seq<u8>,
    pub index: u16,
    pub pc: u16,
    pub stack: Seq<u16>,
    pub sp: u8,
    pub delay_timer: u8,
    pub sound_timer: u8,
    /// Rows of pixels, top to bottom; `pixels[r][c]` is column `c` of row `r`.
    pub pixels: Seq<Seq<bool>>,
    pub redraw: bool,
    /// The register that receives the next key press, while the machine waits for one.
    pub waiting: Option<u8>,
}

/// The first nibble of an opcode: its instruction class.
pub open spec fn kind_of(op: u16) -> int {
    op as int / 0x1000
}

/// The second nibble: the first register operand.
pub open spec fn x_of(op: u16) -> int {
    (op as int / 0x100) % 16
}

/// The third nibble: the second register operand.
pub open spec fn y_of(op: u16) -> int {
    (op as int / 0x10) % 16
}

/// The last nibble.
pub open spec fn n_of(op: u16) -> int {
    op as int % 16
}

/// The low byte.
pub open spec fn nn_of(op: u16) -> int {
    op as int % 0x100
}

/// The low twelve bits: an address.
pub open spec fn nnn_of(op: u16) -> int {
    op as int % 0x1000
}

/// The opcode with nibbles `k`, `x`, `y`, `n`, high to low.
pub open spec fn opcode(k: int, x: int, y: int, n: int) -> u16 {
    (k * 0x1000 + x * 0x100 + y * 0x10 + n) as u16
}

/// `v` reduced to 16 bits.
pub open spec fn wrap16(v: int) -> u16 {
    (v % 0x10000) as u16
}

/// The memory cell that address `a` reaches: addresses are taken modulo the
/// size of memory.
pub open spec fn cell(a: int) -> int {
    a % 0x1000
}

/// Bit `i` of `byte`, counted from the most significant (`i` in `0..8`).
pub open spec fn sprite_bit(byte: u8, i: int) -> bool {
    (byte >> ((7 - i) as u8)) & 1u8 == 1u8
}

/// Which bit of a sprite row lands on column `c` when the sprite's left edge
/// is at `vx`; columns wrap around the right edge.
pub open spec fn sprite_column(vx: int, c: int) -> int {
    (c - vx) % 64
}

/// A framebuffer with every pixel off.
pub open spec fn blank_pixels() -> Seq<Seq<bool>> {
    Seq::new(32, |_r: int| Seq::new(64, |_c: int| false))
}

/// The state of a machine just built: everything zero, off or empty, and the
/// program counter at `PROGRAM_START`.
pub open spec fn initial_state() -> MachineState {
    MachineState {
        memory: Seq::new(4096, |_a: int| 0u8),
        registers: Seq::new(16, |_i: int| 0u8),
        index: 0,
        pc: 0x200,
        stack: Seq::new(16, |_i: int| 0u16),
        sp: 0,
        delay_timer: 0,
        sound_timer: 0,
        pixels: blank_pixels(),
        redraw: false,
        waiting: None,
    }
}

impl MachineState {
    /// The shape that every reachable state has.
    pub open spec fn valid(self) -> bool {
        &&& self.memory.len() == 4096
        &&& self.registers.len() == 16
        &&& self.stack.len() == 16
        &&& self.sp <= 16
        &&& self.pixels.len() == 32
        &&& forall|r: int| 0 <= r < 32 ==> (#[trigger] self.pixels[r]).len() == 64
        &&& self.waiting matches Some(w) ==> w < 16
    }

    /// Value of register `i`.
    pub open spec fn reg(self, i: int) -> int {
        self.registers[i] as int
    }

    /// Register `i` set to `v`.
    pub open spec fn with_reg(self, i: int, v: int) -> MachineState {
        MachineState { registers: self.registers.update(i, v as u8), ..self }
    }

    /// Register `i` set to `v`, then the flag register set to `flag`.
    pub open spec fn with_reg_and_flag(self, i: int, v: int, flag: int) -> MachineState {
        MachineState { registers: self.registers.update(i, v as u8).update(15, flag as u8), ..self }
    }

    /// The program counter moved past one instruction.
    pub open spec fn advanced(self) -> MachineState {
        MachineState { pc: wrap16(self.pc + 2), ..self }
    }

    /// The next instruction skipped when `cond` holds.
    pub open spec fn skip_if(self, cond: bool) -> MachineState {
        if cond {
            self.advanced()
        } else {
            self
        }
    }

    /// The opcode at the program counter, high byte first.
    pub open spec fn fetch(self) -> u16 {
        (self.memory[cell(self.pc as int)] as int * 256 + self.memory[cell(self.pc + 1)] as int) as u16
    }

    /// `00E0`: every pixel off.
    pub open spec fn cleared(self) -> MachineState {
        MachineState { pixels: blank_pixels(), redraw: true, ..self }
    }

    /// `00EE`: back to the address on top of the stack.
    pub open spec fn returned(self) -> Result<MachineState, CpuError> {
        if self.sp == 0 {
            Err(CpuError::StackUnderflow)
        } else {
            Ok(
                MachineState {
                    sp: (self.sp - 1) as u8,
                    pc: self.stack[self.sp - 1],
                    ..self
                },
            )
        }
    }

    /// `2nnn`: the program counter pushed, then set to `target`.
    pub open spec fn called(self, target: int) -> Result<MachineState, CpuError> {
        if self.sp >= 16 {
            Err(CpuError::StackOverflow)
        } else {
            Ok(
                MachineState {
                    stack: self.stack.update(self.sp as int, self.pc),
                    sp: (self.sp + 1) as u8,
                    pc: target as u16,
                    ..self
                },
            )
        }
    }

    /// `8xyn`: the register-to-register operation that `n` selects.
    #[verifier::opaque]
    pub open spec fn alu(self, x: int, y: int, n: int) -> MachineState {
        let vx = self.reg(x);
        let vy = self.reg(y);
        if n == 0 {
            self.with_reg(x, vy)
        } else if n == 1 {
            self.with_reg(x, (self.registers[x] | self.registers[y]) as int)
        } else if n == 2 {
            self.with_reg(x, (self.registers[x] & self.registers[y]) as int)
        } else if n == 3 {
            self.with_reg(x, (self.registers[x] ^ self.registers[y]) as int)
        } else if n == 4 {
            self.with_reg_and_flag(x, (vx + vy) % 256, if vx + vy > 255 { 1 } else { 0 })
        } else if n == 5 {
            self.with_reg_and_flag(x, (vx - vy) % 256, if vx >= vy { 1 } else { 0 })
        } else if n == 6 {
            self.with_reg_and_flag(x, vx / 2, vx % 2)
        } else if n == 7 {
            self.with_reg_and_flag(x, (vy - vx) % 256, if vy >= vx { 1 } else { 0 })
        } else {
            self.with_reg_and_flag(x, (vx * 2) % 256, vx / 128)
        }
    }

    /// Whether the sprite of `n` rows at `index`, drawn with its top left
    /// corner at `(vx, vy)`, covers pixel `(r, c)`. Columns wrap around the
    /// right edge; the top row is `vy` modulo the height, and rows that fall
    /// below the bottom edge are clipped.
    pub open spec fn sprite_covers(self, vx: int, vy: int, n: int, r: int, c: int) -> bool {
        let row = r - vy % 32;
        let col = sprite_column(vx, c);
        &&& 0 <= row < n
        &&& col < 8
        &&& sprite_bit(self.memory[cell(self.index + row)], col)
    }

    /// Whether drawing that sprite turns a lit pixel off.
    pub open spec fn collides(self, vx: int, vy: int, n: int) -> bool {
        exists|r: int, c: int|
            0 <= r < 32 && 0 <= c < 64 && #[trigger] self.sprite_covers(vx, vy, n, r, c)
                && self.pixels[r][c]
    }

    /// `Dxyn`: each pixel that the sprite covers flipped, the flag register set
    /// to whether a lit pixel went off.
    pub open spec fn drawn(self, vx: int, vy: int, n: int) -> MachineState {
        MachineState {
            pixels: Seq::new(
                32,
                |r: int| Seq::new(64, |c: int| self.pixels[r][c] != self.sprite_covers(vx, vy, n, r, c)),
            ),
            registers: self.registers.update(15, if self.collides(vx, vy, n) { 1u8 } else { 0u8 }),
            redraw: true,
            ..self
        }
    }

    /// `Fx33`: the hundreds, tens and ones of `v` at `index`, `index + 1`, `index + 2`.
    pub open spec fn bcd_stored(self, v: int) -> MachineState {
        MachineState {
            memory: self.memory.update(cell(self.index as int), (v / 100) as u8).update(
                cell(self.index + 1),
                ((v / 10) % 10) as u8,
            ).update(cell(self.index + 2), (v % 10) as u8),
            ..self
        }
    }

    /// `Fx55`: registers `0..=x` stored at `index` onwards.
    pub open spec fn registers_stored(self, x: int) -> MachineState {
        MachineState {
            memory: Seq::new(
                4096,
                |a: int|
                    {
                        let off = (a - self.index) % 4096;
                        if off <= x {
                            self.registers[off]
                        } else {
                            self.memory[a]
                        }
                    },
            ),
            ..self
        }
    }

    /// `Fx65`: registers `0..=x` loaded from `index` onwards.
    pub open spec fn registers_loaded(self, x: int) -> MachineState {
        MachineState {
            registers: Seq::new(
                16,
                |i: int|
                    if i <= x {
                        self.memory[cell(self.index + i)]
                    } else {
                        self.registers[i]
                    },
            ),
            ..self
        }
    }

    /// `Fxnn`: timers, the wait for a key, the index, and transfers between
    /// registers and memory, as `nn` selects.
    pub open spec fn misc(self, x: int, nn: int) -> MachineState {
        let vx = self.reg(x);
        if nn == 0x07 {
            self.with_reg(x, self.delay_timer as int)
        } else if nn == 0x0A {
            MachineState { waiting: Some(x as u8), ..self }
        } else if nn == 0x15 {
            MachineState { delay_timer: vx as u8, ..self }
        } else if nn == 0x18 {
            MachineState { sound_timer: vx as u8, ..self }
        } else if nn == 0x1E {
            MachineState { index: wrap16(self.index + vx), ..self }
        } else if nn == 0x29 {
            MachineState { index: (vx * 5) as u16, ..self }
        } else if nn == 0x33 {
            self.bcd_stored(vx)
        } else if nn == 0x55 {
            self.registers_stored(x)
        } else if nn == 0x65 {
            self.registers_loaded(x)
        } else {
            self
        }
    }

    /// What executing `op` does, the program counter having already moved past
    /// it. `keys` is the keypad and `rnd` the random byte that `Cxnn` draws.
    /// Opcodes that name no instruction change nothing.
    #[verifier::opaque]
    pub open spec fn execute(self, op: u16, keys: Seq<bool>, rnd: u8) -> Result<MachineState, CpuError> {
        let k = kind_of(op);
        let x = x_of(op);
        let y = y_of(op);
        let n = n_of(op);
        let nn = nn_of(op);
        let nnn = nnn_of(op);
        let vx = self.reg(x);
        let vy = self.reg(y);
        if op == 0x00E0 {
            Ok(self.cleared())
        } else if op == 0x00EE {
            self.returned()
        } else if k == 1 {
            Ok(MachineState { pc: nnn as u16, ..self })
        } else if k == 2 {
            self.called(nnn)
        } else if k == 3 {
            Ok(self.skip_if(vx == nn))
        } else if k == 4 {
            Ok(self.skip_if(vx != nn))
        } else if k == 5 && n == 0 {
            Ok(self.skip_if(vx == vy))
        } else if k == 6 {
            Ok(self.with_reg(x, nn))
        } else if k == 7 {
            Ok(self.with_reg(x, (vx + nn) % 256))
        } else if k == 8 && (n <= 7 || n == 0xE) {
            Ok(self.alu(x, y, n))
        } else if k == 9 && n == 0 {
            Ok(self.skip_if(vx != vy))
        } else if k == 0xA {
            Ok(MachineState { index: nnn as u16, ..self })
        } else if k == 0xB {
            Ok(MachineState { pc: (nnn + self.reg(0)) as u16, ..self })
        } else if k == 0xC {
            Ok(self.with_reg(x, (rnd & (nn as u8)) as int))
        } else if k == 0xD {
            Ok(self.drawn(vx, vy, n))
        } else if k == 0xE && nn == 0x9E {
            Ok(self.skip_if(key_down(keys, vx)))
        } else if k == 0xE && nn == 0xA1 {
            Ok(self.skip_if(!key_down(keys, vx)))
        } else if k == 0xF {
            Ok(self.misc(x, nn))
        } else {
            Ok(self)
        }
    }

    /// One instruction cycle. While waiting for a key, the lowest key held
    /// down goes to the waiting register and ends the wait, and with no key
    /// down nothing changes; otherwise the opcode at the program counter is
    /// fetched, the counter moves past it, and the opcode executes.
    pub open spec fn step(self, keys: Seq<bool>, rnd: u8) -> Result<MachineState, CpuError> {
        match self.waiting {
            Some(w) => match lowest_pressed(keys) {
                Some(key) => Ok(
                    MachineState { registers: self.registers.update(w as int, key), waiting: None, ..self },
                ),
                None => Ok(self),
            },
            None => self.advanced().execute(self.fetch(), keys, rnd),
        }
    }

    /// Whether the next instruction cycle executes `Cxnn`, the one
    /// instruction whose effect depends on a random byte.
    pub open spec fn draws_random(self) -> bool {
        self.waiting is None && kind_of(self.fetch()) == 0xC
    }

    /// One 60 Hz tick: each timer above zero goes down by one.
    pub open spec fn timers_ticked(self) -> MachineState {
        MachineState {
            delay_timer: if self.delay_timer > 0 { (self.delay_timer - 1) as u8 } else { 0 },
            sound_timer: if self.sound_timer > 0 { (self.sound_timer - 1) as u8 } else { 0 },
            ..self
        }
    }

    /// `rom` copied into memory from `PROGRAM_START` on, the rest of memory kept.
    pub open spec fn loaded(self, rom: Seq<u8>) -> MachineState {
        MachineState {
            memory: Seq::new(
                4096,
                |a: int|
                    if 0x200 <= a < 0x200 + rom.len() {
                        rom[a - 0x200]
                    } else {
                        self.memory[a]
                    },
            ),
            ..self
        }
    }
}

} // verus!
