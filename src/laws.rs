//! Laws of the instruction set, proved over the machine model.

use vstd::prelude::*;
use vstd::arithmetic::div_mod::lemma_fundamental_div_mod_converse;
use crate::machine::{
    blank_pixels, cell, kind_of, n_of, nn_of, nnn_of, opcode, x_of, y_of, MachineState,
};

verus! {

/// The four nibbles of an opcode built from nibbles are those nibbles.
pub proof fn lemma_opcode_fields(k: int, x: int, y: int, n: int)
    requires
        0 <= k < 16,
        0 <= x < 16,
        0 <= y < 16,
        0 <= n < 16,
    ensures
        kind_of(opcode(k, x, y, n)) == k,
        x_of(opcode(k, x, y, n)) == x,
        y_of(opcode(k, x, y, n)) == y,
        n_of(opcode(k, x, y, n)) == n,
        nn_of(opcode(k, x, y, n)) == y * 16 + n,
        nnn_of(opcode(k, x, y, n)) == x * 256 + y * 16 + n,
{
    let v = k * 0x1000 + x * 0x100 + y * 0x10 + n;
    assert(opcode(k, x, y, n) as int == v);
    lemma_fundamental_div_mod_converse(v, 0x1000, k, x * 0x100 + y * 0x10 + n);
    lemma_fundamental_div_mod_converse(v, 0x100, k * 0x10 + x, y * 0x10 + n);
    lemma_fundamental_div_mod_converse(k * 0x10 + x, 0x10, k, x);
    lemma_fundamental_div_mod_converse(v, 0x10, k * 0x100 + x * 0x10 + y, n);
    lemma_fundamental_div_mod_converse(k * 0x100 + x * 0x10 + y, 0x10, k * 0x10 + x, y);
}

/// `7xnn` leaves `(Vx + nn) mod 256` in register `x`, a byte, and changes
/// nothing else.
pub proof fn add_immediate_wraps(s: MachineState, x: int, nn: int, keys: Seq<bool>, rnd: u8)
    requires
        s.valid(),
        0 <= x < 16,
        0 <= nn < 256,
    ensures
        s.execute(opcode(7, x, nn / 16, nn % 16), keys, rnd) == Ok::<MachineState, crate::machine::CpuError>(
            s.with_reg(x, (s.reg(x) + nn) % 256),
        ),
        s.with_reg(x, (s.reg(x) + nn) % 256).reg(x) == (s.reg(x) + nn) % 256,
{
    reveal(MachineState::execute);
    lemma_opcode_fields(7, x, nn / 16, nn % 16);
}

/// `8xy4` sets the flag register to 1 exactly when `Vx + Vy` exceeds 255, and
/// to 0 otherwise. The flag is written after the sum, so it survives even when
/// `x` is the flag register; any other `x` receives the sum modulo 256.
pub proof fn add_registers_carry(s: MachineState, x: int, y: int, keys: Seq<bool>, rnd: u8)
    requires
        s.valid(),
        0 <= x < 16,
        0 <= y < 16,
    ensures
        s.execute(opcode(8, x, y, 4), keys, rnd) is Ok,
        ({
            let t = s.execute(opcode(8, x, y, 4), keys, rnd)->Ok_0;
            &&& t.reg(15) == if s.reg(x) + s.reg(y) > 255 { 1int } else { 0int }
            &&& t.reg(15) == 0 || t.reg(15) == 1
            &&& x != 15 ==> t.reg(x) == (s.reg(x) + s.reg(y)) % 256
        }),
{
    reveal(MachineState::execute);
    reveal(MachineState::alu);
    lemma_opcode_fields(8, x, y, 4);
}

/// `8xy5` sets the flag register to 1 exactly when `Vx >= Vy` (no borrow),
/// and `8xy7` exactly when `Vy >= Vx`; the difference, modulo 256, goes to any
/// `x` other than the flag register.
pub proof fn subtract_registers_borrow(s: MachineState, x: int, y: int, keys: Seq<bool>, rnd: u8)
    requires
        s.valid(),
        0 <= x < 16,
        0 <= y < 16,
    ensures
        s.execute(opcode(8, x, y, 5), keys, rnd) is Ok,
        s.execute(opcode(8, x, y, 7), keys, rnd) is Ok,
        ({
            let t = s.execute(opcode(8, x, y, 5), keys, rnd)->Ok_0;
            &&& t.reg(15) == if s.reg(x) >= s.reg(y) { 1int } else { 0int }
            &&& x != 15 ==> t.reg(x) == (s.reg(x) - s.reg(y)) % 256
        }),
        ({
            let t = s.execute(opcode(8, x, y, 7), keys, rnd)->Ok_0;
            &&& t.reg(15) == if s.reg(y) >= s.reg(x) { 1int } else { 0int }
            &&& x != 15 ==> t.reg(x) == (s.reg(y) - s.reg(x)) % 256
        }),
{
    reveal(MachineState::execute);
    reveal(MachineState::alu);
    lemma_opcode_fields(8, x, y, 5);
    lemma_opcode_fields(8, x, y, 7);
}

/// `8xy6` sets the flag register to bit 0 of `Vx` as it was before the shift,
/// and `8xyE` to bit 7; any `x` other than the flag register receives `Vx`
/// shifted right, or left within a byte.
pub proof fn shift_flag_is_bit_shifted_out(s: MachineState, x: int, y: int, keys: Seq<bool>, rnd: u8)
    requires
        s.valid(),
        0 <= x < 16,
        0 <= y < 16,
    ensures
        s.execute(opcode(8, x, y, 6), keys, rnd) is Ok,
        s.execute(opcode(8, x, y, 0xE), keys, rnd) is Ok,
        ({
            let t = s.execute(opcode(8, x, y, 6), keys, rnd)->Ok_0;
            &&& t.registers[15] == s.registers[x] & 1
            &&& x != 15 ==> t.registers[x] == s.registers[x] >> 1
        }),
        ({
            let t = s.execute(opcode(8, x, y, 0xE), keys, rnd)->Ok_0;
            &&& t.registers[15] == (s.registers[x] >> 7) & 1
            &&& x != 15 ==> t.registers[x] == s.registers[x] << 1
        }),
{
    reveal(MachineState::execute);
    reveal(MachineState::alu);
    lemma_opcode_fields(8, x, y, 6);
    lemma_opcode_fields(8, x, y, 0xE);
    let v = s.registers[x];
    assert(v & 1u8 == v % 2 && v >> 1u8 == v / 2) by (bit_vector);
    assert((v >> 7u8) & 1u8 == v / 128 && v << 1u8 == (v as int * 2) % 256) by (bit_vector);
}

/// `Dxyn` sets the flag register to 1 exactly when some pixel that the sprite
/// covers was lit, and raises the redraw flag. Drawing the same sprite twice
/// at the same place brings back the framebuffer as it was, with the redraw
/// flag raised both times, provided neither coordinate is read from the flag
/// register that the first draw overwrites.
pub proof fn draw_twice_restores(s: MachineState, x: int, y: int, n: int, keys: Seq<bool>, rnd: u8)
    requires
        s.valid(),
        0 <= x < 15,
        0 <= y < 15,
        0 <= n < 16,
    ensures
        s.execute(opcode(0xD, x, y, n), keys, rnd) is Ok,
        ({
            let t1 = s.execute(opcode(0xD, x, y, n), keys, rnd)->Ok_0;
            let t2 = t1.execute(opcode(0xD, x, y, n), keys, rnd);
            &&& t1.reg(15) == if (exists|r: int, c: int|
                0 <= r < 32 && 0 <= c < 64 && #[trigger] s.sprite_covers(s.reg(x), s.reg(y), n, r, c)
                    && s.pixels[r][c]) {
                1int
            } else {
                0int
            }
            &&& t1.redraw
            &&& t2 is Ok
            &&& t2->Ok_0.pixels == s.pixels
            &&& t2->Ok_0.redraw
        }),
{
    reveal(MachineState::execute);
    lemma_opcode_fields(0xD, x, y, n);
    let t1 = s.execute(opcode(0xD, x, y, n), keys, rnd)->Ok_0;
    let t2 = t1.execute(opcode(0xD, x, y, n), keys, rnd)->Ok_0;
    assert(t1.reg(x) == s.reg(x) && t1.reg(y) == s.reg(y));
    assert(t2.pixels =~~= s.pixels);
}

/// `00E0` turns every pixel off and raises the redraw flag, whatever the
/// state before.
pub proof fn clear_blanks_screen(s: MachineState, keys: Seq<bool>, rnd: u8)
    requires
        s.valid(),
    ensures
        s.execute(0x00E0, keys, rnd) is Ok,
        s.execute(0x00E0, keys, rnd)->Ok_0.pixels == blank_pixels(),
        forall|r: int, c: int|
            0 <= r < 32 && 0 <= c < 64 ==> !#[trigger] s.execute(0x00E0, keys, rnd)->Ok_0.pixels[r][c],
        s.execute(0x00E0, keys, rnd)->Ok_0.redraw,
{
    reveal(MachineState::execute);
}

/// `Fx55`, then every register zeroed, then `Fx65` with the same index and
/// `x`, gives registers `0..=x` back their values from before; neither
/// instruction moves the index.
pub proof fn save_then_load_restores(s: MachineState, x: int, keys: Seq<bool>, rnd: u8)
    requires
        s.valid(),
        0 <= x < 16,
    ensures
        s.execute(opcode(0xF, x, 5, 5), keys, rnd) is Ok,
        ({
            let t1 = s.execute(opcode(0xF, x, 5, 5), keys, rnd)->Ok_0;
            let z = MachineState { registers: Seq::new(16, |_i: int| 0u8), ..t1 };
            let t2 = z.execute(opcode(0xF, x, 6, 5), keys, rnd);
            &&& t1.index == s.index
            &&& t2 is Ok
            &&& t2->Ok_0.index == s.index
            &&& forall|i: int| 0 <= i <= x ==> #[trigger] t2->Ok_0.registers[i] == s.registers[i]
        }),
{
    reveal(MachineState::execute);
    lemma_opcode_fields(0xF, x, 5, 5);
    lemma_opcode_fields(0xF, x, 6, 5);
    let t1 = s.execute(opcode(0xF, x, 5, 5), keys, rnd)->Ok_0;
    assert forall|i: int| 0 <= i <= x implies #[trigger] t1.memory[cell(t1.index + i)] == s.registers[i] by {
        let a = cell(s.index + i);
        assert((a - s.index) % 4096 == i);
    }
}

/// Loading a program and reading memory from `PROGRAM_START` for the
/// program's length gives the program back unchanged.
pub proof fn load_round_trip(s: MachineState, rom: Seq<u8>)
    requires
        s.valid(),
        rom.len() <= 3584,
    ensures
        s.loaded(rom).memory.subrange(0x200, 0x200 + rom.len() as int) == rom,
{
    assert(s.loaded(rom).memory.subrange(0x200, 0x200 + rom.len() as int) =~= rom);
}

} // verus!
