//! The interpreter: fetch, decode and execute over the machine's state, held
//! to the model in `machine`.

use vstd::prelude::*;
use rand::rngs::StdRng;
use crate::display::Renderer;
use crate::keypad::InputState;
use crate::machine::{
    blank_pixels, cell, initial_state, kind_of, n_of, nn_of, nnn_of, sprite_column, x_of, y_of,
    CpuError, MachineState, FLAG_REGISTER, MAX_PROGRAM_LEN, MEMORY_SIZE, PROGRAM_START,
    STACK_DEPTH,
};

verus! {

/// rand's standard generator, declared so that the machine can own one; its
/// state stays opaque.
#[verifier::external_type_specification]
#[verifier::external_body]
pub struct ExStdRng(StdRng);

/// Relies on rand's `SeedableRng::from_rng` for `StdRng`, fed from `OsRng`:
/// a generator seeded by the operating system, or `None` where the system has
/// no entropy to give (`try_fill_bytes` reports that as an error).
#[verifier::external_body]
fn entropy_rng() -> Option<StdRng> {
    <StdRng as rand::SeedableRng>::from_rng(rand::rngs::OsRng).ok()
}

/// Relies on rand's `SeedableRng::seed_from_u64` for `StdRng`: a generator
/// whose output is fixed by `seed`.
#[verifier::external_body]
fn seeded_rng(seed: u64) -> StdRng {
    <StdRng as rand::SeedableRng>::seed_from_u64(seed)
}

/// Relies on rand's `Rng::gen::<u8>`: the next byte of the generator, any
/// value of a `u8`.
#[verifier::external_body]
fn random_byte(rng: &mut StdRng) -> u8 {
    rand::Rng::gen::<u8>(rng)
}

/// What running an instruction with result `res` from state `pre` did, when
/// it left state `post` and returned `r`: on success the state is the result,
/// on a fatal condition the error is returned and the state is untouched.
pub open spec fn outcome(
    res: Result<MachineState, CpuError>,
    pre: MachineState,
    post: MachineState,
    r: Result<(), CpuError>,
) -> bool {
    match res {
        Ok(s) => r is Ok && post == s,
        Err(e) => r == Err::<(), CpuError>(e) && post == pre,
    }
}

/// A CHIP-8 machine: memory, registers, call stack, timers, framebuffer, the
/// wait-for-key state, and its own random number generator.
pub struct CPU {
    pub memory: [u8; 4096],
    pub registers: [u8; 16],
    pub index: u16,
    pub program_counter: u16,
    pub stack: [u16; 16],
    pub stack_pointer: u8,
    pub delay_timer: u8,
    pub sound_timer: u8,
    pub renderer: Renderer,
    /// The register that receives the next key press, while the machine waits for one.
    pub waiting_for_key: Option<u8>,
    /// The generator that `Cxnn` draws from.
    pub random: StdRng,
}

impl View for CPU {
    type V = MachineState;

    open spec fn view(&self) -> MachineState {
        MachineState {
            memory: self.memory@,
            registers: self.registers@,
            index: self.index,
            pc: self.program_counter,
            stack: self.stack@,
            sp: self.stack_pointer,
            delay_timer: self.delay_timer,
            sound_timer: self.sound_timer,
            pixels: self.renderer.pixels(),
            redraw: self.renderer.redraw,
            waiting: self.waiting_for_key,
        }
    }
}

/// Register operand `x` of an opcode.
fn field_x(op: u16) -> (r: usize)
    ensures
        r == x_of(op),
        r < 16,
{
    assert((op & 0x0F00u16) >> 8u16 == (op / 256u16) % 16u16) by (bit_vector);
    ((op & 0x0F00) >> 8) as usize
}

/// Register operand `y` of an opcode.
fn field_y(op: u16) -> (r: usize)
    ensures
        r == y_of(op),
        r < 16,
{
    assert((op & 0x00F0u16) >> 4u16 == (op / 16u16) % 16u16) by (bit_vector);
    ((op & 0x00F0) >> 4) as usize
}

/// Low nibble of an opcode.
fn field_n(op: u16) -> (r: u16)
    ensures
        r == n_of(op),
        r < 16,
{
    assert(op & 0x000Fu16 == op % 16u16) by (bit_vector);
    op & 0x000F
}

/// Low byte of an opcode.
fn field_nn(op: u16) -> (r: u8)
    ensures
        r == nn_of(op),
{
    assert(op & 0x00FFu16 == op % 256u16) by (bit_vector);
    (op & 0x00FF) as u8
}

/// Low twelve bits of an opcode.
fn field_nnn(op: u16) -> (r: u16)
    ensures
        r == nnn_of(op),
{
    assert(op & 0x0FFFu16 == op % 4096u16) by (bit_vector);
    op & 0x0FFF
}

/// Instruction class of an opcode.
fn field_kind(op: u16) -> (r: u16)
    ensures
        r == kind_of(op),
        r < 16,
{
    assert(op >> 12u16 == op / 4096u16) by (bit_vector);
    op >> 12
}

/// Offsets modulo 64 name each column once.
proof fn lemma_column_offset(base: int, off: int, c: int)
    requires
        0 <= base,
        0 <= off < 64,
        0 <= c < 64,
    ensures
        ((c - base) % 64 == off) <==> (c == (base + off) % 64),
{
}

/// Offsets modulo 4096 name each memory cell once.
proof fn lemma_cell_offset(base: int, off: int, a: int)
    requires
        0 <= base,
        0 <= off < 4096,
        0 <= a < 4096,
    ensures
        ((a - base) % 4096 == off) <==> (a == (base + off) % 4096),
{
}

/// Whether the sprite drawing loop has passed pixel `(r, c)` when it stands
/// at sprite row `row`, bit `bit`.
spec fn swept(y0: int, vx: int, row: int, bit: int, r: int, c: int) -> bool {
    r - y0 < row || (r - y0 == row && sprite_column(vx, c) < bit)
}

/// Each `8xyn` operation, in the terms of the byte operations that compute it.
proof fn lemma_alu_cases(s: MachineState, x: int, y: int)
    requires
        s.valid(),
        0 <= x < 16,
        0 <= y < 16,
    ensures
        ({
            let vx = s.registers[x];
            let vy = s.registers[y];
            &&& s.alu(x, y, 0) == s.with_reg(x, vy as int)
            &&& s.alu(x, y, 1) == s.with_reg(x, (vx | vy) as int)
            &&& s.alu(x, y, 2) == s.with_reg(x, (vx & vy) as int)
            &&& s.alu(x, y, 3) == s.with_reg(x, (vx ^ vy) as int)
            &&& s.alu(x, y, 4) == s.with_reg_and_flag(
                x,
                vstd::wrapping::u8_specs::wrapping_add(vx, vy) as int,
                if vx + vy > 255 { 1int } else { 0int },
            )
            &&& s.alu(x, y, 5) == s.with_reg_and_flag(
                x,
                vstd::wrapping::u8_specs::wrapping_sub(vx, vy) as int,
                if vx >= vy { 1int } else { 0int },
            )
            &&& s.alu(x, y, 6) == s.with_reg_and_flag(x, (vx >> 1u8) as int, (vx & 1u8) as int)
            &&& s.alu(x, y, 7) == s.with_reg_and_flag(
                x,
                vstd::wrapping::u8_specs::wrapping_sub(vy, vx) as int,
                if vy >= vx { 1int } else { 0int },
            )
            &&& s.alu(x, y, 0xE) == s.with_reg_and_flag(x, (vx << 1u8) as int, ((vx >> 7u8) & 1u8) as int)
        }),
{
    reveal(MachineState::alu);
    let vx = s.registers[x];
    assert(vx >> 1u8 == vx / 2 && vx & 1u8 == vx % 2) by (bit_vector);
    assert(vx << 1u8 == (vx as int * 2) % 256 && (vx >> 7u8) & 1u8 == vx / 128) by (bit_vector);
}

impl CPU {
    /// The state is one that the machine can be in.
    pub open spec fn wf(&self) -> bool {
        self@.valid()
    }

    /// A freshly built machine that draws from `random`.
    fn with_rng(random: StdRng) -> (r: CPU)
        ensures
            r@ == initial_state(),
            r.wf(),
    {
        let r = CPU {
            memory: [0; 4096],
            registers: [0; 16],
            index: 0,
            program_counter: PROGRAM_START,
            stack: [0; 16],
            stack_pointer: 0,
            delay_timer: 0,
            sound_timer: 0,
            renderer: Renderer::new(),
            waiting_for_key: None,
            random,
        };
        assert(r.memory@ =~= initial_state().memory);
        assert(r.registers@ =~= initial_state().registers);
        assert(r.stack@ =~= initial_state().stack);
        r
    }

    /// A machine with everything zeroed, the program counter at
    /// `PROGRAM_START`, and a generator seeded by the operating system; an
    /// error where the system cannot seed one.
    pub fn new() -> (r: Result<CPU, CpuError>)
        ensures
            r matches Ok(c) ==> c@ == initial_state() && c.wf(),
            r matches Err(e) ==> e == CpuError::EntropyUnavailable,
    {
        match entropy_rng() {
            Some(random) => Ok(Self::with_rng(random)),
            None => Err(CpuError::EntropyUnavailable),
        }
    }

    /// Like `new`, but with a generator seeded by `seed`, so that `Cxnn`
    /// draws the same bytes on every run.
    pub fn with_seed(seed: u64) -> (r: CPU)
        ensures
            r@ == initial_state(),
            r.wf(),
    {
        Self::with_rng(seeded_rng(seed))
    }

    /// Copies a program into memory from `PROGRAM_START` on. A program too
    /// long for the memory that is left is refused and nothing is written.
    pub fn load_rom(&mut self, rom_data: &[u8]) -> (r: Result<(), CpuError>)
        requires
            old(self).wf(),
        ensures
            final(self).wf(),
            rom_data@.len() > MAX_PROGRAM_LEN ==> r == Err::<(), CpuError>(CpuError::RomTooLarge)
                && final(self)@ == old(self)@,
            rom_data@.len() <= MAX_PROGRAM_LEN ==> r is Ok && final(self)@ == old(self)@.loaded(
                rom_data@,
            ),
            final(self).random == old(self).random,
    {
        if rom_data.len() > MAX_PROGRAM_LEN {
            return Err(CpuError::RomTooLarge);
        }
        let ghost s0 = self@;
        let mut i: usize = 0;
        while i < rom_data.len()
            invariant
                rom_data@.len() <= MAX_PROGRAM_LEN,
                i <= rom_data@.len(),
                self.random == old(self).random,
                self@ == (MachineState { memory: self.memory@, ..s0 }),
                forall|a: int|
                    0 <= a < 4096 ==> #[trigger] self.memory@[a] == if 0x200 <= a < 0x200 + i {
                        rom_data@[a - 0x200]
                    } else {
                        s0.memory[a]
                    },
            decreases rom_data@.len() - i,
        {
            self.memory[PROGRAM_START as usize + i] = rom_data[i];
            i = i + 1;
        }
        assert(self.memory@ =~= s0.loaded(rom_data@).memory);
        Ok(())
    }

    /// One 60 Hz tick: each timer above zero goes down by one.
    pub fn tick_60hz(&mut self)
        ensures
            final(self)@ == old(self)@.timers_ticked(),
            final(self).random == old(self).random,
            final(self).wf() == old(self).wf(),
    {
        if self.delay_timer > 0 {
            self.delay_timer -= 1;
        }
        if self.sound_timer > 0 {
            self.sound_timer -= 1;
        }
    }

    /// Whether the tone should sound: the sound timer is running.
    pub fn sound_active(&self) -> (r: bool)
        ensures
            r == (self.sound_timer > 0),
    {
        self.sound_timer > 0
    }

    /// `00E0`.
    fn clear_display(&mut self)
        requires
            old(self).wf(),
        ensures
            final(self).random == old(self).random,
            final(self).wf(),
            final(self)@ == old(self)@.cleared(),
    {
        self.renderer.buffer = [[false; 64]; 32];
        self.renderer.redraw = true;
        assert(self.renderer.pixels() =~~= blank_pixels());
    }

    /// `00EE`.
    fn return_from_subroutine(&mut self) -> (r: Result<(), CpuError>)
        requires
            old(self).wf(),
        ensures
            final(self).random == old(self).random,
            final(self).wf(),
            outcome(old(self)@.returned(), old(self)@, final(self)@, r),
    {
        if self.stack_pointer == 0 {
            return Err(CpuError::StackUnderflow);
        }
        self.stack_pointer -= 1;
        self.program_counter = self.stack[self.stack_pointer as usize];
        Ok(())
    }

    /// `2nnn`.
    fn call(&mut self, op: u16) -> (r: Result<(), CpuError>)
        requires
            old(self).wf(),
        ensures
            final(self).random == old(self).random,
            final(self).wf(),
            outcome(old(self)@.called(nnn_of(op)), old(self)@, final(self)@, r),
    {
        if self.stack_pointer as usize >= STACK_DEPTH {
            return Err(CpuError::StackOverflow);
        }
        self.stack[self.stack_pointer as usize] = self.program_counter;
        self.stack_pointer += 1;
        self.program_counter = field_nnn(op);
        Ok(())
    }

    /// Moves the program counter past the next instruction when `cond` holds.
    fn skip_if(&mut self, cond: bool)
        requires
            old(self).wf(),
        ensures
            final(self).random == old(self).random,
            final(self).wf(),
            final(self)@ == old(self)@.skip_if(cond),
    {
        if cond {
            self.program_counter = self.program_counter.wrapping_add(2);
        }
    }

    /// `7xnn`.
    fn add_x(&mut self, op: u16)
        requires
            old(self).wf(),
        ensures
            final(self).random == old(self).random,
            final(self).wf(),
            final(self)@ == old(self)@.with_reg(x_of(op), (old(self)@.reg(x_of(op)) + nn_of(op)) % 256),
    {
        let x = field_x(op);
        let nn = field_nn(op);
        self.registers[x] = self.registers[x].wrapping_add(nn);
    }

    /// Sets register `x` to `v`.
    fn set_register(&mut self, x: usize, v: u8)
        requires
            old(self).wf(),
            x < 16,
        ensures
            final(self).random == old(self).random,
            final(self).wf(),
            final(self)@ == old(self)@.with_reg(x as int, v as int),
    {
        self.registers[x] = v;
    }

    /// Sets register `x` to `v`, then the flag register to `flag`.
    fn set_register_and_flag(&mut self, x: usize, v: u8, flag: u8)
        requires
            old(self).wf(),
            x < 16,
        ensures
            final(self).random == old(self).random,
            final(self).wf(),
            final(self)@ == old(self)@.with_reg_and_flag(x as int, v as int, flag as int),
    {
        self.registers[x] = v;
        self.registers[FLAG_REGISTER] = flag;
    }

    /// `8xyn`, for `n` in `0..=7` or `0xE`.
    #[verifier::spinoff_prover]
    fn arithmetic(&mut self, op: u16)
        requires
            old(self).wf(),
            n_of(op) <= 7 || n_of(op) == 0xE,
        ensures
            final(self).random == old(self).random,
            final(self).wf(),
            final(self)@ == old(self)@.alu(x_of(op), y_of(op), n_of(op)),
    {
        let x = field_x(op);
        let y = field_y(op);
        let n = field_n(op);
        let vx = self.registers[x];
        let vy = self.registers[y];
        proof {
            lemma_alu_cases(self@, x as int, y as int);
        }
        match n {
            0x0 => self.set_register(x, vy),
            0x1 => self.set_register(x, vx | vy),
            0x2 => self.set_register(x, vx & vy),
            0x3 => self.set_register(x, vx ^ vy),
            0x4 => {
                let carry = if vx as u16 + vy as u16 > 255 { 1 } else { 0 };
                self.set_register_and_flag(x, vx.wrapping_add(vy), carry);
            },
            0x5 => {
                let no_borrow = if vx >= vy { 1 } else { 0 };
                self.set_register_and_flag(x, vx.wrapping_sub(vy), no_borrow);
            },
            0x6 => self.set_register_and_flag(x, vx >> 1, vx & 1),
            0x7 => {
                let no_borrow = if vy >= vx { 1 } else { 0 };
                self.set_register_and_flag(x, vy.wrapping_sub(vx), no_borrow);
            },
            _ => self.set_register_and_flag(x, vx << 1, (vx >> 7) & 1),
        }
    }

    /// `Dxyn`.
    #[verifier::spinoff_prover]
    fn draw_sprite(&mut self, op: u16)
        requires
            old(self).wf(),
        ensures
            final(self).random == old(self).random,
            final(self).wf(),
            final(self)@ == old(self)@.drawn(
                old(self)@.reg(x_of(op)),
                old(self)@.reg(y_of(op)),
                n_of(op),
            ),
    {
        let vx = self.registers[field_x(op)];
        let vy = self.registers[field_y(op)];
        let n = field_n(op) as usize;
        let y0 = (vy % 32) as usize;
        let ghost s0 = self@;
        let ghost gx = vx as int;
        let ghost gy = vy as int;
        let ghost gn = n as int;
        let mut buf = self.renderer.buffer;
        let mut collided = false;
        let mut row: usize = 0;
        while row < n
            invariant
                row <= n,
                n < 16,
                y0 == gy % 32,
                gx == vx,
                gy == vy,
                gn == n,
                self@ == s0,
                s0.valid(),
                forall|r: int, c: int|
                    0 <= r < 32 && 0 <= c < 64 ==> #[trigger] buf@[r]@[c] == (s0.pixels[r][c] != (
                    s0.sprite_covers(gx, gy, gn, r, c) && swept(y0 as int, gx, row as int, 0, r, c))),
                collided <==> exists|r: int, c: int|
                    0 <= r < 32 && 0 <= c < 64 && #[trigger] s0.sprite_covers(gx, gy, gn, r, c)
                        && swept(y0 as int, gx, row as int, 0, r, c) && s0.pixels[r][c],
            decreases n - row,
        {
            if y0 + row < 32 {
                let py = y0 + row;
                let byte = self.memory[(self.index as usize + row) % MEMORY_SIZE];
                let mut line = buf[py];
                let mut bit: usize = 0;
                while bit < 8
                    invariant
                        row < n,
                        n < 16,
                        y0 == gy % 32,
                        py == y0 + row,
                        py < 32,
                        bit <= 8,
                        gx == vx,
                        gy == vy,
                        gn == n,
                        s0.valid(),
                        byte == s0.memory[cell(s0.index + row)],
                        forall|c: int|
                            0 <= c < 64 ==> #[trigger] line@[c] == (s0.pixels[py as int][c] != (
                            s0.sprite_covers(gx, gy, gn, py as int, c) && swept(
                                y0 as int,
                                gx,
                                row as int,
                                bit as int,
                                py as int,
                                c,
                            ))),
                        collided <==> exists|r: int, c: int|
                            0 <= r < 32 && 0 <= c < 64 && #[trigger] s0.sprite_covers(gx, gy, gn, r, c)
                                && swept(y0 as int, gx, row as int, bit as int, r, c)
                                && s0.pixels[r][c],
                    decreases 8 - bit,
                {
                    let px = (vx as usize + bit) % 64;
                    let b = bit as u8;
                    let set = (byte >> (7 - b)) & 1 == 1;
                    proof {
                        assert forall|c: int| 0 <= c < 64 implies (#[trigger] sprite_column(gx, c) == bit) <==> c == px by {
                            lemma_column_offset(gx, bit as int, c);
                        }
                        assert(s0.sprite_covers(gx, gy, gn, py as int, px as int) == set);
                    }
                    let ghost before = collided;
                    if set {
                        if line[px] {
                            collided = true;
                        }
                        line[px] = !line[px];
                    }
                    proof {
                        if !(set && s0.pixels[py as int][px as int]) {
                            assert(collided == before);
                            if exists|r: int, c: int|
                                0 <= r < 32 && 0 <= c < 64 && #[trigger] s0.sprite_covers(gx, gy, gn, r, c)
                                    && swept(y0 as int, gx, row as int, (bit + 1) as int, r, c)
                                    && s0.pixels[r][c] {
                                let (r, c) = choose|r: int, c: int|
                                    0 <= r < 32 && 0 <= c < 64 && #[trigger] s0.sprite_covers(gx, gy, gn, r, c)
                                        && swept(y0 as int, gx, row as int, (bit + 1) as int, r, c)
                                        && s0.pixels[r][c];
                                assert(swept(y0 as int, gx, row as int, bit as int, r, c));
                            }
                        } else {
                            assert(swept(y0 as int, gx, row as int, (bit + 1) as int, py as int, px as int));
                        }
                    }
                    bit = bit + 1;
                }
                buf[py] = line;
            }
            row = row + 1;
        }
        self.renderer.buffer = buf;
        self.registers[FLAG_REGISTER] = if collided { 1 } else { 0 };
        self.renderer.redraw = true;
        let ghost post = s0.drawn(gx, gy, gn);
        assert(self.renderer.pixels() =~~= post.pixels);
        assert(self.registers@ =~= post.registers);
    }

    /// `Fx33`.
    fn binary_coded_decimal(&mut self, op: u16)
        requires
            old(self).wf(),
        ensures
            final(self).random == old(self).random,
            final(self).wf(),
            final(self)@ == old(self)@.bcd_stored(old(self)@.reg(x_of(op))),
    {
        let value = self.registers[field_x(op)];
        let i = self.index as usize;
        self.memory[i % MEMORY_SIZE] = value / 100;
        self.memory[(i + 1) % MEMORY_SIZE] = (value / 10) % 10;
        self.memory[(i + 2) % MEMORY_SIZE] = value % 10;
    }

    /// `Fx55`.
    fn save_x(&mut self, op: u16)
        requires
            old(self).wf(),
        ensures
            final(self).random == old(self).random,
            final(self).wf(),
            final(self)@ == old(self)@.registers_stored(x_of(op)),
    {
        let x = field_x(op);
        let ghost s0 = self@;
        let mut i: usize = 0;
        while i <= x
            invariant
                x < 16,
                i <= x + 1,
                s0.valid(),
                self.random == old(self).random,
                self@ == (MachineState { memory: self.memory@, ..s0 }),
                forall|a: int|
                    0 <= a < 4096 ==> #[trigger] self.memory@[a] == if (a - s0.index) % 4096 < i {
                        s0.registers[(a - s0.index) % 4096]
                    } else {
                        s0.memory[a]
                    },
            decreases x + 1 - i,
        {
            let addr = (self.index as usize + i) % MEMORY_SIZE;
            proof {
                assert forall|a: int| 0 <= a < 4096 implies (#[trigger] ((a - s0.index) % 4096) == i) <==> a == addr by {
                    lemma_cell_offset(s0.index as int, i as int, a);
                }
            }
            self.memory[addr] = self.registers[i];
            i = i + 1;
        }
        assert(self.memory@ =~= s0.registers_stored(x as int).memory);
    }

    /// `Fx65`.
    fn load_x(&mut self, op: u16)
        requires
            old(self).wf(),
        ensures
            final(self).random == old(self).random,
            final(self).wf(),
            final(self)@ == old(self)@.registers_loaded(x_of(op)),
    {
        let x = field_x(op);
        let ghost s0 = self@;
        let mut i: usize = 0;
        while i <= x
            invariant
                x < 16,
                i <= x + 1,
                s0.valid(),
                self.random == old(self).random,
                self@ == (MachineState { registers: self.registers@, ..s0 }),
                forall|j: int|
                    0 <= j < 16 ==> #[trigger] self.registers@[j] == if j < i {
                        s0.memory[cell(s0.index + j)]
                    } else {
                        s0.registers[j]
                    },
            decreases x + 1 - i,
        {
            self.registers[i] = self.memory[(self.index as usize + i) % MEMORY_SIZE];
            i = i + 1;
        }
        assert(self.registers@ =~= s0.registers_loaded(x as int).registers);
    }

    /// The `Fx..` instructions.
    fn misc(&mut self, op: u16)
        requires
            old(self).wf(),
        ensures
            final(self).random == old(self).random,
            final(self).wf(),
            final(self)@ == old(self)@.misc(x_of(op), nn_of(op)),
    {
        let x = field_x(op);
        let nn = field_nn(op);
        match nn {
            0x07 => self.registers[x] = self.delay_timer,
            0x0A => self.waiting_for_key = Some(x as u8),
            0x15 => self.delay_timer = self.registers[x],
            0x18 => self.sound_timer = self.registers[x],
            0x1E => self.index = self.index.wrapping_add(self.registers[x] as u16),
            0x29 => self.index = self.registers[x] as u16 * 5,
            0x33 => self.binary_coded_decimal(op),
            0x55 => self.save_x(op),
            0x65 => self.load_x(op),
            _ => {},
        }
    }

    /// Executes `opcode`, the program counter having already moved past it,
    /// with `input` as the keypad and `rnd` as the byte that `Cxnn` draws.
    /// Opcodes that name no instruction change nothing. A stack overflow or
    /// underflow is returned and leaves the machine as it was.
    #[verifier::spinoff_prover]
    pub fn execute_with(&mut self, opcode: u16, input: &InputState, rnd: u8) -> (r: Result<(), CpuError>)
        requires
            old(self).wf(),
        ensures
            final(self).random == old(self).random,
            final(self).wf(),
            outcome(old(self)@.execute(opcode, input@, rnd), old(self)@, final(self)@, r),
    {
        reveal(MachineState::execute);
        let k = field_kind(opcode);
        let x = field_x(opcode);
        let y = field_y(opcode);
        let n = field_n(opcode);
        let nn = field_nn(opcode);
        let nnn = field_nnn(opcode);
        if opcode == 0x00E0 {
            self.clear_display();
        } else if opcode == 0x00EE {
            return self.return_from_subroutine();
        } else if k == 0x1 {
            self.program_counter = nnn;
        } else if k == 0x2 {
            return self.call(opcode);
        } else if k == 0x3 {
            let cond = self.registers[x] == nn;
            self.skip_if(cond);
        } else if k == 0x4 {
            let cond = self.registers[x] != nn;
            self.skip_if(cond);
        } else if k == 0x5 && n == 0 {
            let cond = self.registers[x] == self.registers[y];
            self.skip_if(cond);
        } else if k == 0x6 {
            self.registers[x] = nn;
        } else if k == 0x7 {
            self.add_x(opcode);
        } else if k == 0x8 && (n <= 7 || n == 0xE) {
            self.arithmetic(opcode);
        } else if k == 0x9 && n == 0 {
            let cond = self.registers[x] != self.registers[y];
            self.skip_if(cond);
        } else if k == 0xA {
            self.index = nnn;
        } else if k == 0xB {
            self.program_counter = nnn + self.registers[0] as u16;
        } else if k == 0xC {
            self.registers[x] = rnd & nn;
        } else if k == 0xD {
            self.draw_sprite(opcode);
        } else if k == 0xE && nn == 0x9E {
            let cond = input.is_pressed(self.registers[x]);
            self.skip_if(cond);
        } else if k == 0xE && nn == 0xA1 {
            let cond = !input.is_pressed(self.registers[x]);
            self.skip_if(cond);
        } else if k == 0xF {
            self.misc(opcode);
        }
        Ok(())
    }

    /// Executes `opcode`, the program counter having already moved past it,
    /// drawing from the machine's generator the byte that `Cxnn` needs. The
    /// result is that of `execute_with` for some byte; for any other opcode
    /// the byte plays no part.
    pub fn execute_opcode(&mut self, opcode: u16, input: &InputState) -> (r: Result<(), CpuError>)
        requires
            old(self).wf(),
        ensures
            final(self).wf(),
            exists|b: u8| outcome(#[trigger] old(self)@.execute(opcode, input@, b), old(self)@, final(self)@, r),
            kind_of(opcode) != 0xC ==> outcome(old(self)@.execute(opcode, input@, 0), old(self)@, final(self)@, r),
            kind_of(opcode) != 0xC ==> final(self).random == old(self).random,
    {
        let rnd = if field_kind(opcode) == 0xC {
            random_byte(&mut self.random)
        } else {
            0
        };
        self.execute_with(opcode, input, rnd)
    }

    /// One instruction cycle with `input` as the keypad. While the machine
    /// waits for a key, the lowest key held down goes to the waiting register
    /// and ends the wait. Otherwise the opcode at the program counter is
    /// fetched, the counter moves past it, and the opcode executes; a stack
    /// overflow or underflow is returned and leaves the machine as it was, the
    /// faulting opcode still at the program counter.
    #[verifier::spinoff_prover]
    pub fn tick(&mut self, input: &InputState) -> (r: Result<(), CpuError>)
        requires
            old(self).wf(),
        ensures
            final(self).wf(),
            exists|b: u8| outcome(#[trigger] old(self)@.step(input@, b), old(self)@, final(self)@, r),
            !old(self)@.draws_random() ==> outcome(old(self)@.step(input@, 0), old(self)@, final(self)@, r),
            !old(self)@.draws_random() ==> final(self).random == old(self).random,
    {
        match self.waiting_for_key {
            Some(w) => {
                match input.first_pressed() {
                    Some(key) => {
                        self.registers[w as usize] = key;
                        self.waiting_for_key = None;
                    },
                    None => {},
                }
                assert(outcome(old(self)@.step(input@, 0), old(self)@, self@, Ok(())));
                Ok(())
            },
            None => {
                let pc = self.program_counter;
                let hi = self.memory[pc as usize % MEMORY_SIZE];
                let lo = self.memory[(pc as usize + 1) % MEMORY_SIZE];
                assert(((hi as u16) << 8u16) | (lo as u16) == (hi as u16) * 256 + (lo as u16)) by (bit_vector);
                let opcode = ((hi as u16) << 8) | (lo as u16);
                self.program_counter = pc.wrapping_add(2);
                let ghost advanced = self@;
                let r = self.execute_opcode(opcode, input);
                let ghost after = self@;
                if r.is_err() {
                    self.program_counter = pc;
                }
                proof {
                    assert(opcode == old(self)@.fetch());
                    assert(advanced == old(self)@.advanced());
                    let b = choose|b: u8| outcome(#[trigger] advanced.execute(opcode, input@, b), advanced, after, r);
                    assert(old(self)@.step(input@, b) == advanced.execute(opcode, input@, b));
                    assert(outcome(old(self)@.step(input@, b), old(self)@, self@, r));
                    if !old(self)@.draws_random() {
                        assert(old(self)@.step(input@, 0) == advanced.execute(opcode, input@, 0));
                    }
                }
                r
            },
        }
    }
}

} // verus!
