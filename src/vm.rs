//! The interpreter: the machine's state and the fetch-decode-execute cycle.
use vstd::prelude::*;
use rand::Rng;
use crate::display::{blank, pixel_at, pixel_index, zeroed, Graphics};
use crate::keypad::{is_any_key_down, is_key_down, Keypad};
use crate::machine::{
    alu_effect, collides, draw_effect, drawn, effect, flow_effect, in_sprite, load_effect,
    skip_effect, sprite_bit, font_bytes, misc_effect, run, step_effect, Machine,
    VmFault,
};
use crate::memory::{spliced, Memory};
use crate::opcodes::DecodedOpcode;

verus! {

/// Where programs are loaded and start.
pub const PROGRAM_START: u16 = 0x200;
/// Where the font glyphs are loaded.
pub const FONT_START: u16 = 0x50;

/// Relies on rand's `thread_rng().gen_range(0..=255)`: a byte drawn from the
/// thread's generator; any byte may come.
#[verifier::external_body]
fn random_byte() -> (r: u8) {
    rand::thread_rng().gen_range(0..=255u8)
}

/// Whether `r` is what `s` says, with the state left as `after`: on success
/// the state that `s` gives, on a fault the state from `before`.
pub open spec fn follows<T>(r: Result<T, VmFault>, before: Machine, after: Machine, s: Result<Machine, VmFault>) -> bool {
    match s {
        Ok(m) => r is Ok && after == m,
        Err(f) => r == Err::<T, VmFault>(f) && after == before,
    }
}

/// Whether a draw that has finished `row` rows and `col` columns of the
/// next one has passed over (x, y).
spec fn drawn_upto(x: int, y: int, x0: int, y0: int, row: int, col: int) -> bool {
    in_sprite(x, y, x0, y0, row) || (in_sprite(x, y, x0, y0, row + 1) && y == y0 + row && x < x0 + col)
}

/// The pixel at (x, y) once the draw has passed over it.
spec fn painted(p: Seq<u8>, mem: Seq<u8>, i: int, x0: int, y0: int, x: int, y: int) -> u8 {
    pixel_at(p, x, y) ^ sprite_bit(mem[i + (y - y0)], x - x0)
}

/// Whether `r` and `after` are what `run` gives for one step per byte of
/// `rnds`: on a fault, the state is the one before the faulting step.
pub open spec fn ran(r: Result<usize, VmFault>, before: Machine, after: Machine, keys: Seq<bool>, rnds: Seq<u8>) -> bool {
    let out = run(before, keys, rnds, rnds.len());
    &&& after == out.0
    &&& match r {
        Ok(beeps) => out.2 is None && beeps == out.1,
        Err(f) => out.2 == Some(f),
    }
}

/// The number of steps that a speed setting asks for.
pub open spec fn steps_for(speed: i32) -> nat {
    if speed > 0 { speed as nat } else { 0 }
}

/// Once a run has stopped on a fault, further steps change nothing.
proof fn lemma_run_halted(m: Machine, keys: Seq<bool>, rnds: Seq<u8>, i: nat, j: nat)
    requires
        i <= j,
        run(m, keys, rnds, i).2 is Some,
    ensures
        run(m, keys, rnds, j) == run(m, keys, rnds, i),
    decreases j - i,
{
    if j > i {
        lemma_run_halted(m, keys, rnds, i, (j - 1) as nat);
    }
}

/// The interpreter.
#[allow(non_snake_case)]
pub struct VM {
    memory: Memory,
    registers: Vec<u8>,
    /// The index register.
    pub I: u16,
    /// The program counter.
    pub PC: u16,
    stack: Vec<u16>,
    speed: i32,
    block_for_key: Option<u8>,
    delay_timer: u8,
    sound_timer: u8,
    pub graphics: Graphics,
}

impl View for VM {
    type V = Machine;

    closed spec fn view(&self) -> Machine {
        Machine {
            memory: self.memory@,
            registers: self.registers@,
            index: self.I,
            pc: self.PC,
            stack: self.stack@,
            delay_timer: self.delay_timer,
            sound_timer: self.sound_timer,
            waiting: self.block_for_key,
            pixels: self.graphics@,
        }
    }
}

impl VM {
    /// A machine with zeroed memory and registers, a dark screen, and the
    /// program counter at the program start.
    pub fn new() -> (r: Self)
        ensures
            r@ == (Machine {
                memory: Seq::new(4096, |k: int| 0u8),
                registers: Seq::new(16, |k: int| 0u8),
                index: 0,
                pc: 0x200,
                stack: Seq::empty(),
                delay_timer: 0,
                sound_timer: 0,
                waiting: None,
                pixels: blank(),
            }),
            r.speed_spec() == 10,
    {
        VM {
            memory: Memory::new(),
            registers: zeroed(16),
            I: 0,
            PC: PROGRAM_START,
            stack: Vec::new(),
            speed: 10,
            block_for_key: None,
            delay_timer: 0,
            sound_timer: 0,
            graphics: Graphics::new(),
        }
    }

    /// Loads a program at the program start and the font glyphs at the font
    /// start, and moves the program counter to the program start.
    pub fn load_rom(&mut self, rom: &[u8])
        requires
            old(self)@.well_formed(),
            rom@.len() <= 4096 - 0x200,
        ensures
            final(self)@ == (Machine {
                memory: spliced(spliced(old(self)@.memory, 0x200, rom@), 0x50, font_bytes()),
                pc: 0x200,
                ..old(self)@
            }),
    {
        self.memory.write_array(PROGRAM_START, rom);
        self.PC = PROGRAM_START;
        let font: Vec<u8> = vec![
            0xF0u8, 0x90, 0x90, 0x90, 0xF0, 0x20, 0x60, 0x20, 0x20, 0x70,
            0xF0, 0x10, 0xF0, 0x80, 0xF0, 0xF0, 0x10, 0xF0, 0x10, 0xF0,
            0x90, 0x90, 0xF0, 0x10, 0x10, 0xF0, 0x80, 0xF0, 0x10, 0xF0,
            0xF0, 0x80, 0xF0, 0x90, 0xF0, 0xF0, 0x10, 0x20, 0x40, 0x40,
            0xF0, 0x90, 0xF0, 0x90, 0xF0, 0xF0, 0x90, 0xF0, 0x10, 0xF0,
            0xF0, 0x90, 0xF0, 0x90, 0x90, 0xE0, 0x90, 0xE0, 0x90, 0xE0,
            0xF0, 0x80, 0x80, 0x80, 0xF0, 0xE0, 0x90, 0x90, 0x90, 0xE0,
            0xF0, 0x80, 0xF0, 0x80, 0xF0, 0xF0, 0x80, 0xF0, 0x80, 0x80,
        ];
        assert(font@ =~= font_bytes());
        self.memory.write_array(FONT_START, font.as_slice());
    }

    /// Clears the screen and moves the program counter to the program
    /// start; memory, registers and timers stay as they are.
    pub fn reset(&mut self)
        ensures
            final(self)@ == (Machine { pixels: blank(), pc: 0x200, ..old(self)@ }),
    {
        self.graphics.clear();
        self.PC = PROGRAM_START;
    }

    /// Steps per call of `cycle`; none where not positive.
    pub closed spec fn speed_spec(&self) -> i32 {
        self.speed
    }

    /// Steps per call of `cycle`.
    pub fn speed(&self) -> (v: i32)
        ensures
            v == self.speed_spec(),
    {
        self.speed
    }

    /// Sets the steps per call of `cycle`.
    pub fn set_speed(&mut self, steps: i32)
        ensures
            final(self).speed_spec() == steps,
            final(self)@ == old(self)@,
    {
        self.speed = steps;
    }

    /// Register `r`.
    pub fn register(&self, r: u8) -> (v: u8)
        requires
            self@.well_formed(),
            r < 16,
        ensures
            v == self@.registers[r as int],
    {
        self.registers[r as usize]
    }

    /// The byte at `addr`.
    pub fn memory_at(&self, addr: u16) -> (v: u8)
        requires
            self@.well_formed(),
            addr < 4096,
        ensures
            v == self@.memory[addr as int],
    {
        self.memory.read(addr)
    }

    pub fn delay_timer(&self) -> (v: u8)
        ensures
            v == self@.delay_timer,
    {
        self.delay_timer
    }

    pub fn sound_timer(&self) -> (v: u8)
        ensures
            v == self@.sound_timer,
    {
        self.sound_timer
    }

    /// How many return addresses the call stack holds.
    pub fn stack_depth(&self) -> (v: usize)
        ensures
            v == self@.stack.len(),
    {
        self.stack.len()
    }

    /// The register that waits for a key press, while the machine is blocked.
    pub fn waiting_for_key(&self) -> (v: Option<u8>)
        ensures
            v == self@.waiting,
    {
        self.block_for_key
    }

    fn set_reg(&mut self, r: u8, v: u8)
        requires
            old(self)@.well_formed(),
            r < 16,
        ensures
            final(self)@ == old(self)@.with_reg(r as int, v),
            final(self).speed_spec() == old(self).speed_spec(),
    {
        self.registers.set(r as usize, v);
    }

    fn skip_if(&mut self, c: bool)
        ensures
            final(self)@ == old(self)@.skip_if(c),
            final(self).speed_spec() == old(self).speed_spec(),
    {
        if c {
            self.PC = self.PC.wrapping_add(2);
        }
    }

    /// `8XY?`.
    fn execute_alu(&mut self, d: DecodedOpcode) -> (r: Result<(), VmFault>)
        requires
            old(self)@.well_formed(),
            d.fields_in_range(),
        ensures
            follows(r, old(self)@, final(self)@, alu_effect(old(self)@, d)),
            final(self).speed_spec() == old(self).speed_spec(),
    {
        let vx = self.registers[d.X as usize];
        let vy = self.registers[d.Y as usize];
        if d.N == 0x0 {
            self.set_reg(d.X, vy);
        } else if d.N == 0x1 {
            self.set_reg(d.X, vx | vy);
        } else if d.N == 0x2 {
            self.set_reg(d.X, vx & vy);
        } else if d.N == 0x3 {
            self.set_reg(d.X, vx ^ vy);
        } else if d.N == 0x4 {
            self.set_reg(d.X, vx.wrapping_add(vy));
        } else if d.N == 0x5 {
            self.set_reg(d.X, vx.wrapping_sub(vy));
        } else if d.N == 0x6 {
            self.set_reg(d.X, vx / 2);
        } else if d.N == 0xE {
            self.set_reg(15, vx & 1);
            let v = self.registers[d.X as usize];
            self.set_reg(d.X, v.wrapping_mul(2));
        } else {
            return Err(VmFault::Unimplemented(d));
        }
        Ok(())
    }

    /// `FX??`.
    fn execute_misc(&mut self, d: DecodedOpcode) -> (r: Result<(), VmFault>)
        requires
            old(self)@.well_formed(),
            d.fields_in_range(),
        ensures
            follows(r, old(self)@, final(self)@, misc_effect(old(self)@, d)),
            final(self).speed_spec() == old(self).speed_spec(),
    {
        let vx = self.registers[d.X as usize];
        let i = self.I;
        if d.NN == 0x07 {
            let t = self.delay_timer;
            self.set_reg(d.X, t);
        } else if d.NN == 0x0A {
            self.block_for_key = Some(d.X);
        } else if d.NN == 0x15 {
            self.delay_timer = vx;
        } else if d.NN == 0x18 {
            self.sound_timer = vx;
        } else if d.NN == 0x1E {
            self.I = i.wrapping_add(vx as u16);
        } else if d.NN == 0x29 {
            self.I = FONT_START + vx as u16 * 5;
        } else if d.NN == 0x33 {
            if i as u32 + 2 >= 4096 {
                return Err(VmFault::AddressOutOfRange(i as u32 + 2));
            }
            let digits: Vec<u8> = vec![vx / 100, (vx % 100) / 10, vx % 10];
            self.memory.write_array(i, digits.as_slice());
        } else if d.NN == 0x55 {
            if i as u32 + d.X as u32 >= 4096 {
                return Err(VmFault::AddressOutOfRange(i as u32 + d.X as u32));
            }
            let ghost m0 = self@;
            let mut k: u8 = 0;
            while k <= d.X
                invariant
                    k <= d.X + 1,
                    d.X < 16,
                    i + d.X < 4096,
                    self@ == (Machine { memory: self@.memory, ..m0 }),
                    m0.well_formed(),
                    self.speed_spec() == old(self).speed_spec(),
                    self@.memory.len() == 4096,
                    forall|a: int| 0 <= a < 4096 ==> #[trigger] self@.memory[a] == if i <= a < i + k {
                        m0.registers[a - i]
                    } else {
                        m0.memory[a]
                    },
                decreases d.X + 1 - k,
            {
                let v = self.registers[k as usize];
                self.memory.write(i + k as u16, v);
                k = k + 1;
            }
            assert(self@.memory =~= spliced(m0.memory, i as int, m0.registers.subrange(0, d.X + 1)));
        } else if d.NN == 0x65 {
            if i as u32 + d.X as u32 >= 4096 {
                return Err(VmFault::AddressOutOfRange(i as u32 + d.X as u32));
            }
            let ghost m0 = self@;
            let mut k: u8 = 0;
            while k <= d.X
                invariant
                    k <= d.X + 1,
                    d.X < 16,
                    i + d.X < 4096,
                    self@ == (Machine { registers: self@.registers, ..m0 }),
                    m0.well_formed(),
                    self.speed_spec() == old(self).speed_spec(),
                    self@.registers.len() == 16,
                    forall|a: int| 0 <= a < 16 ==> #[trigger] self@.registers[a] == if a < k {
                        m0.memory[i + a]
                    } else {
                        m0.registers[a]
                    },
                decreases d.X + 1 - k,
            {
                let v = self.memory.read(i + k as u16);
                self.registers.set(k as usize, v);
                k = k + 1;
            }
            assert(self@.registers =~= spliced(m0.registers, 0, m0.memory.subrange(i as int, i + d.X + 1)));
        } else {
            return Err(VmFault::Unimplemented(d));
        }
        Ok(())
    }

    /// `DXYN`.
    fn draw(&mut self, d: DecodedOpcode) -> (r: Result<(), VmFault>)
        requires
            old(self)@.well_formed(),
            d.fields_in_range(),
        ensures
            follows(r, old(self)@, final(self)@, draw_effect(old(self)@, d)),
            final(self).speed_spec() == old(self).speed_spec(),
    {
        let vx = self.registers[d.X as usize];
        let vy = self.registers[d.Y as usize];
        let x0 = vx & 63;
        let y0 = vy & 31;
        let n = d.N;
        let i = self.I;
        if n > 0 && i as u32 + n as u32 - 1 >= 4096 {
            return Err(VmFault::AddressOutOfRange(i as u32 + n as u32 - 1));
        }
        assert(vx & 63u8 < 64u8) by (bit_vector);
        assert(vy & 31u8 < 32u8) by (bit_vector);
        let ghost m0 = self@;
        let ghost (gx, gy) = (x0 as int, y0 as int);
        let mut hit = false;
        let mut row: u8 = 0;
        while row < n
            invariant
                row <= n,
                n < 16,
                x0 < 64,
                y0 < 32,
                gx == x0,
                gy == y0,
                n > 0 ==> i + n <= 4096,
                m0.well_formed(),
                self.speed_spec() == old(self).speed_spec(),
                self@ == (Machine { pixels: self@.pixels, ..m0 }),
                self@.pixels.len() == 2048,
                forall|x: int, y: int|
                    0 <= x < 64 && 0 <= y < 32 ==> #[trigger] pixel_at(self@.pixels, x, y) == if in_sprite(x, y, gx, gy, row as int) {
                        painted(m0.pixels, m0.memory, i as int, gx, gy, x, y)
                    } else {
                        pixel_at(m0.pixels, x, y)
                    },
                hit == collides(self@.pixels, gx, gy, row as int),
            decreases n - row,
        {
            let byte = self.memory.read(i + row as u16);
            let mut col: u8 = 0;
            while col < 8
                invariant
                    row < n,
                    n < 16,
                    col <= 8,
                    x0 < 64,
                    y0 < 32,
                    gx == x0,
                    gy == y0,
                    i + n <= 4096,
                    byte == m0.memory[i + row],
                    m0.well_formed(),
                    self.speed_spec() == old(self).speed_spec(),
                    self@ == (Machine { pixels: self@.pixels, ..m0 }),
                    self@.pixels.len() == 2048,
                    forall|x: int, y: int|
                        0 <= x < 64 && 0 <= y < 32 ==> #[trigger] pixel_at(self@.pixels, x, y) == if drawn_upto(x, y, gx, gy, row as int, col as int) {
                            painted(m0.pixels, m0.memory, i as int, gx, gy, x, y)
                        } else {
                            pixel_at(m0.pixels, x, y)
                        },
                    hit == exists|x: int, y: int|
                        drawn_upto(x, y, gx, gy, row as int, col as int) && #[trigger] pixel_at(self@.pixels, x, y) == 0,
                decreases 8 - col,
            {
                let x = x0 + col;
                let y = y0 + row;
                if x <= 63 && y <= 31 {
                    let bit = (byte >> (7 - col)) & 1;
                    let ghost before = self@.pixels;
                    let ghost was_hit = hit;
                    let off = self.graphics.flip_pixel(x as usize, y as usize, bit);
                    hit = hit || off;
                    proof {
                        let after = self@.pixels;
                        assert(pixel_at(after, x as int, y as int) == painted(m0.pixels, m0.memory, i as int, gx, gy, x as int, y as int));
                        assert forall|a: int, b: int| 0 <= a < 64 && 0 <= b < 32 && (a != x || b != y) implies
                            #[trigger] pixel_at(after, a, b) == pixel_at(before, a, b) by {
                            assert(pixel_index(a, b) != pixel_index(x as int, y as int));
                        }
                        if off {
                            assert(drawn_upto(x as int, y as int, gx, gy, row as int, col + 1) && pixel_at(after, x as int, y as int) == 0);
                        } else if was_hit {
                            let (wa, wb) = choose|a: int, b: int|
                                drawn_upto(a, b, gx, gy, row as int, col as int) && #[trigger] pixel_at(before, a, b) == 0;
                            assert(drawn_upto(wa, wb, gx, gy, row as int, col + 1) && pixel_at(after, wa, wb) == 0);
                        } else {
                            assert forall|a: int, b: int| drawn_upto(a, b, gx, gy, row as int, col + 1) implies
                                #[trigger] pixel_at(after, a, b) != 0 by {
                                if a != x || b != y {
                                    assert(pixel_at(before, a, b) != 0);
                                }
                            }
                        }
                    }
                } else {
                    proof {
                        assert forall|a: int, b: int| drawn_upto(a, b, gx, gy, row as int, col + 1) <==>
                            drawn_upto(a, b, gx, gy, row as int, col as int) by {}
                    }
                }
                col = col + 1;
            }
            proof {
                assert forall|a: int, b: int| drawn_upto(a, b, gx, gy, row as int, 8) <==>
                    in_sprite(a, b, gx, gy, row + 1) by {}
            }
            row = row + 1;
        }
        proof {
            assert forall|k: int| 0 <= k < 2048 implies #[trigger] self@.pixels[k] == drawn(m0.pixels, m0.memory, i as int, gx, gy, n as int)[k] by {
                assert(0 <= k % 64 < 64 && 0 <= k / 64 < 32 && k == (k / 64) * 64 + k % 64) by (nonlinear_arith)
                    requires 0 <= k < 2048;
                assert(pixel_at(self@.pixels, k % 64, k / 64) == self@.pixels[k]);
            }
            assert(self@.pixels =~= drawn(m0.pixels, m0.memory, i as int, gx, gy, n as int));
        }
        self.registers.set(15, if hit { 1 } else { 0 });
        Ok(())
    }

    /// `00EE`, `00E0`, `1NNN` and `2NNN`.
    fn execute_flow(&mut self, d: DecodedOpcode) -> (r: Result<(), VmFault>)
        requires
            old(self)@.well_formed(),
            d.fields_in_range(),
            d.instr_type <= 0x2,
        ensures
            follows(r, old(self)@, final(self)@, flow_effect(old(self)@, d)),
            final(self).speed_spec() == old(self).speed_spec(),
    {
        if d.instr_type == 0x0 {
            if d.NN == 0xEE {
                match self.stack.pop() {
                    Some(a) => {
                        self.PC = a.wrapping_sub(2);
                    },
                    None => {
                        return Err(VmFault::StackUnderflow(d));
                    },
                }
            } else if d.NN == 0xE0 {
                self.graphics.clear();
            } else {
                return Err(VmFault::Unimplemented(d));
            }
        } else if d.instr_type == 0x1 {
            self.PC = d.NNN.wrapping_sub(2);
        } else {
            self.stack.push(self.PC.wrapping_add(2));
            self.PC = d.NNN.wrapping_sub(2);
        }
        Ok(())
    }

    /// `3XNN`, `4XNN`, `5XY0`, `9XY0`, `EX9E` and `EXA1`.
    fn execute_skip(&mut self, d: DecodedOpcode, keys: &Keypad) -> (r: Result<(), VmFault>)
        requires
            old(self)@.well_formed(),
            keys@.len() == 16,
            d.fields_in_range(),
        ensures
            follows(r, old(self)@, final(self)@, skip_effect(old(self)@, d, keys@)),
            final(self).speed_spec() == old(self).speed_spec(),
    {
        let c = d.instr_type;
        let vx = self.registers[d.X as usize];
        let vy = self.registers[d.Y as usize];
        assert(vx & 0xFu8 < 16u8) by (bit_vector);
        if c == 0x3 {
            self.skip_if(vx == d.NN);
        } else if c == 0x4 {
            self.skip_if(vx != d.NN);
        } else if c == 0x5 {
            self.skip_if(vx == vy);
        } else if c == 0x9 {
            self.skip_if(vx != vy);
        } else if d.NN == 0x9E {
            let held = is_key_down(keys, vx & 0xF);
            self.skip_if(held);
        } else if d.NN == 0xA1 {
            let held = is_key_down(keys, vx & 0xF);
            self.skip_if(!held);
        } else {
            return Err(VmFault::Unimplemented(d));
        }
        Ok(())
    }

    /// `6XNN`, `7XNN`, `ANNN` and `CXNN`.
    fn execute_load(&mut self, d: DecodedOpcode, random: u8)
        requires
            old(self)@.well_formed(),
            d.fields_in_range(),
        ensures
            final(self)@ == load_effect(old(self)@, d, random),
            final(self).speed_spec() == old(self).speed_spec(),
    {
        let c = d.instr_type;
        if c == 0x6 {
            self.set_reg(d.X, d.NN);
        } else if c == 0x7 {
            let vx = self.registers[d.X as usize];
            self.set_reg(d.X, vx.wrapping_add(d.NN));
        } else if c == 0xA {
            self.I = d.NNN;
        } else {
            self.set_reg(d.X, random & d.NN);
        }
    }

    /// Executes the word `opcode`, with `random` as the byte that `CXNN`
    /// takes; the program counter is not moved past the word.
    pub fn execute_with(&mut self, opcode: u16, keys: &Keypad, random: u8) -> (r: Result<(), VmFault>)
        requires
            old(self)@.well_formed(),
            keys@.len() == 16,
        ensures
            follows(r, old(self)@, final(self)@, effect(old(self)@, opcode, keys@, random)),
            final(self)@.well_formed(),
            final(self).speed_spec() == old(self).speed_spec(),
    {
        let d = DecodedOpcode::from(opcode);
        let c = d.instr_type;
        if c <= 0x2 {
            self.execute_flow(d)
        } else if c == 0x3 || c == 0x4 || c == 0x5 || c == 0x9 || c == 0xE {
            self.execute_skip(d, keys)
        } else if c == 0x6 || c == 0x7 || c == 0xA || c == 0xC {
            self.execute_load(d, random);
            Ok(())
        } else if c == 0x8 {
            self.execute_alu(d)
        } else if c == 0xD {
            self.draw(d)
        } else if c == 0xF {
            self.execute_misc(d)
        } else {
            Err(VmFault::Unimplemented(d))
        }
    }

    /// Executes the word `opcode`, drawing a fresh random byte for `CXNN`.
    pub fn execute(&mut self, opcode: u16, keys: &Keypad) -> (r: Result<(), VmFault>)
        requires
            old(self)@.well_formed(),
            keys@.len() == 16,
        ensures
            exists|rnd: u8| follows(r, old(self)@, final(self)@, effect(old(self)@, opcode, keys@, rnd)),
            final(self)@.well_formed(),
    {
        let rnd = random_byte();
        self.execute_with(opcode, keys, rnd)
    }

    /// One step: while running, fetch the word at the program counter,
    /// execute it and move past it; while blocked, poll the keypad. Then
    /// both timers tick. Returns whether the step sounds a beep.
    pub fn step(&mut self, keys: &Keypad, random: u8) -> (r: Result<bool, VmFault>)
        requires
            old(self)@.well_formed(),
            keys@.len() == 16,
        ensures
            match step_effect(old(self)@, keys@, random) {
                Ok((m, beep)) => r == Ok::<bool, VmFault>(beep) && final(self)@ == m,
                Err(f) => r == Err::<bool, VmFault>(f) && final(self)@ == old(self)@,
            },
            final(self)@.well_formed(),
            final(self).speed_spec() == old(self).speed_spec(),
    {
        match self.block_for_key {
            None => {
                if self.PC as u32 + 1 >= 4096 {
                    return Err(VmFault::AddressOutOfRange(self.PC as u32 + 1));
                }
                let hi = self.memory.read(self.PC);
                let lo = self.memory.read(self.PC + 1);
                let opcode: u16 = ((hi as u16) << 8u16) | lo as u16;
                assert(((hi as u16) << 8u16) | (lo as u16) == (hi as u16) * 256 + (lo as u16)) by (bit_vector);
                let done = self.execute_with(opcode, keys, random);
                if let Err(f) = done {
                    return Err(f);
                }
                self.PC = self.PC.wrapping_add(2);
            },
            Some(reg) => {
                if let Some(k) = is_any_key_down(keys) {
                    self.set_reg(reg, k);
                    self.block_for_key = None;
                }
            },
        }
        let beep = self.sound_timer == 1;
        if self.delay_timer > 0 {
            self.delay_timer = self.delay_timer - 1;
        }
        if self.sound_timer > 0 {
            self.sound_timer = self.sound_timer - 1;
        }
        Ok(beep)
    }

    /// Runs one step per byte of `randoms`, step `j` taking `randoms[j]`,
    /// and stops at the first fault. Returns how many beeps sounded.
    pub fn run_steps(&mut self, keys: &Keypad, randoms: &[u8]) -> (r: Result<usize, VmFault>)
        requires
            old(self)@.well_formed(),
            keys@.len() == 16,
        ensures
            ran(r, old(self)@, final(self)@, keys@, randoms@),
            final(self)@.well_formed(),
            final(self).speed_spec() == old(self).speed_spec(),
    {
        let ghost m0 = self@;
        let mut beeps: usize = 0;
        let mut j: usize = 0;
        while j < randoms.len()
            invariant
                j <= randoms@.len(),
                beeps <= j,
                keys@.len() == 16,
                self@.well_formed(),
                self.speed_spec() == old(self).speed_spec(),
                m0 == old(self)@,
                run(m0, keys@, randoms@, j as nat) == (self@, beeps as nat, None::<VmFault>),
            decreases randoms@.len() - j,
        {
            match self.step(keys, randoms[j]) {
                Ok(beep) => {
                    if beep {
                        beeps = beeps + 1;
                    }
                },
                Err(f) => {
                    proof {
                        lemma_run_halted(m0, keys@, randoms@, (j + 1) as nat, randoms@.len());
                    }
                    return Err(f);
                },
            }
            j = j + 1;
        }
        Ok(beeps)
    }

    /// Runs as many steps as the speed setting asks for, each with a fresh
    /// random byte, and stops at the first fault. Returns how many beeps
    /// sounded.
    pub fn cycle(&mut self, keys: &Keypad) -> (r: Result<usize, VmFault>)
        requires
            old(self)@.well_formed(),
            keys@.len() == 16,
        ensures
            exists|rnds: Seq<u8>|
                rnds.len() == steps_for(old(self).speed_spec()) && ran(r, old(self)@, final(self)@, keys@, rnds),
            final(self)@.well_formed(),
    {
        let steps: usize = if self.speed > 0 { self.speed as usize } else { 0 };
        let mut randoms: Vec<u8> = Vec::new();
        while randoms.len() < steps
            invariant
                randoms@.len() <= steps,
            decreases steps - randoms@.len(),
        {
            randoms.push(random_byte());
        }
        let r = self.run_steps(keys, randoms.as_slice());
        assert(randoms@.len() == steps_for(old(self).speed_spec()));
        r
    }
}

} // verus!
