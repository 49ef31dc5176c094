//! The mathematical model of the interpreter: the machine's state, and what
//! one instruction, one step and a run of steps do to it.
use vstd::prelude::*;
use crate::display::{blank, pixel_at};
use crate::keypad::first_key_down;
use crate::memory::spliced;
use crate::opcodes::{decode, DecodedOpcode};

verus! {

/// A fatal fault; the interpreter stops on it.
#[derive(Debug, Clone, Copy, PartialEq, Eq)]
pub enum VmFault {
    /// `RET` with nothing on the call stack.
    StackUnderflow(DecodedOpcode),
    /// A word that names no instruction.
    Unimplemented(DecodedOpcode),
    /// An access at this address, past the end of memory.
    AddressOutOfRange(u32),
}

/// The state of the machine as the instructions see it.
pub struct Machine {
    pub memory: Seq<u8>,
    pub registers: Seq<u8>,
    pub index: u16,
    pub pc: u16,
    pub stack: Seq<u16>,
    pub delay_timer: u8,
    pub sound_timer: u8,
    /// The register that waits for a key press, while the machine is blocked.
    pub waiting: Option<u8>,
    pub pixels: Seq<u8>,
}

/// `v` reduced modulo 2^16.
pub open spec fn wrap16(v: int) -> u16 {
    (v % 0x10000) as u16
}

/// `v` reduced modulo 2^8.
pub open spec fn wrap8(v: int) -> u8 {
    (v % 0x100) as u8
}

/// The sixteen font glyphs, five bytes each, for the digits 0 to F.
pub open spec fn font_bytes() -> Seq<u8> {
    seq![
        0xF0u8, 0x90, 0x90, 0x90, 0xF0, 0x20, 0x60, 0x20, 0x20, 0x70,
        0xF0, 0x10, 0xF0, 0x80, 0xF0, 0xF0, 0x10, 0xF0, 0x10, 0xF0,
        0x90, 0x90, 0xF0, 0x10, 0x10, 0xF0, 0x80, 0xF0, 0x10, 0xF0,
        0xF0, 0x80, 0xF0, 0x90, 0xF0, 0xF0, 0x10, 0x20, 0x40, 0x40,
        0xF0, 0x90, 0xF0, 0x90, 0xF0, 0xF0, 0x90, 0xF0, 0x10, 0xF0,
        0xF0, 0x90, 0xF0, 0x90, 0x90, 0xE0, 0x90, 0xE0, 0x90, 0xE0,
        0xF0, 0x80, 0x80, 0x80, 0xF0, 0xE0, 0x90, 0x90, 0x90, 0xE0,
        0xF0, 0x80, 0xF0, 0x80, 0xF0, 0xF0, 0x80, 0xF0, 0x80, 0x80,
    ]
}

/// Bit `col` of a sprite row, counted from the most significant bit.
pub open spec fn sprite_bit(b: u8, col: int) -> u8 {
    (b >> ((7 - col) as u8)) & 1u8
}

/// Whether (x, y) is on screen and under an `n`-row sprite placed at (x0, y0).
pub open spec fn in_sprite(x: int, y: int, x0: int, y0: int, n: int) -> bool {
    &&& 0 <= x < 64
    &&& 0 <= y < 32
    &&& x0 <= x < x0 + 8
    &&& y0 <= y < y0 + n
}

/// The framebuffer after XOR-drawing the `n`-row sprite at `mem[i..]` at (x0, y0).
pub open spec fn drawn(p: Seq<u8>, mem: Seq<u8>, i: int, x0: int, y0: int, n: int) -> Seq<u8> {
    Seq::new(2048, |k: int| {
        let x = k % 64;
        let y = k / 64;
        if in_sprite(x, y, x0, y0, n) { p[k] ^ sprite_bit(mem[i + (y - y0)], x - x0) } else { p[k] }
    })
}

/// Whether some pixel under the sprite is off after the draw.
pub open spec fn collides(p: Seq<u8>, x0: int, y0: int, n: int) -> bool {
    exists|x: int, y: int| in_sprite(x, y, x0, y0, n) && #[trigger] pixel_at(p, x, y) == 0
}

impl Machine {
    pub open spec fn well_formed(self) -> bool {
        &&& self.memory.len() == 4096
        &&& self.registers.len() == 16
        &&& self.pixels.len() == 2048
        &&& (self.waiting matches Some(r) ==> r < 16)
    }

    pub open spec fn with_reg(self, r: int, v: u8) -> Machine {
        Machine { registers: self.registers.update(r, v), ..self }
    }

    /// Passes over the next instruction when `c` holds.
    pub open spec fn skip_if(self, c: bool) -> Machine {
        if c { Machine { pc: wrap16(self.pc + 2), ..self } } else { self }
    }

    /// The instruction word at the program counter.
    pub open spec fn fetched(self) -> u16 {
        (self.memory[self.pc as int] as int * 256 + self.memory[self.pc + 1] as int) as u16
    }

    /// Both timers counted down by one where positive.
    pub open spec fn ticked(self) -> Machine {
        Machine {
            delay_timer: if self.delay_timer > 0 { (self.delay_timer - 1) as u8 } else { 0 },
            sound_timer: if self.sound_timer > 0 { (self.sound_timer - 1) as u8 } else { 0 },
            ..self
        }
    }
}

/// `8XY?`: register-to-register arithmetic and logic.
pub open spec fn alu_effect(m: Machine, d: DecodedOpcode) -> Result<Machine, VmFault> {
    let x = d.X as int;
    let vx = m.registers[x];
    let vy = m.registers[d.Y as int];
    if d.N == 0x0 {
        Ok(m.with_reg(x, vy))
    } else if d.N == 0x1 {
        Ok(m.with_reg(x, vx | vy))
    } else if d.N == 0x2 {
        Ok(m.with_reg(x, vx & vy))
    } else if d.N == 0x3 {
        Ok(m.with_reg(x, vx ^ vy))
    } else if d.N == 0x4 {
        Ok(m.with_reg(x, wrap8(vx + vy)))
    } else if d.N == 0x5 {
        Ok(m.with_reg(x, wrap8(vx - vy)))
    } else if d.N == 0x6 {
        Ok(m.with_reg(x, vx / 2))
    } else if d.N == 0xE {
        let flagged = m.with_reg(15, vx & 1u8);
        Ok(flagged.with_reg(x, wrap8(flagged.registers[x] * 2)))
    } else {
        Err(VmFault::Unimplemented(d))
    }
}

/// `DXYN`: draws an `N`-row sprite from memory at `I`, clipped at the edges;
/// `VF` tells whether some pixel under it ended up off.
pub open spec fn draw_effect(m: Machine, d: DecodedOpcode) -> Result<Machine, VmFault> {
    let x0 = (m.registers[d.X as int] & 63u8) as int;
    let y0 = (m.registers[d.Y as int] & 31u8) as int;
    let n = d.N as int;
    let i = m.index as int;
    if n > 0 && i + n - 1 >= 4096 {
        Err(VmFault::AddressOutOfRange((i + n - 1) as u32))
    } else {
        let p = drawn(m.pixels, m.memory, i, x0, y0, n);
        let flag: u8 = if collides(p, x0, y0, n) { 1 } else { 0 };
        Ok(Machine { pixels: p, registers: m.registers.update(15, flag), ..m })
    }
}

/// `FX??`: timers, key wait, the index register and memory transfers.
pub open spec fn misc_effect(m: Machine, d: DecodedOpcode) -> Result<Machine, VmFault> {
    let x = d.X as int;
    let vx = m.registers[x];
    let i = m.index as int;
    if d.NN == 0x07 {
        Ok(m.with_reg(x, m.delay_timer))
    } else if d.NN == 0x0A {
        Ok(Machine { waiting: Some(d.X), ..m })
    } else if d.NN == 0x15 {
        Ok(Machine { delay_timer: vx, ..m })
    } else if d.NN == 0x18 {
        Ok(Machine { sound_timer: vx, ..m })
    } else if d.NN == 0x1E {
        Ok(Machine { index: wrap16(i + vx), ..m })
    } else if d.NN == 0x29 {
        Ok(Machine { index: (0x50 + vx * 5) as u16, ..m })
    } else if d.NN == 0x33 {
        if i + 2 >= 4096 {
            Err(VmFault::AddressOutOfRange((i + 2) as u32))
        } else {
            let digits = seq![vx / 100, (vx % 100) / 10, vx % 10];
            Ok(Machine { memory: spliced(m.memory, i, digits), ..m })
        }
    } else if d.NN == 0x55 {
        if i + x >= 4096 {
            Err(VmFault::AddressOutOfRange((i + x) as u32))
        } else {
            Ok(Machine { memory: spliced(m.memory, i, m.registers.subrange(0, x + 1)), ..m })
        }
    } else if d.NN == 0x65 {
        if i + x >= 4096 {
            Err(VmFault::AddressOutOfRange((i + x) as u32))
        } else {
            Ok(Machine { registers: spliced(m.registers, 0, m.memory.subrange(i, i + x + 1)), ..m })
        }
    } else {
        Err(VmFault::Unimplemented(d))
    }
}

/// `00EE`, `00E0`, `1NNN` and `2NNN`: returns, screen clearing, jumps and
/// calls. Jumps store their target minus two, since every executed word is
/// followed by an advance of two.
pub open spec fn flow_effect(m: Machine, d: DecodedOpcode) -> Result<Machine, VmFault> {
    if d.instr_type == 0x0 {
        if d.NN == 0xEE {
            if m.stack.len() == 0 {
                Err(VmFault::StackUnderflow(d))
            } else {
                Ok(Machine { pc: wrap16(m.stack.last() - 2), stack: m.stack.drop_last(), ..m })
            }
        } else if d.NN == 0xE0 {
            Ok(Machine { pixels: blank(), ..m })
        } else {
            Err(VmFault::Unimplemented(d))
        }
    } else if d.instr_type == 0x1 {
        Ok(Machine { pc: wrap16(d.NNN - 2), ..m })
    } else {
        Ok(Machine { stack: m.stack.push(wrap16(m.pc + 2)), pc: wrap16(d.NNN - 2), ..m })
    }
}

/// `3XNN`, `4XNN`, `5XY0`, `9XY0`, `EX9E` and `EXA1`: conditional skips.
/// A key is looked up by the low four bits of `VX`.
pub open spec fn skip_effect(m: Machine, d: DecodedOpcode, keys: Seq<bool>) -> Result<Machine, VmFault> {
    let vx = m.registers[d.X as int];
    let vy = m.registers[d.Y as int];
    let c = d.instr_type;
    if c == 0x3 {
        Ok(m.skip_if(vx == d.NN))
    } else if c == 0x4 {
        Ok(m.skip_if(vx != d.NN))
    } else if c == 0x5 {
        Ok(m.skip_if(vx == vy))
    } else if c == 0x9 {
        Ok(m.skip_if(vx != vy))
    } else if d.NN == 0x9E {
        Ok(m.skip_if(keys[(vx & 0xFu8) as int]))
    } else if d.NN == 0xA1 {
        Ok(m.skip_if(!keys[(vx & 0xFu8) as int]))
    } else {
        Err(VmFault::Unimplemented(d))
    }
}

/// `6XNN`, `7XNN`, `ANNN` and `CXNN`: loads of immediates, and `rnd`
/// masked by `NN`.
pub open spec fn load_effect(m: Machine, d: DecodedOpcode, rnd: u8) -> Machine {
    let x = d.X as int;
    let c = d.instr_type;
    if c == 0x6 {
        m.with_reg(x, d.NN)
    } else if c == 0x7 {
        m.with_reg(x, wrap8(m.registers[x] + d.NN))
    } else if c == 0xA {
        Machine { index: d.NNN, ..m }
    } else {
        m.with_reg(x, rnd & d.NN)
    }
}

/// What executing the word `w` does, before the program counter moves on.
/// `keys` is the keypad as seen now and `rnd` the random byte that `CXNN`
/// would take.
pub open spec fn effect(m: Machine, w: u16, keys: Seq<bool>, rnd: u8) -> Result<Machine, VmFault> {
    let d = decode(w);
    let c = d.instr_type;
    if c <= 0x2 {
        flow_effect(m, d)
    } else if c == 0x3 || c == 0x4 || c == 0x5 || c == 0x9 || c == 0xE {
        skip_effect(m, d, keys)
    } else if c == 0x6 || c == 0x7 || c == 0xA || c == 0xC {
        Ok(load_effect(m, d, rnd))
    } else if c == 0x8 {
        alu_effect(m, d)
    } else if c == 0xD {
        draw_effect(m, d)
    } else if c == 0xF {
        misc_effect(m, d)
    } else {
        Err(VmFault::Unimplemented(d))
    }
}

/// One step before the timers tick: fetch, execute and advance while
/// running; poll the keypad while blocked.
pub open spec fn advance(m: Machine, keys: Seq<bool>, rnd: u8) -> Result<Machine, VmFault> {
    match m.waiting {
        None => {
            if m.pc + 1 >= 4096 {
                Err(VmFault::AddressOutOfRange((m.pc + 1) as u32))
            } else {
                match effect(m, m.fetched(), keys, rnd) {
                    Ok(e) => Ok(Machine { pc: wrap16(e.pc + 2), ..e }),
                    Err(f) => Err(f),
                }
            }
        },
        Some(r) => match first_key_down(keys) {
            Some(k) => Ok(Machine { waiting: None, ..m.with_reg(r as int, k) }),
            None => Ok(m),
        },
    }
}

/// One whole step: the new state, and whether it sounds a beep (the sound
/// timer ran from one down to zero).
pub open spec fn step_effect(m: Machine, keys: Seq<bool>, rnd: u8) -> Result<(Machine, bool), VmFault> {
    match advance(m, keys, rnd) {
        Ok(a) => Ok((a.ticked(), a.sound_timer == 1)),
        Err(f) => Err(f),
    }
}

/// What a run of up to `n` steps leaves: the state, the beeps sounded, and
/// the fault that stopped it, if one did. Step `j` takes `rnds[j]`.
pub open spec fn run(m: Machine, keys: Seq<bool>, rnds: Seq<u8>, n: nat) -> (Machine, nat, Option<VmFault>)
    decreases n,
{
    if n == 0 {
        (m, 0, None)
    } else {
        let prev = run(m, keys, rnds, (n - 1) as nat);
        if prev.2 is Some {
            prev
        } else {
            match step_effect(prev.0, keys, rnds[n - 1]) {
                Ok((s, beep)) => (s, prev.1 + if beep { 1nat } else { 0nat }, None),
                Err(f) => (prev.0, prev.1, Some(f)),
            }
        }
    }
}

} // verus!
