//! Properties of the instruction set, proved over the machine model.
use vstd::prelude::*;
use crate::display::{blank, pixel_at};
use crate::keypad::first_key_down;
use crate::machine::{
    advance, collides, drawn, effect, in_sprite, misc_effect, step_effect, wrap16,
    Machine, VmFault,
};
use crate::opcodes::{class_of, decode, lemma_decode_in_range, n_of, nn_of, nnn_of, x_of, y_of};

verus! {

/// `6XNN` leaves exactly `NN` in `VX`.
pub proof fn load_immediate_sets_register(m: Machine, w: u16, keys: Seq<bool>, rnd: u8)
    requires
        m.well_formed(),
        class_of(w) == 6,
    ensures
        effect(m, w, keys, rnd) matches Ok(m2) && m2.registers[x_of(w) as int] == nn_of(w),
{
    lemma_decode_in_range(w);
}

/// `7XNN` adds `NN` to `VX` modulo 256 and never faults.
pub proof fn add_immediate_wraps(m: Machine, w: u16, keys: Seq<bool>, rnd: u8)
    requires
        m.well_formed(),
        class_of(w) == 7,
    ensures
        effect(m, w, keys, rnd) matches Ok(m2) && m2.registers[x_of(w) as int] == (m.registers[x_of(w) as int] + nn_of(w)) % 256,
{
    lemma_decode_in_range(w);
}

/// `2NNN` followed by the `00EE` it calls brings the program counter back
/// to the word after the call, and the call stack back to what it was.
pub proof fn call_then_return(m: Machine, keys: Seq<bool>, r1: u8, r2: u8)
    requires
        m.well_formed(),
        m.waiting is None,
        m.pc + 1 < 4096,
        class_of(m.fetched()) == 2,
        nnn_of(m.fetched()) + 1 < 4096,
        m.memory[nnn_of(m.fetched()) as int] == 0x00,
        m.memory[nnn_of(m.fetched()) + 1] == 0xEE,
    ensures
        ({
            let a1 = advance(m, keys, r1);
            &&& a1 is Ok
            &&& a1->Ok_0.pc == nnn_of(m.fetched())
            &&& advance(a1->Ok_0, keys, r2) is Ok
            &&& advance(a1->Ok_0, keys, r2)->Ok_0.pc == wrap16(m.pc + 2)
            &&& advance(a1->Ok_0, keys, r2)->Ok_0.stack == m.stack
        }),
{
    let w = m.fetched();
    lemma_decode_in_range(w);
    let t = nnn_of(w);
    lemma_wrap_back(t as int);
    let e1 = Machine { stack: m.stack.push(wrap16(m.pc + 2)), pc: wrap16(t - 2), ..m };
    assert(effect(m, w, keys, r1) == Ok::<Machine, VmFault>(e1));
    let a1 = Machine { pc: t, ..e1 };
    assert(advance(m, keys, r1) == Ok::<Machine, VmFault>(a1));
    assert(a1.fetched() == 0x00EEu16);
    assert(((0x00EEu16 >> 12u16) & 0xFu16) == 0u16 && (0x00EEu16 & 0xFFu16) == 0xEEu16) by (bit_vector);
    let ret = decode(0x00EEu16);
    assert(ret.instr_type == 0 && ret.NN == 0xEE);
    assert(a1.stack.drop_last() =~= m.stack);
    let ra = wrap16(m.pc + 2);
    lemma_wrap_back(ra as int);
    let e2 = Machine { pc: wrap16(ra - 2), stack: m.stack, ..a1 };
    assert(effect(a1, 0x00EEu16, keys, r2) == Ok::<Machine, VmFault>(e2));
}

/// Stepping back two and forward two lands where it started, modulo 2^16.
proof fn lemma_wrap_back(v: int)
    requires
        0 <= v < 0x10000,
    ensures
        wrap16(wrap16(v - 2) + 2) == v,
{
    if v >= 2 {
        assert(wrap16(v - 2) == v - 2);
    } else {
        assert((v - 2) % 0x10000 == v - 2 + 0x10000);
        assert(wrap16(v - 2) == v + 0xFFFE);
        assert((v + 0x10000) % 0x10000 == v);
    }
}

/// `00EE` on an empty call stack is a fault, never a silent no-op.
pub proof fn return_on_empty_stack_faults(m: Machine, w: u16, keys: Seq<bool>, rnd: u8)
    requires
        m.well_formed(),
        class_of(w) == 0,
        nn_of(w) == 0xEE,
        m.stack.len() == 0,
    ensures
        effect(m, w, keys, rnd) == Err::<Machine, VmFault>(VmFault::StackUnderflow(decode(w))),
{
}

/// `00E0` turns every pixel off, whatever the screen held.
pub proof fn clear_blanks_screen(m: Machine, w: u16, keys: Seq<bool>, rnd: u8)
    requires
        m.well_formed(),
        class_of(w) == 0,
        nn_of(w) == 0xE0,
    ensures
        effect(m, w, keys, rnd) matches Ok(m2) && m2.pixels == blank()
            && forall|x: int, y: int| 0 <= x < 64 && 0 <= y < 32 ==> #[trigger] pixel_at(m2.pixels, x, y) == 0,
{
}

/// A sprite is clipped at the screen's edges: `DXYN` leaves every pixel
/// outside the sprite's on-screen rectangle as it was, so nothing wraps
/// around to the other side.
pub proof fn draw_clips(m: Machine, w: u16, keys: Seq<bool>, rnd: u8)
    requires
        m.well_formed(),
        class_of(w) == 0xD,
        effect(m, w, keys, rnd) is Ok,
    ensures
        forall|x: int, y: int|
            0 <= x < 64 && 0 <= y < 32 && !in_sprite(
                x,
                y,
                (m.registers[x_of(w) as int] & 63u8) as int,
                (m.registers[y_of(w) as int] & 31u8) as int,
                n_of(w) as int,
            ) ==> #[trigger] pixel_at(effect(m, w, keys, rnd)->Ok_0.pixels, x, y) == pixel_at(m.pixels, x, y),
{
    lemma_decode_in_range(w);
    let x0 = (m.registers[x_of(w) as int] & 63u8) as int;
    let y0 = (m.registers[y_of(w) as int] & 31u8) as int;
    let p = effect(m, w, keys, rnd)->Ok_0.pixels;
    assert forall|x: int, y: int|
        0 <= x < 64 && 0 <= y < 32 && !in_sprite(x, y, x0, y0, n_of(w) as int) implies #[trigger] pixel_at(p, x, y) == pixel_at(m.pixels, x, y) by {
        let k = y * 64 + x;
        assert(k % 64 == x && k / 64 == y) by (nonlinear_arith)
            requires 0 <= x < 64 && 0 <= y < 32 && k == y * 64 + x;
    }
}

/// `DXYN` sets `VF` to 1 exactly when some pixel under the sprite is off
/// afterwards, and to 0 otherwise.
pub proof fn draw_flags_collision(m: Machine, w: u16, keys: Seq<bool>, rnd: u8)
    requires
        m.well_formed(),
        class_of(w) == 0xD,
        effect(m, w, keys, rnd) is Ok,
    ensures
        ({
            let m2 = effect(m, w, keys, rnd)->Ok_0;
            let x0 = (m.registers[x_of(w) as int] & 63u8) as int;
            let y0 = (m.registers[y_of(w) as int] & 31u8) as int;
            &&& (m2.registers[15] == 1 <==> collides(m2.pixels, x0, y0, n_of(w) as int))
            &&& (m2.registers[15] == 0 <==> !collides(m2.pixels, x0, y0, n_of(w) as int))
        }),
{
    lemma_decode_in_range(w);
}

/// Drawing the same sprite twice at the same place restores the screen,
/// and the second draw reports a collision whenever some pixel under the
/// sprite was on after the first draw and is hit by a set sprite bit.
pub proof fn draw_twice_restores(m: Machine, w: u16, keys: Seq<bool>, rnd: u8)
    requires
        m.well_formed(),
        class_of(w) == 0xD,
        x_of(w) != 15,
        y_of(w) != 15,
        effect(m, w, keys, rnd) is Ok,
    ensures
        ({
            let m1 = effect(m, w, keys, rnd)->Ok_0;
            let x0 = (m.registers[x_of(w) as int] & 63u8) as int;
            let y0 = (m.registers[y_of(w) as int] & 31u8) as int;
            &&& effect(m1, w, keys, rnd) matches Ok(m2) && m2.pixels == m.pixels
            &&& (exists|x: int, y: int|
                in_sprite(x, y, x0, y0, n_of(w) as int) && #[trigger] pixel_at(m1.pixels, x, y) == 1 && pixel_at(m.pixels, x, y) == 0)
                ==> effect(m1, w, keys, rnd)->Ok_0.registers[15] == 1
        }),
{
    lemma_decode_in_range(w);
    let d = decode(w);
    let m1 = effect(m, w, keys, rnd)->Ok_0;
    let x0 = (m.registers[d.X as int] & 63u8) as int;
    let y0 = (m.registers[d.Y as int] & 31u8) as int;
    let n = d.N as int;
    let i = m.index as int;
    assert(m1.registers[d.X as int] == m.registers[d.X as int]);
    assert(m1.registers[d.Y as int] == m.registers[d.Y as int]);
    let p2 = drawn(m1.pixels, m1.memory, i, x0, y0, n);
    assert forall|k: int| 0 <= k < 2048 implies #[trigger] p2[k] == m.pixels[k] by {
        let a = m.pixels[k];
        let b = sprite_bit_at(m.memory, i, x0, y0, k);
        assert(a ^ b ^ b == a) by (bit_vector);
    }
    assert(p2 =~= m.pixels);
    if exists|x: int, y: int|
        in_sprite(x, y, x0, y0, n) && #[trigger] pixel_at(m1.pixels, x, y) == 1 && pixel_at(m.pixels, x, y) == 0 {
        let (x, y) = choose|x: int, y: int|
            in_sprite(x, y, x0, y0, n) && #[trigger] pixel_at(m1.pixels, x, y) == 1 && pixel_at(m.pixels, x, y) == 0;
        let k = y * 64 + x;
        assert(k % 64 == x && k / 64 == y) by (nonlinear_arith)
            requires 0 <= x < 64 && 0 <= y < 32 && k == y * 64 + x;
        assert(pixel_at(p2, x, y) == 0);
    }
}

/// The sprite bit that a draw XORs into buffer position `k`.
spec fn sprite_bit_at(mem: Seq<u8>, i: int, x0: int, y0: int, k: int) -> u8 {
    crate::machine::sprite_bit(mem[i + (k / 64 - y0)], k % 64 - x0)
}

/// `FX55` then `FX65` with the same `X` and `I` gives back `V0..=VX` as
/// they were stored, whatever the registers held in between.
pub proof fn store_then_load_round_trip(m: Machine, store: u16, load: u16, between: Machine)
    requires
        m.well_formed(),
        between.well_formed(),
        class_of(store) == 0xF,
        nn_of(store) == 0x55,
        class_of(load) == 0xF,
        nn_of(load) == 0x65,
        x_of(store) == x_of(load),
        misc_effect(m, decode(store)) is Ok,
        between.memory == misc_effect(m, decode(store))->Ok_0.memory,
        between.index == m.index,
    ensures
        misc_effect(between, decode(load)) matches Ok(m2) && forall|r: int|
            0 <= r <= x_of(store) ==> #[trigger] m2.registers[r] == m.registers[r],
{
    lemma_decode_in_range(store);
    lemma_decode_in_range(load);
}

/// A step that starts with the sound timer at 1, and whose instruction
/// leaves it there, sounds one beep and leaves the timer at 0.
pub proof fn sound_timer_beeps_once(m: Machine, keys: Seq<bool>, rnd: u8)
    requires
        m.well_formed(),
        m.sound_timer == 1,
        advance(m, keys, rnd) matches Ok(a) && a.sound_timer == m.sound_timer,
    ensures
        step_effect(m, keys, rnd) matches Ok((m2, beep)) && beep && m2.sound_timer == 0,
{
}

/// A step that starts with the sound timer at 0, and whose instruction
/// leaves it there, sounds no beep and leaves the timer at 0.
pub proof fn silent_sound_timer_stays_silent(m: Machine, keys: Seq<bool>, rnd: u8)
    requires
        m.well_formed(),
        m.sound_timer == 0,
        advance(m, keys, rnd) matches Ok(a) && a.sound_timer == m.sound_timer,
    ensures
        step_effect(m, keys, rnd) matches Ok((m2, beep)) && !beep && m2.sound_timer == 0,
{
}

/// `FX0A` blocks the machine on register `X`.
pub proof fn wait_for_key_blocks(m: Machine, w: u16, keys: Seq<bool>, rnd: u8)
    requires
        m.well_formed(),
        class_of(w) == 0xF,
        nn_of(w) == 0x0A,
    ensures
        effect(m, w, keys, rnd) == Ok::<Machine, VmFault>(Machine { waiting: Some(x_of(w)), ..m }),
{
}

/// While blocked with no key held, a step executes nothing and leaves the
/// program counter, registers and memory alone; only the timers tick.
pub proof fn blocked_step_waits(m: Machine, keys: Seq<bool>, rnd: u8)
    requires
        m.well_formed(),
        m.waiting is Some,
        first_key_down(keys) is None,
    ensures
        step_effect(m, keys, rnd) matches Ok((m2, _)) && m2 == m.ticked(),
{
}

/// While blocked, a step that sees a key held stores it in the waiting
/// register and unblocks, without moving the program counter; the next
/// step executes normally.
pub proof fn blocked_step_takes_key(m: Machine, keys: Seq<bool>, rnd: u8)
    requires
        m.well_formed(),
        m.waiting is Some,
        first_key_down(keys) is Some,
    ensures
        step_effect(m, keys, rnd) matches Ok((m2, _)) && m2.waiting is None && m2.pc == m.pc
            && m2.registers[m.waiting->Some_0 as int] == first_key_down(keys)->Some_0,
{
}

} // verus!
