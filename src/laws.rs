//! Properties of the instruction set that hold on every machine state.

use vstd::prelude::*;

use crate::machine::{
    alu_spec, collides, drawn, execute_spec, family, field_n, field_nn, field_nnn, field_x, field_y,
    misc_spec, CpuError, cycle_spec, draw_spec, fetch_word, can_fetch, covers_at, lowest_pressed, stops_tone,
    tick_spec, Machine, MEMORY_SIZE, VF,
};
use crate::display::PIXELS;

verus! {

/// Loading a register and then adding zero to it leaves exactly the loaded
/// byte in the register: `6xnn` followed by `7x00` gives Vx == nn.
pub proof fn lemma_load_fidelity(s: Machine, x: int, nn: u8, r1: u8, r2: u8)
    requires
        s.wf(),
        0 <= x < 16,
        can_fetch(s),
        fetch_word(s) == 0x6000 + x * 0x100 + nn,
    ensures
        cycle_spec(s, r1) is Ok,
        ({
            let s1 = cycle_spec(s, r1)->Ok_0;
            &&& s1.registers[x] == nn
            &&& can_fetch(s1) && fetch_word(s1) == 0x7000 + x * 0x100 ==> {
                &&& cycle_spec(s1, r2) is Ok
                &&& cycle_spec(s1, r2)->Ok_0.registers[x] == nn
            }
        }),
{
    reveal(execute_spec);
}

/// The shift quirk: `8xy6` shifts Vy into Vx when `shift_uses_vy` is set,
/// and Vx in place (ignoring Vy) when it is not; VF gets the bit shifted out.
/// (With x = F the flag overwrites the shifted value, so x = F is excluded.)
pub proof fn lemma_shift_right_quirk(s: Machine, x: int, y: int, random: u8)
    requires
        s.wf(),
        0 <= x < 15,
        0 <= y < 16,
        can_fetch(s),
        fetch_word(s) == 0x8006 + x * 0x100 + y * 0x10,
    ensures
        cycle_spec(s, random) is Ok,
        ({
            let s1 = cycle_spec(s, random)->Ok_0;
            let src = if s.shift_uses_vy { s.registers[y] } else { s.registers[x] };
            &&& s1.registers[x] == src / 2
            &&& s1.registers[VF as int] == src % 2
        }),
{
    reveal(execute_spec);
    let w = fetch_word(s);
    assert(family(w) == 8 && field_x(w) == x && field_y(w) == y && field_n(w) == 6);
    let t = Machine { pc: (s.pc + 2) as usize, ..s };
    assert(cycle_spec(s, random) == Ok::<Machine, CpuError>(alu_spec(t, x, y, 6)));
}

/// Drawing a sprite and then the same sprite again at the same coordinates
/// restores the bitmap. When the first draw lights only unlit pixels it
/// reports no collision, and the second draw then reports one, provided the
/// sprite has a set bit.
pub proof fn lemma_draw_twice(s: Machine, x: int, y: int, n: int, r1: u8, r2: u8)
    requires
        s.wf(),
        0 <= x < 16,
        0 <= y < 16,
        0 <= n < 16,
        can_fetch(s),
        fetch_word(s) == 0xD000 + x * 0x100 + y * 0x10 + n,
        cycle_spec(s, r1) is Ok,
        can_fetch(cycle_spec(s, r1)->Ok_0),
        fetch_word(cycle_spec(s, r1)->Ok_0) == fetch_word(s),
        cycle_spec(s, r1)->Ok_0.registers[x] == s.registers[x],
        cycle_spec(s, r1)->Ok_0.registers[y] == s.registers[y],
    ensures
        cycle_spec(cycle_spec(s, r1)->Ok_0, r2) is Ok,
        ({
            let s1 = cycle_spec(s, r1)->Ok_0;
            let s2 = cycle_spec(s1, r2)->Ok_0;
            let i = s.index as int;
            let vx = s.registers[x] as int;
            let vy = s.registers[y] as int;
            &&& s2.pixels == s.pixels
            &&& (forall|p: int| 0 <= p < PIXELS && #[trigger] covers_at(s.memory, i, n, vx, vy, p) ==> !s.pixels[p]) ==> {
                &&& s1.registers[VF as int] == 0
                &&& (exists|p: int| 0 <= p < PIXELS && #[trigger] covers_at(s.memory, i, n, vx, vy, p))
                    ==> s2.registers[VF as int] == 1
            }
        }),
{
    let w = fetch_word(s);
    assert(family(w) == 0xD && field_x(w) == x && field_y(w) == y && field_n(w) == n);
    let t0 = Machine { pc: (s.pc + 2) as usize, ..s };
    lemma_decode(s, r1);
    assert(cycle_spec(s, r1) == draw_spec(t0, x, y, n));
    let s1 = cycle_spec(s, r1)->Ok_0;
    lemma_decode(s1, r2);
    assert(cycle_spec(s1, r2) == draw_spec(Machine { pc: (s1.pc + 2) as usize, ..s1 }, x, y, n));
    lemma_draw_spec_twice(t0, x, y, n);
}

/// Setting the sound timer to one and ticking once brings it to zero and
/// stops the tone on that tick; further ticks keep it at zero and do not stop
/// the tone again.
pub proof fn lemma_sound_timer_expires(s: Machine, x: int, random: u8)
    requires
        s.wf(),
        0 <= x < 16,
        s.registers[x] == 1,
        can_fetch(s),
        fetch_word(s) == 0xF018 + x * 0x100,
    ensures
        cycle_spec(s, random) is Ok,
        ({
            let s1 = cycle_spec(s, random)->Ok_0;
            let s2 = tick_spec(s1);
            &&& s1.sound_timer == 1
            &&& stops_tone(s1)
            &&& s2.sound_timer == 0
            &&& !stops_tone(s2)
            &&& tick_spec(s2).sound_timer == 0
        }),
{
    reveal(execute_spec);
}

/// A tick with the sound timer at zero keeps it at zero and does not stop the
/// tone.
pub proof fn lemma_silent_tick(s: Machine)
    requires
        s.sound_timer == 0,
    ensures
        !stops_tone(s),
        tick_spec(s).sound_timer == 0,
{
    reveal(execute_spec);
}

/// `Fx0A` with no key held leaves the program counter where it was, so the
/// instruction runs again; once a key is held, the next step moves on and
/// puts the lowest held key in Vx.
pub proof fn lemma_key_wait(s: Machine, x: int, keys: Seq<bool>, r1: u8, r2: u8)
    requires
        s.wf(),
        0 <= x < 16,
        can_fetch(s),
        fetch_word(s) == 0xF00A + x * 0x100,
        lowest_pressed(s.keys) is None,
        keys.len() == 16,
        lowest_pressed(keys) is Some,
    ensures
        cycle_spec(s, r1) is Ok,
        cycle_spec(s, r1)->Ok_0.pc == s.pc,
        ({
            let t = Machine { keys, ..cycle_spec(s, r1)->Ok_0 };
            &&& cycle_spec(t, r2) is Ok
            &&& cycle_spec(t, r2)->Ok_0.pc == s.pc + 2
            &&& cycle_spec(t, r2)->Ok_0.registers[x] == lowest_pressed(keys)->0
        }),
{
    reveal(execute_spec);
}

/// Storing V0..Vx with `Fx55`, pointing I back at the same address with
/// `Annn`, and loading with `Fx65` gives back V0..Vx exactly, under either
/// setting of `legacy_index_increment`.
pub proof fn lemma_store_load_round_trip(s: Machine, x: int, r1: u8, r2: u8, r3: u8)
    requires
        s.wf(),
        0 <= x < 16,
        s.index < 0x1000,
        s.index + x + 1 <= MEMORY_SIZE,
        can_fetch(s),
        fetch_word(s) == 0xF055 + x * 0x100,
        cycle_spec(s, r1) is Ok ==> can_fetch(cycle_spec(s, r1)->Ok_0) && fetch_word(
            cycle_spec(s, r1)->Ok_0,
        ) == 0xA000 + s.index,
        cycle_spec(s, r1) is Ok && cycle_spec(cycle_spec(s, r1)->Ok_0, r2) is Ok ==> can_fetch(
            cycle_spec(cycle_spec(s, r1)->Ok_0, r2)->Ok_0,
        ) && fetch_word(cycle_spec(cycle_spec(s, r1)->Ok_0, r2)->Ok_0) == 0xF065 + x * 0x100,
    ensures
        cycle_spec(s, r1) is Ok,
        cycle_spec(cycle_spec(s, r1)->Ok_0, r2) is Ok,
        cycle_spec(cycle_spec(cycle_spec(s, r1)->Ok_0, r2)->Ok_0, r3) is Ok,
        forall|r: int|
            0 <= r <= x ==> #[trigger] cycle_spec(
                cycle_spec(cycle_spec(s, r1)->Ok_0, r2)->Ok_0,
                r3,
            )->Ok_0.registers[r] == s.registers[r],
{
    lemma_decode(s, r1);
    let s1 = cycle_spec(s, r1)->Ok_0;
    lemma_decode(s1, r2);
    let s2 = cycle_spec(s1, r2)->Ok_0;
    lemma_decode(s2, r3);
    let s3 = cycle_spec(s2, r3)->Ok_0;
    assert(s2.index == s.index);
    assert forall|r: int| 0 <= r <= x implies #[trigger] s3.registers[r] == s.registers[r] by {
        assert(s3.registers[r] == s2.memory[s.index + r]);
        assert(s2.memory[s.index + r] == s1.memory[s.index + r]);
    }
}

/// A step runs the instruction at the program counter on the state whose
/// program counter has moved past it, and families D and F go to their own
/// semantics.
proof fn lemma_decode(s: Machine, random: u8)
    requires
        can_fetch(s),
    ensures
        cycle_spec(s, random) == execute_spec(
            Machine { pc: (s.pc + 2) as usize, ..s },
            fetch_word(s),
            random,
        ),
        family(fetch_word(s)) == 0xD ==> execute_spec(
            Machine { pc: (s.pc + 2) as usize, ..s },
            fetch_word(s),
            random,
        ) == draw_spec(
            Machine { pc: (s.pc + 2) as usize, ..s },
            field_x(fetch_word(s)),
            field_y(fetch_word(s)),
            field_n(fetch_word(s)),
        ),
        family(fetch_word(s)) == 0xF ==> execute_spec(
            Machine { pc: (s.pc + 2) as usize, ..s },
            fetch_word(s),
            random,
        ) == misc_spec(
            Machine { pc: (s.pc + 2) as usize, ..s },
            field_x(fetch_word(s)),
            field_nn(fetch_word(s)),
        ),
        family(fetch_word(s)) == 0xA ==> execute_spec(
            Machine { pc: (s.pc + 2) as usize, ..s },
            fetch_word(s),
            random,
        ) == Ok::<Machine, CpuError>(Machine { pc: (s.pc + 2) as usize, index: field_nnn(fetch_word(s)) as u16, ..s }),
{
    reveal(execute_spec);
}

/// Drawing the same sprite twice restores the bitmap; see `lemma_draw_twice`.
proof fn lemma_draw_spec_twice(s: Machine, x: int, y: int, n: int)
    requires
        s.wf(),
        0 <= x < 16,
        0 <= y < 16,
        0 <= n < 16,
        draw_spec(s, x, y, n) is Ok,
        draw_spec(s, x, y, n)->Ok_0.registers[x] == s.registers[x],
        draw_spec(s, x, y, n)->Ok_0.registers[y] == s.registers[y],
    ensures
        ({
            let s1 = draw_spec(s, x, y, n)->Ok_0;
            let t = Machine { pc: (s1.pc + 2) as usize, ..s1 };
            let vx = s.registers[x] as int;
            let vy = s.registers[y] as int;
            let i = s.index as int;
            &&& draw_spec(t, x, y, n) is Ok
            &&& draw_spec(t, x, y, n)->Ok_0.pixels == s.pixels
            &&& (forall|p: int| 0 <= p < PIXELS && #[trigger] covers_at(s.memory, i, n, vx, vy, p) ==> !s.pixels[p]) ==> {
                &&& s1.registers[VF as int] == 0
                &&& (exists|p: int| 0 <= p < PIXELS && #[trigger] covers_at(s.memory, i, n, vx, vy, p))
                    ==> draw_spec(t, x, y, n)->Ok_0.registers[VF as int] == 1
            }
        }),
{
    let s1 = draw_spec(s, x, y, n)->Ok_0;
    let t = Machine { pc: (s1.pc + 2) as usize, ..s1 };
    let s2 = draw_spec(t, x, y, n)->Ok_0;
    let vx = s.registers[x] as int;
    let vy = s.registers[y] as int;
    let i = s.index as int;
    assert(s1.pixels == drawn(s.pixels, s.memory, i, n, vx, vy));
    assert(s2.pixels == drawn(s1.pixels, s.memory, i, n, vx, vy));
    assert(s2.pixels =~= s.pixels);
    if forall|p: int| 0 <= p < PIXELS && #[trigger] covers_at(s.memory, i, n, vx, vy, p) ==> !s.pixels[p] {
        assert(!collides(s.pixels, s.memory, i, n, vx, vy));
        if exists|p: int| 0 <= p < PIXELS && #[trigger] covers_at(s.memory, i, n, vx, vy, p) {
            let p = choose|p: int| 0 <= p < PIXELS && #[trigger] covers_at(s.memory, i, n, vx, vy, p);
            assert(s1.pixels[p]);
            assert(collides(s1.pixels, s.memory, i, n, vx, vy));
        }
    }
}

} // verus!
