use vstd::prelude::*;

use crate::config::{FONT_LOAD_START, ROM_LOAD_START};
use crate::display::{blank, HEIGHT, PIXELS, WIDTH};
use crate::keypad::KEYS;

verus! {

/// Size of the memory, in bytes.
pub const MEMORY_SIZE: usize = 4096;

/// Number of general-purpose registers.
pub const REGISTERS: usize = 16;

/// Index of the flag register VF.
pub const VF: usize = 0xF;

/// Bytes in each glyph of the font table.
pub const GLYPH_BYTES: usize = 5;

/// Largest program that fits in memory above the load address.
pub const MAX_PROGRAM: usize = 3584;

/// Why an instruction, or a program load, could not be carried out.
#[derive(Clone, Copy, Debug, PartialEq, Eq, Structural)]
pub enum CpuError {
    /// A memory address, or a key index, outside its valid range.
    OutOfBounds,
}

/// The whole state of the machine, as mathematical values.
pub ghost struct Machine {
    pub memory: Seq<u8>,
    pub registers: Seq<u8>,
    pub pc: usize,
    pub index: u16,
    pub stack: Seq<usize>,
    pub delay_timer: u8,
    pub sound_timer: u8,
    pub pixels: Seq<bool>,
    pub keys: Seq<bool>,
    /// How many return instructions found the call stack empty.
    pub stack_underflows: u64,
    pub shift_uses_vy: bool,
    pub legacy_index_increment: bool,
}

impl Machine {
    pub open spec fn wf(self) -> bool {
        &&& self.memory.len() == MEMORY_SIZE
        &&& self.registers.len() == REGISTERS
        &&& self.pixels.len() == PIXELS
        &&& self.keys.len() == KEYS
    }

    pub open spec fn reg(self, r: int) -> u8 {
        self.registers[r]
    }

    pub open spec fn set_reg(self, r: int, v: u8) -> Machine {
        Machine { registers: self.registers.update(r, v), ..self }
    }

    /// Writes `v` to register `r`, then the flag `f` to VF.
    pub open spec fn set_reg_flag(self, r: int, v: u8, f: u8) -> Machine {
        Machine { registers: self.registers.update(r, v).update(VF as int, f), ..self }
    }

    pub open spec fn skip_if(self, cond: bool) -> Machine {
        if cond {
            Machine { pc: (self.pc + 2) as usize, ..self }
        } else {
            self
        }
    }
}

/// The sixteen glyphs 0 to F, five rows each.
pub open spec fn font() -> Seq<u8> {
    seq![
        0xF0, 0x90, 0x90, 0x90, 0xF0,
        0x20, 0x60, 0x20, 0x20, 0x70,
        0xF0, 0x10, 0xF0, 0x80, 0xF0,
        0xF0, 0x10, 0xF0, 0x10, 0xF0,
        0x90, 0x90, 0xF0, 0x10, 0x10,
        0xF0, 0x80, 0xF0, 0x10, 0xF0,
        0xF0, 0x80, 0xF0, 0x90, 0xF0,
        0xF0, 0x10, 0x20, 0x40, 0x40,
        0xF0, 0x90, 0xF0, 0x90, 0xF0,
        0xF0, 0x90, 0xF0, 0x10, 0xF0,
        0xF0, 0x90, 0xF0, 0x90, 0x90,
        0xE0, 0x90, 0xE0, 0x90, 0xE0,
        0xF0, 0x80, 0x80, 0x80, 0xF0,
        0xE0, 0x90, 0x90, 0x90, 0xE0,
        0xF0, 0x80, 0xF0, 0x80, 0xF0,
        0xF0, 0x80, 0xF0, 0x80, 0x80u8
    ]
}

/// `memory` with the font table written at its fixed address.
pub open spec fn with_font(memory: Seq<u8>) -> Seq<u8> {
    Seq::new(
        memory.len(),
        |a: int|
            if FONT_LOAD_START <= a < FONT_LOAD_START + font().len() {
                font()[a - FONT_LOAD_START]
            } else {
                memory[a]
            },
    )
}

/// `memory` with `program` written from the load address on.
pub open spec fn with_program(memory: Seq<u8>, program: Seq<u8>) -> Seq<u8> {
    Seq::new(
        memory.len(),
        |a: int|
            if ROM_LOAD_START <= a < ROM_LOAD_START + program.len() {
                program[a - ROM_LOAD_START]
            } else {
                memory[a]
            },
    )
}

/// A freshly built machine: everything zero but the font table, the program
/// counter at the load address, and the two quirk settings.
pub open spec fn initial(shift_uses_vy: bool, legacy_index_increment: bool) -> Machine {
    Machine {
        memory: with_font(Seq::new(MEMORY_SIZE as nat, |a: int| 0u8)),
        registers: Seq::new(REGISTERS as nat, |r: int| 0u8),
        pc: ROM_LOAD_START,
        index: 0,
        stack: Seq::empty(),
        delay_timer: 0,
        sound_timer: 0,
        pixels: blank(),
        keys: Seq::new(KEYS as nat, |k: int| false),
        stack_underflows: 0,
        shift_uses_vy,
        legacy_index_increment,
    }
}

/// Loading a program: refused when it does not fit above the load address.
pub open spec fn load_spec(s: Machine, program: Seq<u8>) -> Result<Machine, CpuError> {
    if program.len() > MAX_PROGRAM {
        Err(CpuError::OutOfBounds)
    } else {
        Ok(Machine { memory: with_program(s.memory, program), ..s })
    }
}

// Fields of an instruction word.
pub open spec fn family(w: u16) -> int {
    w as int / 0x1000
}

pub open spec fn field_x(w: u16) -> int {
    (w as int / 0x100) % 16
}

pub open spec fn field_y(w: u16) -> int {
    (w as int / 0x10) % 16
}

pub open spec fn field_n(w: u16) -> int {
    w as int % 16
}

pub open spec fn field_nn(w: u16) -> u8 {
    (w as int % 0x100) as u8
}

pub open spec fn field_nnn(w: u16) -> usize {
    (w as int % 0x1000) as usize
}

/// The instruction word at the program counter, most significant byte first.
pub open spec fn fetch_word(s: Machine) -> u16 {
    (s.memory[s.pc as int] as int * 0x100 + s.memory[s.pc + 1] as int) as u16
}

/// Whether the two bytes at the program counter lie in memory.
pub open spec fn can_fetch(s: Machine) -> bool {
    s.pc + 1 < MEMORY_SIZE
}

/// Whether column `px`, row `py` of the bitmap is covered by a set bit of the
/// `n`-row sprite at `index` drawn at (`vx`, `vy`), with wrap-around.
pub open spec fn sprite_covers(memory: Seq<u8>, index: int, n: int, vx: int, vy: int, px: int, py: int) -> bool {
    let col = (px - vx) % (WIDTH as int);
    let row = (py - vy) % (HEIGHT as int);
    &&& col < 8
    &&& row < n
    &&& (memory[index + row] >> ((7 - col) as u8)) & 1 == 1
}

/// Whether the sprite covers the pixel at position `p` of the flat bitmap.
pub open spec fn covers_at(memory: Seq<u8>, index: int, n: int, vx: int, vy: int, p: int) -> bool {
    sprite_covers(memory, index, n, vx, vy, p % (WIDTH as int), p / (WIDTH as int))
}

/// The bitmap after XOR-drawing the sprite.
pub open spec fn drawn(pixels: Seq<bool>, memory: Seq<u8>, index: int, n: int, vx: int, vy: int) -> Seq<bool> {
    Seq::new(pixels.len(), |p: int| pixels[p] != covers_at(memory, index, n, vx, vy, p))
}

/// Whether drawing the sprite turns off a lit pixel.
pub open spec fn collides(pixels: Seq<bool>, memory: Seq<u8>, index: int, n: int, vx: int, vy: int) -> bool {
    exists|p: int| 0 <= p < pixels.len() && #[trigger] covers_at(memory, index, n, vx, vy, p) && pixels[p]
}

/// `Dxyn`: draw the `n`-row sprite at I at (Vx, Vy); VF records a collision.
pub open spec fn draw_spec(s: Machine, x: int, y: int, n: int) -> Result<Machine, CpuError> {
    if s.index as int + n > MEMORY_SIZE {
        Err(CpuError::OutOfBounds)
    } else {
        let vx = s.reg(x) as int;
        let vy = s.reg(y) as int;
        let hit = collides(s.pixels, s.memory, s.index as int, n, vx, vy);
        Ok(
            Machine {
                pixels: drawn(s.pixels, s.memory, s.index as int, n, vx, vy),
                registers: s.registers.update(VF as int, if hit { 1u8 } else { 0u8 }),
                ..s
            },
        )
    }
}

/// The lowest-numbered key among `from..16` that is held down.
pub open spec fn lowest_pressed_from(keys: Seq<bool>, from: int) -> Option<u8>
    decreases KEYS - from,
{
    if from >= KEYS {
        None
    } else if keys[from] {
        Some(from as u8)
    } else {
        lowest_pressed_from(keys, from + 1)
    }
}

pub open spec fn lowest_pressed(keys: Seq<bool>) -> Option<u8> {
    lowest_pressed_from(keys, 0)
}

/// Family 8: register-to-register arithmetic and logic, selected by `n`.
pub open spec fn alu_spec(s: Machine, x: int, y: int, n: int) -> Machine {
    let vx = s.reg(x);
    let vy = s.reg(y);
    let src = if s.shift_uses_vy { vy } else { vx };
    if n == 0x0 {
        s.set_reg(x, vy)
    } else if n == 0x1 {
        s.set_reg(x, vx | vy)
    } else if n == 0x2 {
        s.set_reg(x, vx & vy)
    } else if n == 0x3 {
        s.set_reg(x, vx ^ vy)
    } else if n == 0x4 {
        s.set_reg_flag(x, ((vx + vy) % 256) as u8, if vx + vy > 255 { 1 } else { 0 })
    } else if n == 0x5 {
        s.set_reg_flag(x, ((vx - vy) % 256) as u8, if vx > vy { 1 } else { 0 })
    } else if n == 0x6 {
        s.set_reg_flag(x, src / 2, src % 2)
    } else if n == 0x7 {
        s.set_reg_flag(x, ((vy - vx) % 256) as u8, if vy > vx { 1 } else { 0 })
    } else if n == 0xE {
        s.set_reg_flag(x, ((src * 2) % 256) as u8, src / 128)
    } else {
        s
    }
}

/// Family F: timers, index register, font, decimal digits and block copies,
/// selected by `nn`.
pub open spec fn misc_spec(s: Machine, x: int, nn: u8) -> Result<Machine, CpuError> {
    let vx = s.reg(x);
    let i = s.index as int;
    if nn == 0x07 {
        Ok(s.set_reg(x, s.delay_timer))
    } else if nn == 0x0A {
        match lowest_pressed(s.keys) {
            Some(k) => Ok(s.set_reg(x, k)),
            None => Ok(Machine { pc: (s.pc - 2) as usize, ..s }),
        }
    } else if nn == 0x15 {
        Ok(Machine { delay_timer: vx, ..s })
    } else if nn == 0x18 {
        Ok(Machine { sound_timer: vx, ..s })
    } else if nn == 0x1E {
        Ok(Machine { index: ((i + vx) % 0x10000) as u16, ..s })
    } else if nn == 0x29 {
        Ok(Machine { index: (FONT_LOAD_START + vx * GLYPH_BYTES) as u16, ..s })
    } else if nn == 0x33 {
        if i + 3 > MEMORY_SIZE {
            Err(CpuError::OutOfBounds)
        } else {
            Ok(
                Machine {
                    memory: s.memory.update(i, vx / 100).update(i + 1, (vx % 100) / 10).update(
                        i + 2,
                        vx % 10,
                    ),
                    ..s
                },
            )
        }
    } else if nn == 0x55 || nn == 0x65 {
        if i + x + 1 > MEMORY_SIZE {
            Err(CpuError::OutOfBounds)
        } else {
            let next_index = if s.legacy_index_increment { s.index } else { (i + x + 1) as u16 };
            if nn == 0x55 {
                Ok(
                    Machine {
                        memory: Seq::new(
                            s.memory.len(),
                            |a: int| if i <= a <= i + x { s.registers[a - i] } else { s.memory[a] },
                        ),
                        index: next_index,
                        ..s
                    },
                )
            } else {
                Ok(
                    Machine {
                        registers: Seq::new(
                            s.registers.len(),
                            |r: int| if r <= x { s.memory[i + r] } else { s.registers[r] },
                        ),
                        index: next_index,
                        ..s
                    },
                )
            }
        }
    } else {
        Ok(s)
    }
}

/// Carries out instruction `w` on `s`, whose program counter already points
/// past it; `random` is the byte that `Cxnn` masks.
#[verifier::opaque]
pub open spec fn execute_spec(s: Machine, w: u16, random: u8) -> Result<Machine, CpuError> {
    let x = field_x(w);
    let y = field_y(w);
    let n = field_n(w);
    let nn = field_nn(w);
    let nnn = field_nnn(w);
    let vx = s.reg(x);
    let vy = s.reg(y);
    let f = family(w);
    if f == 0x0 {
        if nnn == 0x0E0 {
            Ok(Machine { pixels: blank(), ..s })
        } else if nnn == 0x0EE {
            if s.stack.len() == 0 {
                Ok(
                    Machine {
                        stack_underflows: if s.stack_underflows == u64::MAX {
                            s.stack_underflows
                        } else {
                            (s.stack_underflows + 1) as u64
                        },
                        ..s
                    },
                )
            } else {
                Ok(Machine { pc: s.stack.last(), stack: s.stack.drop_last(), ..s })
            }
        } else {
            Ok(s)
        }
    } else if f == 0x1 {
        Ok(Machine { pc: nnn, ..s })
    } else if f == 0x2 {
        Ok(Machine { pc: nnn, stack: s.stack.push(s.pc), ..s })
    } else if f == 0x3 {
        Ok(s.skip_if(vx == nn))
    } else if f == 0x4 {
        Ok(s.skip_if(vx != nn))
    } else if f == 0x5 {
        Ok(s.skip_if(vx == vy))
    } else if f == 0x6 {
        Ok(s.set_reg(x, nn))
    } else if f == 0x7 {
        Ok(s.set_reg(x, ((vx + nn) % 256) as u8))
    } else if f == 0x8 {
        Ok(alu_spec(s, x, y, n))
    } else if f == 0x9 {
        Ok(s.skip_if(vx != vy))
    } else if f == 0xA {
        Ok(Machine { index: nnn as u16, ..s })
    } else if f == 0xB {
        Ok(Machine { pc: (nnn + if s.shift_uses_vy { vx } else { s.reg(0) }) as usize, ..s })
    } else if f == 0xC {
        Ok(s.set_reg(x, random & nn))
    } else if f == 0xD {
        draw_spec(s, x, y, n)
    } else if f == 0xE {
        if nn == 0x9E || nn == 0xA1 {
            if vx >= KEYS {
                Err(CpuError::OutOfBounds)
            } else {
                Ok(s.skip_if(s.keys[vx as int] == (nn == 0x9E)))
            }
        } else {
            Ok(s)
        }
    } else {
        misc_spec(s, x, nn)
    }
}

/// One fetch-decode-execute step. The program counter moves past the
/// instruction before it runs; a step that fails changes nothing.
pub open spec fn cycle_spec(s: Machine, random: u8) -> Result<Machine, CpuError> {
    if !can_fetch(s) {
        Err(CpuError::OutOfBounds)
    } else {
        execute_spec(Machine { pc: (s.pc + 2) as usize, ..s }, fetch_word(s), random)
    }
}

/// Whether a timer tick from `s` brings the sound timer to zero, which is
/// when the tone must stop.
pub open spec fn stops_tone(s: Machine) -> bool {
    s.sound_timer == 1
}

/// One timer tick: each nonzero timer goes down by one.
pub open spec fn tick_spec(s: Machine) -> Machine {
    Machine {
        delay_timer: if s.delay_timer > 0 { (s.delay_timer - 1) as u8 } else { 0 },
        sound_timer: if s.sound_timer > 0 { (s.sound_timer - 1) as u8 } else { 0 },
        ..s
    }
}

/// Relates a step's outcome to the states before and after it: on success the
/// machine is in the computed state, on failure it is unchanged.
pub open spec fn takes_effect(
    before: Machine,
    after: Machine,
    r: Result<(), CpuError>,
    step: Result<Machine, CpuError>,
) -> bool {
    match step {
        Ok(s) => r is Ok && after == s,
        Err(e) => r == Err::<(), CpuError>(e) && after == before,
    }
}

} // verus!
