use vstd::prelude::*;

use crate::config::{FONT_LOAD_START, ROM_LOAD_START};
use crate::display::{pixel_index, Display, PIXELS};
use crate::emulator::EmulatorState;
use crate::keypad::{events_effect, InputEvent, Keypad, KEYS};
use crate::machine::{
    alu_spec, can_fetch, covers_at, cycle_spec, draw_spec, drawn, execute_spec, fetch_word, font,
    initial, load_spec, lowest_pressed, lowest_pressed_from, misc_spec, stops_tone, takes_effect,
    tick_spec, with_font, CpuError, Machine, GLYPH_BYTES, MAX_PROGRAM, MEMORY_SIZE, REGISTERS, VF,
};
use crate::sprite::{lemma_sprite_target, reached, sprite_col, sprite_row};

verus! {

/// Relies on `rand::random`, which draws a value from the thread-local
/// generator; nothing is promised of the value.
pub assume_specification<T>[ rand::random::<T> ]() -> (r: T)
    where
        rand::distributions::Standard: rand::distributions::Distribution<T>,
;

/// The CHIP-8 interpreter: memory, registers, call stack and timers, with the
/// bitmap and keypad that its instructions use.
pub struct Cpu {
    display: Display,
    keypad: Keypad,
    memory: Vec<u8>,
    registers: Vec<u8>,
    pc: usize,
    i: u16,
    stack: Vec<usize>,
    delay_timer: u8,
    sound_timer: u8,
    stack_underflows: u64,
    shift_uses_vy: bool,
    legacy_index_increment: bool,
}

impl View for Cpu {
    type V = Machine;

    closed spec fn view(&self) -> Machine {
        Machine {
            memory: self.memory@,
            registers: self.registers@,
            pc: self.pc,
            index: self.i,
            stack: self.stack@,
            delay_timer: self.delay_timer,
            sound_timer: self.sound_timer,
            pixels: self.display@,
            keys: self.keypad@,
            stack_underflows: self.stack_underflows,
            shift_uses_vy: self.shift_uses_vy,
            legacy_index_increment: self.legacy_index_increment,
        }
    }
}

impl Cpu {
    pub open spec fn wf(&self) -> bool {
        self@.wf()
    }

    /// A machine with zeroed memory, registers and timers, the font table in
    /// place and the program counter at the load address. The two flags pick
    /// the behaviour of the shift and jump-with-offset instructions and of the
    /// register block load and store instructions.
    pub fn new(shift_uses_vy: bool, legacy_index_increment: bool) -> (cpu: Cpu)
        ensures
            cpu.wf(),
            cpu@ == initial(shift_uses_vy, legacy_index_increment),
    {
        let mut memory: Vec<u8> = Vec::new();
        while memory.len() < MEMORY_SIZE
            invariant
                memory.len() <= MEMORY_SIZE,
                forall|a: int| 0 <= a < memory.len() ==> memory@[a] == 0,
            decreases MEMORY_SIZE - memory.len(),
        {
            memory.push(0);
        }
        let mut registers: Vec<u8> = Vec::new();
        while registers.len() < REGISTERS
            invariant
                registers.len() <= REGISTERS,
                forall|r: int| 0 <= r < registers.len() ==> registers@[r] == 0,
            decreases REGISTERS - registers.len(),
        {
            registers.push(0);
        }
        let mut cpu = Cpu {
            display: Display::new(),
            keypad: Keypad::new(),
            memory,
            registers,
            pc: ROM_LOAD_START,
            i: 0,
            stack: Vec::new(),
            delay_timer: 0,
            sound_timer: 0,
            stack_underflows: 0,
            shift_uses_vy,
            legacy_index_increment,
        };
        assert(cpu.memory@ =~= Seq::new(MEMORY_SIZE as nat, |a: int| 0u8));
        assert(cpu.registers@ =~= Seq::new(REGISTERS as nat, |r: int| 0u8));
        assert(cpu.stack@ =~= Seq::<usize>::empty());
        cpu.load_fonts();
        cpu
    }

    /// Writes the font table at its fixed address.
    fn load_fonts(&mut self)
        requires
            old(self).wf(),
        ensures
            final(self).wf(),
            final(self)@ == (Machine { memory: with_font(old(self)@.memory), ..old(self)@ }),
    {
        let fonts: Vec<u8> = vec![
            0xF0, 0x90, 0x90, 0x90, 0xF0,
            0x20, 0x60, 0x20, 0x20, 0x70,
            0xF0, 0x10, 0xF0, 0x80, 0xF0,
            0xF0, 0x10, 0xF0, 0x10, 0xF0,
            0x90, 0x90, 0xF0, 0x10, 0x10,
            0xF0, 0x80, 0xF0, 0x10, 0xF0,
            0xF0, 0x80, 0xF0, 0x90, 0xF0,
            0xF0, 0x10, 0x20, 0x40, 0x40,
            0xF0, 0x90, 0xF0, 0x90, 0xF0,
            0xF0, 0x90, 0xF0, 0x10, 0xF0,
            0xF0, 0x90, 0xF0, 0x90, 0x90,
            0xE0, 0x90, 0xE0, 0x90, 0xE0,
            0xF0, 0x80, 0x80, 0x80, 0xF0,
            0xE0, 0x90, 0x90, 0x90, 0xE0,
            0xF0, 0x80, 0xF0, 0x80, 0xF0,
            0xF0, 0x80, 0xF0, 0x80, 0x80,
        ];
        assert(fonts@ =~= font());
        let ghost before = self.memory@;
        let mut k: usize = 0;
        while k < fonts.len()
            invariant
                fonts@ == font(),
                k <= fonts.len(),
                self@ == (Machine { memory: self.memory@, ..old(self)@ }),
                self.memory@.len() == MEMORY_SIZE,
                before.len() == MEMORY_SIZE,
                forall|a: int|
                    0 <= a < MEMORY_SIZE ==> #[trigger] self.memory@[a] == if FONT_LOAD_START <= a
                        < FONT_LOAD_START + k {
                        font()[a - FONT_LOAD_START]
                    } else {
                        before[a]
                    },
            decreases fonts.len() - k,
        {
            self.memory.set(FONT_LOAD_START + k, fonts[k]);
            k = k + 1;
        }
        assert(self.memory@ =~= with_font(before));
    }

    /// Copies `program` into memory from the load address on. A program larger
    /// than the memory above that address is refused and nothing is written.
    pub fn load_program(&mut self, program: &Vec<u8>) -> (r: Result<(), CpuError>)
        requires
            old(self).wf(),
        ensures
            final(self).wf(),
            match load_spec(old(self)@, program@) {
                Ok(s) => r is Ok && final(self)@ == s,
                Err(e) => r == Err::<(), CpuError>(e) && final(self)@ == old(self)@,
            },
    {
        if program.len() > MAX_PROGRAM {
            return Err(CpuError::OutOfBounds);
        }
        let ghost before = self.memory@;
        let mut k: usize = 0;
        while k < program.len()
            invariant
                program.len() <= MAX_PROGRAM,
                k <= program.len(),
                self@ == (Machine { memory: self.memory@, ..old(self)@ }),
                self.memory@.len() == MEMORY_SIZE,
                before.len() == MEMORY_SIZE,
                forall|a: int|
                    0 <= a < MEMORY_SIZE ==> #[trigger] self.memory@[a] == if ROM_LOAD_START <= a
                        < ROM_LOAD_START + k {
                        program@[a - ROM_LOAD_START]
                    } else {
                        before[a]
                    },
            decreases program.len() - k,
        {
            self.memory.set(ROM_LOAD_START + k, program[k]);
            k = k + 1;
        }
        assert(self.memory@ =~= crate::machine::with_program(before, program@));
        Ok(())
    }

    /// Writes the font table and then `program`, as `load_program` does.
    pub fn init_load(&mut self, program: &Vec<u8>) -> (r: Result<(), CpuError>)
        requires
            old(self).wf(),
        ensures
            final(self).wf(),
            match load_spec(
                Machine { memory: with_font(old(self)@.memory), ..old(self)@ },
                program@,
            ) {
                Ok(s) => r is Ok && final(self)@ == s,
                Err(e) => r == Err::<(), CpuError>(e) && final(self)@ == (Machine {
                    memory: with_font(old(self)@.memory),
                    ..old(self)@
                }),
            },
    {
        self.load_fonts();
        self.load_program(program)
    }

    /// One timer tick: the delay and sound timers each go down by one unless
    /// already zero. Returns whether the sound timer has just reached zero,
    /// which is when the tone must stop.
    pub fn update_timers(&mut self) -> (stop_tone: bool)
        requires
            old(self).wf(),
        ensures
            final(self).wf(),
            final(self)@ == tick_spec(old(self)@),
            stop_tone == stops_tone(old(self)@),
    {
        if self.delay_timer > 0 {
            self.delay_timer = self.delay_timer - 1;
        }
        let mut stop_tone = false;
        if self.sound_timer > 0 {
            self.sound_timer = self.sound_timer - 1;
            if self.sound_timer == 0 {
                stop_tone = true;
            }
        }
        stop_tone
    }

    fn register_set(&mut self, x: usize, v: u8)
        requires
            old(self).wf(),
            x < REGISTERS,
        ensures
            final(self)@ == old(self)@.set_reg(x as int, v),
    {
        self.registers.set(x, v);
    }

    /// Writes `v` to register `x`, then `flag` to VF.
    fn register_set_flag(&mut self, x: usize, v: u8, flag: u8)
        requires
            old(self).wf(),
            x < REGISTERS,
        ensures
            final(self)@ == old(self)@.set_reg_flag(x as int, v, flag),
    {
        self.registers.set(x, v);
        self.registers.set(VF, flag);
    }

    fn skip_if(&mut self, cond: bool)
        requires
            old(self).pc <= MEMORY_SIZE,
        ensures
            final(self)@ == old(self)@.skip_if(cond),
    {
        if cond {
            self.pc = self.pc + 2;
        }
    }

    /// Family 8: register-to-register arithmetic and logic.
    fn register_ops(&mut self, x: usize, y: usize, n: u16)
        requires
            old(self).wf(),
            x < REGISTERS,
            y < REGISTERS,
        ensures
            final(self)@ == alu_spec(old(self)@, x as int, y as int, n as int),
    {
        let vx = self.registers[x];
        let vy = self.registers[y];
        let src = if self.shift_uses_vy { vy } else { vx };
        match n {
            0x0 => self.register_set(x, vy),
            0x1 => self.register_set(x, vx | vy),
            0x2 => self.register_set(x, vx & vy),
            0x3 => self.register_set(x, vx ^ vy),
            0x4 => {
                let sum: u16 = vx as u16 + vy as u16;
                self.register_set_flag(x, (sum % 256) as u8, if sum > 255 { 1 } else { 0 });
            },
            0x5 => {
                let diff: u16 = (vx as u16 + 256 - vy as u16) % 256;
                self.register_set_flag(x, diff as u8, if vx > vy { 1 } else { 0 });
            },
            0x6 => self.register_set_flag(x, src / 2, src % 2),
            0x7 => {
                let diff: u16 = (vy as u16 + 256 - vx as u16) % 256;
                self.register_set_flag(x, diff as u8, if vy > vx { 1 } else { 0 });
            },
            0xE => {
                let doubled: u16 = (src as u16 * 2) % 256;
                self.register_set_flag(x, doubled as u8, src / 128);
            },
            _ => {},
        }
    }

    /// `Fx0A`: puts the lowest-numbered held key in Vx, or, when no key is
    /// held, moves the program counter back so that the instruction runs again.
    fn wait_for_key(&mut self, x: usize)
        requires
            old(self).wf(),
            x < REGISTERS,
            old(self).pc >= 2,
        ensures
            final(self)@ == (match lowest_pressed(old(self)@.keys) {
                Some(k) => old(self)@.set_reg(x as int, k),
                None => Machine { pc: (old(self)@.pc - 2) as usize, ..old(self)@ },
            }),
    {
        let mut k: usize = 0;
        while k < KEYS
            invariant
                k <= KEYS,
                x < REGISTERS,
                self@ == old(self)@,
                self.wf(),
                lowest_pressed(self@.keys) == lowest_pressed_from(self@.keys, k as int),
            decreases KEYS - k,
        {
            if self.keypad.is_pressed(k) {
                self.registers.set(x, k as u8);
                return;
            }
            k = k + 1;
        }
        self.pc = self.pc - 2;
    }

    /// `Fx55`: copies V0 to Vx into memory from I on.
    fn store_registers(&mut self, x: usize)
        requires
            old(self).wf(),
            x < REGISTERS,
            old(self).i + x + 1 <= MEMORY_SIZE,
        ensures
            final(self)@ == (Machine {
                memory: Seq::new(
                    MEMORY_SIZE as nat,
                    |a: int|
                        if old(self)@.index <= a <= old(self)@.index + x {
                            old(self)@.registers[a - old(self)@.index]
                        } else {
                            old(self)@.memory[a]
                        },
                ),
                ..old(self)@
            }),
    {
        let base = self.i as usize;
        let ghost before = self.memory@;
        let mut r: usize = 0;
        while r <= x
            invariant
                r <= x + 1,
                base == old(self)@.index,
                base + x + 1 <= MEMORY_SIZE,
                x < REGISTERS,
                old(self).wf(),
                self@ == (Machine { memory: self.memory@, ..old(self)@ }),
                before == old(self)@.memory,
                self.memory@.len() == MEMORY_SIZE,
                forall|a: int|
                    0 <= a < MEMORY_SIZE ==> #[trigger] self.memory@[a] == if base <= a < base + r {
                        old(self)@.registers[a - base]
                    } else {
                        before[a]
                    },
            decreases x + 1 - r,
        {
            let v = self.registers[r];
            self.memory.set(base + r, v);
            r = r + 1;
        }
        assert(self.memory@ =~= Seq::new(
            MEMORY_SIZE as nat,
            |a: int|
                if old(self)@.index <= a <= old(self)@.index + x {
                    old(self)@.registers[a - old(self)@.index]
                } else {
                    old(self)@.memory[a]
                },
        ));
    }

    /// `Fx65`: copies memory from I on into V0 to Vx.
    fn load_registers(&mut self, x: usize)
        requires
            old(self).wf(),
            x < REGISTERS,
            old(self).i + x + 1 <= MEMORY_SIZE,
        ensures
            final(self)@ == (Machine {
                registers: Seq::new(
                    REGISTERS as nat,
                    |r: int|
                        if r <= x {
                            old(self)@.memory[old(self)@.index + r]
                        } else {
                            old(self)@.registers[r]
                        },
                ),
                ..old(self)@
            }),
    {
        let base = self.i as usize;
        let mut r: usize = 0;
        while r <= x
            invariant
                r <= x + 1,
                base == old(self)@.index,
                base + x + 1 <= MEMORY_SIZE,
                x < REGISTERS,
                old(self).wf(),
                self@ == (Machine { registers: self.registers@, ..old(self)@ }),
                self.registers@.len() == REGISTERS,
                forall|k: int|
                    0 <= k < REGISTERS ==> #[trigger] self.registers@[k] == if k < r {
                        old(self)@.memory[base + k]
                    } else {
                        old(self)@.registers[k]
                    },
            decreases x + 1 - r,
        {
            let v = self.memory[base + r];
            self.registers.set(r, v);
            r = r + 1;
        }
        assert(self.registers@ =~= Seq::new(
            REGISTERS as nat,
            |r: int|
                if r <= x {
                    old(self)@.memory[old(self)@.index + r]
                } else {
                    old(self)@.registers[r]
                },
        ));
    }

    /// Family F: timers, index register, font, decimal digits, block copies.
    fn misc_ops(&mut self, x: usize, nn: u16) -> (r: Result<(), CpuError>)
        requires
            old(self).wf(),
            x < REGISTERS,
            nn < 256,
            2 <= old(self).pc,
        ensures
            final(self).wf(),
            takes_effect(old(self)@, final(self)@, r, misc_spec(old(self)@, x as int, nn as u8)),
    {
        let vx = self.registers[x];
        let i = self.i as usize;
        match nn {
            0x07 => self.register_set(x, self.delay_timer),
            0x0A => self.wait_for_key(x),
            0x15 => self.delay_timer = vx,
            0x18 => self.sound_timer = vx,
            0x1E => self.i = ((i + vx as usize) % 0x10000) as u16,
            0x29 => self.i = (FONT_LOAD_START + vx as usize * GLYPH_BYTES) as u16,
            0x33 => {
                if i + 3 > MEMORY_SIZE {
                    return Err(CpuError::OutOfBounds);
                }
                self.memory.set(i, vx / 100);
                self.memory.set(i + 1, (vx % 100) / 10);
                self.memory.set(i + 2, vx % 10);
            },
            0x55 | 0x65 => {
                if i + x + 1 > MEMORY_SIZE {
                    return Err(CpuError::OutOfBounds);
                }
                if nn == 0x55 {
                    self.store_registers(x);
                } else {
                    self.load_registers(x);
                }
                if !self.legacy_index_increment {
                    self.i = (i + x + 1) as u16;
                }
            },
            _ => {},
        }
        Ok(())
    }

    /// `Dxyn`: XOR-draws the `n`-row sprite at I at (Vx, Vy), wrapping around
    /// the bitmap's edges; VF ends up 1 exactly when a lit pixel went dark.
    fn draw(&mut self, x: usize, y: usize, n: usize) -> (r: Result<(), CpuError>)
        requires
            old(self).wf(),
            x < REGISTERS,
            y < REGISTERS,
            n < 16,
        ensures
            final(self).wf(),
            takes_effect(
                old(self)@,
                final(self)@,
                r,
                draw_spec(old(self)@, x as int, y as int, n as int),
            ),
    {
        let index = self.i as usize;
        if index + n > MEMORY_SIZE {
            return Err(CpuError::OutOfBounds);
        }
        let vx = self.registers[x] as usize;
        let vy = self.registers[y] as usize;
        let ghost s0 = self@;
        let ghost mem = s0.memory;
        let mut collision = false;
        let mut row: usize = 0;
        while row < n
            invariant
                s0 == old(self)@,
                s0.wf(),
                mem == s0.memory,
                index == s0.index,
                index + n <= MEMORY_SIZE,
                n < 16,
                vx < 256,
                vy < 256,
                row <= n,
                self@ == (Machine { pixels: self.display@, ..s0 }),
                self.display@.len() == PIXELS,
                forall|p: int|
                    0 <= p < PIXELS ==> #[trigger] self.display@[p] == (s0.pixels[p] != (covers_at(
                        mem,
                        index as int,
                        n as int,
                        vx as int,
                        vy as int,
                        p,
                    ) && reached(vx as int, vy as int, row as int, 0, p))),
                collision == exists|p: int|
                    0 <= p < PIXELS && #[trigger] covers_at(
                        mem,
                        index as int,
                        n as int,
                        vx as int,
                        vy as int,
                        p,
                    ) && reached(vx as int, vy as int, row as int, 0, p) && s0.pixels[p],
            decreases n - row,
        {
            let sprite = self.memory[index + row];
            let mut col: usize = 0;
            while col < 8
                invariant
                    s0 == old(self)@,
                    s0.wf(),
                    mem == s0.memory,
                    index == s0.index,
                    index + n <= MEMORY_SIZE,
                    n < 16,
                    vx < 256,
                    vy < 256,
                    row < n,
                    col <= 8,
                    sprite == mem[index + row],
                    self@ == (Machine { pixels: self.display@, ..s0 }),
                    self.display@.len() == PIXELS,
                    forall|p: int|
                        0 <= p < PIXELS ==> #[trigger] self.display@[p] == (s0.pixels[p] != (
                        covers_at(mem, index as int, n as int, vx as int, vy as int, p) && reached(
                            vx as int,
                            vy as int,
                            row as int,
                            col as int,
                            p,
                        ))),
                    collision == exists|p: int|
                        0 <= p < PIXELS && #[trigger] covers_at(
                            mem,
                            index as int,
                            n as int,
                            vx as int,
                            vy as int,
                            p,
                        ) && reached(vx as int, vy as int, row as int, col as int, p)
                            && s0.pixels[p],
                decreases 8 - col,
            {
                let ghost q = pixel_index(vx + col, vy + row);
                proof {
                    assert forall|p: int| 0 <= p < PIXELS implies ((sprite_row(vy as int, p)
                        == row && sprite_col(vx as int, p) == col) <==> p == q) by {
                        lemma_sprite_target(vx as int, vy as int, row as int, col as int, p);
                    }
                    lemma_sprite_target(vx as int, vy as int, row as int, col as int, 0);
                }
                let ghost before = self.display@;
                let ghost old_collision = collision;
                if (sprite >> (7 - col) as u8) & 1 == 1 {
                    assert(covers_at(mem, index as int, n as int, vx as int, vy as int, q));
                    self.display.flip_pixel(vx + col, vy + row);
                    if !self.display.get_pixel(vx + col, vy + row) {
                        collision = true;
                    }
                    assert(collision == (old_collision || s0.pixels[q]));
                } else {
                    assert(!covers_at(mem, index as int, n as int, vx as int, vy as int, q));
                }
                proof {
                    assert forall|p: int|
                        0 <= p < PIXELS implies (reached(
                        vx as int,
                        vy as int,
                        row as int,
                        col + 1,
                        p,
                    ) <==> (reached(vx as int, vy as int, row as int, col as int, p) || p
                        == q)) by {
                        lemma_sprite_target(vx as int, vy as int, row as int, col as int, p);
                    }
                    if collision && !old_collision {
                        assert(covers_at(mem, index as int, n as int, vx as int, vy as int, q));
                    }
                }
                col = col + 1;
            }
            proof {
                assert forall|p: int|
                    0 <= p < PIXELS && covers_at(
                        mem,
                        index as int,
                        n as int,
                        vx as int,
                        vy as int,
                        p,
                    ) implies (reached(vx as int, vy as int, row + 1, 0, p) <==> reached(
                    vx as int,
                    vy as int,
                    row as int,
                    8,
                    p,
                )) by {}
            }
            row = row + 1;
        }
        proof {
            assert forall|p: int|
                0 <= p < PIXELS && covers_at(
                    mem,
                    index as int,
                    n as int,
                    vx as int,
                    vy as int,
                    p,
                ) implies reached(vx as int, vy as int, n as int, 0, p) by {}
            assert(self.display@ =~= drawn(s0.pixels, mem, index as int, n as int, vx as int, vy as int));
        }
        self.registers.set(VF, if collision { 1 } else { 0 });
        Ok(())
    }

    /// Reads the instruction word at the program counter and moves the
    /// counter past it; fails, changing nothing, when the word does not lie
    /// in memory.
    fn fetch(&mut self) -> (r: Result<u16, CpuError>)
        requires
            old(self).wf(),
        ensures
            final(self).wf(),
            match r {
                Ok(w) => can_fetch(old(self)@) && w == fetch_word(old(self)@) && final(self)@ == (
                Machine { pc: (old(self)@.pc + 2) as usize, ..old(self)@ }),
                Err(e) => !can_fetch(old(self)@) && e == CpuError::OutOfBounds && final(self)@ == old(
                    self,
                )@,
            },
    {
        if self.pc >= MEMORY_SIZE - 1 {
            return Err(CpuError::OutOfBounds);
        }
        let hi = self.memory[self.pc];
        let lo = self.memory[self.pc + 1];
        self.pc = self.pc + 2;
        Ok(hi as u16 * 0x100 + lo as u16)
    }

    /// `2nnn`: saves the program counter on the call stack and jumps to `nnn`.
    fn push_subroutine(&mut self, address: usize)
        ensures
            final(self)@ == (Machine {
                pc: address,
                stack: old(self)@.stack.push(old(self)@.pc),
                ..old(self)@
            }),
    {
        self.stack.push(self.pc);
        self.pc = address;
    }

    /// `00EE`: returns to the address on top of the call stack. An empty stack
    /// leaves the program counter alone and is counted.
    fn pop_subroutine(&mut self)
        ensures
            final(self)@ == (if old(self)@.stack.len() == 0 {
                Machine {
                    stack_underflows: if old(self)@.stack_underflows == u64::MAX {
                        old(self)@.stack_underflows
                    } else {
                        (old(self)@.stack_underflows + 1) as u64
                    },
                    ..old(self)@
                }
            } else {
                Machine {
                    pc: old(self)@.stack.last(),
                    stack: old(self)@.stack.drop_last(),
                    ..old(self)@
                }
            }),
    {
        match self.stack.pop() {
            Some(address) => self.pc = address,
            None => {
                if self.stack_underflows < u64::MAX {
                    self.stack_underflows = self.stack_underflows + 1;
                }
            },
        }
    }

    /// Carries out instruction `w`; the program counter already points past it.
    fn decode_execute(&mut self, w: u16, random: u8) -> (r: Result<(), CpuError>)
        requires
            old(self).wf(),
            2 <= old(self).pc <= MEMORY_SIZE,
        ensures
            final(self).wf(),
            takes_effect(old(self)@, final(self)@, r, execute_spec(old(self)@, w, random)),
    {
        reveal(execute_spec);
        let x: usize = ((w / 0x100) % 16) as usize;
        let y: usize = ((w / 0x10) % 16) as usize;
        let n: u16 = w % 16;
        let nn: u8 = (w % 0x100) as u8;
        let nnn: usize = (w % 0x1000) as usize;
        let vx = self.registers[x];
        let vy = self.registers[y];
        match w / 0x1000 {
            0x0 => {
                if nnn == 0x0E0 {
                    self.display.clear();
                } else if nnn == 0x0EE {
                    self.pop_subroutine();
                }
            },
            0x1 => self.pc = nnn,
            0x2 => self.push_subroutine(nnn),
            0x3 => self.skip_if(vx == nn),
            0x4 => self.skip_if(vx != nn),
            0x5 => self.skip_if(vx == vy),
            0x6 => self.register_set(x, nn),
            0x7 => self.register_set(x, ((vx as u16 + nn as u16) % 256) as u8),
            0x8 => self.register_ops(x, y, n),
            0x9 => self.skip_if(vx != vy),
            0xA => self.i = nnn as u16,
            0xB => {
                let offset = if self.shift_uses_vy { vx } else { self.registers[0] };
                self.pc = nnn + offset as usize;
            },
            0xC => self.register_set(x, random & nn),
            0xD => return self.draw(x, y, n as usize),
            0xE => {
                if nn == 0x9E || nn == 0xA1 {
                    if vx as usize >= KEYS {
                        return Err(CpuError::OutOfBounds);
                    }
                    let down = self.keypad.is_pressed(vx as usize);
                    self.skip_if(down == (nn == 0x9E));
                }
            },
            _ => return self.misc_ops(x, nn as u16),
        }
        Ok(())
    }

    /// Runs one fetch-decode-execute step, with `random` as the byte that
    /// `Cxnn` masks. The program counter moves past the instruction before it
    /// runs; a step that fails leaves the machine unchanged.
    pub fn cycle_with_random(&mut self, random: u8) -> (r: Result<(), CpuError>)
        requires
            old(self).wf(),
        ensures
            final(self).wf(),
            takes_effect(old(self)@, final(self)@, r, cycle_spec(old(self)@, random)),
    {
        let start = self.pc;
        let w = match self.fetch() {
            Ok(w) => w,
            Err(e) => return Err(e),
        };
        let r = self.decode_execute(w, random);
        if r.is_err() {
            self.pc = start;
        }
        r
    }

    /// Runs one fetch-decode-execute step, drawing the byte that `Cxnn` masks
    /// from the thread-local random generator.
    pub fn cycle(&mut self) -> (r: Result<(), CpuError>)
        requires
            old(self).wf(),
        ensures
            final(self).wf(),
            exists|random: u8| takes_effect(old(self)@, final(self)@, r, cycle_spec(old(self)@, random)),
    {
        let random: u8 = rand::random::<u8>();
        self.cycle_with_random(random)
    }

    /// Value of register `x`.
    pub fn register(&self, x: usize) -> (v: u8)
        requires
            self.wf(),
            x < REGISTERS,
        ensures
            v == self@.registers[x as int],
    {
        self.registers[x]
    }

    /// Byte at memory address `address`.
    pub fn memory_at(&self, address: usize) -> (v: u8)
        requires
            self.wf(),
            address < MEMORY_SIZE,
        ensures
            v == self@.memory[address as int],
    {
        self.memory[address]
    }

    pub fn pc(&self) -> (pc: usize)
        ensures
            pc == self@.pc,
    {
        self.pc
    }

    /// Value of the index register I.
    pub fn index(&self) -> (i: u16)
        ensures
            i == self@.index,
    {
        self.i
    }

    pub fn delay_timer(&self) -> (t: u8)
        ensures
            t == self@.delay_timer,
    {
        self.delay_timer
    }

    pub fn sound_timer(&self) -> (t: u8)
        ensures
            t == self@.sound_timer,
    {
        self.sound_timer
    }

    /// Number of return addresses on the call stack.
    pub fn stack_depth(&self) -> (d: usize)
        ensures
            d == self@.stack.len(),
    {
        self.stack.len()
    }

    /// How many return instructions found the call stack empty.
    pub fn stack_underflows(&self) -> (c: u64)
        ensures
            c == self@.stack_underflows,
    {
        self.stack_underflows
    }

    pub fn display(&self) -> (d: &Display)
        ensures
            d@ == self@.pixels,
            self.wf() ==> d.wf(),
    {
        &self.display
    }

    pub fn keypad(&self) -> (k: &Keypad)
        ensures
            k@ == self@.keys,
    {
        &self.keypad
    }

    /// Marks keypad key `key` as held down or released.
    pub fn set_key(&mut self, key: usize, down: bool)
        requires
            old(self).wf(),
            key < KEYS,
        ensures
            final(self).wf(),
            final(self)@ == (Machine { keys: old(self)@.keys.update(key as int, down), ..old(self)@ }),
    {
        self.keypad.set_pressed(key, down);
    }

    /// Hands a batch of input events to the keypad; see `Keypad::check_inputs`.
    pub fn check_inputs(&mut self, events: &Vec<InputEvent>) -> (state: EmulatorState)
        requires
            old(self).wf(),
        ensures
            final(self).wf(),
            (final(self)@.keys, state) == events_effect(old(self)@.keys, events@),
            final(self)@ == (Machine { keys: final(self)@.keys, ..old(self)@ }),
    {
        self.keypad.check_inputs(events)
    }
}

} // verus!
