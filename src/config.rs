use vstd::prelude::*;

verus! {

/// Instructions executed per second at normal speed.
pub const CPU_HZ: u64 = 400;

/// Timer ticks and screen refreshes per second at normal speed.
pub const DISPLAY_HZ: u64 = 60;

/// Default for the shift quirk: `false` shifts Vx in place (original
/// COSMAC behaviour); `true` copies Vy into Vx first and makes `Bnnn` jump to
/// `nnn + Vx` (CHIP-48 and SUPER-CHIP behaviour).
pub const SHIFT_USES_VY: bool = false;

/// Default for the load/store quirk: `false` advances the index register
/// past the block that `Fx55` / `Fx65` copy; `true` leaves it where it was.
pub const LEGACY_INDEX_INCREMENT: bool = true;

/// Address of the built-in font table.
pub const FONT_LOAD_START: usize = 0x050;

/// Address at which programs are loaded and execution starts.
pub const ROM_LOAD_START: usize = 0x200;

/// SDL key code of the key that stops the emulator (Escape).
pub const KEY_ESCAPE: i32 = 27;

/// SDL key code of the key that pauses and resumes the emulator (Space).
pub const PAUSE_KEY: i32 = 32;

/// The SDL key code bound to each keypad key, for a QWERTY keyboard: the rows
/// `1 2 3 4`, `Q W E R`, `A S D F` and `Z X C V` give keys 0x0 to 0xF in order.
pub open spec fn key_code(key: int) -> i32 {
    if key == 0x0 { 49 }        // 1
    else if key == 0x1 { 50 }   // 2
    else if key == 0x2 { 51 }   // 3
    else if key == 0x3 { 52 }   // 4
    else if key == 0x4 { 113 }  // q
    else if key == 0x5 { 119 }  // w
    else if key == 0x6 { 101 }  // e
    else if key == 0x7 { 114 }  // r
    else if key == 0x8 { 97 }   // a
    else if key == 0x9 { 115 }  // s
    else if key == 0xA { 100 }  // d
    else if key == 0xB { 102 }  // f
    else if key == 0xC { 122 }  // z
    else if key == 0xD { 120 }  // x
    else if key == 0xE { 99 }   // c
    else { 118 }                // v
}

/// The SDL key code bound to keypad key `key`.
pub fn keymapping(key: usize) -> (code: i32)
    requires
        key < 16,
    ensures
        code == key_code(key as int),
{
    match key {
        0x0 => 49,
        0x1 => 50,
        0x2 => 51,
        0x3 => 52,
        0x4 => 113,
        0x5 => 119,
        0x6 => 101,
        0x7 => 114,
        0x8 => 97,
        0x9 => 115,
        0xA => 100,
        0xB => 102,
        0xC => 122,
        0xD => 120,
        0xE => 99,
        _ => 118,
    }
}

} // verus!
