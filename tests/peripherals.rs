use chip8::display::Display;
use chip8::emulator::EmulatorState::{Paused, Playing, Stopped};
use chip8::emulator::{selection_index, EmulatorState};
use chip8::keypad::{InputEvent, Keypad};

#[test]
fn display_flip_and_wrap() {
    let mut d = Display::new();
    assert!(!d.get_pixel(3, 4));
    d.flip_pixel(3, 4);
    assert!(d.get_pixel(3, 4));
    assert!(d.get_pixel(3 + 64, 4 + 32));
    d.flip_pixel(67, 36);
    assert!(!d.get_pixel(3, 4));
    d.flip_pixel(63, 31);
    d.clear();
    assert!(!d.get_pixel(63, 31));
}

#[test]
fn keypad_events() {
    let mut k = Keypad::new();
    let events = vec![
        InputEvent::KeyDown { keycode: 113, repeat: false },
        InputEvent::KeyDown { keycode: 118, repeat: false },
        InputEvent::KeyUp { keycode: 118 },
        InputEvent::KeyDown { keycode: 49, repeat: true },
        InputEvent::Other,
    ];
    assert_eq!(k.check_inputs(&events), EmulatorState::Playing);
    assert!(k.is_pressed(4));
    assert!(!k.is_pressed(15));
    assert!(!k.is_pressed(0));
}

#[test]
fn keypad_stop_and_pause() {
    let mut k = Keypad::new();
    let events = vec![
        InputEvent::KeyDown { keycode: 32, repeat: false },
        InputEvent::KeyDown { keycode: 119, repeat: false },
    ];
    assert_eq!(k.check_inputs(&events), EmulatorState::Paused);
    assert!(!k.is_pressed(5));

    let events = vec![InputEvent::KeyDown { keycode: 27, repeat: false }];
    assert_eq!(k.check_inputs(&events), EmulatorState::Stopped);
    assert_eq!(k.check_inputs(&vec![InputEvent::Quit]), EmulatorState::Stopped);
    assert_eq!(k.check_inputs(&vec![InputEvent::WindowClose]), EmulatorState::Stopped);
}

#[test]
fn emulator_state_transitions() {
    assert_eq!(Playing.next(Paused), Paused);
    assert_eq!(Playing.next(Playing), Playing);
    assert_eq!(Playing.next(Stopped), Stopped);
    assert_eq!(Paused.next(Paused), Playing);
    assert_eq!(Paused.next(Playing), Paused);
    assert_eq!(Paused.next(Stopped), Stopped);
    assert_eq!(Stopped.next(Playing), Stopped);
    assert!(Playing.is_running());
    assert!(!Paused.is_running());
}

#[test]
fn rom_selection() {
    assert_eq!(selection_index(1, 3), Some(0));
    assert_eq!(selection_index(3, 3), Some(2));
    assert_eq!(selection_index(0, 3), None);
    assert_eq!(selection_index(4, 3), None);
}
