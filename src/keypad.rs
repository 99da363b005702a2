use vstd::prelude::*;

use crate::config::{key_code, keymapping, KEY_ESCAPE, PAUSE_KEY};
use crate::emulator::EmulatorState;

verus! {

/// Number of keys on the keypad.
pub const KEYS: usize = 16;

/// A keyboard or window event, as the outer loop receives it, with keys given
/// by their SDL key codes.
#[derive(Clone, Copy, Debug, PartialEq, Eq, Structural)]
pub enum InputEvent {
    /// The user asked to quit.
    Quit,
    /// The window was closed.
    WindowClose,
    /// A key went down; `repeat` is set for auto-repeated presses.
    KeyDown { keycode: i32, repeat: bool },
    /// A key went up.
    KeyUp { keycode: i32 },
    /// Anything else.
    Other,
}

/// The keypad state after marking every keypad key bound to `code` as `down`.
pub open spec fn set_bound_keys(keys: Seq<bool>, code: i32, down: bool) -> Seq<bool> {
    Seq::new(keys.len(), |k: int| if key_code(k) == code { down } else { keys[k] })
}

/// Effect of one event: the new key states, and the state that ends input
/// handling, if the event ends it.
pub open spec fn event_effect(keys: Seq<bool>, event: InputEvent) -> (Seq<bool>, Option<EmulatorState>) {
    match event {
        InputEvent::Quit => (keys, Some(EmulatorState::Stopped)),
        InputEvent::WindowClose => (keys, Some(EmulatorState::Stopped)),
        InputEvent::KeyDown { keycode, repeat } => {
            if keycode == KEY_ESCAPE {
                (keys, Some(EmulatorState::Stopped))
            } else if keycode == PAUSE_KEY {
                (keys, Some(EmulatorState::Paused))
            } else if repeat {
                (keys, None)
            } else {
                (set_bound_keys(keys, keycode, true), None)
            }
        },
        InputEvent::KeyUp { keycode } => (set_bound_keys(keys, keycode, false), None),
        InputEvent::Other => (keys, None),
    }
}

/// Effect of a batch of events handled in order: handling stops at the first
/// event that ends it, and reports playing if none does.
pub open spec fn events_effect(keys: Seq<bool>, events: Seq<InputEvent>) -> (Seq<bool>, EmulatorState)
    decreases events.len(),
{
    if events.len() == 0 {
        (keys, EmulatorState::Playing)
    } else {
        let (next, end) = event_effect(keys, events[0]);
        match end {
            Some(state) => (next, state),
            None => events_effect(next, events.drop_first()),
        }
    }
}

/// The sixteen-key hexadecimal keypad: which keys are currently held down.
pub struct Keypad {
    pressed: Vec<bool>,
}

impl View for Keypad {
    type V = Seq<bool>;

    closed spec fn view(&self) -> Seq<bool> {
        self.pressed@
    }
}

impl Keypad {
    pub open spec fn wf(&self) -> bool {
        self@.len() == KEYS
    }

    /// A keypad with no key held.
    pub fn new() -> (k: Keypad)
        ensures
            k.wf(),
            k@ == Seq::new(KEYS as nat, |i: int| false),
    {
        let mut pressed: Vec<bool> = Vec::new();
        while pressed.len() < KEYS
            invariant
                pressed.len() <= KEYS,
                forall|i: int| 0 <= i < pressed.len() ==> !pressed@[i],
            decreases KEYS - pressed.len(),
        {
            pressed.push(false);
        }
        let k = Keypad { pressed };
        assert(k@ =~= Seq::new(KEYS as nat, |i: int| false));
        k
    }

    /// Whether keypad key `key` is held down.
    pub fn is_pressed(&self, key: usize) -> (down: bool)
        requires
            self.wf(),
            key < KEYS,
        ensures
            down == self@[key as int],
    {
        self.pressed[key]
    }

    /// Marks keypad key `key` as held down or released.
    pub fn set_pressed(&mut self, key: usize, down: bool)
        requires
            old(self).wf(),
            key < KEYS,
        ensures
            final(self).wf(),
            final(self)@ == old(self)@.update(key as int, down),
    {
        self.pressed.set(key, down);
    }

    /// Marks every key bound to the SDL key code `code` as `down`.
    fn set_bound(&mut self, code: i32, down: bool)
        requires
            old(self).wf(),
        ensures
            final(self)@ == set_bound_keys(old(self)@, code, down),
    {
        let ghost before = self@;
        let mut i: usize = 0;
        while i < KEYS
            invariant
                i <= KEYS,
                self@.len() == KEYS,
                before.len() == KEYS,
                forall|k: int| 0 <= k < i ==> self@[k] == set_bound_keys(before, code, down)[k],
                forall|k: int| i <= k < KEYS ==> self@[k] == before[k],
            decreases KEYS - i,
        {
            if keymapping(i) == code {
                self.pressed.set(i, down);
            }
            i = i + 1;
        }
        assert(self@ =~= set_bound_keys(before, code, down));
    }

    /// Applies one event; returns the state that ends input handling, if the
    /// event ends it.
    pub fn handle_event(&mut self, event: InputEvent) -> (end: Option<EmulatorState>)
        requires
            old(self).wf(),
        ensures
            final(self).wf(),
            (final(self)@, end) == event_effect(old(self)@, event),
    {
        match event {
            InputEvent::Quit => Some(EmulatorState::Stopped),
            InputEvent::WindowClose => Some(EmulatorState::Stopped),
            InputEvent::KeyDown { keycode, repeat } => {
                if keycode == KEY_ESCAPE {
                    Some(EmulatorState::Stopped)
                } else if keycode == PAUSE_KEY {
                    Some(EmulatorState::Paused)
                } else {
                    if !repeat {
                        self.set_bound(keycode, true);
                    }
                    None
                }
            },
            InputEvent::KeyUp { keycode } => {
                self.set_bound(keycode, false);
                None
            },
            InputEvent::Other => None,
        }
    }

    /// Applies a batch of events in order, stopping at the first one that
    /// asks to stop or to pause, and returns the state the emulator should
    /// move to: stopped, paused, or playing if no event said otherwise.
    pub fn check_inputs(&mut self, events: &Vec<InputEvent>) -> (state: EmulatorState)
        requires
            old(self).wf(),
        ensures
            final(self).wf(),
            (final(self)@, state) == events_effect(old(self)@, events@),
    {
        let mut i: usize = 0;
        assert(events@.skip(0) =~= events@);
        while i < events.len()
            invariant
                i <= events.len(),
                self.wf(),
                events_effect(old(self)@, events@) == events_effect(self@, events@.skip(i as int)),
            decreases events.len() - i,
        {
            let end = self.handle_event(events[i]);
            assert(events@.skip(i as int).drop_first() =~= events@.skip(i as int + 1));
            match end {
                Some(state) => {
                    return state;
                },
                None => {},
            }
            i = i + 1;
        }
        EmulatorState::Playing
    }
}

} // verus!
