use vstd::prelude::*;

verus! {

/// What the emulator's outer loop is doing.
#[derive(Clone, Copy, Debug, PartialEq, Eq, Structural)]
pub enum EmulatorState {
    Playing,
    Paused,
    Stopped,
}

impl EmulatorState {
    /// The state after a round of input handling that reported `input`.
    pub open spec fn next_spec(self, input: EmulatorState) -> EmulatorState {
        match self {
            EmulatorState::Stopped => EmulatorState::Stopped,
            EmulatorState::Paused => match input {
                EmulatorState::Paused => EmulatorState::Playing,
                EmulatorState::Stopped => EmulatorState::Stopped,
                EmulatorState::Playing => EmulatorState::Paused,
            },
            EmulatorState::Playing => input,
        }
    }

    /// The state after a round of input handling that reported `input`: the
    /// pause key toggles between playing and paused, a stop request is final,
    /// and a stopped emulator stays stopped.
    pub fn next(self, input: EmulatorState) -> (r: EmulatorState)
        ensures
            r == self.next_spec(input),
    {
        match self {
            EmulatorState::Stopped => EmulatorState::Stopped,
            EmulatorState::Paused => match input {
                EmulatorState::Paused => EmulatorState::Playing,
                EmulatorState::Stopped => EmulatorState::Stopped,
                EmulatorState::Playing => EmulatorState::Paused,
            },
            EmulatorState::Playing => input,
        }
    }

    /// Whether the machine should run instructions and tick its timers.
    pub fn is_running(&self) -> (r: bool)
        ensures
            r == (*self == EmulatorState::Playing),
    {
        match self {
            EmulatorState::Playing => true,
            _ => false,
        }
    }
}

/// Position in a list of `count` entries of the entry that a user numbered
/// `choice`, counting from one; `None` when there is no such entry.
pub fn selection_index(choice: usize, count: usize) -> (r: Option<usize>)
    ensures
        r == (if 1 <= choice <= count {
            Some((choice - 1) as usize)
        } else {
            None::<usize>
        }),
{
    if choice > 0 && choice <= count {
        Some(choice - 1)
    } else {
        None
    }
}

} // verus!
