//! The rule by which a keyboard hands out one character per key press.

use vstd::prelude::*;

verus! {

/// What a key did.
#[derive(Clone, Copy, PartialEq, Eq, Debug)]
pub enum KeyState {
    /// The key was released.
    Up,
    /// The key was pressed.
    Down,
    /// The key was pressed and released in one event.
    SingleShot,
}

/// Whether a key is held down, as far as the events have told.
pub struct PCKeyboard {
    /// Whether a key is held down.
    pub pressed: bool,
}

impl PCKeyboard {
    /// A keyboard on which no key is held down.
    pub fn init() -> (keyboard: PCKeyboard)
        ensures
            !keyboard.pressed,
    {
        PCKeyboard { pressed: false }
    }

    /// Takes note of a key event and says whether it is a fresh press, whose
    /// character is to be handed out.
    ///
    /// A press counts where no key was held down, and a key is held down from
    /// then on. A further press while a key is held down does not count. A
    /// release ends the holding. A single shot changes nothing and does not
    /// count.
    pub fn on_key_event(&mut self, state: KeyState) -> (fresh: bool)
        ensures
            fresh == (state == KeyState::Down && !old(self).pressed),
            final(self).pressed == (match state {
                KeyState::Down => true,
                KeyState::Up => false,
                KeyState::SingleShot => old(self).pressed,
            }),
    {
        match (state, self.pressed) {
            (KeyState::Down, true) => false,
            (KeyState::Down, false) => {
                self.pressed = true;
                true
            },
            (KeyState::Up, true) => {
                self.pressed = false;
                false
            },
            (KeyState::Up, false) => false,
            (KeyState::SingleShot, _) => false,
        }
    }
}

} // verus!
