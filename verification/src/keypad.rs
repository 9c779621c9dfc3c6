//! The keypad as the machine sees it: sixteen keys, `0` to `F`.
//!
//! The host polls its input device and keeps a [`Keypad`] up to date. The
//! machine asks it two things: whether a given key is held down now, and
//! whether a key has gone down since the host last cleared the report.

use vstd::prelude::*;

verus! {

/// The number of keys.
pub const KEY_COUNT: usize = 16;

/// What a [`Keypad`] holds.
pub ghost struct KeypadState {
    /// For each key, whether it is held down.
    pub held: Seq<bool>,
    /// The key that went down last, if the report was not cleared since.
    pub pressed: Option<u8>,
}

impl KeypadState {
    /// There are sixteen keys, and a reported key is one of them.
    pub open spec fn well_formed(self) -> bool {
        &&& self.held.len() == KEY_COUNT
        &&& (self.pressed matches Some(k) ==> k < KEY_COUNT)
    }

    /// A keypad on which nothing is held and nothing was pressed.
    pub open spec fn idle() -> KeypadState {
        KeypadState { held: Seq::new(KEY_COUNT as nat, |k: int| false), pressed: None }
    }

    /// Whether the key with the value `key` is held down. A value above `F`
    /// names no key, and is held by nobody.
    pub open spec fn is_held(self, key: u8) -> bool {
        key < KEY_COUNT && self.held[key as int]
    }
}

/// The state of the sixteen keys.
#[derive(Debug)]
pub struct Keypad {
    held: [bool; 16],
    pressed: Option<u8>,
}

impl Keypad {
    #[verifier::type_invariant]
    spec fn inv(self) -> bool {
        self.pressed matches Some(k) ==> k < KEY_COUNT
    }

    /// The keys as plain values.
    pub closed spec fn view(&self) -> KeypadState {
        KeypadState { held: self.held@, pressed: self.pressed }
    }

    /// A keypad on which nothing is held and nothing was pressed.
    pub fn new() -> (keys: Keypad)
        ensures
            keys@ == KeypadState::idle(),
            keys@.well_formed(),
    {
        let keys = Keypad { held: [false; 16], pressed: None };
        assert(keys@.held =~= KeypadState::idle().held);
        keys
    }

    /// The key `key` goes down: it is held from now on, and it is the key
    /// that the next report names.
    pub fn press(&mut self, key: u8)
        requires
            key < KEY_COUNT,
        ensures
            final(self)@ == (KeypadState {
                held: old(self)@.held.update(key as int, true),
                pressed: Some(key),
            }),
            final(self)@.well_formed(),
    {
        proof {
            use_type_invariant(&*self);
        }
        self.held[key as usize] = true;
        self.pressed = Some(key);
    }

    /// The key `key` comes up.
    pub fn release(&mut self, key: u8)
        requires
            key < KEY_COUNT,
        ensures
            final(self)@ == (KeypadState {
                held: old(self)@.held.update(key as int, false),
                ..old(self)@
            }),
            final(self)@.well_formed(),
    {
        proof {
            use_type_invariant(&*self);
        }
        self.held[key as usize] = false;
    }

    /// Forgets the reported key press. The host does this once the machine
    /// has seen the report.
    pub fn clear_pressed(&mut self)
        ensures
            final(self)@ == (KeypadState { pressed: None, ..old(self)@ }),
            final(self)@.well_formed(),
    {
        proof {
            use_type_invariant(&*self);
        }
        self.pressed = None;
    }

    /// Whether the key with the value `key` is held down.
    pub fn is_held(&self, key: u8) -> (held: bool)
        ensures
            held == self@.is_held(key),
    {
        if key < 16 {
            self.held[key as usize]
        } else {
            false
        }
    }

    /// The key that went down since the report was last cleared, if any.
    pub fn pressed(&self) -> (key: Option<u8>)
        ensures
            key == self@.pressed,
            self@.well_formed(),
    {
        proof {
            use_type_invariant(self);
        }
        self.pressed
    }
}

} // verus!
