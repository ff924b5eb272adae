use vstd::prelude::*;

verus! {

/// The input latch: at most one logical key code pressed at a time.
pub struct Input {
    key_pressed: Option<u8>,
}

impl View for Input {
    type V = Option<u8>;

    closed spec fn view(&self) -> Option<u8> {
        self.key_pressed
    }
}

impl Input {
    /// A latch with no key pressed.
    pub fn new() -> (r: Input)
        ensures
            r@ == None::<u8>,
    {
        Input { key_pressed: None }
    }

    /// Whether the latched key is `key_tested`.
    pub fn is_key_pressed(&self, key_tested: u8) -> (r: bool)
        ensures
            r == (self@ == Some(key_tested)),
    {
        if let Some(key) = self.key_pressed {
            key == key_tested
        } else {
            false
        }
    }

    /// Overwrites the latch.
    pub fn change_key_pressed(&mut self, key: Option<u8>)
        ensures
            final(self)@ == key,
    {
        self.key_pressed = key;
    }

    /// The latched key, if any.
    pub fn get_key_pressed(&self) -> (r: Option<u8>)
        ensures
            r == self@,
    {
        self.key_pressed
    }
}

/// A key of the host keyboard, as the emulator's key layout sees it: the
/// sixteen keys that stand for the keypad, and every other key.
#[derive(Clone, Copy, Debug, PartialEq, Eq, Structural)]
pub enum HostKey {
    A,
    Z,
    E,
    R,
    Q,
    S,
    D,
    F,
    W,
    X,
    C,
    V,
    U,
    I,
    O,
    P,
    Other,
}

/// The keypad code that a host key stands for. The four rows of host keys
/// `A Z E R`, `Q S D F`, `W X C V`, `U I O P` stand for the keypad rows
/// `1 2 3 C`, `4 5 6 D`, `7 8 9 E`, `A 0 B F`.
pub open spec fn keycode_of(key: Option<HostKey>) -> Option<u8> {
    match key {
        Some(HostKey::A) => Some(0x1u8),
        Some(HostKey::Z) => Some(0x2u8),
        Some(HostKey::E) => Some(0x3u8),
        Some(HostKey::R) => Some(0xCu8),
        Some(HostKey::Q) => Some(0x4u8),
        Some(HostKey::S) => Some(0x5u8),
        Some(HostKey::D) => Some(0x6u8),
        Some(HostKey::F) => Some(0xDu8),
        Some(HostKey::W) => Some(0x7u8),
        Some(HostKey::X) => Some(0x8u8),
        Some(HostKey::C) => Some(0x9u8),
        Some(HostKey::V) => Some(0xEu8),
        Some(HostKey::U) => Some(0xAu8),
        Some(HostKey::I) => Some(0x0u8),
        Some(HostKey::O) => Some(0xBu8),
        Some(HostKey::P) => Some(0xFu8),
        _ => None,
    }
}

} // verus!
