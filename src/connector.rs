use vstd::prelude::*;
use crate::display::{Display, drawn_row, row_collides, is_bitmap, SCREEN_CELLS};
use crate::input::{Input, HostKey, keycode_of};
use crate::memory::{Ram, MEMORY_SIZE};

verus! {

/// What the instruction engine sees of the machine around it.
pub ghost struct Peripherals {
    pub ram: Seq<u8>,
    pub screen: Seq<u8>,
    pub key: Option<u8>,
    pub delay: u8,
    pub sound: u8,
}

/// Memory, display, input latch and the two timers.
pub struct Connector {
    ram: Ram,
    input: Input,
    display: Display,
    delay_timer: u8,
    sound_timer: u8,
}

impl View for Connector {
    type V = Peripherals;

    closed spec fn view(&self) -> Peripherals {
        Peripherals {
            ram: self.ram@,
            screen: self.display@,
            key: self.input@,
            delay: self.delay_timer,
            sound: self.sound_timer,
        }
    }
}

impl Connector {
    /// Memory has its fixed size and the screen is a bitmap of its fixed size.
    pub open spec fn wf(&self) -> bool {
        self@.ram.len() == MEMORY_SIZE && is_bitmap(self@.screen)
    }

    /// Zeroed memory, a blank screen, no key, both timers at 0.
    pub fn new() -> (r: Connector)
        ensures
            r.wf(),
            r@ == (Peripherals {
                ram: Seq::new(MEMORY_SIZE as nat, |a: int| 0u8),
                screen: Seq::new(SCREEN_CELLS as nat, |p: int| 0u8),
                key: None,
                delay: 0,
                sound: 0,
            }),
    {
        let r = Connector {
            ram: Ram::new(),
            input: Input::new(),
            display: Display::new(),
            delay_timer: 0,
            sound_timer: 0,
        };
        r
    }

    /// The byte of memory at `address`.
    pub fn read_byte_ram(&self, address: u16) -> (r: u8)
        requires
            self.wf(),
            (address as int) < MEMORY_SIZE,
        ensures
            r == self@.ram[address as int],
    {
        self.ram.read_byte(address)
    }

    /// Stores `value` in memory at `address`.
    pub fn write_byte_ram(&mut self, address: u16, value: u8)
        requires
            old(self).wf(),
            (address as int) < MEMORY_SIZE,
        ensures
            final(self).wf(),
            final(self)@ == (Peripherals { ram: old(self)@.ram.update(address as int, value), ..old(self)@ }),
    {
        self.ram.write_byte(address, value);
    }

    /// Draws the row byte `b` at `(x, y)`; returns whether a set cell was
    /// cleared.
    pub fn debug_draw_byte(&mut self, b: u8, x: u8, y: u8) -> (collision: bool)
        requires
            old(self).wf(),
        ensures
            final(self).wf(),
            final(self)@ == (Peripherals { screen: drawn_row(old(self)@.screen, b, x as int, y as int), ..old(self)@ }),
            collision == row_collides(old(self)@.screen, b, x as int, y as int),
    {
        let r = self.display.debug_draw_sprite(b, x, y);
        r
    }

    /// Sets every cell of the screen to 0.
    pub fn clear_screen(&mut self)
        requires
            old(self).wf(),
        ensures
            final(self).wf(),
            final(self)@ == (Peripherals { screen: Seq::new(SCREEN_CELLS as nat, |p: int| 0u8), ..old(self)@ }),
    {
        self.display.clear_screen();
    }

    /// The screen's cells, row by row.
    pub fn get_display(&self) -> (r: &[u8])
        ensures
            r@ == self@.screen,
    {
        self.display.get_display()
    }

    /// Overwrites the input latch.
    pub fn change_key_pressed(&mut self, key: Option<u8>)
        ensures
            final(self)@ == (Peripherals { key: key, ..old(self)@ }),
    {
        self.input.change_key_pressed(key);
    }

    /// Whether the latched key is `key_tested`.
    pub fn is_key_pressed(&self, key_tested: u8) -> (r: bool)
        ensures
            r == (self@.key == Some(key_tested)),
    {
        self.input.is_key_pressed(key_tested)
    }

    /// The latched key, if any.
    pub fn get_key_pressed(&self) -> (r: Option<u8>)
        ensures
            r == self@.key,
    {
        self.input.get_key_pressed()
    }

    /// The keypad code that a host key stands for, if any.
    pub fn get_keycode_by_key(key: Option<HostKey>) -> (r: Option<u8>)
        ensures
            r == keycode_of(key),
    {
        match key {
            Some(HostKey::A) => Some(0x1),
            Some(HostKey::Z) => Some(0x2),
            Some(HostKey::E) => Some(0x3),
            Some(HostKey::R) => Some(0xC),
            Some(HostKey::Q) => Some(0x4),
            Some(HostKey::S) => Some(0x5),
            Some(HostKey::D) => Some(0x6),
            Some(HostKey::F) => Some(0xD),
            Some(HostKey::W) => Some(0x7),
            Some(HostKey::X) => Some(0x8),
            Some(HostKey::C) => Some(0x9),
            Some(HostKey::V) => Some(0xE),
            Some(HostKey::U) => Some(0xA),
            Some(HostKey::I) => Some(0x0),
            Some(HostKey::O) => Some(0xB),
            Some(HostKey::P) => Some(0xF),
            _ => None,
        }
    }

    /// The delay timer.
    pub fn get_delay_timer(&self) -> (r: u8)
        ensures
            r == self@.delay,
    {
        self.delay_timer
    }

    /// Sets the delay timer.
    pub fn change_delay_timer(&mut self, value: u8)
        ensures
            final(self)@ == (Peripherals { delay: value, ..old(self)@ }),
    {
        self.delay_timer = value;
    }

    /// The sound timer.
    pub fn get_sound_timer(&self) -> (r: u8)
        ensures
            r == self@.sound,
    {
        self.sound_timer
    }

    /// Sets the sound timer.
    pub fn change_sound_timer(&mut self, value: u8)
        ensures
            final(self)@ == (Peripherals { sound: value, ..old(self)@ }),
    {
        self.sound_timer = value;
    }

    /// One beat of the timer clock: the delay timer drops by 1 unless it is
    /// already 0.
    pub fn tick(&mut self)
        ensures
            final(self)@ == (Peripherals {
                delay: if old(self)@.delay > 0 { (old(self)@.delay - 1) as u8 } else { 0u8 },
                ..old(self)@
            }),
    {
        if self.delay_timer > 0 {
            self.delay_timer -= 1;
        }
    }
}

} // verus!
