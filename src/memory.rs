use vstd::prelude::*;

verus! {

/// Number of addressable bytes.
pub const MEMORY_SIZE: usize = 4096;

/// First address of a loaded program.
pub const START_ADDRESS: u16 = 0x200;

/// The flat byte store of the machine.
pub struct Ram {
    bytes: Vec<u8>,
}

impl View for Ram {
    type V = Seq<u8>;

    closed spec fn view(&self) -> Seq<u8> {
        self.bytes@
    }
}

impl Ram {
    /// A well-formed store holds exactly `MEMORY_SIZE` bytes.
    pub open spec fn wf(&self) -> bool {
        self@.len() == MEMORY_SIZE
    }

    /// A store with every byte zero.
    pub fn new() -> (r: Ram)
        ensures
            r.wf(),
            r@ == Seq::new(MEMORY_SIZE as nat, |a: int| 0u8),
    {
        let r = Ram { bytes: vec![0u8; MEMORY_SIZE] };
        assert(r@ =~= Seq::new(MEMORY_SIZE as nat, |a: int| 0u8));
        r
    }

    /// The byte at `address`.
    pub fn read_byte(&self, address: u16) -> (r: u8)
        requires
            self.wf(),
            (address as int) < MEMORY_SIZE,
        ensures
            r == self@[address as int],
    {
        self.bytes[address as usize]
    }

    /// Stores `value` at `address`; every other byte is kept.
    pub fn write_byte(&mut self, address: u16, value: u8)
        requires
            old(self).wf(),
            (address as int) < MEMORY_SIZE,
        ensures
            final(self).wf(),
            final(self)@ == old(self)@.update(address as int, value),
    {
        self.bytes.set(address as usize, value);
    }
}

} // verus!
