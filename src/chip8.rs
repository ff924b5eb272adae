use vstd::prelude::*;
use crate::connector::{Connector, Peripherals};
use crate::cpu::{Cpu, CpuState, Machine, Quirks, StepStatus, step_spec, random_byte, REGISTER_COUNT};
use crate::display::SCREEN_CELLS;
use crate::instruction::Chip8Error;
use crate::memory::{MEMORY_SIZE, START_ADDRESS};

verus! {

/// Largest program that fits between the start address and the end of memory.
pub const MAX_PROGRAM_SIZE: usize = 3584;

/// The state of a freshly built machine with the given quirks.
pub open spec fn initial_machine(quirks: Quirks) -> Machine {
    Machine {
        cpu: CpuState {
            regs: Seq::new(REGISTER_COUNT as nat, |j: int| 0u8),
            pc: START_ADDRESS,
            i: 0,
            stack: Seq::empty(),
            quirks,
        },
        io: Peripherals {
            ram: Seq::new(MEMORY_SIZE as nat, |a: int| 0u8),
            screen: Seq::new(SCREEN_CELLS as nat, |p: int| 0u8),
            key: None,
            delay: 0,
            sound: 0,
        },
    }
}

/// `ram` with `data` copied in from the start address on.
pub open spec fn loaded_program(ram: Seq<u8>, data: Seq<u8>) -> Seq<u8> {
    Seq::new(
        ram.len(),
        |a: int|
            if START_ADDRESS <= a < START_ADDRESS + data.len() {
                data[a - START_ADDRESS]
            } else {
                ram[a]
            },
    )
}

/// A complete machine: the instruction engine and what it drives.
pub struct Chip8 {
    connector: Connector,
    cpu: Cpu,
}

impl View for Chip8 {
    type V = Machine;

    closed spec fn view(&self) -> Machine {
        Machine { cpu: self.cpu@, io: self.connector@ }
    }
}

impl Chip8 {
    /// Both parts are well formed.
    pub closed spec fn wf(&self) -> bool {
        self.cpu.wf() && self.connector.wf()
    }

    /// A fresh machine with the default quirks.
    pub fn new() -> (r: Chip8)
        ensures
            r.wf(),
            r@ == initial_machine(Quirks { shift_reads_vy: false, load_store_moves_index: false }),
    {
        Chip8 { connector: Connector::new(), cpu: Cpu::new() }
    }

    /// A fresh machine with the given quirks.
    pub fn with_quirks(quirks: Quirks) -> (r: Chip8)
        ensures
            r.wf(),
            r@ == initial_machine(quirks),
    {
        Chip8 { connector: Connector::new(), cpu: Cpu::with_quirks(quirks) }
    }

    /// Copies `data` verbatim into memory from the start address on. A program
    /// that does not fit is refused with nothing written.
    pub fn load_rom(&mut self, data: &Vec<u8>) -> (r: Result<(), Chip8Error>)
        requires
            old(self).wf(),
        ensures
            final(self).wf(),
            r is Ok <==> data@.len() <= MAX_PROGRAM_SIZE,
            r is Ok ==> final(self)@ == (Machine {
                io: Peripherals { ram: loaded_program(old(self)@.io.ram, data@), ..old(self)@.io },
                ..old(self)@
            }),
            r is Err ==> r == Err::<(), Chip8Error>(Chip8Error::OutOfRangeAccess) && final(self)@
                == old(self)@,
    {
        if data.len() > MAX_PROGRAM_SIZE {
            return Err(Chip8Error::OutOfRangeAccess);
        }
        let ghost io0 = self.connector@;
        let mut value: usize = 0;
        assert(self.connector@.ram =~= loaded_program(io0.ram, data@.subrange(0, 0)));
        while value < data.len()
            invariant
                self.wf(),
                self.cpu@ == old(self)@.cpu,
                data@.len() <= MAX_PROGRAM_SIZE,
                value <= data@.len(),
                self.connector@ == (Peripherals {
                    ram: loaded_program(io0.ram, data@.subrange(0, value as int)),
                    ..io0
                }),
            decreases data@.len() - value,
        {
            self.connector.write_byte_ram(START_ADDRESS + value as u16, data[value]);
            assert(self.connector@.ram =~= loaded_program(
                io0.ram,
                data@.subrange(0, value + 1),
            ));
            value = value + 1;
        }
        assert(data@.subrange(0, value as int) =~= data@);
        Ok(())
    }

    /// One fetch-decode-execute cycle with `random` as the byte that a random
    /// instruction draws. The timers are not touched: they run on their own
    /// clock, see `tick`.
    pub fn step(&mut self, random: u8) -> (r: Result<StepStatus, Chip8Error>)
        requires
            old(self).wf(),
        ensures
            final(self).wf(),
            (final(self)@, r) == step_spec(old(self)@, random),
    {
        self.cpu.step(&mut self.connector, random)
    }

    /// One fetch-decode-execute cycle; a random instruction draws its byte
    /// from the thread-local generator.
    pub fn run_instruction(&mut self) -> (r: Result<StepStatus, Chip8Error>)
        requires
            old(self).wf(),
        ensures
            final(self).wf(),
            exists|random: u8| (final(self)@, r) == step_spec(#[trigger] old(self)@, random),
    {
        let random = random_byte();
        self.step(random)
    }

    /// One beat of the timer clock: the delay timer drops by 1 unless it is 0.
    pub fn tick(&mut self)
        requires
            old(self).wf(),
        ensures
            final(self).wf(),
            final(self)@ == (Machine {
                io: Peripherals {
                    delay: if old(self)@.io.delay > 0 {
                        (old(self)@.io.delay - 1) as u8
                    } else {
                        0u8
                    },
                    ..old(self)@.io
                },
                ..old(self)@
            }),
    {
        self.connector.tick();
    }

    /// The screen's cells, row by row, each 0 or 1.
    pub fn get_dislay(&self) -> (r: &[u8])
        ensures
            r@ == self@.io.screen,
    {
        self.connector.get_display()
    }

    /// The sound timer, which an audio driver may poll.
    pub fn get_sound_timer(&self) -> (r: u8)
        ensures
            r == self@.io.sound,
    {
        self.connector.get_sound_timer()
    }

    /// The delay timer.
    pub fn get_delay_timer(&self) -> (r: u8)
        ensures
            r == self@.io.delay,
    {
        self.connector.get_delay_timer()
    }

    /// Overwrites the input latch.
    pub fn change_key_pressed(&mut self, key: Option<u8>)
        requires
            old(self).wf(),
        ensures
            final(self).wf(),
            final(self)@ == (Machine { io: Peripherals { key, ..old(self)@.io }, ..old(self)@ }),
    {
        self.connector.change_key_pressed(key);
    }
}

} // verus!
