use vstd::prelude::*;
use crate::connector::{Connector, Peripherals};
use crate::display::{
    drawn_sprite, sprite_collides, sprite_pixel, sprite_pixel_upto, row_pixel, row_offset,
    is_bitmap, lemma_row_shift, lemma_xor_cell, SCREEN_CELLS,
};
use crate::instruction::{Chip8Error, Instruction, decode, decode_spec, operands_in_range};
use crate::memory::{MEMORY_SIZE, START_ADDRESS};

verus! {

/// Most return addresses the call stack holds.
pub const STACK_CAPACITY: usize = 24;

/// Number of general registers.
pub const REGISTER_COUNT: usize = 16;

/// The register that flag-setting instructions write.
pub const FLAG_REGISTER: u8 = 0xF;

/// Points where historical implementations of the instruction set differ.
#[derive(Clone, Copy, Debug, PartialEq, Eq, Structural)]
pub struct Quirks {
    /// Shifts read their source from `Vy` rather than from `Vx`.
    pub shift_reads_vy: bool,
    /// Block load and store leave `I` just past the last byte they touched.
    pub load_store_moves_index: bool,
}

/// How a step that did not fail ended.
#[derive(Clone, Copy, Debug, PartialEq, Eq, Structural)]
pub enum StepStatus {
    /// The instruction was carried out.
    Executed,
    /// A key is awaited: nothing changed and the same instruction runs again
    /// on the next step.
    AwaitingKey,
}

/// The registers, index, program counter and call stack.
pub ghost struct CpuState {
    pub regs: Seq<u8>,
    pub pc: u16,
    pub i: u16,
    pub stack: Seq<u16>,
    pub quirks: Quirks,
}

/// The register file and control state of the machine.
pub struct Cpu {
    vx: Vec<u8>,
    pc: u16,
    i: u16,
    ret_stack: Vec<u16>,
    quirks: Quirks,
}

impl View for Cpu {
    type V = CpuState;

    closed spec fn view(&self) -> CpuState {
        CpuState {
            regs: self.vx@,
            pc: self.pc,
            i: self.i,
            stack: self.ret_stack@,
            quirks: self.quirks,
        }
    }
}

/// The quirks under which shifts read `Vx` and block transfers keep `I`.
pub open spec fn default_quirks() -> Quirks {
    Quirks { shift_reads_vy: false, load_store_moves_index: false }
}

/// The registers of `c` with `x` set to `v`.
pub open spec fn with_reg(c: CpuState, x: u8, v: u8) -> CpuState {
    CpuState { regs: c.regs.update(x as int, v), ..c }
}

/// For every register and every byte: a write then a read of that register
/// gives the byte back, and the other registers keep their values.
pub proof fn lemma_write_then_read(c: CpuState, x: u8, v: u8, other: u8)
    requires
        c.regs.len() == REGISTER_COUNT,
        x < 16,
        other < 16,
        other != x,
    ensures
        with_reg(c, x, v).regs[x as int] == v,
        with_reg(c, x, v).regs[other as int] == c.regs[other as int],
        with_reg(c, x, v).regs.len() == REGISTER_COUNT,
{
}

/// The whole state that a step reads and writes.
pub ghost struct Machine {
    pub cpu: CpuState,
    pub io: Peripherals,
}

/// What a step leaves behind: the new state and how the step ended.
pub type Outcome = (Machine, Result<StepStatus, Chip8Error>);

/// The value of register `x`.
pub open spec fn vreg(m: Machine, x: u8) -> u8 {
    m.cpu.regs[x as int]
}

/// `m` with register `x` set to `v`.
pub open spec fn set_reg(m: Machine, x: u8, v: u8) -> Machine {
    Machine { cpu: with_reg(m.cpu, x, v), ..m }
}

/// `m` with the program counter at `pc`.
pub open spec fn jump_to(m: Machine, pc: int) -> Machine {
    Machine { cpu: CpuState { pc: pc as u16, ..m.cpu }, ..m }
}

/// `m` with the program counter on the next instruction.
pub open spec fn advance(m: Machine) -> Machine {
    jump_to(m, m.cpu.pc + 2)
}

/// `m` with the next instruction skipped when `cond` holds.
pub open spec fn skip_if(m: Machine, cond: bool) -> Machine {
    jump_to(m, m.cpu.pc + if cond { 4int } else { 2int })
}

/// `m` with the index register at `i`.
pub open spec fn set_index(m: Machine, i: u16) -> Machine {
    Machine { cpu: CpuState { i, ..m.cpu }, ..m }
}

/// `m` with the peripherals `io`.
pub open spec fn set_io(m: Machine, io: Peripherals) -> Machine {
    Machine { io, ..m }
}

/// A step that was carried out and left `m`.
pub open spec fn executed(m: Machine) -> Outcome {
    (m, Ok(StepStatus::Executed))
}

/// The register that a shift reads.
pub open spec fn shift_source(m: Machine, x: u8, y: u8) -> u8 {
    if m.cpu.quirks.shift_reads_vy {
        vreg(m, y)
    } else {
        vreg(m, x)
    }
}

/// The index register after a block transfer of registers 0 to `x`.
pub open spec fn index_after_block(m: Machine, x: u8) -> u16 {
    if m.cpu.quirks.load_store_moves_index {
        (m.cpu.i + x + 1) as u16
    } else {
        m.cpu.i
    }
}

/// `ram` with the first `count` registers stored from address `i` on.
pub open spec fn stored_block(ram: Seq<u8>, regs: Seq<u8>, i: int, count: int) -> Seq<u8> {
    Seq::new(ram.len(), |a: int| if i <= a < i + count { regs[a - i] } else { ram[a] })
}

/// `regs` with the first `count` registers loaded from address `i` on.
pub open spec fn loaded_block(regs: Seq<u8>, ram: Seq<u8>, i: int, count: int) -> Seq<u8> {
    Seq::new(regs.len(), |j: int| if j < count { ram[i + j] } else { regs[j] })
}

/// `ram` with the hundreds, tens and ones digits of `v` at `i`, `i + 1`,
/// `i + 2`.
pub open spec fn stored_bcd(ram: Seq<u8>, i: int, v: u8) -> Seq<u8> {
    ram.update(i, v / 100).update(i + 1, (v % 100) / 10).update(i + 2, v % 10)
}

/// The sprite of `n` rows that the index register points at.
pub open spec fn sprite_rows(m: Machine, n: u8) -> Seq<u8> {
    m.io.ram.subrange(m.cpu.i as int, m.cpu.i + n)
}

/// What carrying out `ins` does to `m`; `random` is the byte that a random
/// instruction draws.
pub open spec fn execute_spec(m: Machine, ins: Instruction, random: u8) -> Outcome {
    match ins {
        Instruction::ClearScreen => executed(
            advance(
                set_io(m, Peripherals { screen: Seq::new(SCREEN_CELLS as nat, |p: int| 0u8), ..m.io }),
            ),
        ),
        Instruction::Return => if m.cpu.stack.len() == 0 {
            (m, Err(Chip8Error::StackUnderflow))
        } else {
            executed(
                Machine {
                    cpu: CpuState {
                        pc: m.cpu.stack.last(),
                        stack: m.cpu.stack.drop_last(),
                        ..m.cpu
                    },
                    ..m
                },
            )
        },
        Instruction::Jump { addr } => executed(jump_to(m, addr as int)),
        Instruction::Call { addr } => if m.cpu.stack.len() >= STACK_CAPACITY {
            (m, Err(Chip8Error::StackOverflow))
        } else {
            executed(
                Machine {
                    cpu: CpuState {
                        pc: addr,
                        stack: m.cpu.stack.push((m.cpu.pc + 2) as u16),
                        ..m.cpu
                    },
                    ..m
                },
            )
        },
        Instruction::SkipEqImm { x, nn } => executed(skip_if(m, vreg(m, x) == nn)),
        Instruction::SkipNeImm { x, nn } => executed(skip_if(m, vreg(m, x) != nn)),
        Instruction::SkipEqReg { x, y } => executed(skip_if(m, vreg(m, x) == vreg(m, y))),
        Instruction::SkipNeReg { x, y } => executed(skip_if(m, vreg(m, x) != vreg(m, y))),
        Instruction::SetImm { x, nn } => executed(advance(set_reg(m, x, nn))),
        Instruction::AddImm { x, nn } => executed(
            advance(set_reg(m, x, ((vreg(m, x) + nn) % 256) as u8)),
        ),
        Instruction::Move { x, y } => executed(advance(set_reg(m, x, vreg(m, y)))),
        Instruction::Or { x, y } => executed(advance(set_reg(m, x, vreg(m, x) | vreg(m, y)))),
        Instruction::And { x, y } => executed(advance(set_reg(m, x, vreg(m, x) & vreg(m, y)))),
        Instruction::Xor { x, y } => executed(advance(set_reg(m, x, vreg(m, x) ^ vreg(m, y)))),
        Instruction::AddReg { x, y } => {
            let sum = vreg(m, x) + vreg(m, y);
            executed(
                advance(
                    set_reg(
                        set_reg(m, x, (sum % 256) as u8),
                        FLAG_REGISTER,
                        if sum > 255 { 1u8 } else { 0u8 },
                    ),
                ),
            )
        },
        Instruction::SubReg { x, y } => {
            let (a, b) = (vreg(m, x), vreg(m, y));
            executed(
                advance(
                    set_reg(
                        set_reg(m, x, ((a - b + 256) % 256) as u8),
                        FLAG_REGISTER,
                        if a >= b { 1u8 } else { 0u8 },
                    ),
                ),
            )
        },
        Instruction::SubRegRev { x, y } => {
            let (a, b) = (vreg(m, x), vreg(m, y));
            executed(
                advance(
                    set_reg(
                        set_reg(m, x, ((b - a + 256) % 256) as u8),
                        FLAG_REGISTER,
                        if b >= a { 1u8 } else { 0u8 },
                    ),
                ),
            )
        },
        Instruction::ShiftRight { x, y } => {
            let src = shift_source(m, x, y);
            executed(advance(set_reg(set_reg(m, FLAG_REGISTER, src % 2), x, src / 2)))
        },
        Instruction::ShiftLeft { x, y } => {
            let src = shift_source(m, x, y);
            executed(
                advance(set_reg(set_reg(m, FLAG_REGISTER, src / 128), x, ((src * 2) % 256) as u8)),
            )
        },
        Instruction::SetIndex { addr } => executed(advance(set_index(m, addr))),
        Instruction::JumpOffset { addr } => executed(jump_to(m, addr + vreg(m, 0))),
        Instruction::Random { x, nn } => executed(advance(set_reg(m, x, random & nn))),
        Instruction::Draw { x, y, n } => if m.cpu.i + n > MEMORY_SIZE {
            (m, Err(Chip8Error::OutOfRangeAccess))
        } else {
            let rows = sprite_rows(m, n);
            let (vx, vy) = (vreg(m, x) as int, vreg(m, y) as int);
            executed(
                advance(
                    set_reg(
                        set_io(
                            m,
                            Peripherals { screen: drawn_sprite(m.io.screen, rows, vx, vy), ..m.io },
                        ),
                        FLAG_REGISTER,
                        if sprite_collides(m.io.screen, rows, vx, vy) { 1u8 } else { 0u8 },
                    ),
                ),
            )
        },
        Instruction::SkipIfKey { x } => executed(skip_if(m, m.io.key == Some(vreg(m, x)))),
        Instruction::SkipIfNotKey { x } => executed(skip_if(m, m.io.key != Some(vreg(m, x)))),
        Instruction::ReadDelayTimer { x } => executed(advance(set_reg(m, x, m.io.delay))),
        Instruction::AwaitKey { x } => match m.io.key {
            Some(k) => executed(advance(set_reg(m, x, k))),
            None => (m, Ok(StepStatus::AwaitingKey)),
        },
        Instruction::SetDelayTimer { x } => executed(
            advance(set_io(m, Peripherals { delay: vreg(m, x), ..m.io })),
        ),
        Instruction::SetSoundTimer { x } => executed(
            advance(set_io(m, Peripherals { sound: vreg(m, x), ..m.io })),
        ),
        Instruction::AddToIndex { x } => executed(
            advance(set_index(m, ((m.cpu.i + vreg(m, x)) % 0x10000) as u16)),
        ),
        Instruction::FontCharAddress { x } => executed(
            advance(set_index(m, (vreg(m, x) * 5) as u16)),
        ),
        Instruction::StoreBcd { x } => if m.cpu.i + 2 >= MEMORY_SIZE {
            (m, Err(Chip8Error::OutOfRangeAccess))
        } else {
            executed(
                advance(
                    set_io(
                        m,
                        Peripherals {
                            ram: stored_bcd(m.io.ram, m.cpu.i as int, vreg(m, x)),
                            ..m.io
                        },
                    ),
                ),
            )
        },
        Instruction::BlockStore { x } => if m.cpu.i + x >= MEMORY_SIZE {
            (m, Err(Chip8Error::OutOfRangeAccess))
        } else {
            executed(
                advance(
                    set_index(
                        set_io(
                            m,
                            Peripherals {
                                ram: stored_block(m.io.ram, m.cpu.regs, m.cpu.i as int, x + 1),
                                ..m.io
                            },
                        ),
                        index_after_block(m, x),
                    ),
                ),
            )
        },
        Instruction::BlockLoad { x } => if m.cpu.i + x >= MEMORY_SIZE {
            (m, Err(Chip8Error::OutOfRangeAccess))
        } else {
            executed(
                advance(
                    set_index(
                        Machine {
                            cpu: CpuState {
                                regs: loaded_block(m.cpu.regs, m.io.ram, m.cpu.i as int, x + 1),
                                ..m.cpu
                            },
                            ..m
                        },
                        index_after_block(m, x),
                    ),
                ),
            )
        },
    }
}

/// The instruction word at the program counter, high byte first.
pub open spec fn fetch_spec(m: Machine) -> u16 {
    (m.io.ram[m.cpu.pc as int] * 256 + m.io.ram[m.cpu.pc + 1]) as u16
}

/// One fetch-decode-execute cycle. A fetch outside memory and a word that
/// decodes to no instruction fail with nothing changed. A step that was
/// carried out but left the program counter where it was fails with
/// `StalledProgramCounter`, with its effects kept; awaiting a key is no stall.
pub open spec fn step_spec(m: Machine, random: u8) -> Outcome {
    if m.cpu.pc + 1 >= MEMORY_SIZE {
        (m, Err(Chip8Error::OutOfRangeAccess))
    } else {
        match decode_spec(fetch_spec(m)) {
            Err(e) => (m, Err(e)),
            Ok(ins) => {
                let (m2, r) = execute_spec(m, ins, random);
                if r == Ok::<StepStatus, Chip8Error>(StepStatus::Executed) && m2.cpu.pc == m.cpu.pc {
                    (m2, Err(Chip8Error::StalledProgramCounter))
                } else {
                    (m2, r)
                }
            },
        }
    }
}

/// A call to `addr` followed by a return: the call lands on `addr`, and the
/// return brings the program counter to the instruction after the call, with
/// the stack, registers and peripherals as they were.
pub proof fn lemma_call_then_return(m: Machine, addr: u16, random: u8)
    requires
        m.cpu.stack.len() < STACK_CAPACITY,
        m.cpu.pc + 2 <= 0xFFFF,
    ensures
        ({
            let (m1, r1) = execute_spec(m, Instruction::Call { addr }, random);
            let (m2, r2) = execute_spec(m1, Instruction::Return, random);
            &&& r1 == Ok::<StepStatus, Chip8Error>(StepStatus::Executed)
            &&& m1.cpu.pc == addr
            &&& r2 == Ok::<StepStatus, Chip8Error>(StepStatus::Executed)
            &&& m2.cpu.pc == m.cpu.pc + 2
            &&& m2 == jump_to(m, m.cpu.pc + 2)
        }),
{
    let (m1, r1) = execute_spec(m, Instruction::Call { addr }, random);
    assert(m1.cpu.stack.drop_last() =~= m.cpu.stack);
}

/// The machine after `k` calls to `addr` in a row, each made where the one
/// before landed; the first failure stops the run.
pub open spec fn nested_calls(m: Machine, addr: u16, k: nat) -> Outcome
    decreases k,
{
    if k == 0 {
        executed(m)
    } else {
        let (m1, r1) = nested_calls(m, addr, (k - 1) as nat);
        if r1 is Err {
            (m1, r1)
        } else {
            execute_spec(m1, Instruction::Call { addr }, 0)
        }
    }
}

/// Up to the stack's capacity, nested calls all succeed and each holds one
/// more return address.
pub proof fn lemma_nested_calls_fit(m: Machine, addr: u16, k: nat)
    requires
        m.cpu.stack.len() == 0,
        m.cpu.pc + 2 <= 0xFFFF,
        addr + 2 <= 0xFFFF,
        k <= STACK_CAPACITY,
    ensures
        nested_calls(m, addr, k).1 == Ok::<StepStatus, Chip8Error>(StepStatus::Executed),
        nested_calls(m, addr, k).0.cpu.stack.len() == k,
        k > 0 ==> nested_calls(m, addr, k).0.cpu.pc == addr,
        k == 0 ==> nested_calls(m, addr, k).0.cpu.pc == m.cpu.pc,
    decreases k,
{
    if k > 0 {
        lemma_nested_calls_fit(m, addr, (k - 1) as nat);
    }
}

/// From an empty stack, 24 nested calls succeed and the 25th fails with
/// `StackOverflow`, leaving the machine as the 24th call left it.
pub proof fn lemma_call_depth_limit(m: Machine, addr: u16)
    requires
        m.cpu.stack.len() == 0,
        m.cpu.pc + 2 <= 0xFFFF,
        addr + 2 <= 0xFFFF,
    ensures
        nested_calls(m, addr, 24).1 == Ok::<StepStatus, Chip8Error>(StepStatus::Executed),
        nested_calls(m, addr, 24).0.cpu.stack.len() == 24,
        nested_calls(m, addr, 25) == (nested_calls(m, addr, 24).0, Err::<StepStatus, Chip8Error>(
            Chip8Error::StackOverflow,
        )),
{
    lemma_nested_calls_fit(m, addr, 24);
}

/// Each conditional skip moves the program counter by exactly 4 when its
/// condition holds and by exactly 2 when it does not, and changes nothing
/// else.
pub proof fn lemma_skip_distance(m: Machine, x: u8, y: u8, nn: u8, random: u8)
    requires
        m.cpu.pc + 4 <= 0xFFFF,
    ensures
        ({
            let (a, b) = (vreg(m, x), vreg(m, y));
            let moved = |d: int| (jump_to(m, m.cpu.pc + d), Ok::<StepStatus, Chip8Error>(StepStatus::Executed));
            &&& execute_spec(m, Instruction::SkipEqImm { x, nn }, random) == moved(if a == nn { 4 } else { 2 })
            &&& execute_spec(m, Instruction::SkipNeImm { x, nn }, random) == moved(if a != nn { 4 } else { 2 })
            &&& execute_spec(m, Instruction::SkipEqReg { x, y }, random) == moved(if a == b { 4 } else { 2 })
            &&& execute_spec(m, Instruction::SkipNeReg { x, y }, random) == moved(if a != b { 4 } else { 2 })
        }),
{
}

/// Relies on rand::random for a byte from the thread-local generator; nothing
/// is known of its value.
#[verifier::external_body]
pub(crate) fn random_byte() -> u8 {
    rand::random::<u8>()
}

impl Cpu {
    /// Sixteen registers and a stack within capacity.
    pub open spec fn wf(&self) -> bool {
        self@.regs.len() == REGISTER_COUNT && self@.stack.len() <= STACK_CAPACITY
    }

    /// Registers and index at 0, an empty stack, the program counter at the
    /// start of the program, and the default quirks.
    pub fn new() -> (r: Cpu)
        ensures
            r.wf(),
            r@ == (CpuState {
                regs: Seq::new(REGISTER_COUNT as nat, |j: int| 0u8),
                pc: START_ADDRESS,
                i: 0,
                stack: Seq::empty(),
                quirks: default_quirks(),
            }),
    {
        Cpu::with_quirks(Quirks { shift_reads_vy: false, load_store_moves_index: false })
    }

    /// As `new`, with the given quirks.
    pub fn with_quirks(quirks: Quirks) -> (r: Cpu)
        ensures
            r.wf(),
            r@ == (CpuState {
                regs: Seq::new(REGISTER_COUNT as nat, |j: int| 0u8),
                pc: START_ADDRESS,
                i: 0,
                stack: Seq::empty(),
                quirks: quirks,
            }),
    {
        let r = Cpu {
            vx: vec![0u8; REGISTER_COUNT],
            pc: START_ADDRESS,
            i: 0,
            ret_stack: Vec::new(),
            quirks,
        };
        assert(r.vx@ =~= Seq::new(REGISTER_COUNT as nat, |j: int| 0u8));
        assert(r.ret_stack@ =~= Seq::<u16>::empty());
        r
    }

    /// Sets register `x` to `value`.
    pub fn write_reg_vx(&mut self, x: u8, value: u8)
        requires
            old(self).wf(),
            x < 16,
        ensures
            final(self).wf(),
            final(self)@ == with_reg(old(self)@, x, value),
    {
        self.vx.set(x as usize, value);
    }

    /// The value of register `x`.
    pub fn read_reg_vx(&self, x: u8) -> (r: u8)
        requires
            self.wf(),
            x < 16,
        ensures
            r == self@.regs[x as int],
    {
        self.vx[x as usize]
    }

    /// The program counter.
    pub fn get_pc(&self) -> (r: u16)
        ensures
            r == self@.pc,
    {
        self.pc
    }

    /// The index register.
    pub fn get_index(&self) -> (r: u16)
        ensures
            r == self@.i,
    {
        self.i
    }

    /// How many return addresses the call stack holds.
    pub fn stack_depth(&self) -> (r: usize)
        ensures
            r == self@.stack.len(),
    {
        self.ret_stack.len()
    }

    /// Draws the `height` rows of the sprite stored at `I` with its top left
    /// cell at `(x, y)`; sets the flag register to 1 if a set cell was cleared
    /// and to 0 otherwise.
    pub fn debug_draw_sprite(&mut self, connector: &mut Connector, x: u8, y: u8, height: u8)
        requires
            old(self).wf(),
            old(connector).wf(),
            height < 16,
            old(self)@.i + height <= MEMORY_SIZE,
        ensures
            final(self).wf(),
            final(connector).wf(),
            ({
                let rows = old(connector)@.ram.subrange(
                    old(self)@.i as int,
                    old(self)@.i + height,
                );
                &&& final(connector)@ == (Peripherals {
                    screen: drawn_sprite(old(connector)@.screen, rows, x as int, y as int),
                    ..old(connector)@
                })
                &&& final(self)@ == with_reg(
                    old(self)@,
                    FLAG_REGISTER,
                    if sprite_collides(old(connector)@.screen, rows, x as int, y as int) {
                        1u8
                    } else {
                        0u8
                    },
                )
            }),
    {
        let ghost io0 = connector@;
        let ghost s0 = connector@.screen;
        let ghost rows = connector@.ram.subrange(self.i as int, self.i + height);
        let mut should_set_vf = false;
        let mut sprite_y: u8 = 0;
        assert forall|p: int| 0 <= p < SCREEN_CELLS implies #[trigger] connector@.screen[p]
            == s0[p] ^ sprite_pixel_upto(rows, x as int, y as int, 0, p) by {
            lemma_xor_cell(s0[p], 0u8);
        }
        assert(connector@.screen =~= Seq::new(
            SCREEN_CELLS as nat,
            |p: int| s0[p] ^ sprite_pixel_upto(rows, x as int, y as int, 0, p),
        ));
        while sprite_y < height
            invariant
                self.wf(),
                connector.wf(),
                sprite_y <= height,
                height < 16,
                self.i + height <= MEMORY_SIZE,
                rows == io0.ram.subrange(self.i as int, self.i + height),
                s0 == io0.screen,
                is_bitmap(s0),
                connector@ == (Peripherals {
                    screen: Seq::new(
                        SCREEN_CELLS as nat,
                        |p: int| s0[p] ^ sprite_pixel_upto(rows, x as int, y as int, sprite_y as int, p),
                    ),
                    ..io0
                }),
                should_set_vf == exists|p: int|
                    0 <= p < SCREEN_CELLS && s0[p] == 1 && #[trigger] sprite_pixel_upto(
                        rows,
                        x as int,
                        y as int,
                        sprite_y as int,
                        p,
                    ) == 1,
            decreases height - sprite_y,
        {
            let b = connector.read_byte_ram(self.i + sprite_y as u16);
            let row_y: u8 = (((y as u16) + (sprite_y as u16)) % 32) as u8;
            let ghost cur = connector@.screen;
            let ghost was = should_set_vf;
            let hit = connector.debug_draw_byte(b, x, row_y);
            if hit {
                should_set_vf = true;
            }
            proof {
                let r = sprite_y as int;
                assert(b == rows[r]);
                assert forall|p: int| 0 <= p < SCREEN_CELLS implies ({
                    &&& (row_offset(y as int, p) == r) ==> (sprite_pixel_upto(
                        rows,
                        x as int,
                        y as int,
                        r,
                        p,
                    ) == 0u8 && sprite_pixel_upto(rows, x as int, y as int, r + 1, p) == row_pixel(
                        b,
                        x as int,
                        row_y as int,
                        p,
                    ))
                    &&& (row_offset(y as int, p) != r) ==> (sprite_pixel_upto(
                        rows,
                        x as int,
                        y as int,
                        r + 1,
                        p,
                    ) == sprite_pixel_upto(rows, x as int, y as int, r, p) && row_pixel(
                        b,
                        x as int,
                        row_y as int,
                        p,
                    ) == 0u8)
                }) by {
                    lemma_row_shift(y as u32, sprite_y as u32, p as u32);
                }
                assert forall|p: int| 0 <= p < SCREEN_CELLS implies #[trigger] connector@.screen[p]
                    == s0[p] ^ sprite_pixel_upto(rows, x as int, y as int, r + 1, p) by {
                    lemma_xor_cell(s0[p], 0u8);
                    lemma_xor_cell(cur[p], 0u8);
                }
                assert(connector@.screen =~= Seq::new(
                    SCREEN_CELLS as nat,
                    |p: int| s0[p] ^ sprite_pixel_upto(rows, x as int, y as int, r + 1, p),
                ));
                if should_set_vf {
                    if was {
                        let w = choose|p: int|
                            0 <= p < SCREEN_CELLS && s0[p] == 1 && #[trigger] sprite_pixel_upto(
                                rows,
                                x as int,
                                y as int,
                                r,
                                p,
                            ) == 1;
                        assert(sprite_pixel_upto(rows, x as int, y as int, r + 1, w) == 1);
                    } else {
                        let w = choose|p: int|
                            0 <= p < cur.len() && cur[p] == 1 && #[trigger] row_pixel(
                                b,
                                x as int,
                                row_y as int,
                                p,
                            ) == 1;
                        lemma_xor_cell(s0[w], 0u8);
                        assert(sprite_pixel_upto(rows, x as int, y as int, r + 1, w) == 1);
                    }
                } else {
                    assert forall|p: int|
                        0 <= p < SCREEN_CELLS && s0[p] == 1 implies #[trigger] sprite_pixel_upto(
                        rows,
                        x as int,
                        y as int,
                        r + 1,
                        p,
                    ) != 1 by {
                        lemma_xor_cell(s0[p], 0u8);
                        if row_offset(y as int, p) != r {
                            assert(sprite_pixel_upto(rows, x as int, y as int, r, p) != 1);
                        } else {
                            assert(!(cur[p] == 1 && row_pixel(b, x as int, row_y as int, p) == 1));
                        }
                    }
                }
            }
            sprite_y = sprite_y + 1;
        }
        proof {
            assert(rows.len() == height);
            assert(connector@.screen =~= drawn_sprite(s0, rows, x as int, y as int));
            if should_set_vf {
                let w = choose|p: int|
                    0 <= p < SCREEN_CELLS && s0[p] == 1 && #[trigger] sprite_pixel_upto(
                        rows,
                        x as int,
                        y as int,
                        height as int,
                        p,
                    ) == 1;
                assert(sprite_pixel(rows, x as int, y as int, w) == 1);
            }
            if sprite_collides(s0, rows, x as int, y as int) {
                let w = choose|p: int|
                    0 <= p < s0.len() && s0[p] == 1 && #[trigger] sprite_pixel(
                        rows,
                        x as int,
                        y as int,
                        p,
                    ) == 1;
                assert(sprite_pixel_upto(rows, x as int, y as int, height as int, w) == 1);
            }
        }
        if should_set_vf {
            self.write_reg_vx(FLAG_REGISTER, 1);
        } else {
            self.write_reg_vx(FLAG_REGISTER, 0);
        }
    }
    /// The state of the machine made of this CPU and `connector`.
    pub open spec fn machine(&self, connector: &Connector) -> Machine {
        Machine { cpu: self@, io: connector@ }
    }

    /// Carries out `ins`, with `random` as the byte a random instruction
    /// draws.
    fn execute(&mut self, connector: &mut Connector, ins: Instruction, random: u8) -> (r: Result<
        StepStatus,
        Chip8Error,
    >)
        requires
            old(self).wf(),
            old(connector).wf(),
            operands_in_range(ins),
            old(self)@.pc + 1 < MEMORY_SIZE,
        ensures
            final(self).wf(),
            final(connector).wf(),
            (final(self).machine(final(connector)), r) == execute_spec(
                old(self).machine(old(connector)),
                ins,
                random,
            ),
    {
        let pc = self.pc;
        match ins {
            Instruction::ClearScreen => {
                connector.clear_screen();
                self.pc = pc + 2;
            },
            Instruction::Return => {
                match self.ret_stack.pop() {
                    Some(addr) => {
                        self.pc = addr;
                    },
                    None => {
                        return Err(Chip8Error::StackUnderflow);
                    },
                }
            },
            Instruction::Jump { addr } => {
                self.pc = addr;
            },
            Instruction::Call { addr } => {
                if self.ret_stack.len() >= STACK_CAPACITY {
                    return Err(Chip8Error::StackOverflow);
                }
                self.ret_stack.push(pc + 2);
                self.pc = addr;
            },
            Instruction::SkipEqImm { x, nn } => {
                let skip = self.read_reg_vx(x) == nn;
                self.pc = if skip { pc + 4 } else { pc + 2 };
            },
            Instruction::SkipNeImm { x, nn } => {
                let skip = self.read_reg_vx(x) != nn;
                self.pc = if skip { pc + 4 } else { pc + 2 };
            },
            Instruction::SkipEqReg { x, y } => {
                let skip = self.read_reg_vx(x) == self.read_reg_vx(y);
                self.pc = if skip { pc + 4 } else { pc + 2 };
            },
            Instruction::SkipNeReg { x, y } => {
                let skip = self.read_reg_vx(x) != self.read_reg_vx(y);
                self.pc = if skip { pc + 4 } else { pc + 2 };
            },
            Instruction::SetImm { x, nn } => {
                self.write_reg_vx(x, nn);
                self.pc = pc + 2;
            },
            Instruction::AddImm { x, nn } => {
                let sum: u16 = self.read_reg_vx(x) as u16 + nn as u16;
                self.write_reg_vx(x, (sum % 256) as u8);
                self.pc = pc + 2;
            },
            Instruction::Move { x, y } => {
                let v = self.read_reg_vx(y);
                self.write_reg_vx(x, v);
                self.pc = pc + 2;
            },
            Instruction::Or { x, y } => {
                let v = self.read_reg_vx(x) | self.read_reg_vx(y);
                self.write_reg_vx(x, v);
                self.pc = pc + 2;
            },
            Instruction::And { x, y } => {
                let v = self.read_reg_vx(x) & self.read_reg_vx(y);
                self.write_reg_vx(x, v);
                self.pc = pc + 2;
            },
            Instruction::Xor { x, y } => {
                let v = self.read_reg_vx(x) ^ self.read_reg_vx(y);
                self.write_reg_vx(x, v);
                self.pc = pc + 2;
            },
            Instruction::AddReg { x, y } => {
                let sum: u16 = self.read_reg_vx(x) as u16 + self.read_reg_vx(y) as u16;
                self.write_reg_vx(x, (sum % 256) as u8);
                self.write_reg_vx(FLAG_REGISTER, if sum > 255 { 1 } else { 0 });
                self.pc = pc + 2;
            },
            Instruction::SubReg { x, y } => {
                let a = self.read_reg_vx(x);
                let b = self.read_reg_vx(y);
                let diff: u16 = (a as u16 + 256) - b as u16;
                self.write_reg_vx(x, (diff % 256) as u8);
                self.write_reg_vx(FLAG_REGISTER, if a >= b { 1 } else { 0 });
                self.pc = pc + 2;
            },
            Instruction::SubRegRev { x, y } => {
                let a = self.read_reg_vx(x);
                let b = self.read_reg_vx(y);
                let diff: u16 = (b as u16 + 256) - a as u16;
                self.write_reg_vx(x, (diff % 256) as u8);
                self.write_reg_vx(FLAG_REGISTER, if b >= a { 1 } else { 0 });
                self.pc = pc + 2;
            },
            Instruction::ShiftRight { x, y } => {
                let src = if self.quirks.shift_reads_vy {
                    self.read_reg_vx(y)
                } else {
                    self.read_reg_vx(x)
                };
                self.write_reg_vx(FLAG_REGISTER, src % 2);
                self.write_reg_vx(x, src / 2);
                self.pc = pc + 2;
            },
            Instruction::ShiftLeft { x, y } => {
                let src = if self.quirks.shift_reads_vy {
                    self.read_reg_vx(y)
                } else {
                    self.read_reg_vx(x)
                };
                self.write_reg_vx(FLAG_REGISTER, src / 128);
                self.write_reg_vx(x, ((src as u16 * 2) % 256) as u8);
                self.pc = pc + 2;
            },
            Instruction::SetIndex { addr } => {
                self.i = addr;
                self.pc = pc + 2;
            },
            Instruction::JumpOffset { addr } => {
                self.pc = addr + self.read_reg_vx(0) as u16;
            },
            Instruction::Random { x, nn } => {
                self.write_reg_vx(x, random & nn);
                self.pc = pc + 2;
            },
            Instruction::Draw { x, y, n } => {
                if self.i as usize + n as usize > MEMORY_SIZE {
                    return Err(Chip8Error::OutOfRangeAccess);
                }
                let vx = self.read_reg_vx(x);
                let vy = self.read_reg_vx(y);
                self.debug_draw_sprite(connector, vx, vy, n);
                self.pc = pc + 2;
            },
            Instruction::SkipIfKey { x } => {
                let skip = connector.is_key_pressed(self.read_reg_vx(x));
                self.pc = if skip { pc + 4 } else { pc + 2 };
            },
            Instruction::SkipIfNotKey { x } => {
                let skip = !connector.is_key_pressed(self.read_reg_vx(x));
                self.pc = if skip { pc + 4 } else { pc + 2 };
            },
            Instruction::ReadDelayTimer { x } => {
                self.write_reg_vx(x, connector.get_delay_timer());
                self.pc = pc + 2;
            },
            Instruction::AwaitKey { x } => {
                match connector.get_key_pressed() {
                    Some(key) => {
                        self.write_reg_vx(x, key);
                        self.pc = pc + 2;
                    },
                    None => {
                        return Ok(StepStatus::AwaitingKey);
                    },
                }
            },
            Instruction::SetDelayTimer { x } => {
                connector.change_delay_timer(self.read_reg_vx(x));
                self.pc = pc + 2;
            },
            Instruction::SetSoundTimer { x } => {
                connector.change_sound_timer(self.read_reg_vx(x));
                self.pc = pc + 2;
            },
            Instruction::AddToIndex { x } => {
                let sum: u32 = self.i as u32 + self.read_reg_vx(x) as u32;
                self.i = (sum % 0x10000) as u16;
                self.pc = pc + 2;
            },
            Instruction::FontCharAddress { x } => {
                self.i = self.read_reg_vx(x) as u16 * 5;
                self.pc = pc + 2;
            },
            Instruction::StoreBcd { x } => {
                if self.i as usize + 2 >= MEMORY_SIZE {
                    return Err(Chip8Error::OutOfRangeAccess);
                }
                let v = self.read_reg_vx(x);
                connector.write_byte_ram(self.i, v / 100);
                connector.write_byte_ram(self.i + 1, (v % 100) / 10);
                connector.write_byte_ram(self.i + 2, v % 10);
                self.pc = pc + 2;
            },
            Instruction::BlockStore { x } => {
                if self.i as usize + x as usize >= MEMORY_SIZE {
                    return Err(Chip8Error::OutOfRangeAccess);
                }
                self.store_block(connector, x);
                self.pc = pc + 2;
            },
            Instruction::BlockLoad { x } => {
                if self.i as usize + x as usize >= MEMORY_SIZE {
                    return Err(Chip8Error::OutOfRangeAccess);
                }
                self.load_block(connector, x);
                self.pc = pc + 2;
            },
        }
        Ok(StepStatus::Executed)
    }

    /// Stores registers 0 to `x` in memory from `I` on, then moves `I` past
    /// them if the quirks say so.
    fn store_block(&mut self, connector: &mut Connector, x: u8)
        requires
            old(self).wf(),
            old(connector).wf(),
            x < 16,
            old(self)@.i + x < MEMORY_SIZE,
        ensures
            final(self).wf(),
            final(connector).wf(),
            final(self).machine(final(connector)) == set_index(
                set_io(
                    old(self).machine(old(connector)),
                    Peripherals {
                        ram: stored_block(old(connector)@.ram, old(self)@.regs, old(self)@.i as int, x + 1),
                        ..old(connector)@
                    },
                ),
                index_after_block(old(self).machine(old(connector)), x),
            ),
    {
        let ghost io0 = connector@;
        let mut j: u8 = 0;
        assert(connector@.ram =~= stored_block(io0.ram, self@.regs, self.i as int, 0));
        while j <= x
            invariant
                self.wf(),
                connector.wf(),
                j <= x + 1,
                x < 16,
                self.i + x < MEMORY_SIZE,
                connector@ == (Peripherals {
                    ram: stored_block(io0.ram, self@.regs, self.i as int, j as int),
                    ..io0
                }),
            decreases x + 1 - j,
        {
            let v = self.read_reg_vx(j);
            connector.write_byte_ram(self.i + j as u16, v);
            assert(connector@.ram =~= stored_block(io0.ram, self@.regs, self.i as int, j + 1));
            j = j + 1;
        }
        if self.quirks.load_store_moves_index {
            self.i = self.i + x as u16 + 1;
        }
    }

    /// Loads registers 0 to `x` from memory from `I` on, then moves `I` past
    /// them if the quirks say so.
    fn load_block(&mut self, connector: &Connector, x: u8)
        requires
            old(self).wf(),
            connector.wf(),
            x < 16,
            old(self)@.i + x < MEMORY_SIZE,
        ensures
            final(self).wf(),
            final(self)@ == (CpuState {
                regs: loaded_block(old(self)@.regs, connector@.ram, old(self)@.i as int, x + 1),
                i: index_after_block(old(self).machine(connector), x),
                ..old(self)@
            }),
    {
        let ghost regs0 = self@.regs;
        let mut j: u8 = 0;
        assert(self@.regs =~= loaded_block(regs0, connector@.ram, self.i as int, 0));
        while j <= x
            invariant
                self.wf(),
                connector.wf(),
                j <= x + 1,
                x < 16,
                self.i + x < MEMORY_SIZE,
                self@ == (CpuState {
                    regs: loaded_block(regs0, connector@.ram, self.i as int, j as int),
                    ..old(self)@
                }),
            decreases x + 1 - j,
        {
            let v = connector.read_byte_ram(self.i + j as u16);
            self.write_reg_vx(j, v);
            assert(self@.regs =~= loaded_block(regs0, connector@.ram, self.i as int, j + 1));
            j = j + 1;
        }
        if self.quirks.load_store_moves_index {
            self.i = self.i + x as u16 + 1;
        }
    }

    /// One fetch-decode-execute cycle, with `random` as the byte that a random
    /// instruction draws.
    pub fn step(&mut self, connector: &mut Connector, random: u8) -> (r: Result<
        StepStatus,
        Chip8Error,
    >)
        requires
            old(self).wf(),
            old(connector).wf(),
        ensures
            final(self).wf(),
            final(connector).wf(),
            (final(self).machine(final(connector)), r) == step_spec(
                old(self).machine(old(connector)),
                random,
            ),
    {
        if self.pc as usize + 1 >= MEMORY_SIZE {
            return Err(Chip8Error::OutOfRangeAccess);
        }
        let high = connector.read_byte_ram(self.pc) as u16;
        let low = connector.read_byte_ram(self.pc + 1) as u16;
        let word: u16 = high * 256 + low;
        let ins = match decode(word) {
            Ok(ins) => ins,
            Err(e) => {
                return Err(e);
            },
        };
        let pc = self.pc;
        let r = self.execute(connector, ins, random);
        match r {
            Ok(StepStatus::Executed) => {
                if self.pc == pc {
                    Err(Chip8Error::StalledProgramCounter)
                } else {
                    r
                }
            },
            _ => r,
        }
    }

    /// One fetch-decode-execute cycle; a random instruction draws its byte
    /// from the thread-local generator.
    pub fn run_instruction(&mut self, connector: &mut Connector) -> (r: Result<
        StepStatus,
        Chip8Error,
    >)
        requires
            old(self).wf(),
            old(connector).wf(),
        ensures
            final(self).wf(),
            final(connector).wf(),
            exists|random: u8|
                (final(self).machine(final(connector)), r) == step_spec(
                    #[trigger] old(self).machine(old(connector)),
                    random,
                ),
    {
        let random = random_byte();
        self.step(connector, random)
    }
}

} // verus!
