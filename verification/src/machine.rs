//! The register machine: memory, registers, program counter and call stack,
//! and what each instruction does to them.
//!
//! The machine does no input or output. An instruction that needs the host
//! (the screen, a timer, the keypad, a random byte) is carried out in two
//! halves: [`Machine::pending`] says what the host is asked for, and
//! [`Machine::step`] takes the host's answer and finishes the instruction.
//! What a step does is the spec function [`MachineView::step`].

use vstd::prelude::*;
use crate::instruction::Instruction;

verus! {

/// Size of the memory in bytes.
pub const MEM_SIZE: usize = 0x1000;

/// Address of the first font glyph.
pub const FONT_START: usize = 0x50;

/// Size of one font glyph in bytes.
pub const FONT_CHARACTER_BYTES: usize = 5;

/// Address at which programs are loaded and started.
pub const PROGRAM_START: usize = 0x200;

/// The largest value the program counter can take: the highest address plus
/// the largest index of an indexed jump.
pub const PC_MAX: usize = 0x10FE;

/// The usual hexadecimal font: sixteen glyphs of four by five pixels, one
/// row per byte in its high nibble.
pub const DEFAULT_FONT: [u8; 80] = [
    0xF0, 0x90, 0x90, 0x90, 0xF0, // 0
    0x20, 0x60, 0x20, 0x20, 0x70, // 1
    0xF0, 0x10, 0xF0, 0x80, 0xF0, // 2
    0xF0, 0x10, 0xF0, 0x10, 0xF0, // 3
    0x90, 0x90, 0xF0, 0x10, 0x10, // 4
    0xF0, 0x80, 0xF0, 0x10, 0xF0, // 5
    0xF0, 0x80, 0xF0, 0x90, 0xF0, // 6
    0xF0, 0x10, 0x20, 0x40, 0x40, // 7
    0xF0, 0x90, 0xF0, 0x90, 0xF0, // 8
    0xF0, 0x90, 0xF0, 0x10, 0xF0, // 9
    0xF0, 0x90, 0xF0, 0x90, 0x90, // A
    0xE0, 0x90, 0xE0, 0x90, 0xE0, // B
    0xF0, 0x80, 0x80, 0x80, 0xF0, // C
    0xE0, 0x90, 0x90, 0x90, 0xE0, // D
    0xF0, 0x80, 0xF0, 0x80, 0xF0, // E
    0xF0, 0x80, 0xF0, 0x80, 0x80, // F
];

/// Why a machine stopped. Each of these ends the program: the machine
/// refuses every further step until it is loaded again.
#[derive(Debug, Clone, Copy, PartialEq, Eq, Structural)]
pub enum Chip8Error {
    /// The word at the program counter is no instruction.
    InvalidInstruction,
    /// A return with no call to return from.
    StackUnderflow,
    /// An instruction would be fetched from beyond the memory, or a program
    /// or font does not fit into it.
    OutOfMemoryAccess,
}

/// The points on which interpreters of different ages disagree. Every
/// choice that is `false` is the one of today's interpreters, but for the
/// indexed jump, where `false` is the one of the first.
#[derive(Debug, Clone, Copy, PartialEq, Eq, Structural)]
pub struct Quirks {
    /// 8XY6 and 8XYE shift VY and store the result in VX, as the first
    /// interpreters did, instead of shifting VX in place.
    pub shift_reads_vy: bool,
    /// FX55 and FX65 leave I behind the last byte they touched, as the first
    /// interpreters did, instead of leaving it where it was.
    pub memory_moves_index: bool,
    /// BXNN jumps to XNN plus VX, as later interpreters did, instead of
    /// BNNN jumping to NNN plus V0.
    pub jump_adds_vx: bool,
}

impl Quirks {
    /// The usual choices: shifts work on VX alone, I stays where it is, and
    /// the indexed jump adds V0.
    pub open spec fn usual() -> Quirks {
        Quirks { shift_reads_vy: false, memory_moves_index: false, jump_adds_vx: false }
    }
}

impl Default for Quirks {
    fn default() -> (quirks: Quirks)
        ensures
            quirks == Quirks::usual(),
    {
        Quirks { shift_reads_vy: false, memory_moves_index: false, jump_adds_vx: false }
    }
}

/// What the host answered to a [`HostRequest`].
#[derive(Debug, Clone, Copy, PartialEq, Eq, Structural)]
pub enum HostReply {
    /// Nothing was asked, or the request has no answer.
    Nothing,
    /// Whether the drawn sprite turned a lit pixel off.
    Collision(bool),
    /// The key that is down, if any.
    Key(Option<u8>),
    /// The delay timer's value, or a random byte.
    Byte(u8),
}

impl HostReply {
    /// The collision flag in the reply; `false` if it holds none.
    pub open spec fn collision(self) -> bool {
        match self {
            HostReply::Collision(hit) => hit,
            _ => false,
        }
    }

    /// The key in the reply; `None` if it holds none.
    pub open spec fn key(self) -> Option<u8> {
        match self {
            HostReply::Key(key) => key,
            _ => None,
        }
    }

    /// The byte in the reply; 0 if it holds none.
    pub open spec fn byte(self) -> u8 {
        match self {
            HostReply::Byte(byte) => byte,
            _ => 0,
        }
    }
}

/// What the next instruction needs from the host before it can be finished.
#[derive(Debug, PartialEq, Eq)]
pub enum HostRequest {
    /// Nothing: the instruction concerns the machine alone.
    Nothing,
    /// Clear the screen.
    ClearDisplay,
    /// Draw `sprite`, one byte per row, at (`x`, `y`), and answer with
    /// [`HostReply::Collision`].
    Draw { sprite: Vec<u8>, x: u8, y: u8 },
    /// Answer with [`HostReply::Key`].
    ReadKey,
    /// Answer with the delay timer's value in a [`HostReply::Byte`].
    ReadDelayTimer,
    /// Set the delay timer.
    SetDelayTimer { value: u8 },
    /// Start the sound timer.
    StartSound { value: u8 },
    /// Answer with a random [`HostReply::Byte`].
    RandomByte,
}

/// A [`HostRequest`] as a mathematical value.
pub enum HostRequestView {
    Nothing,
    ClearDisplay,
    Draw { sprite: Seq<u8>, x: u8, y: u8 },
    ReadKey,
    ReadDelayTimer,
    SetDelayTimer { value: u8 },
    StartSound { value: u8 },
    RandomByte,
}

impl View for HostRequest {
    type V = HostRequestView;

    open spec fn view(&self) -> HostRequestView {
        match *self {
            HostRequest::Nothing => HostRequestView::Nothing,
            HostRequest::ClearDisplay => HostRequestView::ClearDisplay,
            HostRequest::Draw { sprite, x, y } => HostRequestView::Draw { sprite: sprite@, x, y },
            HostRequest::ReadKey => HostRequestView::ReadKey,
            HostRequest::ReadDelayTimer => HostRequestView::ReadDelayTimer,
            HostRequest::SetDelayTimer { value } => HostRequestView::SetDelayTimer { value },
            HostRequest::StartSound { value } => HostRequestView::StartSound { value },
            HostRequest::RandomByte => HostRequestView::RandomByte,
        }
    }
}

/// The state of a machine as a mathematical value.
#[verifier::ext_equal]
pub struct MachineView {
    /// The memory, byte by byte.
    pub memory: Seq<u8>,
    /// The registers V0 to VF.
    pub registers: Seq<u8>,
    /// The index register I.
    pub index: int,
    /// The program counter: the address of the next instruction.
    pub pc: int,
    /// The return addresses, the latest call last.
    pub stack: Seq<int>,
    /// Why the machine stopped, if it has.
    pub fault: Option<Chip8Error>,
    /// The choices the machine was built with.
    pub quirks: Quirks,
}

/// The address `offset` bytes above `base`, wrapped into the memory.
pub open spec fn wrap_address(base: int, offset: int) -> int {
    (base + offset) % (MEM_SIZE as int)
}

/// The key that a register value names: its low nibble.
pub open spec fn key_named(value: u8) -> u8 {
    (value % 16) as u8
}

impl MachineView {
    /// The shape that every machine keeps: 4 KiB of memory, sixteen
    /// registers, an index register of twelve bits, and a program counter and
    /// return addresses within their bounds.
    pub open spec fn well_formed(self) -> bool {
        &&& self.memory.len() == MEM_SIZE
        &&& self.registers.len() == 16
        &&& 0 <= self.index < MEM_SIZE
        &&& 0 <= self.pc <= PC_MAX
        &&& forall|i: int| 0 <= i < self.stack.len() ==> 0 <= #[trigger] self.stack[i] <= MEM_SIZE
    }

    /// A machine with everything at zero and the usual choices.
    pub open spec fn blank() -> MachineView {
        MachineView {
            memory: Seq::new(MEM_SIZE as nat, |a: int| 0u8),
            registers: Seq::new(16, |i: int| 0u8),
            index: 0,
            pc: 0,
            stack: Seq::empty(),
            fault: None,
            quirks: Quirks::usual(),
        }
    }

    /// Whether a program and a font fit into the memory at their places.
    pub open spec fn fits(program: Seq<u8>, font: Seq<u8>) -> bool {
        PROGRAM_START + program.len() <= MEM_SIZE && FONT_START + font.len() <= MEM_SIZE
    }

    /// A machine ready to run `program`: the memory is zero but for the font
    /// at [`FONT_START`] and the program at [`PROGRAM_START`] (where both
    /// claim a byte, it is the program's), the program counter is at the
    /// program, and registers and stack are clear.
    pub open spec fn loaded(program: Seq<u8>, font: Seq<u8>) -> MachineView {
        MachineView {
            memory: Seq::new(
                MEM_SIZE as nat,
                |a: int|
                    if PROGRAM_START <= a < PROGRAM_START + program.len() {
                        program[a - PROGRAM_START]
                    } else if FONT_START <= a < FONT_START + font.len() {
                        font[a - FONT_START]
                    } else {
                        0u8
                    },
            ),
            pc: PROGRAM_START as int,
            ..MachineView::blank()
        }
    }

    /// Register VX.
    pub open spec fn reg(self, x: u8) -> u8 {
        self.registers[x as int]
    }

    /// The machine with `value` in register VX.
    pub open spec fn set_reg(self, x: u8, value: u8) -> MachineView {
        MachineView { registers: self.registers.update(x as int, value), ..self }
    }

    /// The machine with `value` in the flag register VF.
    pub open spec fn set_flag(self, value: u8) -> MachineView {
        self.set_reg(0xF, value)
    }

    /// The machine with `value` in the index register.
    pub open spec fn set_index(self, value: int) -> MachineView {
        MachineView { index: value, ..self }
    }

    /// The machine with the program counter at `target`.
    pub open spec fn jump(self, target: int) -> MachineView {
        MachineView { pc: target, ..self }
    }

    /// The machine with the next instruction skipped if `taken` holds.
    pub open spec fn skip_if(self, taken: bool) -> MachineView {
        if taken {
            self.jump(self.pc + 2)
        } else {
            self
        }
    }

    /// The machine with `value` written to memory at `address`.
    pub open spec fn poke(self, address: int, value: u8) -> MachineView {
        MachineView { memory: self.memory.update(address, value), ..self }
    }

    /// The machine stopped for the reason `error`.
    pub open spec fn halt(self, error: Chip8Error) -> MachineView {
        MachineView { fault: Some(error), ..self }
    }

    /// The machine built with the choices `quirks`.
    pub open spec fn with_quirks(self, quirks: Quirks) -> MachineView {
        MachineView { quirks, ..self }
    }

    /// The register a shift reads: VX, or VY where shifts read VY.
    pub open spec fn shift_source(self, x: u8, y: u8) -> u8 {
        if self.quirks.shift_reads_vy {
            self.reg(y)
        } else {
            self.reg(x)
        }
    }

    /// The index that an indexed jump to `nnn` adds: V0, or VX with X the
    /// top nibble of `nnn` where the jump adds VX.
    pub open spec fn jump_offset(self, nnn: u16) -> u8 {
        if self.quirks.jump_adds_vx {
            self.reg((nnn / 0x100) as u8)
        } else {
            self.reg(0)
        }
    }

    /// The index register after V0..=VX were stored or loaded: where it
    /// was, or behind the last byte touched where storing and loading move
    /// it.
    pub open spec fn index_after_transfer(self, x: u8) -> int {
        if self.quirks.memory_moves_index {
            wrap_address(self.index, x + 1)
        } else {
            self.index
        }
    }

    /// The `n` bytes at I and upwards, each address wrapped into the memory.
    pub open spec fn sprite(self, n: int) -> Seq<u8> {
        Seq::new(n as nat, |row: int| self.memory[wrap_address(self.index, row)])
    }

    /// The memory after V0..=VX were stored at I and upwards.
    pub open spec fn dumped(self, x: u8) -> Seq<u8> {
        Seq::new(
            MEM_SIZE as nat,
            |a: int|
                if wrap_address(a, -self.index) <= x {
                    self.registers[wrap_address(a, -self.index)]
                } else {
                    self.memory[a]
                },
        )
    }

    /// The registers after V0..=VX were loaded from I and upwards.
    pub open spec fn reloaded(self, x: u8) -> Seq<u8> {
        Seq::new(
            16,
            |i: int|
                if i <= x {
                    self.memory[wrap_address(self.index, i)]
                } else {
                    self.registers[i]
                },
        )
    }

    /// The opcode at the program counter: two bytes, the high byte first.
    pub open spec fn opcode(self) -> u16 {
        (self.memory[self.pc] as int * 0x100 + self.memory[self.pc + 1] as int) as u16
    }

    /// Whether the machine can fetch: it has not stopped and both bytes of
    /// the opcode lie in the memory.
    pub open spec fn can_fetch(self) -> bool {
        self.fault is None && self.pc + 1 < MEM_SIZE
    }

    /// What `instruction` does to a machine whose program counter is already
    /// past it, given the host's `reply`.
    ///
    /// A flag in VF is written after the result in VX, so that with X = F it
    /// is the flag that stays.
    pub open spec fn apply(self, instruction: Instruction, reply: HostReply) -> MachineView {
        match instruction {
            Instruction::Invalid => self.halt(Chip8Error::InvalidInstruction),
            Instruction::Cls => self,
            Instruction::Rts => if self.stack.len() == 0 {
                self.halt(Chip8Error::StackUnderflow)
            } else {
                MachineView { pc: self.stack.last(), stack: self.stack.drop_last(), ..self }
            },
            Instruction::Jump { nnn } => self.jump(nnn as int),
            Instruction::Call { nnn } => MachineView {
                pc: nnn as int,
                stack: self.stack.push(self.pc),
                ..self
            },
            Instruction::SkipEqConst { x, nn } => self.skip_if(self.reg(x) == nn),
            Instruction::SkipNeqConst { x, nn } => self.skip_if(self.reg(x) != nn),
            Instruction::SkipEq { x, y } => self.skip_if(self.reg(x) == self.reg(y)),
            Instruction::MovConst { x, nn } => self.set_reg(x, nn),
            Instruction::AddConst { x, nn } => self.set_reg(x, ((self.reg(x) + nn) % 256) as u8),
            Instruction::Mov { x, y } => self.set_reg(x, self.reg(y)),
            Instruction::Or { x, y } => self.set_reg(x, self.reg(x) | self.reg(y)),
            Instruction::And { x, y } => self.set_reg(x, self.reg(x) & self.reg(y)),
            Instruction::Xor { x, y } => self.set_reg(x, self.reg(x) ^ self.reg(y)),
            Instruction::Add { x, y } => {
                let sum = self.reg(x) + self.reg(y);
                self.set_reg(x, (sum % 256) as u8).set_flag(if sum > 0xFF { 1 } else { 0 })
            },
            Instruction::SubXY { x, y } => {
                let difference = self.reg(x) - self.reg(y);
                self.set_reg(x, (difference % 256) as u8).set_flag(
                    if self.reg(x) > self.reg(y) { 1 } else { 0 },
                )
            },
            Instruction::RightShift { x, y } => {
                let source = self.shift_source(x, y);
                self.set_reg(x, source / 2).set_flag(source % 2)
            },
            Instruction::SubYX { x, y } => {
                let difference = self.reg(y) - self.reg(x);
                self.set_reg(x, (difference % 256) as u8).set_flag(
                    if self.reg(y) > self.reg(x) { 1 } else { 0 },
                )
            },
            Instruction::LeftShift { x, y } => {
                let source = self.shift_source(x, y);
                self.set_reg(x, ((source * 2) % 256) as u8).set_flag(
                    if source >= 0x80 { 0x80 } else { 0 },
                )
            },
            Instruction::SkipNeq { x, y } => self.skip_if(self.reg(x) != self.reg(y)),
            Instruction::MovI { nnn } => self.set_index(nnn as int),
            Instruction::JumpIndexed { nnn } => self.jump(nnn + self.jump_offset(nnn)),
            Instruction::Rand { x, nn } => self.set_reg(x, reply.byte() & nn),
            Instruction::Draw { x, y, n } => self.set_flag(if reply.collision() { 1 } else { 0 }),
            Instruction::SkipKeyEq { x } => self.skip_if(
                reply.key() == Some(key_named(self.reg(x))),
            ),
            Instruction::SkipKeyNeq { x } => self.skip_if(
                reply.key() != Some(key_named(self.reg(x))),
            ),
            Instruction::GetDelayTimer { x } => self.set_reg(x, reply.byte()),
            Instruction::WaitKey { x } => match reply.key() {
                Some(key) => self.set_reg(x, key),
                None => self.jump(self.pc - 2),
            },
            Instruction::SetDelayTimer { x } => self,
            Instruction::SetSoundTimer { x } => self,
            Instruction::AddI { x } => self.set_index(wrap_address(self.index, self.reg(x) as int)),
            Instruction::SetFontI { x } => self.set_index(
                FONT_START + FONT_CHARACTER_BYTES * key_named(self.reg(x)),
            ),
            Instruction::BCD { x } => self.poke(
                wrap_address(self.index, 0),
                self.reg(x) / 100,
            ).poke(wrap_address(self.index, 1), (self.reg(x) / 10) % 10).poke(
                wrap_address(self.index, 2),
                self.reg(x) % 10,
            ),
            Instruction::RegDump { x } => MachineView {
                memory: self.dumped(x),
                index: self.index_after_transfer(x),
                ..self
            },
            Instruction::RegLoad { x } => MachineView {
                registers: self.reloaded(x),
                index: self.index_after_transfer(x),
                ..self
            },
        }
    }

    /// What `instruction` asks of the host, for a machine whose program
    /// counter is already past it.
    pub open spec fn request_for(self, instruction: Instruction) -> HostRequestView {
        match instruction {
            Instruction::Cls => HostRequestView::ClearDisplay,
            Instruction::Draw { x, y, n } => HostRequestView::Draw {
                sprite: self.sprite(n as int),
                x: self.reg(x),
                y: self.reg(y),
            },
            Instruction::SkipKeyEq { .. }
            | Instruction::SkipKeyNeq { .. }
            | Instruction::WaitKey { .. } => HostRequestView::ReadKey,
            Instruction::GetDelayTimer { .. } => HostRequestView::ReadDelayTimer,
            Instruction::SetDelayTimer { x } => HostRequestView::SetDelayTimer {
                value: self.reg(x),
            },
            Instruction::SetSoundTimer { x } => HostRequestView::StartSound { value: self.reg(x) },
            Instruction::Rand { .. } => HostRequestView::RandomByte,
            _ => HostRequestView::Nothing,
        }
    }

    /// What the next step asks of the host. A machine that cannot fetch asks
    /// nothing.
    pub open spec fn request(self) -> HostRequestView {
        if self.can_fetch() {
            self.jump(self.pc + 2).request_for(crate::instruction::decode_spec(self.opcode()))
        } else {
            HostRequestView::Nothing
        }
    }

    /// One step: fetch the opcode at the program counter, move the program
    /// counter past it, decode, and carry the instruction out. A stopped
    /// machine stays as it is; a machine whose program counter has left the
    /// memory stops.
    pub open spec fn step(self, reply: HostReply) -> MachineView {
        if self.fault is Some {
            self
        } else if !self.can_fetch() {
            self.halt(Chip8Error::OutOfMemoryAccess)
        } else {
            self.jump(self.pc + 2).apply(crate::instruction::decode_spec(self.opcode()), reply)
        }
    }

    /// What a step reports: the reason the machine has stopped, if it has.
    pub open spec fn outcome(self) -> Result<(), Chip8Error> {
        match self.fault {
            Some(error) => Err(error),
            None => Ok(()),
        }
    }
}

/// The sum of two bytes modulo 256, and the carry: 1 if the sum passes 255.
pub fn add_with_carry(a: u8, b: u8) -> (result: (u8, u8))
    ensures
        result.0 == (a + b) % 256,
        result.1 == if a + b > 0xFF { 1int } else { 0int },
{
    let carry: u8 = if a as u16 + b as u16 > 0xFF {
        1
    } else {
        0
    };
    (a.wrapping_add(b), carry)
}

/// The difference `a - b` modulo 256, and 1 if `a` is the larger, else 0.
pub fn subtract(a: u8, b: u8) -> (result: (u8, u8))
    ensures
        result.0 == (a - b) % 256,
        result.1 == if a > b { 1int } else { 0int },
{
    let larger: u8 = if a > b {
        1
    } else {
        0
    };
    (a.wrapping_sub(b), larger)
}

/// A byte shifted right by one, and the bit that fell out.
pub fn halve(a: u8) -> (result: (u8, u8))
    ensures
        result.0 == a / 2,
        result.1 == a % 2,
{
    assert(a >> 1 == a / 2 && a & 0x01 == a % 2) by (bit_vector);
    (a >> 1, a & 0x01)
}

/// A byte shifted left by one, and its old top bit where it stood: 0x80 or 0.
pub fn double(a: u8) -> (result: (u8, u8))
    ensures
        result.0 == (a * 2) % 256,
        result.1 == if a >= 0x80 { 0x80int } else { 0int },
{
    assert(a << 1 == (a * 2) % 256 && a & 0x80 == if a >= 0x80 {
        0x80u8
    } else {
        0u8
    }) by (bit_vector);
    (a << 1, a & 0x80)
}

/// Whether the host's reply says that the key named by `value` is down.
pub fn key_is_down(reply: HostReply, value: u8) -> (down: bool)
    ensures
        down == (reply.key() == Some(key_named(value))),
{
    assert(value & 0x0F == value % 16) by (bit_vector);
    match reply {
        HostReply::Key(Some(key)) => key == value & 0x0F,
        _ => false,
    }
}

/// The register machine.
pub struct Machine {
    memory: Vec<u8>,
    pc: usize,
    index_reg: u16,
    stack: Vec<usize>,
    gp_registers: [u8; 16],
    fault: Option<Chip8Error>,
    quirks: Quirks,
}

impl View for Machine {
    type V = MachineView;

    closed spec fn view(&self) -> MachineView {
        MachineView {
            memory: self.memory@,
            registers: self.gp_registers@,
            index: self.index_reg as int,
            pc: self.pc as int,
            stack: self.stack@.map_values(|address: usize| address as int),
            fault: self.fault,
            quirks: self.quirks,
        }
    }
}

impl Machine {
    #[verifier::type_invariant]
    spec fn sound(self) -> bool {
        self@.well_formed()
    }

    /// A machine with everything at zero and the usual choices.
    pub fn new() -> (machine: Self)
        ensures
            machine@ == MachineView::blank(),
            machine@.well_formed(),
    {
        Machine::with_quirks(Quirks::default())
    }

    /// A machine with everything at zero, built with the choices `quirks`.
    pub fn with_quirks(quirks: Quirks) -> (machine: Self)
        ensures
            machine@ == MachineView::blank().with_quirks(quirks),
            machine@.well_formed(),
    {
        let machine = Machine {
            memory: vec![0u8; 0x1000],
            pc: 0,
            index_reg: 0,
            stack: Vec::new(),
            gp_registers: [0u8;16],
            fault: None,
            quirks,
        };
        assert(machine@ =~= MachineView::blank().with_quirks(quirks));
        machine
    }

    /// Loads a program and a font and gets ready to run the program. The
    /// machine keeps the choices it was built with. A program or font that
    /// does not fit into the memory is refused, and the machine stays as it
    /// was.
    pub fn initialize(&mut self, program: &[u8], font: &[u8]) -> (result: Result<(), Chip8Error>)
        ensures
            MachineView::fits(program@, font@) ==> result is Ok && final(self)@
                == MachineView::loaded(program@, font@).with_quirks(old(self)@.quirks),
            !MachineView::fits(program@, font@) ==> result == Err::<(), Chip8Error>(
                Chip8Error::OutOfMemoryAccess,
            ) && final(self)@ == old(self)@,
            final(self)@.well_formed(),
    {
        proof {
            use_type_invariant(&*self);
        }
        if program.len() > MEM_SIZE - PROGRAM_START || font.len() > MEM_SIZE - FONT_START {
            return Err(Chip8Error::OutOfMemoryAccess);
        }
        let mut memory: Vec<u8> = vec![0u8; 0x1000];
        let mut i: usize = 0;
        while i < font.len()
            invariant
                i <= font@.len() <= MEM_SIZE - FONT_START,
                memory@.len() == MEM_SIZE,
                forall|a: int|
                    0 <= a < MEM_SIZE ==> memory@[a] == if FONT_START <= a < FONT_START + i {
                        font@[a - FONT_START]
                    } else {
                        0u8
                    },
            decreases font@.len() - i,
        {
            memory[FONT_START + i] = font[i];
            i += 1;
        }
        let mut i: usize = 0;
        while i < program.len()
            invariant
                i <= program@.len() <= MEM_SIZE - PROGRAM_START,
                font@.len() <= MEM_SIZE - FONT_START,
                memory@.len() == MEM_SIZE,
                forall|a: int|
                    0 <= a < MEM_SIZE ==> memory@[a] == if PROGRAM_START <= a < PROGRAM_START + i {
                        program@[a - PROGRAM_START]
                    } else if FONT_START <= a < FONT_START + font@.len() {
                        font@[a - FONT_START]
                    } else {
                        0u8
                    },
            decreases program@.len() - i,
        {
            memory[PROGRAM_START + i] = program[i];
            i += 1;
        }
        *self = Machine {
            memory,
            pc: PROGRAM_START,
            index_reg: 0,
            stack: Vec::new(),
            gp_registers: [0u8;16],
            fault: None,
            quirks: self.quirks,
        };
        assert(self@ =~= MachineView::loaded(program@, font@).with_quirks(old(self)@.quirks));
        Ok(())
    }

    /// The program counter.
    pub fn pc(&self) -> (pc: usize)
        ensures
            pc == self@.pc,
    {
        self.pc
    }

    /// The index register I.
    pub fn index(&self) -> (index: u16)
        ensures
            index == self@.index,
    {
        self.index_reg
    }

    /// The registers V0 to VF.
    pub fn registers(&self) -> (registers: [u8; 16])
        ensures
            registers@ == self@.registers,
    {
        self.gp_registers
    }

    /// The memory.
    pub fn memory(&self) -> (memory: &Vec<u8>)
        ensures
            memory@ == self@.memory,
            memory@.len() == MEM_SIZE,
    {
        proof {
            use_type_invariant(self);
        }
        &self.memory
    }

    /// The number of calls that have not returned yet.
    pub fn stack_depth(&self) -> (depth: usize)
        ensures
            depth == self@.stack.len(),
    {
        self.stack.len()
    }

    /// Why the machine has stopped, if it has.
    pub fn fault(&self) -> (fault: Option<Chip8Error>)
        ensures
            fault == self@.fault,
    {
        self.fault
    }

    /// The choices the machine was built with.
    pub fn quirks(&self) -> (quirks: Quirks)
        ensures
            quirks == self@.quirks,
    {
        self.quirks
    }

    /// What the next step needs from the host.
    pub fn pending(&self) -> (request: HostRequest)
        ensures
            request@ == self@.request(),
    {
        proof {
            use_type_invariant(self);
        }
        if self.fault.is_some() || self.pc >= MEM_SIZE - 1 {
            return HostRequest::Nothing;
        }
        match Instruction::decode(self.fetch_word()) {
            Instruction::Cls => HostRequest::ClearDisplay,
            Instruction::Draw { x, y, n } => HostRequest::Draw {
                sprite: self.sprite_rows(n),
                x: self.gp_registers[x as usize],
                y: self.gp_registers[y as usize],
            },
            Instruction::SkipKeyEq { .. }
            | Instruction::SkipKeyNeq { .. }
            | Instruction::WaitKey { .. } => HostRequest::ReadKey,
            Instruction::GetDelayTimer { .. } => HostRequest::ReadDelayTimer,
            Instruction::SetDelayTimer { x } => HostRequest::SetDelayTimer {
                value: self.gp_registers[x as usize],
            },
            Instruction::SetSoundTimer { x } => HostRequest::StartSound {
                value: self.gp_registers[x as usize],
            },
            Instruction::Rand { .. } => HostRequest::RandomByte,
            _ => HostRequest::Nothing,
        }
    }

    /// Executes the instruction at the program counter, with `reply` for
    /// what the host answered to [`Machine::pending`]. On an error the
    /// machine stops; what the step had changed by then stays changed.
    pub fn step(&mut self, reply: HostReply) -> (result: Result<(), Chip8Error>)
        ensures
            final(self)@ == old(self)@.step(reply),
            result == final(self)@.outcome(),
            final(self)@.well_formed(),
    {
        proof {
            use_type_invariant(&*self);
        }
        if let Some(error) = self.fault {
            return Err(error);
        }
        if self.pc >= MEM_SIZE - 1 {
            self.fault = Some(Chip8Error::OutOfMemoryAccess);
            return Err(Chip8Error::OutOfMemoryAccess);
        }
        // the opcode is big endian
        let instruction = Instruction::decode(self.fetch_word());
        // the program counter moves on before the instruction runs
        self.pc += 2;
        self.carry_out(instruction, reply)
    }

    /// The opcode at the program counter.
    fn fetch_word(&self) -> (word: u16)
        requires
            self@.can_fetch(),
        ensures
            word == self@.opcode(),
    {
        proof {
            use_type_invariant(self);
        }
        let upper = self.memory[self.pc];
        let lower = self.memory[self.pc + 1];
        assert(((upper as u16) << 8 | (lower as u16)) == upper * 0x100 + lower) by (bit_vector);
        (upper as u16) << 8 | (lower as u16)
    }

    /// The address `offset` bytes above I, wrapped into the memory.
    fn address(&self, offset: usize) -> (address: usize)
        requires
            offset <= 0xFF,
        ensures
            address == wrap_address(self@.index, offset as int),
            address < MEM_SIZE,
    {
        proof {
            use_type_invariant(self);
        }
        let sum: usize = self.index_reg as usize + offset;
        assert(sum & 0x0FFF == sum % 0x1000) by (bit_vector);
        sum & 0x0FFF
    }

    /// The `n` bytes at I and upwards.
    fn sprite_rows(&self, n: u8) -> (rows: Vec<u8>)
        ensures
            rows@ == self@.sprite(n as int),
    {
        proof {
            use_type_invariant(self);
        }
        let mut rows: Vec<u8> = Vec::new();
        let mut row: usize = 0;
        while row < n as usize
            invariant
                row <= n,
                self@.well_formed(),
                rows@.len() == row,
                forall|r: int|
                    0 <= r < row ==> rows@[r] == self@.memory[wrap_address(self@.index, r)],
            decreases n - row,
        {
            let address = self.address(row);
            rows.push(self.memory[address]);
            row += 1;
        }
        assert(rows@ =~= self@.sprite(n as int));
        rows
    }

    /// Puts a return address on the stack.
    fn push_return(&mut self, address: usize)
        requires
            address <= MEM_SIZE,
        ensures
            final(self)@ == (MachineView {
                stack: old(self)@.stack.push(address as int),
                ..old(self)@
            }),
    {
        proof {
            use_type_invariant(&*self);
        }
        let ghost before = self@;
        // the stack leaves the machine while it grows, so that the machine
        // is whole at every moment
        let mut stack: Vec<usize> = Vec::new();
        std::mem::swap(&mut stack, &mut self.stack);
        stack.push(address);
        assert forall|i: int| 0 <= i < stack@.len() implies stack@[i] <= MEM_SIZE by {
            if i < before.stack.len() {
                assert(before.stack[i] == stack@[i]);
            }
        }
        std::mem::swap(&mut stack, &mut self.stack);
        assert(self@.stack =~= before.stack.push(address as int));
    }

    /// Takes the latest return address off the stack, if there is one.
    fn pop_return(&mut self) -> (address: Option<usize>)
        ensures
            old(self)@.stack.len() == 0 ==> address is None && final(self)@ == old(self)@,
            old(self)@.stack.len() > 0 ==> address is Some && address->0 == old(self)@.stack.last()
                && final(self)@ == (MachineView {
                stack: old(self)@.stack.drop_last(),
                ..old(self)@
            }),
    {
        proof {
            use_type_invariant(&*self);
        }
        let ghost before = self@;
        let mut stack: Vec<usize> = Vec::new();
        std::mem::swap(&mut stack, &mut self.stack);
        let address = stack.pop();
        assert forall|i: int| 0 <= i < stack@.len() implies stack@[i] <= MEM_SIZE by {
            assert(before.stack[i] == stack@[i]);
        }
        std::mem::swap(&mut stack, &mut self.stack);
        assert(self@.stack =~= if before.stack.len() > 0 {
            before.stack.drop_last()
        } else {
            before.stack
        });
        address
    }

    /// Stores V0..=VX at I and upwards.
    fn dump_registers(&mut self, x: u8)
        requires
            x < 16,
        ensures
            final(self)@ == (MachineView { memory: old(self)@.dumped(x), ..old(self)@ }),
    {
        proof {
            use_type_invariant(&*self);
        }
        let ghost before = self@;
        let mut i: usize = 0;
        while i <= x as usize
            invariant
                i <= x + 1,
                x < 16,
                before.well_formed(),
                self@ == (MachineView { memory: self@.memory, ..before }),
                self@.memory.len() == MEM_SIZE,
                forall|a: int|
                    0 <= a < MEM_SIZE ==> self@.memory[a] == if wrap_address(a, -before.index)
                        < i {
                        before.registers[wrap_address(a, -before.index)]
                    } else {
                        before.memory[a]
                    },
            decreases x + 1 - i,
        {
            let address = self.address(i);
            self.memory[address] = self.gp_registers[i];
            i += 1;
        }
        assert(self@.memory =~= before.dumped(x));
    }

    /// Loads V0..=VX from I and upwards.
    fn load_registers(&mut self, x: u8)
        requires
            x < 16,
        ensures
            final(self)@ == (MachineView { registers: old(self)@.reloaded(x), ..old(self)@ }),
    {
        proof {
            use_type_invariant(&*self);
        }
        let ghost before = self@;
        let mut i: usize = 0;
        while i <= x as usize
            invariant
                i <= x + 1,
                x < 16,
                before.well_formed(),
                self@ == (MachineView { registers: self@.registers, ..before }),
                self@.registers.len() == 16,
                forall|k: int|
                    0 <= k < 16 ==> self@.registers[k] == if k < i {
                        before.memory[wrap_address(before.index, k)]
                    } else {
                        before.registers[k]
                    },
            decreases x + 1 - i,
        {
            let address = self.address(i);
            self.gp_registers[i] = self.memory[address];
            i += 1;
        }
        assert(self@.registers =~= before.reloaded(x));
    }

    /// Writes a register.
    fn set_register(&mut self, x: u8, value: u8)
        requires
            x < 16,
        ensures
            final(self)@ == old(self)@.set_reg(x, value),
    {
        proof {
            use_type_invariant(&*self);
        }
        self.gp_registers[x as usize] = value;
        assert(self@ =~= old(self)@.set_reg(x, value));
    }

    /// Writes the index register.
    fn set_index(&mut self, value: u16)
        requires
            value < MEM_SIZE,
        ensures
            final(self)@ == old(self)@.set_index(value as int),
    {
        proof {
            use_type_invariant(&*self);
        }
        self.index_reg = value;
    }

    /// Moves the program counter.
    fn jump_to(&mut self, target: usize)
        requires
            target <= PC_MAX,
        ensures
            final(self)@ == old(self)@.jump(target as int),
    {
        proof {
            use_type_invariant(&*self);
        }
        self.pc = target;
    }

    /// Skips the next instruction if `taken` holds.
    fn skip_if(&mut self, taken: bool)
        requires
            old(self)@.pc <= MEM_SIZE,
        ensures
            final(self)@ == old(self)@.skip_if(taken),
    {
        proof {
            use_type_invariant(&*self);
        }
        if taken {
            self.pc += 2;
        }
    }

    /// Writes a byte to memory.
    fn poke(&mut self, address: usize, value: u8)
        requires
            address < MEM_SIZE,
        ensures
            final(self)@ == old(self)@.poke(address as int, value),
    {
        proof {
            use_type_invariant(&*self);
        }
        self.memory[address] = value;
    }

    /// Stops the machine.
    fn halt(&mut self, error: Chip8Error) -> (result: Result<(), Chip8Error>)
        ensures
            final(self)@ == old(self)@.halt(error),
            result == Err::<(), Chip8Error>(error),
    {
        proof {
            use_type_invariant(&*self);
        }
        self.fault = Some(error);
        Err(error)
    }

    /// The register a shift reads.
    fn shift_source(&self, x: u8, y: u8) -> (value: u8)
        requires
            x < 16,
            y < 16,
        ensures
            value == self@.shift_source(x, y),
    {
        if self.quirks.shift_reads_vy {
            self.register(y)
        } else {
            self.register(x)
        }
    }

    /// Leaves the index register where storing or loading V0..=VX leaves it.
    fn finish_transfer(&mut self, x: u8)
        requires
            x < 16,
        ensures
            final(self)@ == old(self)@.set_index(old(self)@.index_after_transfer(x)),
    {
        if self.quirks.memory_moves_index {
            self.set_index(self.address(x as usize + 1) as u16);
        }
    }

    /// Register VX.
    fn register(&self, x: u8) -> (value: u8)
        requires
            x < 16,
        ensures
            value == self@.reg(x),
    {
        self.gp_registers[x as usize]
    }

    /// Carries out an instruction of the arithmetic family 8XY_.
    fn carry_out_arithmetic(&mut self, instruction: Instruction)
        requires
            instruction.well_formed(),
            instruction is Mov || instruction is Or || instruction is And || instruction is Xor
                || instruction is Add || instruction is SubXY || instruction is RightShift
                || instruction is SubYX || instruction is LeftShift,
        ensures
            final(self)@ == old(self)@.apply(instruction, HostReply::Nothing),
    {
        match instruction {
            Instruction::Mov { x, y } => {
                self.set_register(x, self.register(y));
            },
            Instruction::Or { x, y } => {
                self.set_register(x, self.register(x) | self.register(y));
            },
            Instruction::And { x, y } => {
                self.set_register(x, self.register(x) & self.register(y));
            },
            Instruction::Xor { x, y } => {
                self.set_register(x, self.register(x) ^ self.register(y));
            },
            Instruction::Add { x, y } => {
                let (sum, carry) = add_with_carry(self.register(x), self.register(y));
                self.set_register(x, sum);
                self.set_register(0xF, carry);
            },
            Instruction::SubXY { x, y } => {
                let (difference, larger) = subtract(self.register(x), self.register(y));
                self.set_register(x, difference);
                self.set_register(0xF, larger);
            },
            Instruction::RightShift { x, y } => {
                let (half, low_bit) = halve(self.shift_source(x, y));
                self.set_register(x, half);
                self.set_register(0xF, low_bit);
            },
            Instruction::SubYX { x, y } => {
                let (difference, larger) = subtract(self.register(y), self.register(x));
                self.set_register(x, difference);
                self.set_register(0xF, larger);
            },
            Instruction::LeftShift { x, y } => {
                let (double, high_bit) = double(self.shift_source(x, y));
                self.set_register(x, double);
                self.set_register(0xF, high_bit);
            },
            _ => {},
        }
    }

    /// Carries out an instruction of the family FX__, or a stop.
    fn carry_out_misc(&mut self, instruction: Instruction, reply: HostReply)
        requires
            instruction.well_formed(),
            2 <= old(self)@.pc <= MEM_SIZE,
            instruction is GetDelayTimer || instruction is WaitKey || instruction is SetDelayTimer
                || instruction is SetSoundTimer || instruction is AddI || instruction is SetFontI
                || instruction is BCD || instruction is RegDump || instruction is RegLoad,
        ensures
            final(self)@ == old(self)@.apply(instruction, reply),
    {
        match instruction {
            Instruction::GetDelayTimer { x } => {
                let byte: u8 = match reply {
                    HostReply::Byte(byte) => byte,
                    _ => 0,
                };
                self.set_register(x, byte);
            },
            // with no key down the instruction runs again at the next step
            Instruction::WaitKey { x } => {
                if let HostReply::Key(Some(k)) = reply {
                    self.set_register(x, k);
                } else {
                    proof {
                        use_type_invariant(&*self);
                    }
                    self.jump_to(self.pc - 2);
                }
            },
            Instruction::AddI { x } => {
                let offset: usize = self.register(x) as usize;
                self.set_index(self.address(offset) as u16);
            },
            // only the low nibble of the register counts
            Instruction::SetFontI { x } => {
                let x_val: u8 = self.register(x);
                assert(x_val & 0x0F == x_val % 16) by (bit_vector);
                self.set_index(
                    (FONT_START + FONT_CHARACTER_BYTES * (x_val & 0x0F) as usize) as u16,
                );
            },
            Instruction::BCD { x } => {
                let x_val: u8 = self.register(x);
                let hundreds = self.address(0);
                let tens = self.address(1);
                let ones = self.address(2);
                self.poke(hundreds, x_val / 100);
                self.poke(tens, (x_val / 10) % 10);
                self.poke(ones, x_val % 10);
            },
            Instruction::RegDump { x } => {
                self.dump_registers(x);
                self.finish_transfer(x);
            },
            Instruction::RegLoad { x } => {
                self.load_registers(x);
                self.finish_transfer(x);
            },
            _ => {},
        }
    }

    /// Carries out an instruction that moves the program counter: a jump,
    /// a call, a return or a skip.
    fn carry_out_flow(&mut self, instruction: Instruction, reply: HostReply) -> (result: Result<
        (),
        Chip8Error,
    >)
        requires
            instruction.well_formed(),
            old(self)@.fault is None,
            2 <= old(self)@.pc <= MEM_SIZE,
            instruction is Rts || instruction is Jump || instruction is Call
                || instruction is SkipEqConst || instruction is SkipNeqConst
                || instruction is SkipEq || instruction is SkipNeq || instruction is JumpIndexed
                || instruction is SkipKeyEq || instruction is SkipKeyNeq,
        ensures
            final(self)@ == old(self)@.apply(instruction, reply),
            result == final(self)@.outcome(),
    {
        match instruction {
            Instruction::Rts => {
                proof {
                    use_type_invariant(&*self);
                }
                match self.pop_return() {
                    Some(address) => {
                        self.jump_to(address);
                    },
                    None => {
                        return self.halt(Chip8Error::StackUnderflow);
                    },
                }
            },
            Instruction::Jump { nnn } => {
                self.jump_to(nnn as usize);
            },
            Instruction::Call { nnn } => {
                self.push_return(self.pc);
                self.jump_to(nnn as usize);
            },
            Instruction::SkipEqConst { x, nn } => {
                self.skip_if(self.register(x) == nn);
            },
            Instruction::SkipNeqConst { x, nn } => {
                self.skip_if(self.register(x) != nn);
            },
            Instruction::SkipEq { x, y } => {
                self.skip_if(self.register(x) == self.register(y));
            },
            Instruction::SkipNeq { x, y } => {
                self.skip_if(self.register(x) != self.register(y));
            },
            Instruction::JumpIndexed { nnn } => {
                let offset: u8 = if self.quirks.jump_adds_vx {
                    assert(nnn >> 8 == nnn / 0x100 && (nnn >> 8) < 16) by (bit_vector)
                        requires
                            nnn < 0x1000,
                    ;
                    self.register((nnn >> 8) as u8)
                } else {
                    self.register(0)
                };
                self.jump_to(nnn as usize + offset as usize);
            },
            Instruction::SkipKeyEq { x } => {
                self.skip_if(key_is_down(reply, self.register(x)));
            },
            Instruction::SkipKeyNeq { x } => {
                self.skip_if(!key_is_down(reply, self.register(x)));
            },
            _ => {},
        }
        Ok(())
    }

    /// Carries out an instruction that has been fetched.
    fn carry_out(&mut self, instruction: Instruction, reply: HostReply) -> (result: Result<
        (),
        Chip8Error,
    >)
        requires
            instruction.well_formed(),
            old(self)@.fault is None,
            2 <= old(self)@.pc <= MEM_SIZE,
        ensures
            final(self)@ == old(self)@.apply(instruction, reply),
            result == final(self)@.outcome(),
    {
        match instruction {
            Instruction::Invalid => {
                return self.halt(Chip8Error::InvalidInstruction);
            },
            Instruction::Cls => {},
            Instruction::Rts
            | Instruction::Jump { .. }
            | Instruction::Call { .. }
            | Instruction::SkipEqConst { .. }
            | Instruction::SkipNeqConst { .. }
            | Instruction::SkipEq { .. }
            | Instruction::SkipNeq { .. }
            | Instruction::JumpIndexed { .. }
            | Instruction::SkipKeyEq { .. }
            | Instruction::SkipKeyNeq { .. } => {
                return self.carry_out_flow(instruction, reply);
            },
            Instruction::MovConst { x, nn } => {
                self.set_register(x, nn);
            },
            Instruction::AddConst { x, nn } => {
                self.set_register(x, self.register(x).wrapping_add(nn));
            },
            Instruction::Mov { .. }
            | Instruction::Or { .. }
            | Instruction::And { .. }
            | Instruction::Xor { .. }
            | Instruction::Add { .. }
            | Instruction::SubXY { .. }
            | Instruction::RightShift { .. }
            | Instruction::SubYX { .. }
            | Instruction::LeftShift { .. } => {
                self.carry_out_arithmetic(instruction);
            },
            Instruction::MovI { nnn } => {
                self.set_index(nnn);
            },
            Instruction::Rand { x, nn } => {
                let byte: u8 = match reply {
                    HostReply::Byte(byte) => byte,
                    _ => 0,
                };
                self.set_register(x, byte & nn);
            },
            Instruction::Draw { x: _, y: _, n: _ } => {
                let collision: bool = match reply {
                    HostReply::Collision(hit) => hit,
                    _ => false,
                };
                if collision {
                    self.set_register(0xF, 1);
                } else {
                    self.set_register(0xF, 0);
                }
            },
            Instruction::GetDelayTimer { .. }
            | Instruction::WaitKey { .. }
            | Instruction::SetDelayTimer { .. }
            | Instruction::SetSoundTimer { .. }
            | Instruction::AddI { .. }
            | Instruction::SetFontI { .. }
            | Instruction::BCD { .. }
            | Instruction::RegDump { .. }
            | Instruction::RegLoad { .. } => {
                self.carry_out_misc(instruction, reply);
            },
        }
        Ok(())
    }
}

} // verus!
