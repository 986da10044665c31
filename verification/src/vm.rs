//! The virtual machine: a fixed memory of cells, a program counter, an
//! accumulator, and a single-step primitive that may suspend on input.
//!
//! The machine never takes the process down. An address that leaves the
//! memory, a pointer that is no pointer, and a chain of pointers that does not
//! end each stop the machine with a [`Fault`] that the host can read.

use vstd::prelude::*;
use vstd::relations::injective_on;
use vstd::set_lib::{lemma_int_range, lemma_len_subset, lemma_map_size, set_int_range};
use vstd::string::{StrSliceExecFns, StringExecFns};
use crate::assembly::Instruction;
use crate::parser::{assemble, assembled, AssembleErrorView};
use crate::text::{characters, decimal_text, push_decimal, trim, trimmed};
use crate::MEMORY_SIZE;

verus! {

/// The number of pointers that one operand may lead through. A chain has at
/// most `MEMORY_SIZE - 1` different cells to pass, so one that is longer than
/// this passes a cell twice and would never end.
pub const MAX_INDIRECTION_DEPTH: usize = MEMORY_SIZE;

/// One mailbox: a signed integer that is an instruction or data, as the
/// program sees fit.
#[derive(Debug, Copy, Clone)]
pub struct MemoryCell {
    pub data: i64,
}

impl Default for MemoryCell {
    fn default() -> (cell: Self)
        ensures
            cell.data == 0,
    {
        Self { data: 0 }
    }
}

impl MemoryCell {
    /// Overwrites the cell.
    pub fn set(&mut self, data: i64)
        ensures
            final(self).data == data,
    {
        self.data = data
    }
}

/// Why the machine stopped other than by `HLT` or by running off the memory.
#[derive(Debug, Copy, Clone, PartialEq, Eq, Structural)]
pub enum Fault {
    /// A branch target, or the address that an operand came down to, lies
    /// outside the memory.
    AddressOutOfRange,
    /// An operand, or a cell on a pointer chain, is negative or at least twice
    /// the memory size, so it is neither an address nor a pointer.
    PointerOutOfRange,
    /// A pointer chain went through more than [`MAX_INDIRECTION_DEPTH`] cells.
    IndirectionCycle,
}

/// Whether the machine runs, and if not, why.
#[derive(Debug, Copy, Clone, PartialEq, Eq, Structural)]
pub enum MachineStatus {
    Running,
    /// Stopped by `HLT` or by running off the memory.
    Halted,
    /// Stopped on a fault.
    Faulted(Fault),
}

/// Why [`VirtualMachine::compile`] loaded nothing.
#[derive(Debug, Copy, Clone, PartialEq, Eq, Structural)]
pub enum VirtualMachineError {
    /// The source is no program, or an operand of it does not fit in the
    /// band of its opcode.
    CompilerError,
    /// The program has more instructions than the memory has cells.
    MemoryFull,
}

impl VirtualMachineError {
    /// What the error tells the user.
    pub open spec fn text(self) -> Seq<char> {
        match self {
            VirtualMachineError::CompilerError =>
                "Could not compile the program. Check for errors in assembly code."@,
            VirtualMachineError::MemoryFull =>
                "The program is too big to fit into the memory. Program can be a maximum of "@
                    + decimal_text(MEMORY_SIZE as int) + " instructions long"@,
        }
    }

    /// Tells the user what went wrong.
    pub fn message(&self) -> (text: String)
        ensures
            text@ == self.text(),
    {
        match self {
            VirtualMachineError::CompilerError => String::from_str(
                "Could not compile the program. Check for errors in assembly code.",
            ),
            VirtualMachineError::MemoryFull => {
                let mut text = String::from_str(
                    "The program is too big to fit into the memory. Program can be a maximum of ",
                );
                push_decimal(&mut text, MEMORY_SIZE as i64);
                text.append(" instructions long");
                text
            },
        }
    }
}

/// What one call of [`VirtualMachine::step`] did.
#[derive(Debug, Copy, Clone, PartialEq, Eq, Structural)]
pub enum VirtualMachineStep {
    /// An instruction ran, or a cell that is no instruction was skipped.
    Advanced,
    /// `OUT` ran; the value is the accumulator.
    Output(i64),
    /// `INP` is waiting for [`VirtualMachine::input`]; the program counter has
    /// not moved.
    InputRequired,
    /// The machine has stopped by `HLT` or by running off the memory.
    Halted,
    /// The machine has stopped on a fault.
    Fault(Fault),
}

/// How an instruction that reads a cell changes the accumulator.
#[derive(Debug, Copy, Clone, PartialEq, Eq, Structural)]
pub enum AccumulatorOp {
    /// The sum of accumulator and cell, wrapped to 64 bits.
    Add,
    /// The accumulator less the cell, wrapped to 64 bits.
    Subtract,
    /// The cell.
    Load,
    And,
    Or,
    Xor,
}

impl AccumulatorOp {
    /// The accumulator after the operation on an accumulator `acc` and a cell
    /// that holds `cell`.
    pub open spec fn apply(self, acc: i64, cell: i64) -> i64 {
        match self {
            AccumulatorOp::Add => wrap(acc + cell),
            AccumulatorOp::Subtract => wrap(acc - cell),
            AccumulatorOp::Load => cell,
            AccumulatorOp::And => acc & cell,
            AccumulatorOp::Or => acc | cell,
            AccumulatorOp::Xor => acc ^ cell,
        }
    }

    fn compute(self, acc: i64, cell: i64) -> (value: i64)
        ensures
            value == self.apply(acc, cell),
    {
        match self {
            AccumulatorOp::Add => acc.wrapping_add(cell),
            AccumulatorOp::Subtract => acc.wrapping_sub(cell),
            AccumulatorOp::Load => cell,
            AccumulatorOp::And => acc & cell,
            AccumulatorOp::Or => acc | cell,
            AccumulatorOp::Xor => acc ^ cell,
        }
    }
}

/// The machine as the contracts see it.
pub struct MachineState {
    pub program_counter: usize,
    pub accumulator: i64,
    /// The value of each cell, `MEMORY_SIZE` of them.
    pub memory: Seq<i64>,
    pub status: MachineStatus,
    /// The input that the next `INP` will take.
    pub input: Option<i64>,
    pub cycles: i64,
    /// The address that an operand last came down to.
    pub accessing: usize,
}

/// The 64-bit two's complement value of a sum or difference of two cells.
pub open spec fn wrap(x: int) -> i64 {
    if x > i64::MAX {
        (x - 0x1_0000_0000_0000_0000) as i64
    } else if x < i64::MIN {
        (x + 0x1_0000_0000_0000_0000) as i64
    } else {
        x as i64
    }
}

/// The cycle counter after one more cycle. It stops at the largest value
/// rather than turning negative.
pub open spec fn next_cycle(cycles: i64) -> i64 {
    if cycles < i64::MAX {
        (cycles + 1) as i64
    } else {
        cycles
    }
}

/// Whether `operand` is a pointer: the address of the cell that holds the
/// operand to go on with, offset by the memory size. The memory size itself
/// is no pointer but the first address outside the memory, so that no
/// pointer names cell 0.
pub open spec fn is_pointer(operand: i64) -> bool {
    MEMORY_SIZE < operand < 2 * MEMORY_SIZE
}

/// The address that `operand` comes down to in `memory`, going through at most
/// `depth` pointers.
pub open spec fn resolve(memory: Seq<i64>, operand: i64, depth: nat) -> Result<usize, Fault>
    decreases depth,
{
    if operand < 0 || operand >= 2 * MEMORY_SIZE {
        Err(Fault::PointerOutOfRange)
    } else if is_pointer(operand) {
        if depth == 0 {
            Err(Fault::IndirectionCycle)
        } else {
            resolve(memory, memory[operand - MEMORY_SIZE], (depth - 1) as nat)
        }
    } else if operand == MEMORY_SIZE {
        Err(Fault::AddressOutOfRange)
    } else {
        Ok(operand as usize)
    }
}

/// Whether every instruction of a program has a cell value.
pub open spec fn all_encodable(instructions: Seq<Instruction<i64>>) -> bool {
    forall|i: int| 0 <= i < instructions.len() ==> (#[trigger] instructions[i]).encodable()
}

/// The memory that holds the program `instructions` from address 0 on, one
/// instruction to a cell, and 0 in every cell after it.
pub open spec fn memory_image(instructions: Seq<Instruction<i64>>) -> Seq<i64> {
    Seq::new(
        MEMORY_SIZE as nat,
        |i: int|
            if i < instructions.len() {
                instructions[i].encoding() as i64
            } else {
                0i64
            },
    )
}

/// The memory that the source text `source` compiles to: the text is
/// trimmed and assembled, and the program must fit in the memory and each
/// of its operands in the band of its opcode.
pub open spec fn compiled(source: Seq<char>) -> Result<Seq<i64>, VirtualMachineError> {
    match assembled(trimmed(source)) {
        Err(_) => Err(VirtualMachineError::CompilerError),
        Ok(instructions) => {
            if instructions.len() > MEMORY_SIZE {
                Err(VirtualMachineError::MemoryFull)
            } else if !all_encodable(instructions) {
                Err(VirtualMachineError::CompilerError)
            } else {
                Ok(memory_image(instructions))
            }
        },
    }
}

/// The operand reached from `operand` after `lookups` times reading the cell
/// that a pointer names.
pub open spec fn follow(memory: Seq<i64>, operand: i64, lookups: nat) -> i64
    decreases lookups,
{
    if lookups == 0 {
        operand
    } else {
        follow(memory, memory[operand - MEMORY_SIZE], (lookups - 1) as nat)
    }
}

impl MachineState {
    /// The machine before any program is loaded.
    pub open spec fn initial() -> MachineState {
        MachineState {
            program_counter: 0,
            accumulator: 0,
            memory: Seq::new(MEMORY_SIZE as nat, |i: int| 0i64),
            status: MachineStatus::Running,
            input: None,
            cycles: 0,
            accessing: 0,
        }
    }

    /// The machine after a reset: a stopped one is cleared and stays stopped,
    /// a running one is left as it is.
    pub open spec fn after_reset(self) -> MachineState {
        if self.status is Running {
            self
        } else {
            MachineState { status: MachineStatus::Halted, ..MachineState::initial() }
        }
    }

    /// The machine stopped on `fault`.
    pub open spec fn faulted(self, fault: Fault) -> (MachineState, VirtualMachineStep) {
        (
            MachineState { status: MachineStatus::Faulted(fault), ..self },
            VirtualMachineStep::Fault(fault),
        )
    }

    /// The machine after an instruction that reads the cell that `operand`
    /// comes down to and applies `op` to the accumulator and that cell.
    pub open spec fn after_load(self, operand: i64, op: AccumulatorOp) -> (
        MachineState,
        VirtualMachineStep,
    ) {
        match resolve(self.memory, operand, MAX_INDIRECTION_DEPTH as nat) {
            Ok(address) => (
                MachineState {
                    accumulator: op.apply(self.accumulator, self.memory[address as int]),
                    program_counter: (self.program_counter + 1) as usize,
                    accessing: address,
                    ..self
                },
                VirtualMachineStep::Advanced,
            ),
            Err(fault) => self.faulted(fault),
        }
    }

    /// The machine after `STA`.
    pub open spec fn after_store(self, operand: i64) -> (MachineState, VirtualMachineStep) {
        match resolve(self.memory, operand, MAX_INDIRECTION_DEPTH as nat) {
            Ok(address) => (
                MachineState {
                    memory: self.memory.update(address as int, self.accumulator),
                    program_counter: (self.program_counter + 1) as usize,
                    accessing: address,
                    ..self
                },
                VirtualMachineStep::Advanced,
            ),
            Err(fault) => self.faulted(fault),
        }
    }

    /// The machine after a branch instruction whose condition is `taken`.
    /// The target is an address as it stands: a branch follows no pointer.
    pub open spec fn after_branch(self, taken: bool, target: i64) -> (
        MachineState,
        VirtualMachineStep,
    ) {
        if !taken {
            (
                MachineState { program_counter: (self.program_counter + 1) as usize, ..self },
                VirtualMachineStep::Advanced,
            )
        } else if 0 <= target < MEMORY_SIZE {
            (MachineState { program_counter: target as usize, ..self }, VirtualMachineStep::Advanced)
        } else {
            self.faulted(Fault::AddressOutOfRange)
        }
    }

    /// The machine after it has run `instruction`, with the program counter
    /// inside the memory.
    pub open spec fn execute(self, instruction: Instruction<i64>) -> (
        MachineState,
        VirtualMachineStep,
    ) {
        let next = (self.program_counter + 1) as usize;
        match instruction {
            Instruction::ADD(a) => self.after_load(a, AccumulatorOp::Add),
            Instruction::SUB(a) => self.after_load(a, AccumulatorOp::Subtract),
            Instruction::LDA(a) => self.after_load(a, AccumulatorOp::Load),
            Instruction::LDR => self.after_load(self.accumulator, AccumulatorOp::Load),
            Instruction::BWA(a) => self.after_load(a, AccumulatorOp::And),
            Instruction::BWO(a) => self.after_load(a, AccumulatorOp::Or),
            Instruction::BWX(a) => self.after_load(a, AccumulatorOp::Xor),
            Instruction::BWN => (
                MachineState { accumulator: !self.accumulator, program_counter: next, ..self },
                VirtualMachineStep::Advanced,
            ),
            Instruction::STA(a) => self.after_store(a),
            Instruction::BRA(a) => self.after_branch(true, a),
            Instruction::BRZ(a) => self.after_branch(self.accumulator == 0, a),
            Instruction::BRP(a) => self.after_branch(self.accumulator >= 0, a),
            Instruction::INP => match self.input {
                Some(value) => (
                    MachineState {
                        accumulator: value,
                        input: None,
                        program_counter: next,
                        ..self
                    },
                    VirtualMachineStep::Advanced,
                ),
                None => (self, VirtualMachineStep::InputRequired),
            },
            Instruction::OUT => (
                MachineState { program_counter: next, ..self },
                VirtualMachineStep::Output(self.accumulator),
            ),
            Instruction::HLT => (
                MachineState { status: MachineStatus::Halted, ..self },
                VirtualMachineStep::Halted,
            ),
            Instruction::DAT(_) => (
                MachineState { program_counter: next, ..self },
                VirtualMachineStep::Advanced,
            ),
        }
    }

    /// One cycle of the machine: the state after it and what the step answers.
    ///
    /// A stopped machine stays as it is. A running one counts the cycle, then
    /// stops if the program counter has left the memory, skips the cell if it
    /// is no instruction, and runs it otherwise.
    pub open spec fn step(self) -> (MachineState, VirtualMachineStep) {
        match self.status {
            MachineStatus::Faulted(fault) => (self, VirtualMachineStep::Fault(fault)),
            MachineStatus::Halted => (self, VirtualMachineStep::Halted),
            MachineStatus::Running => {
                let counted = MachineState { cycles: next_cycle(self.cycles), ..self };
                if self.program_counter >= MEMORY_SIZE {
                    (
                        MachineState { status: MachineStatus::Halted, ..counted },
                        VirtualMachineStep::Halted,
                    )
                } else {
                    match Instruction::decoding(self.memory[self.program_counter as int]) {
                        Some(instruction) => counted.execute(instruction),
                        None => (
                            MachineState {
                                program_counter: (self.program_counter + 1) as usize,
                                ..counted
                            },
                            VirtualMachineStep::Advanced,
                        ),
                    }
                }
            },
        }
    }
}

/// The machine itself.
#[derive(Debug)]
pub struct VirtualMachine {
    program_counter: usize,
    accumulator: i64,
    memory: [MemoryCell; MEMORY_SIZE],
    status: MachineStatus,
    input_buffer: Option<i64>,
    cycles: i64,
    accessing: usize,
}

impl View for VirtualMachine {
    type V = MachineState;

    closed spec fn view(&self) -> MachineState {
        MachineState {
            program_counter: self.program_counter,
            accumulator: self.accumulator,
            memory: Seq::new(MEMORY_SIZE as nat, |i: int| self.memory@[i].data),
            status: self.status,
            input: self.input_buffer,
            cycles: self.cycles,
            accessing: self.accessing,
        }
    }
}

impl VirtualMachine {
    /// Every machine has `MEMORY_SIZE` cells.
    pub proof fn lemma_memory_size(&self)
        ensures
            self@.memory.len() == MEMORY_SIZE,
    {
    }

    /// A machine with empty memory, ready to run from address 0.
    pub fn new() -> (vm: Self)
        ensures
            vm@ == MachineState::initial(),
    {
        let vm = Self {
            program_counter: 0,
            accumulator: 0,
            memory: [MemoryCell { data: 0 };MEMORY_SIZE],
            cycles: 0,
            accessing: 0,
            status: MachineStatus::Running,
            input_buffer: None,
        };
        assert(vm@.memory =~= MachineState::initial().memory);
        vm
    }

    /// Compiles `program` and loads it. On success the machine is as new but
    /// for its memory, whatever it was before: memory, registers, counters,
    /// pending input and status are all set afresh. On failure the machine
    /// is left as it was.
    pub fn compile(&mut self, program: &str) -> (loaded: Result<(), VirtualMachineError>)
        ensures
            match compiled(program@) {
                Ok(image) => loaded is Ok && final(self)@ == (MachineState {
                    memory: image,
                    ..MachineState::initial()
                }),
                Err(error) => loaded == Err::<(), VirtualMachineError>(error) && final(self)@
                    == old(self)@,
            },
    {
        let chars = characters(program);
        let (start, end) = trim(&chars);
        let source = program.substring_char(start, end);
        let instructions = match assemble(source) {
            Ok(instructions) => instructions,
            Err(_) => {
                return Err(VirtualMachineError::CompilerError);
            },
        };
        if instructions.len() > MEMORY_SIZE {
            return Err(VirtualMachineError::MemoryFull);
        }
        let mut image = [MemoryCell { data: 0 };MEMORY_SIZE];
        let mut counter: usize = 0;
        while counter < instructions.len()
            invariant
                *self == *old(self),
                assembled(trimmed(program@)) == Ok::<Seq<Instruction<i64>>, AssembleErrorView>(
                    instructions@,
                ),
                counter <= instructions.len() <= MEMORY_SIZE,
                forall|i: int| 0 <= i < counter ==> (#[trigger] instructions@[i]).encodable(),
                forall|i: int|
                    0 <= i < counter ==> (#[trigger] image@[i]).data == instructions@[i].encoding(),
                forall|i: int| counter <= i < MEMORY_SIZE ==> (#[trigger] image@[i]).data == 0,
            decreases instructions.len() - counter,
        {
            let instruction = instructions[counter];
            match instruction.checked_encode() {
                Some(value) => image[counter].set(value),
                None => {
                    return Err(VirtualMachineError::CompilerError);
                },
            }
            counter += 1;
        }
        self.memory = image;
        self.cycles = 0;
        self.accessing = 0;
        self.accumulator = 0;
        self.program_counter = 0;
        self.input_buffer = None;
        self.status = MachineStatus::Running;
        assert(self@.memory =~= memory_image(instructions@));
        Ok(())
    }

    /// Clears memory, registers and pending input of a stopped machine, and
    /// the fault if it stopped on one. The machine stays stopped until a
    /// program is loaded. A running machine is left as it is.
    pub fn reset(&mut self)
        ensures
            final(self)@ == old(self)@.after_reset(),
    {
        if let MachineStatus::Running = self.status {
            return ;
        }
        self.memory = [MemoryCell { data: 0 };MEMORY_SIZE];
        self.cycles = 0;
        self.accessing = 0;
        self.accumulator = 0;
        self.program_counter = 0;
        self.input_buffer = None;
        self.status = MachineStatus::Halted;
        assert(self@.memory =~= MachineState::initial().memory);
    }

    /// Runs one cycle.
    pub fn step(&mut self) -> (outcome: VirtualMachineStep)
        ensures
            (final(self)@, outcome) == old(self)@.step(),
    {
        match self.status {
            MachineStatus::Faulted(fault) => {
                return VirtualMachineStep::Fault(fault);
            },
            MachineStatus::Halted => {
                return VirtualMachineStep::Halted;
            },
            MachineStatus::Running => {},
        }
        if self.cycles < i64::MAX {
            self.cycles += 1;
        }
        if self.program_counter >= MEMORY_SIZE {
            self.status = MachineStatus::Halted;
            return VirtualMachineStep::Halted;
        }
        let cell = self.memory[self.program_counter];
        match Instruction::decode(cell.data) {
            Ok(instruction) => self.execute(instruction),
            Err(_) => {
                self.program_counter += 1;
                VirtualMachineStep::Advanced
            },
        }
    }

    /// Runs `instruction` on a machine whose program counter is inside the
    /// memory.
    fn execute(&mut self, instruction: Instruction<i64>) -> (outcome: VirtualMachineStep)
        requires
            old(self)@.program_counter < MEMORY_SIZE,
        ensures
            (final(self)@, outcome) == old(self)@.execute(instruction),
    {
        match instruction {
            Instruction::ADD(addr) => self.load(addr, AccumulatorOp::Add),
            Instruction::SUB(addr) => self.load(addr, AccumulatorOp::Subtract),
            Instruction::LDA(addr) => self.load(addr, AccumulatorOp::Load),
            Instruction::LDR => {
                let pointer = self.accumulator;
                self.load(pointer, AccumulatorOp::Load)
            },
            Instruction::BWA(addr) => self.load(addr, AccumulatorOp::And),
            Instruction::BWO(addr) => self.load(addr, AccumulatorOp::Or),
            Instruction::BWX(addr) => self.load(addr, AccumulatorOp::Xor),
            Instruction::BWN => {
                self.accumulator = !self.accumulator;
                self.program_counter += 1;
                VirtualMachineStep::Advanced
            },
            Instruction::STA(addr) => self.store(addr),
            Instruction::BRA(addr) => self.branch_if(true, addr),
            Instruction::BRZ(addr) => {
                let taken = self.accumulator == 0;
                self.branch_if(taken, addr)
            },
            Instruction::BRP(addr) => {
                let taken = self.accumulator >= 0;
                self.branch_if(taken, addr)
            },
            Instruction::INP => {
                match self.input_buffer {
                    Some(input) => {
                        self.input_buffer = None;
                        self.accumulator = input;
                        self.program_counter += 1;
                        VirtualMachineStep::Advanced
                    },
                    None => VirtualMachineStep::InputRequired,
                }
            },
            Instruction::OUT => {
                self.program_counter += 1;
                VirtualMachineStep::Output(self.accumulator)
            },
            Instruction::HLT => {
                self.status = MachineStatus::Halted;
                VirtualMachineStep::Halted
            },
            Instruction::DAT(_) => {
                self.program_counter += 1;
                VirtualMachineStep::Advanced
            },
        }
    }

    /// Reads the cell that `operand` comes down to, applies `op` to the
    /// accumulator and that cell, and moves on.
    fn load(&mut self, operand: i64, op: AccumulatorOp) -> (outcome: VirtualMachineStep)
        requires
            old(self)@.program_counter < MEMORY_SIZE,
        ensures
            (final(self)@, outcome) == old(self)@.after_load(operand, op),
    {
        match self.ptr_get(operand) {
            Ok(referenced_cell) => {
                self.accumulator = op.compute(self.accumulator, referenced_cell.data);
                self.program_counter += 1;
                VirtualMachineStep::Advanced
            },
            Err(fault) => self.stop_on(fault),
        }
    }

    /// Writes the accumulator to the cell that `operand` comes down to, and
    /// moves on.
    fn store(&mut self, operand: i64) -> (outcome: VirtualMachineStep)
        requires
            old(self)@.program_counter < MEMORY_SIZE,
        ensures
            (final(self)@, outcome) == old(self)@.after_store(operand),
    {
        let value = self.accumulator;
        match self.ptr_write(operand, value) {
            Ok(()) => {
                self.program_counter += 1;
                VirtualMachineStep::Advanced
            },
            Err(fault) => self.stop_on(fault),
        }
    }

    /// Stops the machine on `fault`.
    fn stop_on(&mut self, fault: Fault) -> (outcome: VirtualMachineStep)
        ensures
            (final(self)@, outcome) == old(self)@.faulted(fault),
    {
        self.status = MachineStatus::Faulted(fault);
        VirtualMachineStep::Fault(fault)
    }

    /// Moves the program counter to `ptr` where `taken` holds, and to the next
    /// cell where it does not. A target outside the memory stops the machine.
    fn branch_if(&mut self, taken: bool, ptr: i64) -> (outcome: VirtualMachineStep)
        requires
            old(self)@.program_counter < MEMORY_SIZE,
        ensures
            (final(self)@, outcome) == old(self)@.after_branch(taken, ptr),
    {
        if !taken {
            self.program_counter += 1;
            VirtualMachineStep::Advanced
        } else {
            match self.branch(ptr) {
                Ok(()) => VirtualMachineStep::Advanced,
                Err(fault) => self.stop_on(fault),
            }
        }
    }

    /// Sets the program counter to `ptr`, which must be an address of the
    /// memory.
    pub fn branch(&mut self, ptr: i64) -> (done: Result<(), Fault>)
        ensures
            0 <= ptr < MEMORY_SIZE ==> done is Ok && final(self)@ == (MachineState {
                program_counter: ptr as usize,
                ..old(self)@
            }),
            !(0 <= ptr < MEMORY_SIZE) ==> done == Err::<(), Fault>(Fault::AddressOutOfRange)
                && final(self)@ == old(self)@,
    {
        if ptr < 0 || ptr >= MEMORY_SIZE as i64 {
            return Err(Fault::AddressOutOfRange);
        }
        self.program_counter = ptr as usize;
        Ok(())
    }

    /// Writes `data` to the cell at `loc`, which must be an address of the
    /// memory.
    pub fn write(&mut self, loc: usize, data: i64) -> (done: Result<(), Fault>)
        ensures
            loc < MEMORY_SIZE ==> done is Ok && final(self)@ == (MachineState {
                memory: old(self)@.memory.update(loc as int, data),
                ..old(self)@
            }),
            loc >= MEMORY_SIZE ==> done == Err::<(), Fault>(Fault::AddressOutOfRange) && final(self)@ == old(self)@,
    {
        if loc >= MEMORY_SIZE {
            return Err(Fault::AddressOutOfRange);
        }
        self.memory[loc].set(data);
        assert(self@.memory =~= old(self)@.memory.update(loc as int, data));
        Ok(())
    }

    /// Writes `data` to the cell that `ptr` comes down to.
    pub fn ptr_write(&mut self, ptr: i64, data: i64) -> (done: Result<(), Fault>)
        ensures
            match resolve(old(self)@.memory, ptr, MAX_INDIRECTION_DEPTH as nat) {
                Ok(address) => done is Ok && final(self)@ == (MachineState {
                    memory: old(self)@.memory.update(address as int, data),
                    accessing: address,
                    ..old(self)@
                }),
                Err(fault) => done == Err::<(), Fault>(fault) && final(self)@ == old(self)@,
            },
    {
        let loc = self.ptr_to_loc(ptr)?;
        self.write(loc, data)
    }

    /// Reads the cell that `ptr` comes down to.
    pub fn ptr_get(&mut self, ptr: i64) -> (cell: Result<MemoryCell, Fault>)
        ensures
            match resolve(old(self)@.memory, ptr, MAX_INDIRECTION_DEPTH as nat) {
                Ok(address) => cell is Ok && cell->Ok_0.data == old(self)@.memory[address as int]
                    && final(self)@ == (MachineState { accessing: address, ..old(self)@ }),
                Err(fault) => cell == Err::<MemoryCell, Fault>(fault) && final(self)@ == old(self)@,
            },
    {
        let loc = self.ptr_to_loc(ptr)?;
        Ok(self.memory[loc])
    }

    /// Finds the address that `ptr` comes down to, and records it as the last
    /// address accessed.
    pub fn ptr_to_loc(&mut self, ptr: i64) -> (loc: Result<usize, Fault>)
        ensures
            loc == resolve(old(self)@.memory, ptr, MAX_INDIRECTION_DEPTH as nat),
            loc is Ok ==> loc->Ok_0 < MEMORY_SIZE && final(self)@ == (MachineState {
                accessing: loc->Ok_0,
                ..old(self)@
            }),
            loc is Err ==> final(self)@ == old(self)@,
    {
        let mut operand = ptr;
        let mut depth: usize = MAX_INDIRECTION_DEPTH;
        loop
            invariant
                depth <= MAX_INDIRECTION_DEPTH,
                *self == *old(self),
                resolve(self@.memory, operand, depth as nat) == resolve(
                    self@.memory,
                    ptr,
                    MAX_INDIRECTION_DEPTH as nat,
                ),
            decreases depth,
        {
            if operand < 0 || operand >= 2 * (MEMORY_SIZE as i64) {
                return Err(Fault::PointerOutOfRange);
            }
            if operand > MEMORY_SIZE as i64 {
                if depth == 0 {
                    return Err(Fault::IndirectionCycle);
                }
                let holder = (operand - MEMORY_SIZE as i64) as usize;
                operand = self.memory[holder].data;
                depth -= 1;
            } else if operand == MEMORY_SIZE as i64 {
                return Err(Fault::AddressOutOfRange);
            } else {
                let loc = operand as usize;
                self.accessing = loc;
                return Ok(loc);
            }
        }
    }

    pub fn accumulator(&self) -> (value: i64)
        ensures
            value == self@.accumulator,
    {
        self.accumulator
    }

    pub fn program_counter(&self) -> (value: usize)
        ensures
            value == self@.program_counter,
    {
        self.program_counter
    }

    pub fn cycles(&self) -> (value: i64)
        ensures
            value == self@.cycles,
    {
        self.cycles
    }

    /// Whether the machine has stopped, by `HLT`, by running off the memory or
    /// on a fault.
    pub fn halted(&self) -> (value: bool)
        ensures
            value == !(self@.status is Running),
    {
        match self.status {
            MachineStatus::Running => false,
            _ => true,
        }
    }

    /// The fault that the machine stopped on, if it stopped on one.
    pub fn fault(&self) -> (value: Option<Fault>)
        ensures
            value == (match self@.status {
                MachineStatus::Faulted(fault) => Some(fault),
                _ => None,
            }),
    {
        match self.status {
            MachineStatus::Faulted(fault) => Some(fault),
            _ => None,
        }
    }

    /// Hands the machine one input value for the next `INP`, in place of any
    /// that it has not taken yet.
    pub fn input(&mut self, input: i64)
        ensures
            final(self)@ == (MachineState { input: Some(input), ..old(self)@ }),
    {
        self.input_buffer = Some(input);
    }

    /// The cells of the memory, in address order.
    pub fn memory(&self) -> (cells: &[MemoryCell])
        ensures
            cells@.len() == MEMORY_SIZE,
            forall|i: int| 0 <= i < MEMORY_SIZE ==> #[trigger] cells@[i].data == self@.memory[i],
    {
        self.memory.as_slice()
    }

    /// The address that an operand last came down to.
    pub fn accessing(&self) -> (value: usize)
        ensures
            value == self@.accessing,
    {
        self.accessing
    }
}

/// A chain of pointers comes down to the same address as reading the cells
/// one after the other by hand: where the first `lookups` operands of the
/// chain are pointers, resolving the operand is resolving what `lookups` reads
/// arrive at, with that many fewer pointers to go through.
pub proof fn lemma_resolve_follows_pointers(
    memory: Seq<i64>,
    operand: i64,
    lookups: nat,
    depth: nat,
)
    requires
        lookups <= depth,
        forall|j: nat| j < lookups ==> is_pointer(#[trigger] follow(memory, operand, j)),
    ensures
        resolve(memory, operand, depth) == resolve(
            memory,
            follow(memory, operand, lookups),
            (depth - lookups) as nat,
        ),
    decreases lookups,
{
    if lookups > 0 {
        assert(is_pointer(follow(memory, operand, 0)));
        let held = memory[operand - MEMORY_SIZE];
        assert forall|j: nat| j < lookups - 1 implies is_pointer(
            #[trigger] follow(memory, held, j),
        ) by {
            assert(is_pointer(follow(memory, operand, j + 1)));
        }
        lemma_resolve_follows_pointers(memory, held, (lookups - 1) as nat, (depth - 1) as nat);
    }
}

/// A chain of `lookups` pointers that ends in an address of the memory
/// resolves to that address.
pub proof fn lemma_resolve_reaches_address(memory: Seq<i64>, operand: i64, lookups: nat)
    requires
        lookups <= MAX_INDIRECTION_DEPTH,
        forall|j: nat| j < lookups ==> is_pointer(#[trigger] follow(memory, operand, j)),
        0 <= follow(memory, operand, lookups) < MEMORY_SIZE,
    ensures
        resolve(memory, operand, MAX_INDIRECTION_DEPTH as nat) == Ok::<usize, Fault>(
            follow(memory, operand, lookups) as usize,
        ),
{
    lemma_resolve_follows_pointers(memory, operand, lookups, MAX_INDIRECTION_DEPTH as nat);
}

/// Reading `first` cells and then `then` more is reading `first + then`.
pub proof fn lemma_follow_adds(memory: Seq<i64>, operand: i64, first: nat, then: nat)
    ensures
        follow(memory, follow(memory, operand, first), then) == follow(
            memory,
            operand,
            first + then,
        ),
    decreases first,
{
    if first > 0 {
        lemma_follow_adds(memory, memory[operand - MEMORY_SIZE], (first - 1) as nat, then);
    }
}

/// Where resolving gives up at some depth, every operand of the chain up to
/// that depth is a pointer.
proof fn lemma_cycle_is_all_pointers(memory: Seq<i64>, operand: i64, depth: nat)
    requires
        resolve(memory, operand, depth) == Err::<usize, Fault>(Fault::IndirectionCycle),
    ensures
        forall|j: nat| j <= depth ==> is_pointer(#[trigger] follow(memory, operand, j)),
    decreases depth,
{
    if depth > 0 {
        let held = memory[operand - MEMORY_SIZE];
        lemma_cycle_is_all_pointers(memory, held, (depth - 1) as nat);
        assert forall|j: nat| j <= depth implies is_pointer(
            #[trigger] follow(memory, operand, j),
        ) by {
            if j > 0 {
                assert(is_pointer(follow(memory, held, (j - 1) as nat)));
            }
        }
    } else {
        assert forall|j: nat| j <= depth implies is_pointer(
            #[trigger] follow(memory, operand, j),
        ) by {}
    }
}

/// Pointers that differ from one another are fewer than the memory has
/// cells: each names a cell of its own, and no pointer names cell 0.
proof fn lemma_distinct_pointers_are_few(memory: Seq<i64>, operand: i64, count: nat)
    requires
        forall|j: nat| j < count ==> is_pointer(#[trigger] follow(memory, operand, j)),
        forall|i: nat, j: nat|
            i < j < count ==> follow(memory, operand, i) != follow(memory, operand, j),
    ensures
        count < MEMORY_SIZE,
{
    let lookups = set_int_range(0, count as int);
    let reached = |j: int| follow(memory, operand, j as nat) as int;
    let pointers = set_int_range(MEMORY_SIZE + 1, 2 * MEMORY_SIZE);
    lemma_int_range(0, count as int);
    lemma_int_range(MEMORY_SIZE + 1, 2 * MEMORY_SIZE);
    assert(injective_on(reached, lookups)) by {
        assert forall|i: int, j: int|
            lookups.contains(i) && lookups.contains(j) && #[trigger] reached(i) == #[trigger] reached(
                j,
            ) implies i == j by {
            let a = i as nat;
            let b = j as nat;
            if a < b {
                assert(follow(memory, operand, a) != follow(memory, operand, b));
            } else if b < a {
                assert(follow(memory, operand, b) != follow(memory, operand, a));
            }
        }
    }
    lemma_map_size(lookups, lookups.map(reached), reached);
    assert(lookups.map(reached).subset_of(pointers)) by {
        assert forall|p: int| lookups.map(reached).contains(p) implies pointers.contains(p) by {
            let j = choose|j: int| lookups.contains(j) && reached(j) == p;
            assert(is_pointer(follow(memory, operand, j as nat)));
        }
    }
    lemma_len_subset(lookups.map(reached), pointers);
}

/// A chain that comes back to an operand it has passed is all pointers, for
/// ever.
proof fn lemma_repeating_chain_is_all_pointers(
    memory: Seq<i64>,
    operand: i64,
    earlier: nat,
    later: nat,
    lookups: nat,
)
    requires
        earlier < later,
        follow(memory, operand, earlier) == follow(memory, operand, later),
        forall|j: nat| j < later ==> is_pointer(#[trigger] follow(memory, operand, j)),
    ensures
        is_pointer(follow(memory, operand, lookups)),
    decreases lookups,
{
    if lookups >= later {
        let beyond = (lookups - later) as nat;
        lemma_follow_adds(memory, operand, later, beyond);
        lemma_follow_adds(memory, operand, earlier, beyond);
        lemma_repeating_chain_is_all_pointers(memory, operand, earlier, later, earlier + beyond);
    }
}

/// The machine gives up on a chain of pointers only where the chain never
/// ends: a chain that is still all pointers after `MAX_INDIRECTION_DEPTH`
/// reads has come back to a cell that it passed before, so that every
/// operand of it is a pointer and no depth resolves it.
pub proof fn lemma_cycle_never_ends(memory: Seq<i64>, operand: i64, depth: nat)
    requires
        resolve(memory, operand, MAX_INDIRECTION_DEPTH as nat) == Err::<usize, Fault>(
            Fault::IndirectionCycle,
        ),
    ensures
        is_pointer(follow(memory, operand, depth)),
        resolve(memory, operand, depth) == Err::<usize, Fault>(Fault::IndirectionCycle),
{
    let passed = (MAX_INDIRECTION_DEPTH + 1) as nat;
    lemma_cycle_is_all_pointers(memory, operand, MAX_INDIRECTION_DEPTH as nat);
    if forall|i: nat, j: nat|
        i < j < passed ==> follow(memory, operand, i) != follow(memory, operand, j) {
        lemma_distinct_pointers_are_few(memory, operand, passed);
    }
    let (earlier, later): (nat, nat) = choose|i: nat, j: nat|
        i < j < passed && follow(memory, operand, i) == follow(memory, operand, j);
    assert forall|lookups: nat| is_pointer(#[trigger] follow(memory, operand, lookups)) by {
        lemma_repeating_chain_is_all_pointers(memory, operand, earlier, later, lookups);
    }
    lemma_resolve_follows_pointers(memory, operand, depth, depth);
}

/// A chain that ends within some depth resolves to the same at every greater
/// depth.
pub proof fn lemma_resolve_needs_no_more_depth(
    memory: Seq<i64>,
    operand: i64,
    depth: nat,
    more: nat,
)
    requires
        depth <= more,
        resolve(memory, operand, depth) != Err::<usize, Fault>(Fault::IndirectionCycle),
    ensures
        resolve(memory, operand, more) == resolve(memory, operand, depth),
    decreases depth,
{
    if is_pointer(operand) && depth > 0 {
        lemma_resolve_needs_no_more_depth(
            memory,
            memory[operand - MEMORY_SIZE],
            (depth - 1) as nat,
            (more - 1) as nat,
        );
    }
}

/// A machine that asks for input keeps asking: the step changes nothing but
/// the cycle counter, and the next step asks again.
pub proof fn lemma_input_required_repeats(state: MachineState)
    requires
        state.step().1 == VirtualMachineStep::InputRequired,
    ensures
        state.step().0 == (MachineState { cycles: next_cycle(state.cycles), ..state }),
        state.step().0.step().1 == VirtualMachineStep::InputRequired,
{
}

/// A machine that asked for input and was given `value` takes it with the
/// next step: the accumulator is `value`, nothing is pending any more, and the
/// program counter has moved on by one.
pub proof fn lemma_input_resumes(state: MachineState, value: i64)
    requires
        state.step().1 == VirtualMachineStep::InputRequired,
    ensures
        ({
            let supplied = MachineState { input: Some(value), ..state.step().0 };
            supplied.step() == (
                MachineState {
                    accumulator: value,
                    input: None,
                    program_counter: (state.program_counter + 1) as usize,
                    cycles: next_cycle(supplied.cycles),
                    ..supplied
                },
                VirtualMachineStep::Advanced,
            )
        }),
{
}

/// Once a step has answered `Halted`, every further step answers `Halted`
/// and changes nothing, the cycle counter included.
pub proof fn lemma_halted_is_terminal(state: MachineState)
    requires
        state.step().1 == VirtualMachineStep::Halted,
    ensures
        state.step().0.status == MachineStatus::Halted,
        state.step().0.step() == (state.step().0, VirtualMachineStep::Halted),
{
}

/// Once a step has answered with a fault, the machine is stopped on that
/// fault, and every further step answers with the same fault and changes
/// nothing.
pub proof fn lemma_fault_is_terminal(state: MachineState, fault: Fault)
    requires
        state.step().1 == VirtualMachineStep::Fault(fault),
    ensures
        state.step().0.status == MachineStatus::Faulted(fault),
        state.step().0.step() == (state.step().0, VirtualMachineStep::Fault(fault)),
{
}

/// A running machine whose instruction branches to a target outside the
/// memory stops on `AddressOutOfRange`; nothing else of it changes but the
/// cycle counter.
pub proof fn lemma_branch_out_of_range_faults(state: MachineState, target: i64)
    requires
        state.status is Running,
        state.program_counter < MEMORY_SIZE,
        target >= MEMORY_SIZE,
        ({
            let decoded = Instruction::decoding(state.memory[state.program_counter as int]);
            ||| decoded == Some(Instruction::BRA(target))
            ||| decoded == Some(Instruction::BRZ(target)) && state.accumulator == 0
            ||| decoded == Some(Instruction::BRP(target)) && state.accumulator >= 0
        }),
    ensures
        state.step() == (
            MachineState {
                status: MachineStatus::Faulted(Fault::AddressOutOfRange),
                cycles: next_cycle(state.cycles),
                ..state
            },
            VirtualMachineStep::Fault(Fault::AddressOutOfRange),
        ),
{
}

} // verus!
