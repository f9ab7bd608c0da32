//! The reference PVM machine: thirteen 64-bit registers over a `PvmMemoryV0`, executing an
//! admitted `PvmProgramV1` block by block under a fixed step limit.
use crate::opcode;
use crate::program::{
    BlockModel, InstructionModel, PvmInstructionV1, PvmProgramV1, PvmTerminatorV1,
    ProgramModel, block_admission, block_admission_fn, first_error, instruction_admission,
    instruction_admission_fn, program_admission, register_in_range, PVM_REGISTER_COUNT,
};
use crate::pvm_memory::{
    after_write_bytes, le_prefix, le_u64, le_value, read_result, write_bytes_result, MemoryModel,
    PvmMemoryV0,
};
use crate::translation::TranslationError;
use vstd::bytes::*;
use vstd::prelude::*;
use vstd::slice::slice_subrange;

verus! {

broadcast use vstd::seq_lib::group_seq_properties;

/// The number of instructions after which execution stops.
pub const STEP_LIMIT: usize = 1000000;

/// The mathematical value of a machine.
pub struct MachineModel {
    pub registers: Seq<u64>,
    pub memory: MemoryModel,
    pub output_register: u8,
}

pub open spec fn reg(s: MachineModel, r: u8) -> u64 {
    s.registers[r as int]
}

pub open spec fn set_reg(s: MachineModel, r: u8, v: u64) -> MachineModel {
    MachineModel { registers: s.registers.update(r as int, v), ..s }
}

/// The low 32 bits of a register.
pub open spec fn low32(v: u64) -> int {
    v as int % 0x1_0000_0000
}

/// A 32-bit value sign-extended to 64 bits.
pub open spec fn sext32(x: int) -> u64 {
    if x < 0x8000_0000 {
        x as u64
    } else {
        (x + 0xFFFF_FFFF_0000_0000) as u64
    }
}

/// The 64-bit two's-complement residue of an integer.
pub open spec fn wrap64(x: int) -> u64 {
    (x % 0x1_0000_0000_0000_0000) as u64
}

/// A register read as a signed 64-bit integer.
pub open spec fn signed64(v: u64) -> int {
    if v < 0x8000_0000_0000_0000 {
        v as int
    } else {
        v as int - 0x1_0000_0000_0000_0000
    }
}

/// The immediate of `i` as a little-endian value, when it has exactly `expected` bytes.
pub open spec fn immediate_value(i: InstructionModel, expected: int) -> Result<u64, TranslationError> {
    if i.immediate.len() != expected {
        Err(
            TranslationError::InvalidImmediate {
                opcode: i.opcode,
                expected: expected as usize,
                actual: i.immediate.len() as usize,
            },
        )
    } else {
        Ok(le_value(i.immediate))
    }
}

/// The machine after a store of `data` at `address`, and the store's outcome.
pub open spec fn store_step(s: MachineModel, address: u32, data: Seq<u8>) -> (
    MachineModel,
    Result<bool, TranslationError>,
) {
    (
        MachineModel { memory: after_write_bytes(s.memory, address, data), ..s },
        match write_bytes_result(s.memory, address, data) {
            Ok(_) => Ok(false),
            Err(e) => Err(e),
        },
    )
}

/// One instruction: the next machine and either whether a branch condition held or the error
/// that stopped execution.
pub open spec fn step_result(s: MachineModel, i: InstructionModel) -> (
    MachineModel,
    Result<bool, TranslationError>,
) {
    let rd = i.registers.rd;
    let ra = i.registers.ra;
    let a = reg(s, i.registers.ra);
    let b = reg(s, i.registers.rb);
    let op = i.opcode;
    if op == opcode::LOAD_IMM_64 {
        match immediate_value(i, 8) {
            Ok(v) => (set_reg(s, ra, v), Ok(false)),
            Err(e) => (s, Err(e)),
        }
    } else if op == opcode::MOVE_REG {
        (set_reg(s, rd, a), Ok(false))
    } else if op == opcode::ADD_32 {
        (set_reg(s, rd, sext32((low32(a) + low32(b)) % 0x1_0000_0000)), Ok(false))
    } else if op == opcode::SUB_32 {
        (set_reg(s, rd, sext32((low32(a) - low32(b)) % 0x1_0000_0000)), Ok(false))
    } else if op == opcode::MUL_32 {
        (set_reg(s, rd, sext32((low32(a) * low32(b)) % 0x1_0000_0000)), Ok(false))
    } else if op == opcode::ADD_64 {
        (set_reg(s, rd, wrap64(a + b)), Ok(false))
    } else if op == opcode::SUB_64 {
        (set_reg(s, rd, wrap64(a - b)), Ok(false))
    } else if op == opcode::MUL_64 {
        (set_reg(s, rd, wrap64(a * b)), Ok(false))
    } else if op == opcode::XOR {
        (set_reg(s, rd, a ^ b), Ok(false))
    } else if op == opcode::LOAD_U32 {
        match immediate_value(i, 4) {
            Err(e) => (s, Err(e)),
            Ok(address) => match read_result(s.memory, address as u32, 4) {
                Ok(v) => (set_reg(s, ra, v), Ok(false)),
                Err(e) => (s, Err(e)),
            },
        }
    } else if op == opcode::STORE_U32 {
        match immediate_value(i, 4) {
            Err(e) => (s, Err(e)),
            Ok(address) => store_step(s, address as u32, le_prefix(a, 4)),
        }
    } else if op == opcode::STORE_IMM_U32 {
        if i.immediate.len() != 8 {
            (
                s,
                Err(
                    TranslationError::InvalidImmediate {
                        opcode: op,
                        expected: 8,
                        actual: i.immediate.len() as usize,
                    },
                ),
            )
        } else {
            let address = spec_u32_from_le_bytes(i.immediate.subrange(0, 4));
            let value = spec_u32_from_le_bytes(i.immediate.subrange(4, 8));
            store_step(s, address, le_prefix(value as u64, 4))
        }
    } else if op == opcode::BRANCH_EQ {
        (s, Ok(a == b))
    } else if op == opcode::BRANCH_NE {
        (s, Ok(a != b))
    } else if op == opcode::BRANCH_LT_U {
        (s, Ok(a < b))
    } else if op == opcode::BRANCH_LT_S {
        (s, Ok(signed64(a) < signed64(b)))
    } else if op == opcode::BRANCH_GE_U {
        (s, Ok(a >= b))
    } else if op == opcode::BRANCH_GE_S {
        (s, Ok(signed64(a) >= signed64(b)))
    } else {
        (s, Err(TranslationError::UnsupportedOpcode(op)))
    }
}

/// The instructions of a block from index `i` on, after `steps` instructions in all and with
/// the last branch condition `branch`: the machine, and either the last branch condition and
/// the step count, or the error that stopped execution.
pub open spec fn block_body(
    s: MachineModel,
    instrs: Seq<InstructionModel>,
    i: int,
    steps: int,
    branch: bool,
) -> (MachineModel, Result<(bool, int), TranslationError>)
    decreases instrs.len() - i,
{
    if i < 0 || i >= instrs.len() {
        (s, Ok((branch, steps)))
    } else {
        let (s1, r) = step_result(s, instrs[i]);
        match r {
            Err(e) => (s1, Err(e)),
            Ok(b) => if steps + 1 >= STEP_LIMIT {
                (s1, Err(TranslationError::StepLimit))
            } else {
                block_body(s1, instrs, i + 1, steps + 1, b)
            },
        }
    }
}

/// Where a terminator leads: the next block, `None` to halt, or an error.
pub open spec fn next_block(t: PvmTerminatorV1, branch: bool) -> Result<
    Option<u32>,
    TranslationError,
> {
    match t {
        PvmTerminatorV1::Fallthrough { next, .. } => match next {
            Some(n) => Ok(Some(n)),
            None => Err(TranslationError::UnsupportedTerminator),
        },
        PvmTerminatorV1::Jump { target, .. } => match target {
            Some(n) => Ok(Some(n)),
            None => Err(TranslationError::UnsupportedTerminator),
        },
        PvmTerminatorV1::BrEqz { true_block, false_block, .. } => match (
            if branch {
                true_block
            } else {
                false_block
            }
        ) {
            Some(n) => Ok(Some(n)),
            None => Err(TranslationError::UnsupportedTerminator),
        },
        PvmTerminatorV1::Halt => Ok(None),
        PvmTerminatorV1::Trap(pc) => Err(TranslationError::Trap(pc)),
        PvmTerminatorV1::DJump => Err(TranslationError::UnsupportedTerminator),
    }
}

/// Execution from block `block` after `steps` instructions, returning register `out` on halt.
/// A block that makes no progress stops with `StepLimit`; admitted programs have none.
pub open spec fn run_from(
    s: MachineModel,
    blocks: Seq<BlockModel>,
    block: int,
    steps: int,
    out: u8,
) -> (MachineModel, Result<u64, TranslationError>)
    decreases STEP_LIMIT - steps,
{
    if !(0 <= steps < STEP_LIMIT) {
        (s, Err(TranslationError::StepLimit))
    } else if !(0 <= block < blocks.len()) {
        (s, Err(TranslationError::InvalidProgram("block index out of range")))
    } else {
        let (s1, r) = block_body(s, blocks[block].instructions, 0, steps, false);
        match r {
            Err(e) => (s1, Err(e)),
            Ok((branch, steps1)) => match next_block(blocks[block].terminator, branch) {
                Err(e) => (s1, Err(e)),
                Ok(None) => (s1, Ok(reg(s1, out))),
                Ok(Some(n)) => if steps < steps1 < STEP_LIMIT {
                    run_from(s1, blocks, n as int, steps1, out)
                } else {
                    (s1, Err(TranslationError::StepLimit))
                },
            },
        }
    }
}

/// The outcome of `PvmMachineV0::run`: the machine afterwards and the value of the output
/// register on halt, or the error that stopped execution.
pub open spec fn run_result(s: MachineModel, p: ProgramModel, out: u8) -> (
    MachineModel,
    Result<u64, TranslationError>,
) {
    if program_admission(p) is Err {
        (s, Err(TranslationError::InvalidProgram("interface validation failed")))
    } else if out as int >= PVM_REGISTER_COUNT as int {
        (s, Err(TranslationError::InvalidProgram("output register out of range")))
    } else {
        run_from(MachineModel { output_register: out, ..s }, p.blocks, 0, 0, out)
    }
}

/// The shape that admission guarantees: non-empty blocks of instructions with register indices
/// in range.
pub open spec fn well_shaped(blocks: Seq<BlockModel>) -> bool {
    forall|k: int|
        0 <= k < blocks.len() ==> {
            &&& (#[trigger] blocks[k]).instructions.len() > 0
            &&& forall|j: int|
                0 <= j < blocks[k].instructions.len() ==> operands_in_range(
                    #[trigger] blocks[k].instructions[j],
                )
        }
}

pub open spec fn operands_in_range(i: InstructionModel) -> bool {
    register_in_range(i.registers.rd) && register_in_range(i.registers.ra) && register_in_range(
        i.registers.rb,
    )
}

pub proof fn lemma_admitted_well_shaped(p: ProgramModel)
    requires
        program_admission(p) is Ok,
    ensures
        well_shaped(p.blocks),
{
    crate::program::lemma_first_error_ok_iff(block_admission_fn(), p.blocks);
    assert forall|k: int| 0 <= k < p.blocks.len() implies {
        &&& (#[trigger] p.blocks[k]).instructions.len() > 0
        &&& forall|j: int|
            0 <= j < p.blocks[k].instructions.len() ==> operands_in_range(
                #[trigger] p.blocks[k].instructions[j],
            )
    } by {
        assert(block_admission_fn()(p.blocks[k]) is Ok);
        assert(block_admission(p.blocks[k]) is Ok);
        crate::program::lemma_first_error_ok_iff(instruction_admission_fn(), p.blocks[k].instructions);
        assert forall|j: int| 0 <= j < p.blocks[k].instructions.len() implies operands_in_range(
            #[trigger] p.blocks[k].instructions[j],
        ) by {
            assert(instruction_admission_fn()(p.blocks[k].instructions[j]) is Ok);
            assert(instruction_admission(p.blocks[k].instructions[j]) is Ok);
        }
    }
}

fn sign_extend_32(x: u32) -> (r: u64)
    ensures
        r == sext32(x as int),
{
    let r = x as i32 as i64 as u64;
    assert(r == if x < 0x8000_0000u32 {
        x as u64
    } else {
        (x as u64 + 0xFFFF_FFFF_0000_0000u64) as u64
    }) by (bit_vector)
        requires
            r == x as i32 as i64 as u64,
    ;
    r
}

fn signed_less(a: u64, b: u64) -> (r: bool)
    ensures
        r == (signed64(a) < signed64(b)),
{
    let r = (a as i64) < (b as i64);
    assert(r == (if a < 0x8000_0000_0000_0000u64 {
        if b < 0x8000_0000_0000_0000u64 {
            a < b
        } else {
            false
        }
    } else {
        if b < 0x8000_0000_0000_0000u64 {
            true
        } else {
            a < b
        }
    })) by (bit_vector)
        requires
            r == ((a as i64) < (b as i64)),
    ;
    r
}

fn immediate(instruction: &PvmInstructionV1, expected: usize) -> (r: Result<u64, TranslationError>)
    requires
        expected <= 8,
    ensures
        r == immediate_value(instruction@, expected as int),
{
    if instruction.immediate.len() != expected {
        return Err(
            TranslationError::InvalidImmediate {
                opcode: instruction.opcode,
                expected,
                actual: instruction.immediate.len(),
            },
        );
    }
    Ok(le_u64(instruction.immediate.as_slice()))
}

/// The reference PVM machine.
#[derive(Clone, Debug, PartialEq, Eq)]
pub struct PvmMachineV0 {
    pub registers: [u64; 13],
    pub memory: PvmMemoryV0,
    pub output_register: u8,
}

impl View for PvmMachineV0 {
    type V = MachineModel;

    open spec fn view(&self) -> MachineModel {
        MachineModel {
            registers: self.registers@,
            memory: self.memory@,
            output_register: self.output_register,
        }
    }
}

impl Default for PvmMachineV0 {
    fn default() -> (r: Self)
        ensures
            r.registers@ == Seq::new(13, |i: int| 0u64),
            r.memory@.pages == Map::<u32, bool>::empty(),
            r.memory@.bytes == Map::<u32, u8>::empty(),
            r.output_register == 0,
    {
        let r = PvmMachineV0 { registers: [0u64; 13], memory: PvmMemoryV0::new(), output_register: 0 };
        assert(r.registers@ =~= Seq::new(13, |i: int| 0u64));
        r
    }
}

impl PvmMachineV0 {
    fn set(&mut self, r: u8, v: u64)
        requires
            register_in_range(r),
        ensures
            final(self)@ == set_reg(old(self)@, r, v),
    {
        self.registers[r as usize] = v;
        assert(self@.registers =~= old(self)@.registers.update(r as int, v));
    }

    fn store(&mut self, address: u32, value: u64) -> (r: Result<bool, TranslationError>)
        ensures
            final(self)@ == store_step(old(self)@, address, le_prefix(value, 4)).0,
            r == store_step(old(self)@, address, le_prefix(value, 4)).1,
    {
        match self.memory.write(address, 4, value) {
            Ok(()) => Ok(false),
            Err(e) => Err(e),
        }
    }

    /// Executes one instruction, returning whether its branch condition held.
    fn step(&mut self, instruction: &PvmInstructionV1) -> (r: Result<bool, TranslationError>)
        requires
            operands_in_range(instruction@),
        ensures
            final(self)@ == step_result(old(self)@, instruction@).0,
            r == step_result(old(self)@, instruction@).1,
    {
        let rd = instruction.registers.rd;
        let ra = instruction.registers.ra;
        let a = self.registers[ra as usize];
        let b = self.registers[instruction.registers.rb as usize];
        let op = instruction.opcode;
        if op == opcode::LOAD_IMM_64 {
            let v = match immediate(instruction, 8) {
                Ok(v) => v,
                Err(e) => return Err(e),
            };
            self.set(ra, v);
            Ok(false)
        } else if op == opcode::MOVE_REG {
            self.set(rd, a);
            Ok(false)
        } else if op == opcode::ADD_32 {
            let (x, y) = (a as u32, b as u32);
            assert(x as int == low32(a) && y as int == low32(b)) by (bit_vector)
                requires
                    x == a as u32,
                    y == b as u32,
            ;
            self.set(rd, sign_extend_32(x.wrapping_add(y)));
            Ok(false)
        } else if op == opcode::SUB_32 {
            let (x, y) = (a as u32, b as u32);
            assert(x as int == low32(a) && y as int == low32(b)) by (bit_vector)
                requires
                    x == a as u32,
                    y == b as u32,
            ;
            self.set(rd, sign_extend_32(x.wrapping_sub(y)));
            Ok(false)
        } else if op == opcode::MUL_32 {
            let (x, y) = (a as u32, b as u32);
            assert(x as int == low32(a) && y as int == low32(b)) by (bit_vector)
                requires
                    x == a as u32,
                    y == b as u32,
            ;
            self.set(rd, sign_extend_32(x.wrapping_mul(y)));
            Ok(false)
        } else if op == opcode::ADD_64 {
            self.set(rd, a.wrapping_add(b));
            Ok(false)
        } else if op == opcode::SUB_64 {
            self.set(rd, a.wrapping_sub(b));
            Ok(false)
        } else if op == opcode::MUL_64 {
            self.set(rd, a.wrapping_mul(b));
            Ok(false)
        } else if op == opcode::XOR {
            self.set(rd, a ^ b);
            Ok(false)
        } else if op == opcode::LOAD_U32 {
            let address = match immediate(instruction, 4) {
                Ok(v) => v,
                Err(e) => return Err(e),
            };
            let v = match self.memory.read(address as u32, 4) {
                Ok(v) => v,
                Err(e) => return Err(e),
            };
            self.set(ra, v);
            Ok(false)
        } else if op == opcode::STORE_U32 {
            let address = match immediate(instruction, 4) {
                Ok(v) => v,
                Err(e) => return Err(e),
            };
            self.store(address as u32, a)
        } else if op == opcode::STORE_IMM_U32 {
            if instruction.immediate.len() != 8 {
                return Err(
                    TranslationError::InvalidImmediate {
                        opcode: op,
                        expected: 8,
                        actual: instruction.immediate.len(),
                    },
                );
            }
            let imm = instruction.immediate.as_slice();
            let address = u32_from_le_bytes(slice_subrange(imm, 0, 4));
            let value = u32_from_le_bytes(slice_subrange(imm, 4, 8));
            self.store(address, value as u64)
        } else if op == opcode::BRANCH_EQ {
            Ok(a == b)
        } else if op == opcode::BRANCH_NE {
            Ok(a != b)
        } else if op == opcode::BRANCH_LT_U {
            Ok(a < b)
        } else if op == opcode::BRANCH_LT_S {
            Ok(signed_less(a, b))
        } else if op == opcode::BRANCH_GE_U {
            Ok(a >= b)
        } else if op == opcode::BRANCH_GE_S {
            Ok(!signed_less(a, b))
        } else {
            Err(TranslationError::UnsupportedOpcode(op))
        }
    }

    /// Validates `program`, then executes it from its first block until it halts, returning the
    /// value of `output_register`.
    pub fn run(&mut self, program: &PvmProgramV1, output_register: u8) -> (r: Result<
        u64,
        TranslationError,
    >)
        ensures
            final(self)@ == run_result(old(self)@, program@, output_register).0,
            r == run_result(old(self)@, program@, output_register).1,
    {
        if program.validate().is_err() {
            return Err(TranslationError::InvalidProgram("interface validation failed"));
        }
        if output_register as usize >= PVM_REGISTER_COUNT {
            return Err(TranslationError::InvalidProgram("output register out of range"));
        }
        self.output_register = output_register;
        let ghost blocks = program@.blocks;
        proof {
            lemma_admitted_well_shaped(program@);
        }
        let ghost goal = run_from(self@, blocks, 0, 0, output_register);
        let mut block: usize = 0;
        let mut steps: usize = 0;
        loop
            invariant
                blocks == program@.blocks,
                blocks.len() == program.blocks@.len(),
                well_shaped(blocks),
                steps < STEP_LIMIT,
                goal == run_from(self@, blocks, block as int, steps as int, output_register),
                goal == run_result(old(self)@, program@, output_register),
                self@.registers.len() == 13,
            decreases STEP_LIMIT - steps,
        {
            if block >= program.blocks.len() {
                return Err(TranslationError::InvalidProgram("block index out of range"));
            }
            let current = &program.blocks[block];
            let ghost instrs = blocks[block as int].instructions;
            assert(instrs == current@.instructions);
            let ghost s0 = self@;
            let ghost steps0 = steps as int;
            let mut branch = false;
            let mut i: usize = 0;
            while i < current.instructions.len()
                invariant
                    instrs == current@.instructions,
                    instrs.len() == current.instructions@.len(),
                    instrs.len() > 0,
                    forall|j: int| 0 <= j < instrs.len() ==> operands_in_range(#[trigger] instrs[j]),
                    0 <= i <= instrs.len(),
                    steps < STEP_LIMIT,
                    steps == steps0 + i,
                    block_body(self@, instrs, i as int, steps as int, branch) == block_body(
                        s0,
                        instrs,
                        0,
                        steps0,
                        false,
                    ),
                    self@.registers.len() == 13,
                    0 <= block < blocks.len(),
                    0 <= steps0 < STEP_LIMIT,
                    blocks[block as int].instructions == instrs,
                    goal == run_from(s0, blocks, block as int, steps0, output_register),
                    goal == run_result(old(self)@, program@, output_register),
                decreases instrs.len() - i,
            {
                assert(instrs[i as int] == current.instructions@[i as int]@);
                let b = match self.step(&current.instructions[i]) {
                    Ok(b) => b,
                    Err(e) => return Err(e),
                };
                branch = b;
                steps = steps + 1;
                if steps >= STEP_LIMIT {
                    return Err(TranslationError::StepLimit);
                }
                i = i + 1;
            }
            match current.terminator {
                PvmTerminatorV1::Fallthrough { next, .. } => match next {
                    Some(n) => {
                        block = n as usize;
                    },
                    None => return Err(TranslationError::UnsupportedTerminator),
                },
                PvmTerminatorV1::Jump { target, .. } => match target {
                    Some(n) => {
                        block = n as usize;
                    },
                    None => return Err(TranslationError::UnsupportedTerminator),
                },
                PvmTerminatorV1::BrEqz { true_block, false_block, .. } => {
                    let chosen = if branch {
                        true_block
                    } else {
                        false_block
                    };
                    match chosen {
                        Some(n) => {
                            block = n as usize;
                        },
                        None => return Err(TranslationError::UnsupportedTerminator),
                    }
                },
                PvmTerminatorV1::Halt => return Ok(self.registers[output_register as usize]),
                PvmTerminatorV1::Trap(pc) => return Err(TranslationError::Trap(pc)),
                PvmTerminatorV1::DJump => return Err(TranslationError::UnsupportedTerminator),
            }
        }
    }
}


/// Admission refuses every program that makes a GAS host call or an inner-PVM host call.
pub proof fn lemma_forbidden_host_calls_refused(p: ProgramModel, k: int, j: int)
    requires
        0 <= k < p.blocks.len(),
        0 <= j < p.blocks[k].instructions.len(),
        crate::program::host_call_of(p.blocks[k].instructions[j]) matches Some(id) && (id == 0 || 8
            <= id <= 13),
    ensures
        program_admission(p) is Err,
{
    if program_admission(p) is Ok {
        crate::program::lemma_first_error_ok_iff(block_admission_fn(), p.blocks);
        assert(block_admission_fn()(p.blocks[k]) is Ok);
        crate::program::lemma_first_error_ok_iff(instruction_admission_fn(), p.blocks[k].instructions);
        assert(instruction_admission_fn()(p.blocks[k].instructions[j]) is Ok);
    }
}


pub proof fn lemma_step_keeps_pages(s: MachineModel, i: InstructionModel)
    ensures
        step_result(s, i).0.memory.pages == s.memory.pages,
{
}

pub proof fn lemma_block_body_keeps_pages(
    s: MachineModel,
    instrs: Seq<InstructionModel>,
    i: int,
    steps: int,
    branch: bool,
)
    ensures
        block_body(s, instrs, i, steps, branch).0.memory.pages == s.memory.pages,
    decreases instrs.len() - i,
{
    if 0 <= i < instrs.len() {
        lemma_step_keeps_pages(s, instrs[i]);
        let (s1, r) = step_result(s, instrs[i]);
        if r is Ok && steps + 1 < STEP_LIMIT {
            lemma_block_body_keeps_pages(s1, instrs, i + 1, steps + 1, r->Ok_0);
        }
    }
}

pub proof fn lemma_run_from_keeps_pages(
    s: MachineModel,
    blocks: Seq<BlockModel>,
    block: int,
    steps: int,
    out: u8,
)
    ensures
        run_from(s, blocks, block, steps, out).0.memory.pages == s.memory.pages,
    decreases STEP_LIMIT - steps,
{
    if 0 <= steps < STEP_LIMIT && 0 <= block < blocks.len() {
        lemma_block_body_keeps_pages(s, blocks[block].instructions, 0, steps, false);
        let (s1, r) = block_body(s, blocks[block].instructions, 0, steps, false);
        if r is Ok {
            let (branch, steps1) = r->Ok_0;
            match next_block(blocks[block].terminator, branch) {
                Ok(Some(n)) => {
                    if steps < steps1 < STEP_LIMIT {
                        lemma_run_from_keeps_pages(s1, blocks, n as int, steps1, out);
                    }
                },
                _ => {},
            }
        }
    }
}

/// Execution never changes which pages are mapped or whether they are writable: the page map
/// set up before a run is the page map after it, whatever the outcome.
pub proof fn lemma_run_keeps_page_map(s: MachineModel, p: ProgramModel, out: u8)
    ensures
        run_result(s, p, out).0.memory.pages == s.memory.pages,
{
    lemma_run_from_keeps_pages(MachineModel { output_register: out, ..s }, p.blocks, 0, 0, out);
}


/// A register read as `i64` has the value `signed64` gives it.
proof fn lemma_signed64_cast(v: u64)
    ensures
        (v as i64) as int == signed64(v),
{
    if v < 0x8000_0000_0000_0000 {
        assert(v as i64 == v as int) by (bit_vector)
            requires
                v < 0x8000_0000_0000_0000u64,
        ;
    } else {
        assert((v as i64) as int == v as int - 0x1_0000_0000_0000_0000) by (bit_vector)
            requires
                v >= 0x8000_0000_0000_0000u64,
        ;
    }
}

proof fn lemma_low32_cast(a: u64)
    ensures
        low32(a) == (a as u32) as int,
{
    assert((a as u32) as int == a as int % 0x1_0000_0000) by (bit_vector);
}

proof fn lemma_sext32_cast(r: u32)
    ensures
        sext32(r as int) == ((r as i32) as i64) as u64,
{
    if r < 0x8000_0000 {
        assert(((r as i32) as i64) as u64 == r as u64) by (bit_vector)
            requires
                r < 0x8000_0000u32,
        ;
    } else {
        assert(((r as i32) as i64) as u64 == (r as int + 0xFFFF_FFFF_0000_0000) as u64) by (bit_vector)
            requires
                r >= 0x8000_0000u32,
        ;
    }
}

proof fn lemma_wrap32_casts(p: u32, q: u32)
    ensures
        (p as int + q as int) % 0x1_0000_0000 == ((p as int + q as int) as u32) as int,
        (p as int - q as int) % 0x1_0000_0000 == ((p as int - q as int) as u32) as int,
        (p as int * q as int) % 0x1_0000_0000 == ((p as int * q as int) as u32) as int,
{
    assert((p as int + q as int) % 0x1_0000_0000 == ((p as int + q as int) as u32) as int) by (bit_vector);
    assert((p as int - q as int) % 0x1_0000_0000 == ((p as int - q as int) as u32) as int) by (bit_vector);
    assert((p as int * q as int) % 0x1_0000_0000 == ((p as int * q as int) as u32) as int) by (bit_vector);
}

proof fn lemma_wrap64_casts(a: u64, b: u64)
    ensures
        wrap64(a + b) == (a as int + b as int) as u64,
        wrap64(a - b) == (a as int - b as int) as u64,
        wrap64(a * b) == (a as int * b as int) as u64,
{
    assert(((a as int + b as int) % 0x1_0000_0000_0000_0000) as u64 == (a as int + b as int) as u64) by (bit_vector);
    assert(((a as int - b as int) % 0x1_0000_0000_0000_0000) as u64 == (a as int - b as int) as u64) by (bit_vector);
    assert(((a as int * b as int) % 0x1_0000_0000_0000_0000) as u64 == (a as int * b as int) as u64) by (bit_vector);
}

/// The branch instructions compare their two source registers: for equality, inequality,
/// unsigned and signed less-than, and unsigned and signed greater-or-equal (the signed
/// comparisons read the registers as `i64`), and leave the machine as it is.
pub proof fn lemma_branch_conditions(s: MachineModel, i: InstructionModel)
    ensures
        ({
            let a = s.registers[i.registers.ra as int];
            let b = s.registers[i.registers.rb as int];
            &&& i.opcode == opcode::BRANCH_EQ ==> step_result(s, i) == (s, Ok::<bool, TranslationError>(a == b))
            &&& i.opcode == opcode::BRANCH_NE ==> step_result(s, i) == (s, Ok::<bool, TranslationError>(a != b))
            &&& i.opcode == opcode::BRANCH_LT_U ==> step_result(s, i) == (s, Ok::<bool, TranslationError>(a < b))
            &&& i.opcode == opcode::BRANCH_GE_U ==> step_result(s, i) == (s, Ok::<bool, TranslationError>(a >= b))
            &&& i.opcode == opcode::BRANCH_LT_S ==> step_result(s, i) == (s, Ok::<bool, TranslationError>(
                (a as i64) < (b as i64),
            ))
            &&& i.opcode == opcode::BRANCH_GE_S ==> step_result(s, i) == (s, Ok::<bool, TranslationError>(
                (a as i64) >= (b as i64),
            ))
        }),
{
    lemma_signed64_cast(s.registers[i.registers.ra as int]);
    lemma_signed64_cast(s.registers[i.registers.rb as int]);
}

/// On the same registers, signed greater-or-equal holds exactly when signed less-than does
/// not, and unsigned greater-or-equal exactly when unsigned less-than does not.
pub proof fn lemma_greater_or_equal_negates_less(s: MachineModel, i: InstructionModel)
    ensures
        step_result(s, InstructionModel { opcode: opcode::BRANCH_GE_S, ..i }).1 == Ok::<bool, TranslationError>(
            !(step_result(s, InstructionModel { opcode: opcode::BRANCH_LT_S, ..i }).1->Ok_0),
        ),
        step_result(s, InstructionModel { opcode: opcode::BRANCH_GE_U, ..i }).1 == Ok::<bool, TranslationError>(
            !(step_result(s, InstructionModel { opcode: opcode::BRANCH_LT_U, ..i }).1->Ok_0),
        ),
{
    lemma_branch_conditions(s, InstructionModel { opcode: opcode::BRANCH_GE_S, ..i });
    lemma_branch_conditions(s, InstructionModel { opcode: opcode::BRANCH_LT_S, ..i });
    lemma_branch_conditions(s, InstructionModel { opcode: opcode::BRANCH_GE_U, ..i });
    lemma_branch_conditions(s, InstructionModel { opcode: opcode::BRANCH_LT_U, ..i });
}

/// The register instructions write `rd` from the registers `ra` and `rb` and change nothing
/// else: a copy of `ra`; the 32-bit sum, difference and product of the low halves, wrapped and
/// sign-extended; the 64-bit wrapping sum, difference and product; and the exclusive or.
pub proof fn lemma_register_operations(s: MachineModel, i: InstructionModel)
    ensures
        ({
            let a = s.registers[i.registers.ra as int];
            let b = s.registers[i.registers.rb as int];
            let p = a as u32;
            let q = b as u32;
            let writes = |v: u64| (
                MachineModel { registers: s.registers.update(i.registers.rd as int, v), ..s },
                Ok::<bool, TranslationError>(false),
            );
            &&& i.opcode == opcode::MOVE_REG ==> step_result(s, i) == writes(a)
            &&& i.opcode == opcode::ADD_32 ==> step_result(s, i) == writes(
                ((((p as int + q as int) as u32) as i32) as i64) as u64,
            )
            &&& i.opcode == opcode::SUB_32 ==> step_result(s, i) == writes(
                ((((p as int - q as int) as u32) as i32) as i64) as u64,
            )
            &&& i.opcode == opcode::MUL_32 ==> step_result(s, i) == writes(
                ((((p as int * q as int) as u32) as i32) as i64) as u64,
            )
            &&& i.opcode == opcode::ADD_64 ==> step_result(s, i) == writes((a as int + b as int) as u64)
            &&& i.opcode == opcode::SUB_64 ==> step_result(s, i) == writes((a as int - b as int) as u64)
            &&& i.opcode == opcode::MUL_64 ==> step_result(s, i) == writes((a as int * b as int) as u64)
            &&& i.opcode == opcode::XOR ==> step_result(s, i) == writes(a ^ b)
        }),
{
    let a = s.registers[i.registers.ra as int];
    let b = s.registers[i.registers.rb as int];
    let p = a as u32;
    let q = b as u32;
    lemma_low32_cast(a);
    lemma_low32_cast(b);
    lemma_wrap32_casts(p, q);
    lemma_wrap64_casts(a, b);
    lemma_sext32_cast((p as int + q as int) as u32);
    lemma_sext32_cast((p as int - q as int) as u32);
    lemma_sext32_cast((p as int * q as int) as u32);
}

/// `LOAD_IMM_64` with an eight-byte immediate writes the immediate, read little-endian, to
/// register `ra` and changes nothing else.
pub proof fn lemma_load_immediate(s: MachineModel, i: InstructionModel)
    requires
        i.opcode == opcode::LOAD_IMM_64,
        i.immediate.len() == 8,
    ensures
        step_result(s, i) == (
            MachineModel {
                registers: s.registers.update(i.registers.ra as int, spec_u64_from_le_bytes(i.immediate)),
                ..s
            },
            Ok::<bool, TranslationError>(false),
        ),
{
    assert(i.immediate + Seq::new((8 - i.immediate.len()) as nat, |j: int| 0u8) =~= i.immediate);
}

/// A word stored by `STORE_U32` is read back by `LOAD_U32` at the same address: after a
/// successful store of register `ra`, a load with the same immediate sets its register to the
/// low 32 bits of the stored register, and the store changed no register.
pub proof fn lemma_store_then_load(s: MachineModel, store: InstructionModel, load: InstructionModel)
    requires
        store.opcode == opcode::STORE_U32,
        load.opcode == opcode::LOAD_U32,
        store.immediate.len() == 4,
        load.immediate == store.immediate,
        step_result(s, store).1 is Ok,
    ensures
        step_result(s, store).0.registers == s.registers,
        step_result(step_result(s, store).0, load).1 is Ok,
        step_result(step_result(s, store).0, load).0.registers == s.registers.update(
            load.registers.ra as int,
            (s.registers[store.registers.ra as int] as u32) as u64,
        ),
{
    let a = s.registers[store.registers.ra as int];
    let address = le_value(store.immediate) as u32;
    crate::pvm_memory::lemma_read_back_written_value(s.memory, address, 4, a);
    lemma_low32_cast(a);
    assert(crate::pvm_memory::pow256(4) == 0x1_0000_0000) by {
        reveal_with_fuel(crate::pvm_memory::pow256, 5);
    }
}

/// After a block's instructions have run, its terminator decides what happens: a halt returns
/// the output register of the machine as the block left it; a trap stops with its pc; a
/// fallthrough or jump continues at its target block; and a conditional branch continues at its
/// true block when the block's last branch condition held and at its false block otherwise.
pub proof fn lemma_block_transfer(s: MachineModel, blocks: Seq<BlockModel>, block: int, steps: int, out: u8)
    requires
        0 <= steps < STEP_LIMIT,
        0 <= block < blocks.len(),
        block_body(s, blocks[block].instructions, 0, steps, false).1 is Ok,
    ensures
        ({
            let s1 = block_body(s, blocks[block].instructions, 0, steps, false).0;
            let branch = block_body(s, blocks[block].instructions, 0, steps, false).1->Ok_0.0;
            let steps1 = block_body(s, blocks[block].instructions, 0, steps, false).1->Ok_0.1;
            let t = blocks[block].terminator;
            &&& t == PvmTerminatorV1::Halt ==> run_from(s, blocks, block, steps, out) == (
                s1,
                Ok::<u64, TranslationError>(s1.registers[out as int]),
            )
            &&& t matches PvmTerminatorV1::Trap(pc) ==> run_from(s, blocks, block, steps, out) == (
                s1,
                Err::<u64, TranslationError>(TranslationError::Trap(pc)),
            )
            &&& steps < steps1 < STEP_LIMIT ==> {
                &&& t matches PvmTerminatorV1::Fallthrough { next: Some(n), .. } ==> run_from(
                    s,
                    blocks,
                    block,
                    steps,
                    out,
                ) == run_from(s1, blocks, n as int, steps1, out)
                &&& t matches PvmTerminatorV1::Jump { target: Some(n), .. } ==> run_from(
                    s,
                    blocks,
                    block,
                    steps,
                    out,
                ) == run_from(s1, blocks, n as int, steps1, out)
                &&& t matches PvmTerminatorV1::BrEqz {
                    true_block: Some(yes),
                    false_block: Some(no),
                    ..
                } ==> run_from(s, blocks, block, steps, out) == run_from(
                    s1,
                    blocks,
                    (if branch {
                        yes
                    } else {
                        no
                    }) as int,
                    steps1,
                    out,
                )
            }
        }),
{
}

/// The branch condition a block hands to its terminator is that of its last instruction: past
/// the end the condition carried so far is kept, and the last instruction replaces it with its
/// own condition.
pub proof fn lemma_block_body_last(s: MachineModel, instrs: Seq<InstructionModel>, steps: int, branch: bool)
    requires
        instrs.len() >= 1,
        step_result(s, instrs.last()).1 is Ok,
        steps + 1 < STEP_LIMIT,
    ensures
        block_body(s, instrs, instrs.len() as int, steps, branch) == (
            s,
            Ok::<(bool, int), TranslationError>((branch, steps)),
        ),
        block_body(s, instrs, instrs.len() - 1, steps, branch) == (
            step_result(s, instrs.last()).0,
            Ok::<(bool, int), TranslationError>((step_result(s, instrs.last()).1->Ok_0, steps + 1)),
        ),
{
    assert(block_body(step_result(s, instrs.last()).0, instrs, instrs.len() as int, steps + 1, step_result(s, instrs.last()).1->Ok_0)
        == (step_result(s, instrs.last()).0, Ok::<(bool, int), TranslationError>((step_result(s, instrs.last()).1->Ok_0, steps + 1))));
}

} // verus!
