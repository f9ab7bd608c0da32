//! Static, semantics-preserving translation of the M3 smoke workloads into a small generic
//! operation list, and the exact programs of those workloads.
use crate::opcode;
use crate::program::{
    PvmBlockV1, PvmInstructionV1, PvmProgramV1, PvmTerminatorV1, RegisterOperandsV1,
    PVM_PROGRAM_FORMAT_V1,
};
use crate::program::{BlockModel, InstructionModel, ProgramModel, program_admission, total_instructions};
use crate::pvm_machine::immediate_value;
use crate::text::{decimal, decimal_text};
use crate::pvm_memory::{le_u64, PVM_PROTECTED_BYTES, M3_MEMORY_BYTES};
use vstd::bytes::*;
use vstd::prelude::*;
use vstd::slice::slice_subrange;
use vstd::string::StringExecFns;

verus! {

/// The Jambda revision used by the M3 adapter integration.
pub const JAMBDA_REVISION: &'static str = "b850a458fa00da81e80be4cc84ddd7d2222f1edc";

/// The version of the translation scheme that benchmark reports are produced with.
pub const TRANSLATION_VERSION: u32 = 1;

/// Errors of translation and of the reference PVM machine.
#[derive(Clone, Debug, PartialEq, Eq)]
pub enum TranslationError {
    InvalidProgram(&'static str),
    UnsupportedOpcode(u8),
    UnsupportedTerminator,
    InvalidImmediate { opcode: u8, expected: usize, actual: usize },
    MemoryFault { address: u32 },
    Trap(u32),
    StepLimit,
}


/// The three bounded M3 smoke workloads.
#[derive(Clone, Copy, Debug, PartialEq, Eq, Structural)]
pub enum M3Workload {
    Arithmetic,
    BranchTrue,
    Memory16K,
}

impl M3Workload {
    pub fn name(self) -> (r: &'static str)
        ensures
            r@ == match self {
                M3Workload::Arithmetic => "arithmetic"@,
                M3Workload::BranchTrue => "branch-true"@,
                M3Workload::Memory16K => "memory-16384"@,
            },
    {
        match self {
            M3Workload::Arithmetic => "arithmetic",
            M3Workload::BranchTrue => "branch-true",
            M3Workload::Memory16K => "memory-16384",
        }
    }

    pub fn guest_binary(self) -> (r: &'static str)
        ensures
            r@ == match self {
                M3Workload::Arithmetic => "m3-translation-arithmetic-v1"@,
                M3Workload::BranchTrue => "m3-translation-branch-v1"@,
                M3Workload::Memory16K => "m3-translation-memory-v1"@,
            },
    {
        match self {
            M3Workload::Arithmetic => "m3-translation-arithmetic-v1",
            M3Workload::BranchTrue => "m3-translation-branch-v1",
            M3Workload::Memory16K => "m3-translation-memory-v1",
        }
    }

    /// Every workload, in order.
    pub fn all() -> (r: [M3Workload; 3])
        ensures
            r@ == seq![M3Workload::Arithmetic, M3Workload::BranchTrue, M3Workload::Memory16K],
    {
        let r = [M3Workload::Arithmetic, M3Workload::BranchTrue, M3Workload::Memory16K];
        assert(r@ =~= seq![M3Workload::Arithmetic, M3Workload::BranchTrue, M3Workload::Memory16K]);
        r
    }
}

/// The generic operation vocabulary that translation emits; a proving guest is compiled from
/// such a static list, so no PVM opcode is interpreted at proving time.
#[derive(Clone, Copy, Debug, PartialEq, Eq, Structural)]
pub enum GenericInstruction {
    LoadImm64 { register: u8, value: u64 },
    Move { destination: u8, source: u8 },
    Add32 { destination: u8, left: u8, right: u8 },
    Sub32 { destination: u8, left: u8, right: u8 },
    Mul32 { destination: u8, left: u8, right: u8 },
    Add64 { destination: u8, left: u8, right: u8 },
    Sub64 { destination: u8, left: u8, right: u8 },
    Mul64 { destination: u8, left: u8, right: u8 },
    Xor { destination: u8, left: u8, right: u8 },
    Load32 { destination: u8, address: u32 },
    Store32 { source: u8, address: u32 },
    StoreImm32 { address: u32, value: u32 },
    Branch { opcode: u8, left: u8, right: u8 },
    Jump,
    Fallthrough,
    Halt,
    Trap(u32),
}

/// The approximate RV32IM instruction count of one generic operation.
pub open spec fn expansion_of(g: GenericInstruction) -> nat {
    match g {
        GenericInstruction::LoadImm64 { .. } => 2,
        GenericInstruction::Move { .. } => 1,
        GenericInstruction::Add32 { .. } | GenericInstruction::Sub32 { .. }
        | GenericInstruction::Mul32 { .. } | GenericInstruction::Xor { .. } => 1,
        GenericInstruction::Add64 { .. } | GenericInstruction::Sub64 { .. }
        | GenericInstruction::Mul64 { .. } => 4,
        GenericInstruction::Load32 { .. } | GenericInstruction::Store32 { .. }
        | GenericInstruction::StoreImm32 { .. } => 2,
        GenericInstruction::Branch { .. } => 2,
        GenericInstruction::Jump | GenericInstruction::Fallthrough | GenericInstruction::Halt
        | GenericInstruction::Trap(_) => 1,
    }
}

/// The summed expansion of a list of generic operations.
pub open spec fn expansion_total(gs: Seq<GenericInstruction>) -> nat
    decreases gs.len(),
{
    if gs.len() == 0 {
        0
    } else {
        expansion_total(gs.drop_last()) + expansion_of(gs.last())
    }
}

impl GenericInstruction {
    /// The approximate RV32IM expansion used by the benchmark contract; deterministic, and not
    /// an OpenVM trace-row count.
    pub fn expansion(&self) -> (n: usize)
        ensures
            n == expansion_of(*self),
    {
        match self {
            GenericInstruction::LoadImm64 { .. } => 2,
            GenericInstruction::Move { .. } => 1,
            GenericInstruction::Add32 { .. } | GenericInstruction::Sub32 { .. }
            | GenericInstruction::Mul32 { .. } | GenericInstruction::Xor { .. } => 1,
            GenericInstruction::Add64 { .. } | GenericInstruction::Sub64 { .. }
            | GenericInstruction::Mul64 { .. } => 4,
            GenericInstruction::Load32 { .. } | GenericInstruction::Store32 { .. }
            | GenericInstruction::StoreImm32 { .. } => 2,
            GenericInstruction::Branch { .. } => 2,
            GenericInstruction::Jump | GenericInstruction::Fallthrough | GenericInstruction::Halt
            | GenericInstruction::Trap(_) => 1,
        }
    }
}

/// A translated workload.
#[derive(Clone, Debug, PartialEq, Eq)]
pub struct TranslatedProgram {
    pub workload: M3Workload,
    pub source_code_hash: [u8; 32],
    pub pvm_instruction_count: usize,
    pub generic_instructions: Vec<GenericInstruction>,
}

/// The mathematical value of a `TranslatedProgram`.
pub struct TranslatedModel {
    pub workload: M3Workload,
    pub source_code_hash: Seq<u8>,
    pub pvm_instruction_count: usize,
    pub generic_instructions: Seq<GenericInstruction>,
}

impl View for TranslatedProgram {
    type V = TranslatedModel;

    open spec fn view(&self) -> TranslatedModel {
        TranslatedModel {
            workload: self.workload,
            source_code_hash: self.source_code_hash@,
            pvm_instruction_count: self.pvm_instruction_count,
            generic_instructions: self.generic_instructions@,
        }
    }
}

impl TranslatedProgram {
    /// The summed expansion of the generic operations.
    pub fn translated_instruction_count(&self) -> (n: usize)
        requires
            expansion_total(self@.generic_instructions) <= usize::MAX,
        ensures
            n == expansion_total(self@.generic_instructions),
    {
        let ghost gs = self@.generic_instructions;
        let mut total: usize = 0;
        let mut i: usize = 0;
        while i < self.generic_instructions.len()
            invariant
                gs == self@.generic_instructions,
                0 <= i <= gs.len(),
                total == expansion_total(gs.take(i as int)),
                expansion_total(gs) <= usize::MAX,
            decreases gs.len() - i,
        {
            assert(gs.take(i + 1).drop_last() =~= gs.take(i as int));
            proof {
                lemma_expansion_total_prefix(gs, i + 1);
            }
            total = total + self.generic_instructions[i].expansion();
            i = i + 1;
        }
        assert(gs.take(i as int) =~= gs);
        total
    }
}

/// Prefix totals never exceed the whole.
pub proof fn lemma_expansion_total_prefix(gs: Seq<GenericInstruction>, k: int)
    requires
        0 <= k <= gs.len(),
    ensures
        expansion_total(gs.take(k)) <= expansion_total(gs),
    decreases gs.len(),
{
    if k < gs.len() {
        assert(gs.drop_last().take(k) =~= gs.take(k));
        lemma_expansion_total_prefix(gs.drop_last(), k);
    } else {
        assert(gs.take(k) =~= gs);
    }
}

/// Every generic operation expands to at least one instruction.
pub proof fn lemma_expansion_total_at_least_len(gs: Seq<GenericInstruction>)
    ensures
        expansion_total(gs) >= gs.len(),
    decreases gs.len(),
{
    if gs.len() > 0 {
        lemma_expansion_total_at_least_len(gs.drop_last());
    }
}


pub open spec fn invalid_immediate(i: InstructionModel, expected: usize) -> TranslationError {
    TranslationError::InvalidImmediate {
        opcode: i.opcode,
        expected,
        actual: i.immediate.len() as usize,
    }
}

/// The generic operation for one PVM instruction, or why it cannot be translated.
pub open spec fn emit_instruction_result(i: InstructionModel) -> Result<
    GenericInstruction,
    TranslationError,
> {
    let rd = i.registers.rd;
    let ra = i.registers.ra;
    let rb = i.registers.rb;
    let op = i.opcode;
    if op == opcode::LOAD_IMM_64 {
        match immediate_value(i, 8) {
            Ok(v) => Ok(GenericInstruction::LoadImm64 { register: ra, value: v }),
            Err(e) => Err(e),
        }
    } else if op == opcode::MOVE_REG {
        if i.immediate.len() != 0 {
            Err(invalid_immediate(i, 0))
        } else {
            Ok(GenericInstruction::Move { destination: rd, source: ra })
        }
    } else if op == opcode::ADD_32 {
        Ok(GenericInstruction::Add32 { destination: rd, left: ra, right: rb })
    } else if op == opcode::SUB_32 {
        Ok(GenericInstruction::Sub32 { destination: rd, left: ra, right: rb })
    } else if op == opcode::MUL_32 {
        Ok(GenericInstruction::Mul32 { destination: rd, left: ra, right: rb })
    } else if op == opcode::ADD_64 {
        Ok(GenericInstruction::Add64 { destination: rd, left: ra, right: rb })
    } else if op == opcode::SUB_64 {
        Ok(GenericInstruction::Sub64 { destination: rd, left: ra, right: rb })
    } else if op == opcode::MUL_64 {
        Ok(GenericInstruction::Mul64 { destination: rd, left: ra, right: rb })
    } else if op == opcode::XOR {
        Ok(GenericInstruction::Xor { destination: rd, left: ra, right: rb })
    } else if op == opcode::LOAD_U32 {
        if i.immediate.len() != 4 {
            Err(invalid_immediate(i, 4))
        } else {
            Ok(
                GenericInstruction::Load32 {
                    destination: ra,
                    address: spec_u32_from_le_bytes(i.immediate),
                },
            )
        }
    } else if op == opcode::STORE_U32 {
        if i.immediate.len() != 4 {
            Err(invalid_immediate(i, 4))
        } else {
            Ok(GenericInstruction::Store32 { source: ra, address: spec_u32_from_le_bytes(i.immediate) })
        }
    } else if op == opcode::STORE_IMM_U32 {
        if i.immediate.len() != 8 {
            Err(invalid_immediate(i, 8))
        } else {
            Ok(
                GenericInstruction::StoreImm32 {
                    address: spec_u32_from_le_bytes(i.immediate.subrange(0, 4)),
                    value: spec_u32_from_le_bytes(i.immediate.subrange(4, 8)),
                },
            )
        }
    } else if op == opcode::BRANCH_EQ || op == opcode::BRANCH_NE || op == opcode::BRANCH_LT_U
        || op == opcode::BRANCH_LT_S || op == opcode::BRANCH_GE_U || op == opcode::BRANCH_GE_S {
        if i.immediate.len() != 0 {
            Err(invalid_immediate(i, 0))
        } else {
            Ok(GenericInstruction::Branch { opcode: op, left: ra, right: rb })
        }
    } else {
        Err(TranslationError::UnsupportedOpcode(op))
    }
}

/// What a generic operation does to the register file, for the operations that only read and
/// write registers: a load of a constant, a copy, the 32-bit wrapping sum, difference and product
/// of the low halves sign-extended to 64 bits, the 64-bit wrapping sum, difference and product,
/// and the exclusive or, each written to the destination.
pub open spec fn generic_register_effect(regs: Seq<u64>, g: GenericInstruction) -> Option<Seq<u64>> {
    match g {
        GenericInstruction::LoadImm64 { register, value } => Some(regs.update(register as int, value)),
        GenericInstruction::Move { destination, source } => Some(
            regs.update(destination as int, regs[source as int]),
        ),
        GenericInstruction::Add32 { destination, left, right } => Some(
            regs.update(
                destination as int,
                (((((regs[left as int] as u32) as int + (regs[right as int] as u32) as int) as u32) as i32) as i64) as u64,
            ),
        ),
        GenericInstruction::Sub32 { destination, left, right } => Some(
            regs.update(
                destination as int,
                (((((regs[left as int] as u32) as int - (regs[right as int] as u32) as int) as u32) as i32) as i64) as u64,
            ),
        ),
        GenericInstruction::Mul32 { destination, left, right } => Some(
            regs.update(
                destination as int,
                (((((regs[left as int] as u32) as int * (regs[right as int] as u32) as int) as u32) as i32) as i64) as u64,
            ),
        ),
        GenericInstruction::Add64 { destination, left, right } => Some(
            regs.update(destination as int, (regs[left as int] as int + regs[right as int] as int) as u64),
        ),
        GenericInstruction::Sub64 { destination, left, right } => Some(
            regs.update(destination as int, (regs[left as int] as int - regs[right as int] as int) as u64),
        ),
        GenericInstruction::Mul64 { destination, left, right } => Some(
            regs.update(destination as int, (regs[left as int] as int * regs[right as int] as int) as u64),
        ),
        GenericInstruction::Xor { destination, left, right } => Some(
            regs.update(destination as int, regs[left as int] ^ regs[right as int]),
        ),
        _ => None,
    }
}

/// Whether a generic branch is taken: its two registers compared as its opcode says, the
/// signed comparisons reading them as `i64`.
pub open spec fn generic_branch_taken(regs: Seq<u64>, g: GenericInstruction) -> Option<bool> {
    match g {
        GenericInstruction::Branch { opcode: op, left, right } => {
            let a = regs[left as int];
            let b = regs[right as int];
            if op == opcode::BRANCH_EQ {
                Some(a == b)
            } else if op == opcode::BRANCH_NE {
                Some(a != b)
            } else if op == opcode::BRANCH_LT_U {
                Some(a < b)
            } else if op == opcode::BRANCH_LT_S {
                Some((a as i64) < (b as i64))
            } else if op == opcode::BRANCH_GE_U {
                Some(a >= b)
            } else if op == opcode::BRANCH_GE_S {
                Some((a as i64) >= (b as i64))
            } else {
                None
            }
        },
        _ => None,
    }
}

pub open spec fn is_register_opcode(op: u8) -> bool {
    op == opcode::LOAD_IMM_64 || op == opcode::MOVE_REG || op == opcode::ADD_32 || op
        == opcode::SUB_32 || op == opcode::MUL_32 || op == opcode::ADD_64 || op == opcode::SUB_64
        || op == opcode::MUL_64 || op == opcode::XOR
}

pub open spec fn is_branch_opcode(op: u8) -> bool {
    op == opcode::BRANCH_EQ || op == opcode::BRANCH_NE || op == opcode::BRANCH_LT_U || op
        == opcode::BRANCH_LT_S || op == opcode::BRANCH_GE_U || op == opcode::BRANCH_GE_S
}

/// Translation keeps the meaning of every register and branch instruction: on any machine
/// state, the translated operation leaves the register file exactly as the reference machine's
/// step on the source instruction does, and a translated branch is taken exactly when the
/// machine's branch condition holds.
pub proof fn lemma_translation_agrees_with_machine(s: crate::pvm_machine::MachineModel, i: InstructionModel)
    requires
        is_register_opcode(i.opcode) || is_branch_opcode(i.opcode),
        i.opcode == opcode::LOAD_IMM_64 ==> i.immediate.len() == 8,
        i.opcode == opcode::MOVE_REG || is_branch_opcode(i.opcode) ==> i.immediate.len() == 0,
    ensures
        emit_instruction_result(i) is Ok,
        is_register_opcode(i.opcode) ==> crate::pvm_machine::step_result(s, i).1 is Ok && generic_register_effect(
            s.registers,
            emit_instruction_result(i)->Ok_0,
        ) == Some(crate::pvm_machine::step_result(s, i).0.registers),
        is_branch_opcode(i.opcode) ==> crate::pvm_machine::step_result(s, i).1 is Ok && generic_branch_taken(
            s.registers,
            emit_instruction_result(i)->Ok_0,
        ) == Some(crate::pvm_machine::step_result(s, i).1->Ok_0),
{
    crate::pvm_machine::lemma_register_operations(s, i);
    crate::pvm_machine::lemma_branch_conditions(s, i);
}

/// The generic operation for a block terminator; dynamic jumps are not translated.
pub open spec fn emit_terminator_result(t: PvmTerminatorV1) -> Result<
    GenericInstruction,
    TranslationError,
> {
    match t {
        PvmTerminatorV1::Fallthrough { .. } => Ok(GenericInstruction::Fallthrough),
        PvmTerminatorV1::Jump { .. } => Ok(GenericInstruction::Jump),
        PvmTerminatorV1::BrEqz { .. } => Ok(
            GenericInstruction::Branch { opcode: opcode::BRANCH_NE, left: 0, right: 0 },
        ),
        PvmTerminatorV1::Halt => Ok(GenericInstruction::Halt),
        PvmTerminatorV1::Trap(pc) => Ok(GenericInstruction::Trap(pc)),
        PvmTerminatorV1::DJump => Err(TranslationError::UnsupportedTerminator),
    }
}

/// The operations of a list of instructions, in order, or the first failure.
pub open spec fn emit_instructions(xs: Seq<InstructionModel>) -> Result<
    Seq<GenericInstruction>,
    TranslationError,
>
    decreases xs.len(),
{
    if xs.len() == 0 {
        Ok(Seq::empty())
    } else {
        match emit_instructions(xs.drop_last()) {
            Err(e) => Err(e),
            Ok(gs) => match emit_instruction_result(xs.last()) {
                Err(e) => Err(e),
                Ok(g) => Ok(gs.push(g)),
            },
        }
    }
}

/// A block's operations followed by its terminator's.
pub open spec fn emit_block(b: BlockModel) -> Result<Seq<GenericInstruction>, TranslationError> {
    match emit_instructions(b.instructions) {
        Err(e) => Err(e),
        Ok(gs) => match emit_terminator_result(b.terminator) {
            Err(e) => Err(e),
            Ok(t) => Ok(gs.push(t)),
        },
    }
}

/// The blocks' operations, in order, or the first failure.
pub open spec fn emit_blocks(bs: Seq<BlockModel>) -> Result<
    Seq<GenericInstruction>,
    TranslationError,
>
    decreases bs.len(),
{
    if bs.len() == 0 {
        Ok(Seq::empty())
    } else {
        match emit_blocks(bs.drop_last()) {
            Err(e) => Err(e),
            Ok(gs) => match emit_block(bs.last()) {
                Err(e) => Err(e),
                Ok(hs) => Ok(gs + hs),
            },
        }
    }
}

/// The outcome of `translate`.
pub open spec fn translate_result(workload: M3Workload, p: ProgramModel) -> Result<
    TranslatedModel,
    TranslationError,
> {
    if program_admission(p) is Err {
        Err(TranslationError::InvalidProgram("interface validation failed"))
    } else {
        match emit_blocks(p.blocks) {
            Err(e) => Err(e),
            Ok(gs) => Ok(
                TranslatedModel {
                    workload,
                    source_code_hash: p.code_hash,
                    pvm_instruction_count: total_instructions(p.blocks) as usize,
                    generic_instructions: gs,
                },
            ),
        }
    }
}

pub proof fn lemma_emit_instructions_err(xs: Seq<InstructionModel>, k: int)
    requires
        0 <= k <= xs.len(),
        emit_instructions(xs.take(k)) is Err,
    ensures
        emit_instructions(xs) == emit_instructions(xs.take(k)),
    decreases xs.len() - k,
{
    if k < xs.len() {
        assert(xs.take(k + 1).drop_last() =~= xs.take(k));
        lemma_emit_instructions_err(xs, k + 1);
    } else {
        assert(xs.take(k) =~= xs);
    }
}

pub proof fn lemma_emit_blocks_err(bs: Seq<BlockModel>, k: int)
    requires
        0 <= k <= bs.len(),
        emit_blocks(bs.take(k)) is Err,
    ensures
        emit_blocks(bs) == emit_blocks(bs.take(k)),
    decreases bs.len() - k,
{
    if k < bs.len() {
        assert(bs.take(k + 1).drop_last() =~= bs.take(k));
        lemma_emit_blocks_err(bs, k + 1);
    } else {
        assert(bs.take(k) =~= bs);
    }
}

pub proof fn lemma_emit_instructions_len(xs: Seq<InstructionModel>)
    requires
        emit_instructions(xs) is Ok,
    ensures
        emit_instructions(xs)->Ok_0.len() == xs.len(),
    decreases xs.len(),
{
    if xs.len() > 0 {
        lemma_emit_instructions_len(xs.drop_last());
    }
}

pub proof fn lemma_emit_blocks_len(bs: Seq<BlockModel>)
    requires
        emit_blocks(bs) is Ok,
    ensures
        emit_blocks(bs)->Ok_0.len() == total_instructions(bs) + bs.len(),
    decreases bs.len(),
{
    if bs.len() > 0 {
        lemma_emit_blocks_len(bs.drop_last());
        lemma_emit_instructions_len(bs.last().instructions);
    }
}

/// Each instruction's operation stands at its own index among a list's operations.
pub proof fn lemma_emit_instructions_at(xs: Seq<InstructionModel>, j: int)
    requires
        emit_instructions(xs) is Ok,
        0 <= j < xs.len(),
    ensures
        emit_instruction_result(xs[j]) is Ok,
        emit_instructions(xs)->Ok_0[j] == emit_instruction_result(xs[j])->Ok_0,
    decreases xs.len(),
{
    lemma_emit_instructions_len(xs.drop_last());
    if j < xs.len() - 1 {
        lemma_emit_instructions_at(xs.drop_last(), j);
    }
}

/// Instruction `j` of block `k` is translated at index `total_instructions(bs.take(k)) + k +
/// j`: after the operations and terminators of the blocks before it, and the instructions of
/// its own block before it.
pub proof fn lemma_emit_blocks_at(bs: Seq<BlockModel>, k: int, j: int)
    requires
        emit_blocks(bs) is Ok,
        0 <= k < bs.len(),
        0 <= j < bs[k].instructions.len(),
    ensures
        emit_instruction_result(bs[k].instructions[j]) is Ok,
        emit_blocks(bs)->Ok_0[total_instructions(bs.take(k)) + k + j] == emit_instruction_result(
            bs[k].instructions[j],
        )->Ok_0,
    decreases bs.len(),
{
    let init = bs.drop_last();
    lemma_emit_blocks_len(init);
    lemma_emit_instructions_len(bs.last().instructions);
    let gs = emit_blocks(init)->Ok_0;
    let hs = emit_block(bs.last())->Ok_0;
    assert(emit_blocks(bs)->Ok_0 == gs + hs);
    let xs = emit_instructions(bs.last().instructions)->Ok_0;
    assert(hs == xs.push(emit_terminator_result(bs.last().terminator)->Ok_0));
    if k == bs.len() - 1 {
        assert(bs.take(k) =~= init);
        lemma_emit_instructions_at(bs.last().instructions, j);
        assert((gs + hs)[gs.len() + j] == hs[j]);
    } else {
        assert(init.take(k) =~= bs.take(k));
        assert(init[k] == bs[k]);
        lemma_emit_blocks_at(init, k, j);
        crate::program::lemma_total_instructions_prefix(init, k + 1);
        assert(init.take(k + 1).drop_last() =~= init.take(k));
        assert(init.take(k + 1).last() == init[k]);
        assert(total_instructions(init.take(k + 1)) == total_instructions(init.take(k))
            + init[k].instructions.len());
        crate::program::lemma_total_instructions_nonneg(init.take(k));
        assert(total_instructions(init.take(k)) + k + j < gs.len());
        assert((gs + hs)[total_instructions(init.take(k)) + k + j] == gs[total_instructions(init.take(k)) + k + j]);
    }
}

fn imm_u32(instruction: &PvmInstructionV1) -> (r: Result<u32, TranslationError>)
    ensures
        r == (if instruction@.immediate.len() != 4 {
            Err(invalid_immediate(instruction@, 4))
        } else {
            Ok(spec_u32_from_le_bytes(instruction@.immediate))
        }),
{
    if instruction.immediate.len() != 4 {
        return Err(
            TranslationError::InvalidImmediate {
                opcode: instruction.opcode,
                expected: 4,
                actual: instruction.immediate.len(),
            },
        );
    }
    Ok(u32_from_le_bytes(instruction.immediate.as_slice()))
}

fn require_no_immediate(instruction: &PvmInstructionV1) -> (r: Result<(), TranslationError>)
    ensures
        r == (if instruction@.immediate.len() != 0 {
            Err(invalid_immediate(instruction@, 0))
        } else {
            Ok(())
        }),
{
    if instruction.immediate.len() != 0 {
        return Err(
            TranslationError::InvalidImmediate {
                opcode: instruction.opcode,
                expected: 0,
                actual: instruction.immediate.len(),
            },
        );
    }
    Ok(())
}

fn emit_instruction(instruction: &PvmInstructionV1) -> (r: Result<
    GenericInstruction,
    TranslationError,
>)
    ensures
        r == emit_instruction_result(instruction@),
{
    let regs = instruction.registers;
    let op = instruction.opcode;
    if op == opcode::LOAD_IMM_64 {
        if instruction.immediate.len() != 8 {
            return Err(
                TranslationError::InvalidImmediate {
                    opcode: op,
                    expected: 8,
                    actual: instruction.immediate.len(),
                },
            );
        }
        let value = le_u64(instruction.immediate.as_slice());
        Ok(GenericInstruction::LoadImm64 { register: regs.ra, value })
    } else if op == opcode::MOVE_REG {
        match require_no_immediate(instruction) {
            Ok(()) => Ok(GenericInstruction::Move { destination: regs.rd, source: regs.ra }),
            Err(e) => Err(e),
        }
    } else if op == opcode::ADD_32 {
        Ok(GenericInstruction::Add32 { destination: regs.rd, left: regs.ra, right: regs.rb })
    } else if op == opcode::SUB_32 {
        Ok(GenericInstruction::Sub32 { destination: regs.rd, left: regs.ra, right: regs.rb })
    } else if op == opcode::MUL_32 {
        Ok(GenericInstruction::Mul32 { destination: regs.rd, left: regs.ra, right: regs.rb })
    } else if op == opcode::ADD_64 {
        Ok(GenericInstruction::Add64 { destination: regs.rd, left: regs.ra, right: regs.rb })
    } else if op == opcode::SUB_64 {
        Ok(GenericInstruction::Sub64 { destination: regs.rd, left: regs.ra, right: regs.rb })
    } else if op == opcode::MUL_64 {
        Ok(GenericInstruction::Mul64 { destination: regs.rd, left: regs.ra, right: regs.rb })
    } else if op == opcode::XOR {
        Ok(GenericInstruction::Xor { destination: regs.rd, left: regs.ra, right: regs.rb })
    } else if op == opcode::LOAD_U32 {
        match imm_u32(instruction) {
            Ok(address) => Ok(GenericInstruction::Load32 { destination: regs.ra, address }),
            Err(e) => Err(e),
        }
    } else if op == opcode::STORE_U32 {
        match imm_u32(instruction) {
            Ok(address) => Ok(GenericInstruction::Store32 { source: regs.ra, address }),
            Err(e) => Err(e),
        }
    } else if op == opcode::STORE_IMM_U32 {
        if instruction.immediate.len() != 8 {
            return Err(
                TranslationError::InvalidImmediate {
                    opcode: op,
                    expected: 8,
                    actual: instruction.immediate.len(),
                },
            );
        }
        let imm = instruction.immediate.as_slice();
        let address = u32_from_le_bytes(slice_subrange(imm, 0, 4));
        let value = u32_from_le_bytes(slice_subrange(imm, 4, 8));
        Ok(GenericInstruction::StoreImm32 { address, value })
    } else if op == opcode::BRANCH_EQ || op == opcode::BRANCH_NE || op == opcode::BRANCH_LT_U
        || op == opcode::BRANCH_LT_S || op == opcode::BRANCH_GE_U || op == opcode::BRANCH_GE_S {
        match require_no_immediate(instruction) {
            Ok(()) => Ok(GenericInstruction::Branch { opcode: op, left: regs.ra, right: regs.rb }),
            Err(e) => Err(e),
        }
    } else {
        Err(TranslationError::UnsupportedOpcode(op))
    }
}

fn emit_terminator(terminator: &PvmTerminatorV1) -> (r: Result<
    GenericInstruction,
    TranslationError,
>)
    ensures
        r == emit_terminator_result(*terminator),
{
    match terminator {
        PvmTerminatorV1::Fallthrough { .. } => Ok(GenericInstruction::Fallthrough),
        PvmTerminatorV1::Jump { .. } => Ok(GenericInstruction::Jump),
        PvmTerminatorV1::BrEqz { .. } => Ok(
            GenericInstruction::Branch { opcode: opcode::BRANCH_NE, left: 0, right: 0 },
        ),
        PvmTerminatorV1::Halt => Ok(GenericInstruction::Halt),
        PvmTerminatorV1::Trap(pc) => Ok(GenericInstruction::Trap(*pc)),
        PvmTerminatorV1::DJump => Err(TranslationError::UnsupportedTerminator),
    }
}

/// Translates an admitted program into static generic operations: each instruction, then each
/// block's terminator, in program order.
pub fn translate(workload: M3Workload, program: &PvmProgramV1) -> (r: Result<
    TranslatedProgram,
    TranslationError,
>)
    ensures
        match translate_result(workload, program@) {
            Ok(t) => r is Ok && r->Ok_0@ == t,
            Err(e) => r == Err::<TranslatedProgram, TranslationError>(e),
        },
        r matches Ok(t) ==> t@.generic_instructions.len() == total_instructions(program@.blocks)
            + program@.blocks.len() && expansion_total(t@.generic_instructions) >= total_instructions(
            program@.blocks,
        ),
        r is Ok ==> total_instructions(program@.blocks) <= usize::MAX,
        r matches Ok(t) ==> t@.pvm_instruction_count == total_instructions(program@.blocks),
{
    proof {
        if translate_result(workload, program@) is Ok {
            lemma_translation_size(workload, program@);
        }
    }
    if program.validate().is_err() {
        return Err(TranslationError::InvalidProgram("interface validation failed"));
    }
    let ghost bs = program@.blocks;
    let mut generic_instructions: Vec<GenericInstruction> = Vec::new();
    let mut k: usize = 0;
    while k < program.blocks.len()
        invariant
            bs == program@.blocks,
            bs.len() == program.blocks@.len(),
            0 <= k <= bs.len(),
            emit_blocks(bs.take(k as int)) == Ok::<Seq<GenericInstruction>, TranslationError>(
                generic_instructions@,
            ),
            program_admission(program@) is Ok,
        decreases bs.len() - k,
    {
        let block = &program.blocks[k];
        let ghost xs = bs[k as int].instructions;
        assert(xs == block@.instructions);
        let ghost before = generic_instructions@;
        assert(bs.take(k + 1).drop_last() =~= bs.take(k as int));
        assert(generic_instructions@.skip(before.len() as int) =~= Seq::<GenericInstruction>::empty());
        assert(xs.take(0) =~= Seq::<InstructionModel>::empty());
        assert(generic_instructions@.take(before.len() as int) =~= before);
        let mut j: usize = 0;
        while j < block.instructions.len()
            invariant
                xs == block@.instructions,
                xs.len() == block.instructions@.len(),
                0 <= j <= xs.len(),
                bs == program@.blocks,
                bs.len() == program.blocks@.len(),
                0 <= k < bs.len(),
                bs[k as int].instructions == xs,
                bs.take(k + 1).drop_last() == bs.take(k as int),
                emit_blocks(bs.take(k as int)) == Ok::<Seq<GenericInstruction>, TranslationError>(before),
                emit_instructions(xs.take(j as int)) == Ok::<Seq<GenericInstruction>, TranslationError>(
                    generic_instructions@.skip(before.len() as int),
                ),
                generic_instructions@.take(before.len() as int) == before,
                before.len() <= generic_instructions@.len(),
                program_admission(program@) is Ok,
            decreases xs.len() - j,
        {
            assert(xs.take(j + 1).drop_last() =~= xs.take(j as int));
            assert(xs[j as int] == block.instructions@[j as int]@);
            match emit_instruction(&block.instructions[j]) {
                Ok(g) => {
                    generic_instructions.push(g);
                    assert(generic_instructions@.skip(before.len() as int) =~= emit_instructions(
                        xs.take(j + 1),
                    )->Ok_0);
                    assert(generic_instructions@.take(before.len() as int) =~= before);
                },
                Err(e) => {
                    proof {
                        lemma_emit_instructions_err(xs, j + 1);
                        assert(bs.take(k + 1).last() == bs[k as int]);
                        lemma_emit_blocks_err(bs, k + 1);
                    }
                    return Err(e);
                },
            }
            j = j + 1;
        }
        assert(xs.take(j as int) =~= xs);
        match emit_terminator(&block.terminator) {
            Ok(g) => {
                generic_instructions.push(g);
                assert(bs.take(k + 1).last() == bs[k as int]);
                assert(generic_instructions@ =~= before + emit_block(bs[k as int])->Ok_0);
            },
            Err(e) => {
                proof {
                    assert(bs.take(k + 1).last() == bs[k as int]);
                    lemma_emit_blocks_err(bs, k + 1);
                }
                return Err(e);
            },
        }
        k = k + 1;
    }
    assert(bs.take(k as int) =~= bs);
    proof {
        lemma_emit_blocks_len(bs);
    }
    let emitted = generic_instructions.len();
    assert(total_instructions(bs) <= usize::MAX);
    let pvm_instruction_count = program.instruction_count();
    Ok(
        TranslatedProgram {
            workload,
            source_code_hash: program.code_hash,
            pvm_instruction_count,
            generic_instructions,
        },
    )
}

/// Translation emits exactly one operation per instruction and one per block, and the emitted
/// operations expand to at least as many instructions as the program has.
pub proof fn lemma_translation_size(workload: M3Workload, p: ProgramModel)
    requires
        translate_result(workload, p) is Ok,
    ensures
        translate_result(workload, p)->Ok_0.generic_instructions.len() == total_instructions(p.blocks)
            + p.blocks.len(),
        expansion_total(translate_result(workload, p)->Ok_0.generic_instructions) >= total_instructions(
            p.blocks,
        ),
{
    lemma_emit_blocks_len(p.blocks);
    lemma_expansion_total_at_least_len(translate_result(workload, p)->Ok_0.generic_instructions);
}


/// A translated program keeps the meaning of each of its register and branch instructions:
/// the operation at the index of instruction `j` of block `k` changes the register file as the
/// reference machine's step on that instruction does, on any machine state, and a branch there
/// is taken exactly when the machine's branch condition holds.
pub proof fn lemma_translated_program_agrees(
    workload: M3Workload,
    p: ProgramModel,
    k: int,
    j: int,
    s: crate::pvm_machine::MachineModel,
)
    requires
        translate_result(workload, p) is Ok,
        0 <= k < p.blocks.len(),
        0 <= j < p.blocks[k].instructions.len(),
        is_register_opcode(p.blocks[k].instructions[j].opcode) || is_branch_opcode(
            p.blocks[k].instructions[j].opcode,
        ),
    ensures
        ({
            let i = p.blocks[k].instructions[j];
            let g = translate_result(workload, p)->Ok_0.generic_instructions[total_instructions(
                p.blocks.take(k),
            ) + k + j];
            &&& is_register_opcode(i.opcode) ==> crate::pvm_machine::step_result(s, i).1 is Ok
                && generic_register_effect(s.registers, g) == Some(
                crate::pvm_machine::step_result(s, i).0.registers,
            )
            &&& is_branch_opcode(i.opcode) ==> crate::pvm_machine::step_result(s, i).1 is Ok
                && generic_branch_taken(s.registers, g) == Some(
                crate::pvm_machine::step_result(s, i).1->Ok_0,
            )
        }),
{
    let i = p.blocks[k].instructions[j];
    lemma_emit_blocks_at(p.blocks, k, j);
    lemma_translation_agrees_with_machine(s, i);
}

// ---------------------------------------------------------------------------------------------
// The workload programs
// ---------------------------------------------------------------------------------------------
pub open spec fn le64(v: u64) -> Seq<u8> {
    spec_u64_to_le_bytes(v)
}

pub open spec fn instr(opcode: u8, rd: u8, ra: u8, rb: u8, immediate: Seq<u8>) -> InstructionModel {
    InstructionModel {
        pc: 0,
        opcode,
        registers: RegisterOperandsV1 { rd, ra, rb },
        immediate,
        pc_delta: 0,
    }
}

/// A workload program: format v1, a constant code hash, six zero pages and the given blocks.
pub open spec fn workload_shell(hash_byte: u8, blocks: Seq<BlockModel>) -> ProgramModel {
    ProgramModel {
        format_version: PVM_PROGRAM_FORMAT_V1,
        code_hash: Seq::new(32, |i: int| hash_byte),
        o_blob: Seq::empty(),
        w_blob: Seq::empty(),
        z_pages: 6,
        s_bytes: 0,
        blocks,
        jump_table: Seq::empty(),
        c_blob: Seq::empty(),
    }
}

/// `7 + 9` in 32 bits, times `3`, xor `0xA5A5_5A5A`, left in register 7.
pub open spec fn arithmetic_model() -> ProgramModel {
    workload_shell(
        1,
        seq![
            BlockModel {
                entry_pc: 0,
                instructions: seq![
                    instr(opcode::LOAD_IMM_64, 0, 1, 0, le64(7)),
                    instr(opcode::LOAD_IMM_64, 0, 2, 0, le64(9)),
                    instr(opcode::ADD_32, 3, 1, 2, Seq::empty()),
                    instr(opcode::LOAD_IMM_64, 0, 4, 0, le64(3)),
                    instr(opcode::MUL_32, 5, 3, 4, Seq::empty()),
                    instr(opcode::LOAD_IMM_64, 0, 6, 0, le64(0xA5A5_5A5A)),
                    instr(opcode::XOR, 7, 5, 6, Seq::empty()),
                ],
                terminator: PvmTerminatorV1::Halt,
            },
        ],
    )
}

/// Compares `21 >= 8` (unsigned) and takes the true block, `(21 - 8) * 7` in register 5; the
/// false block would compute `(8 - 21) * 11`.
pub open spec fn branch_model() -> ProgramModel {
    workload_shell(
        2,
        seq![
            BlockModel {
                entry_pc: 0,
                instructions: seq![
                    instr(opcode::LOAD_IMM_64, 0, 1, 0, le64(21)),
                    instr(opcode::LOAD_IMM_64, 0, 2, 0, le64(8)),
                    instr(opcode::BRANCH_GE_U, 0, 1, 2, Seq::empty()),
                ],
                terminator: PvmTerminatorV1::BrEqz {
                    true_pc: 1,
                    false_pc: Some(2),
                    true_block: Some(1),
                    false_block: Some(2),
                },
            },
            BlockModel {
                entry_pc: 1,
                instructions: seq![
                    instr(opcode::SUB_32, 3, 1, 2, Seq::empty()),
                    instr(opcode::LOAD_IMM_64, 0, 4, 0, le64(7)),
                    instr(opcode::MUL_32, 5, 3, 4, Seq::empty()),
                ],
                terminator: PvmTerminatorV1::Halt,
            },
            BlockModel {
                entry_pc: 2,
                instructions: seq![
                    instr(opcode::SUB_32, 3, 2, 1, Seq::empty()),
                    instr(opcode::LOAD_IMM_64, 0, 4, 0, le64(11)),
                    instr(opcode::MUL_32, 5, 3, 4, Seq::empty()),
                ],
                terminator: PvmTerminatorV1::Halt,
            },
        ],
    )
}

/// One step of the linear congruential sequence that fills the memory workload.
pub open spec fn lcg_next(state: u32, index: u32) -> u32 {
    (((state as int * 1_664_525 + 1_013_904_223) % 0x1_0000_0000) as u32) ^ index
}

/// The state after `n` steps from `0x1234_5678`.
pub open spec fn lcg_state(n: nat) -> u32
    decreases n,
{
    if n == 0 {
        0x1234_5678
    } else {
        lcg_next(lcg_state((n - 1) as nat), (n - 1) as u32)
    }
}

/// The number of 32-bit words that the memory workload stores and loads back.
pub open spec fn memory_words() -> int {
    M3_MEMORY_BYTES as int / 4
}

/// Instruction `k` of the memory workload: an initial accumulator load, then for each word
/// index a store of the next sequence value, a load of it, and a 32-bit add into register 2.
pub open spec fn memory_instruction(k: int) -> InstructionModel {
    if k == 0 {
        instr(opcode::LOAD_IMM_64, 0, 2, 0, le64(0x1234_5678))
    } else {
        let index = (k - 1) / 3;
        let address = (PVM_PROTECTED_BYTES + 4 * index) as u32;
        if (k - 1) % 3 == 0 {
            instr(
                opcode::STORE_IMM_U32,
                0,
                0,
                0,
                spec_u32_to_le_bytes(address) + spec_u32_to_le_bytes(lcg_state((index + 1) as nat)),
            )
        } else if (k - 1) % 3 == 1 {
            instr(opcode::LOAD_U32, 0, 3, 0, spec_u32_to_le_bytes(address))
        } else {
            instr(opcode::ADD_32, 2, 2, 3, Seq::empty())
        }
    }
}

pub open spec fn memory_model() -> ProgramModel {
    workload_shell(
        3,
        seq![
            BlockModel {
                entry_pc: 0,
                instructions: Seq::new((1 + 3 * memory_words()) as nat, |k: int| memory_instruction(k)),
                terminator: PvmTerminatorV1::Halt,
            },
        ],
    )
}

pub open spec fn workload_model(workload: M3Workload) -> ProgramModel {
    match workload {
        M3Workload::Arithmetic => arithmetic_model(),
        M3Workload::BranchTrue => branch_model(),
        M3Workload::Memory16K => memory_model(),
    }
}

fn imm64(value: u64) -> (r: Vec<u8>)
    ensures
        r@ == le64(value),
{
    u64_to_le_bytes(value)
}

fn imm32(value: u32) -> (r: Vec<u8>)
    ensures
        r@ == spec_u32_to_le_bytes(value),
{
    u32_to_le_bytes(value)
}

fn instruction(op: u8, registers: RegisterOperandsV1, immediate: Vec<u8>) -> (r: PvmInstructionV1)
    ensures
        r@ == instr(op, registers.rd, registers.ra, registers.rb, immediate@),
{
    PvmInstructionV1 { pc: 0, opcode: op, registers, immediate, pc_delta: 0 }
}

fn operands(rd: u8, ra: u8, rb: u8) -> (r: RegisterOperandsV1)
    ensures
        r == (RegisterOperandsV1 { rd, ra, rb }),
{
    RegisterOperandsV1 { rd, ra, rb }
}

fn block(entry_pc: u32, instructions: Vec<PvmInstructionV1>, terminator: PvmTerminatorV1) -> (r: PvmBlockV1)
    ensures
        r.entry_pc == entry_pc,
        r.instructions@ == instructions@,
        r.terminator == terminator,
{
    PvmBlockV1 { entry_pc, instructions, terminator }
}

fn program(hash_byte: u8, blocks: Vec<PvmBlockV1>) -> (r: PvmProgramV1)
    ensures
        r@ == workload_shell(hash_byte, blocks@.map_values(|b: PvmBlockV1| b@)),
{
    let r = PvmProgramV1 {
        format_version: PVM_PROGRAM_FORMAT_V1,
        code_hash: [hash_byte; 32],
        o_blob: Vec::new(),
        w_blob: Vec::new(),
        z_pages: 6,
        s_bytes: 0,
        blocks,
        jump_table: Vec::new(),
        c_blob: Vec::new(),
    };
    assert(r@.code_hash =~= Seq::new(32, |i: int| hash_byte));
    assert(r@.o_blob =~= Seq::<u8>::empty());
    assert(r@.w_blob =~= Seq::<u8>::empty());
    assert(r@.jump_table =~= Seq::<u32>::empty());
    assert(r@.c_blob =~= Seq::<u8>::empty());
    r
}

fn arithmetic_program() -> (r: PvmProgramV1)
    ensures
        r@ == arithmetic_model(),
{
    let instructions = vec![
        instruction(opcode::LOAD_IMM_64, operands(0, 1, 0), imm64(7)),
        instruction(opcode::LOAD_IMM_64, operands(0, 2, 0), imm64(9)),
        instruction(opcode::ADD_32, operands(3, 1, 2), Vec::new()),
        instruction(opcode::LOAD_IMM_64, operands(0, 4, 0), imm64(3)),
        instruction(opcode::MUL_32, operands(5, 3, 4), Vec::new()),
        instruction(opcode::LOAD_IMM_64, operands(0, 6, 0), imm64(0xA5A5_5A5A)),
        instruction(opcode::XOR, operands(7, 5, 6), Vec::new()),
    ];
    let b = block(0, instructions, PvmTerminatorV1::Halt);
    let r = program(1, vec![b]);
    assert(r@.blocks[0].instructions =~= arithmetic_model().blocks[0].instructions);
    assert(r@.blocks =~= arithmetic_model().blocks);
    r
}

fn branch_program() -> (r: PvmProgramV1)
    ensures
        r@ == branch_model(),
{
    let first = vec![
        instruction(opcode::LOAD_IMM_64, operands(0, 1, 0), imm64(21)),
        instruction(opcode::LOAD_IMM_64, operands(0, 2, 0), imm64(8)),
        instruction(opcode::BRANCH_GE_U, operands(0, 1, 2), Vec::new()),
    ];
    let taken = vec![
        instruction(opcode::SUB_32, operands(3, 1, 2), Vec::new()),
        instruction(opcode::LOAD_IMM_64, operands(0, 4, 0), imm64(7)),
        instruction(opcode::MUL_32, operands(5, 3, 4), Vec::new()),
    ];
    let not_taken = vec![
        instruction(opcode::SUB_32, operands(3, 2, 1), Vec::new()),
        instruction(opcode::LOAD_IMM_64, operands(0, 4, 0), imm64(11)),
        instruction(opcode::MUL_32, operands(5, 3, 4), Vec::new()),
    ];
    let b0 = block(
        0,
        first,
        PvmTerminatorV1::BrEqz {
            true_pc: 1,
            false_pc: Some(2),
            true_block: Some(1),
            false_block: Some(2),
        },
    );
    let b1 = block(1, taken, PvmTerminatorV1::Halt);
    let b2 = block(2, not_taken, PvmTerminatorV1::Halt);
    let r = program(2, vec![b0, b1, b2]);
    assert(r@.blocks[0].instructions =~= branch_model().blocks[0].instructions);
    assert(r@.blocks[1].instructions =~= branch_model().blocks[1].instructions);
    assert(r@.blocks[2].instructions =~= branch_model().blocks[2].instructions);
    assert(r@.blocks =~= branch_model().blocks);
    r
}

fn lcg_advance(state: u32, index: u32) -> (r: u32)
    ensures
        r == lcg_next(state, index),
{
    let product = state.wrapping_mul(1_664_525);
    let sum = product.wrapping_add(1_013_904_223);
    proof {
        vstd::arithmetic::div_mod::lemma_add_mod_noop(
            state as int * 1_664_525,
            1_013_904_223,
            0x1_0000_0000,
        );
    }
    sum ^ index
}

fn memory_program() -> (r: PvmProgramV1)
    ensures
        r@ == memory_model(),
{
    let words: usize = M3_MEMORY_BYTES / 4;
    let mut instructions: Vec<PvmInstructionV1> = Vec::with_capacity(1 + words * 3);
    instructions.push(instruction(opcode::LOAD_IMM_64, operands(0, 2, 0), imm64(0x1234_5678)));
    let mut state: u32 = 0x1234_5678;
    let mut index: usize = 0;
    while index < words
        invariant
            words == memory_words(),
            0 <= index <= words,
            state == lcg_state(index as nat),
            instructions@.len() == 1 + 3 * index,
            forall|k: int| 0 <= k < instructions@.len() ==> (#[trigger] instructions@[k])@ == memory_instruction(k),
        decreases words - index,
    {
        state = lcg_advance(state, index as u32);
        let address = PVM_PROTECTED_BYTES + (index as u32) * 4;
        let mut bytes = imm32(address);
        let mut tail = imm32(state);
        bytes.append(&mut tail);
        let ghost k0 = instructions@.len() as int;
        instructions.push(instruction(opcode::STORE_IMM_U32, operands(0, 0, 0), bytes));
        instructions.push(instruction(opcode::LOAD_U32, operands(0, 3, 0), imm32(address)));
        instructions.push(instruction(opcode::ADD_32, operands(2, 2, 3), Vec::new()));
        proof {
            assert((k0 - 1) / 3 == index && (k0 - 1) % 3 == 0);
            assert((k0 + 1 - 1) / 3 == index && (k0 + 1 - 1) % 3 == 1);
            assert((k0 + 2 - 1) / 3 == index && (k0 + 2 - 1) % 3 == 2);
            assert(instructions@[k0]@ == memory_instruction(k0));
            assert(instructions@[k0 + 1]@ == memory_instruction(k0 + 1));
            assert(instructions@[k0 + 2]@ == memory_instruction(k0 + 2));
        }
        index = index + 1;
    }
    let b = block(0, instructions, PvmTerminatorV1::Halt);
    let r = program(3, vec![b]);
    assert(r@.blocks[0].instructions =~= memory_model().blocks[0].instructions);
    assert(r@.blocks =~= memory_model().blocks);
    r
}

/// The exact normalized program of a workload.
pub fn workload_program(workload: M3Workload) -> (r: PvmProgramV1)
    ensures
        r@ == workload_model(workload),
{
    match workload {
        M3Workload::Arithmetic => arithmetic_program(),
        M3Workload::BranchTrue => branch_program(),
        M3Workload::Memory16K => memory_program(),
    }
}


// ---------------------------------------------------------------------------------------------
// Audit source
// ---------------------------------------------------------------------------------------------
/// `label` followed by the decimal digits of `v`.
pub open spec fn field_text(label: Seq<char>, v: nat) -> Seq<char> {
    label + decimal(v)
}

/// `name { destination: d, left: l, right: r }`.
pub open spec fn three_register_text(name: Seq<char>, d: u8, l: u8, r: u8) -> Seq<char> {
    name + field_text(" { destination: "@, d as nat) + field_text(", left: "@, l as nat) + field_text(
        ", right: "@,
        r as nat,
    ) + " }"@
}

/// The text of a generic operation, as its derived `Debug` shows it: the variant name, then
/// the fields by name in braces, or the trap code in parentheses.
pub open spec fn debug_text(g: GenericInstruction) -> Seq<char> {
    match g {
        GenericInstruction::LoadImm64 { register, value } => "LoadImm64"@ + field_text(
            " { register: "@,
            register as nat,
        ) + field_text(", value: "@, value as nat) + " }"@,
        GenericInstruction::Move { destination, source } => "Move"@ + field_text(
            " { destination: "@,
            destination as nat,
        ) + field_text(", source: "@, source as nat) + " }"@,
        GenericInstruction::Add32 { destination, left, right } => three_register_text("Add32"@, destination, left, right),
        GenericInstruction::Sub32 { destination, left, right } => three_register_text("Sub32"@, destination, left, right),
        GenericInstruction::Mul32 { destination, left, right } => three_register_text("Mul32"@, destination, left, right),
        GenericInstruction::Add64 { destination, left, right } => three_register_text("Add64"@, destination, left, right),
        GenericInstruction::Sub64 { destination, left, right } => three_register_text("Sub64"@, destination, left, right),
        GenericInstruction::Mul64 { destination, left, right } => three_register_text("Mul64"@, destination, left, right),
        GenericInstruction::Xor { destination, left, right } => three_register_text("Xor"@, destination, left, right),
        GenericInstruction::Load32 { destination, address } => "Load32"@ + field_text(
            " { destination: "@,
            destination as nat,
        ) + field_text(", address: "@, address as nat) + " }"@,
        GenericInstruction::Store32 { source, address } => "Store32"@ + field_text(
            " { source: "@,
            source as nat,
        ) + field_text(", address: "@, address as nat) + " }"@,
        GenericInstruction::StoreImm32 { address, value } => "StoreImm32"@ + field_text(
            " { address: "@,
            address as nat,
        ) + field_text(", value: "@, value as nat) + " }"@,
        GenericInstruction::Branch { opcode, left, right } => "Branch"@ + field_text(
            " { opcode: "@,
            opcode as nat,
        ) + field_text(", left: "@, left as nat) + field_text(", right: "@, right as nat) + " }"@,
        GenericInstruction::Jump => "Jump"@,
        GenericInstruction::Fallthrough => "Fallthrough"@,
        GenericInstruction::Halt => "Halt"@,
        GenericInstruction::Trap(code) => field_text("Trap("@, code as nat) + ")"@,
    }
}

fn push_field(out: &mut String, label: &str, v: u64)
    ensures
        final(out)@ == old(out)@ + field_text(label@, v as nat),
{
    out.append(label);
    let digits = decimal_text(v as u128);
    out.append(digits.as_str());
}

fn push_three(out: &mut String, name: &str, d: u8, l: u8, r: u8)
    ensures
        final(out)@ == old(out)@ + three_register_text(name@, d, l, r),
{
    out.append(name);
    push_field(out, " { destination: ", d as u64);
    push_field(out, ", left: ", l as u64);
    push_field(out, ", right: ", r as u64);
    out.append(" }");
}

/// Appends the text of `g`.
fn push_debug_text(out: &mut String, g: &GenericInstruction)
    ensures
        final(out)@ == old(out)@ + debug_text(*g),
{
    match *g {
        GenericInstruction::LoadImm64 { register, value } => {
            out.append("LoadImm64");
            push_field(out, " { register: ", register as u64);
            push_field(out, ", value: ", value);
            out.append(" }");
        },
        GenericInstruction::Move { destination, source } => {
            out.append("Move");
            push_field(out, " { destination: ", destination as u64);
            push_field(out, ", source: ", source as u64);
            out.append(" }");
        },
        GenericInstruction::Add32 { destination, left, right } => push_three(out, "Add32", destination, left, right),
        GenericInstruction::Sub32 { destination, left, right } => push_three(out, "Sub32", destination, left, right),
        GenericInstruction::Mul32 { destination, left, right } => push_three(out, "Mul32", destination, left, right),
        GenericInstruction::Add64 { destination, left, right } => push_three(out, "Add64", destination, left, right),
        GenericInstruction::Sub64 { destination, left, right } => push_three(out, "Sub64", destination, left, right),
        GenericInstruction::Mul64 { destination, left, right } => push_three(out, "Mul64", destination, left, right),
        GenericInstruction::Xor { destination, left, right } => push_three(out, "Xor", destination, left, right),
        GenericInstruction::Load32 { destination, address } => {
            out.append("Load32");
            push_field(out, " { destination: ", destination as u64);
            push_field(out, ", address: ", address as u64);
            out.append(" }");
        },
        GenericInstruction::Store32 { source, address } => {
            out.append("Store32");
            push_field(out, " { source: ", source as u64);
            push_field(out, ", address: ", address as u64);
            out.append(" }");
        },
        GenericInstruction::StoreImm32 { address, value } => {
            out.append("StoreImm32");
            push_field(out, " { address: ", address as u64);
            push_field(out, ", value: ", value as u64);
            out.append(" }");
        },
        GenericInstruction::Branch { opcode, left, right } => {
            out.append("Branch");
            push_field(out, " { opcode: ", opcode as u64);
            push_field(out, ", left: ", left as u64);
            push_field(out, ", right: ", right as u64);
            out.append(" }");
        },
        GenericInstruction::Jump => out.append("Jump"),
        GenericInstruction::Fallthrough => out.append("Fallthrough"),
        GenericInstruction::Halt => out.append("Halt"),
        GenericInstruction::Trap(code) => {
            push_field(out, "Trap(", code as u64);
            out.append(")");
        },
    }
}

pub const DEBUG_SOURCE_HEADER: &'static str = "// generated by zk-jam Translation M3\nfn translated_guest() {\n";

/// One commented line per operation.
pub open spec fn debug_lines(gs: Seq<GenericInstruction>) -> Seq<char>
    decreases gs.len(),
{
    if gs.len() == 0 {
        Seq::empty()
    } else {
        debug_lines(gs.drop_last()) + "    // "@ + debug_text(gs.last()) + "\n"@
    }
}

impl TranslatedProgram {
    /// A deterministic, source-shaped listing of the operations for audit and debugging.
    pub fn debug_rust_source(&self) -> (r: String)
        ensures
            r@ == DEBUG_SOURCE_HEADER@ + debug_lines(self@.generic_instructions) + "}\n"@,
    {
        let ghost gs = self@.generic_instructions;
        let mut out = DEBUG_SOURCE_HEADER.to_owned();
        let mut i: usize = 0;
        while i < self.generic_instructions.len()
            invariant
                gs == self@.generic_instructions,
                0 <= i <= gs.len(),
                out@ == DEBUG_SOURCE_HEADER@ + debug_lines(gs.take(i as int)),
            decreases gs.len() - i,
        {
            out.append("    // ");
            push_debug_text(&mut out, &self.generic_instructions[i]);
            out.append("\n");
            assert(gs.take(i + 1).drop_last() =~= gs.take(i as int));
            i = i + 1;
            assert(out@ =~= DEBUG_SOURCE_HEADER@ + debug_lines(gs.take(i as int)));
        }
        out.append("}\n");
        assert(gs.take(i as int) =~= gs);
        out
    }
}

} // verus!
