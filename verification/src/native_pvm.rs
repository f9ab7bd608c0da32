//! The fixed pieces of the bounded native PVM lowering: the register map, the admission rules
//! for the M4 fixture programs, and the small encodings that the lowering relies on.
use crate::opcode;
use crate::program::{BlockModel, InstructionModel, ProgramModel, PvmProgramV1, program_admission, PVM_REGISTER_COUNT};
use crate::pvm_memory::{le_u64, le_value, M3_MEMORY_BYTES, PVM_PROTECTED_BYTES};
use crate::translation::TranslationError;
use std::collections::BTreeMap;
use vstd::bytes::*;
use vstd::prelude::*;
use vstd::slice::slice_subrange;

verus! {

broadcast use vstd::seq_lib::group_seq_properties;

pub const BASE_ALU_ADD: usize = 0x200;

pub const BASE_ALU_SUB: usize = 0x201;

pub const BASE_ALU_XOR: usize = 0x202;

pub const BASE_ALU_OR: usize = 0x203;

pub const SHIFT_SLL: usize = 0x205;

pub const SHIFT_SRL: usize = 0x206;

pub const LOAD_STORE_LOADW: usize = 0x210;

pub const LOAD_STORE_STOREW: usize = 0x213;

pub const LOAD_STORE_STOREB: usize = 0x215;

pub const JAL: usize = 0x230;

pub const LUI: usize = 0x231;

pub const MUL: usize = 0x250;

pub const HINT_STOREW: usize = 0x260;

pub const SHA256: usize = 0x320;

pub const TERMINATE: usize = 1;

pub const PHANTOM: usize = 0xdead;

pub const BRANCH_BEQ: usize = 0x220;

pub const BRANCH_BNE: usize = 0x221;

pub const BRANCH_BLT: usize = 0x225;

pub const BRANCH_BLTU: usize = 0x226;

pub const BRANCH_BGE: usize = 0x227;

pub const BRANCH_BGEU: usize = 0x228;

/// Why a program cannot be lowered natively.
#[derive(Clone, Debug, PartialEq, Eq)]
pub enum NativePvmError {
    InvalidRegister(u8),
    Translation(TranslationError),
    UnsupportedOpcode(u8),
    UnsupportedTerminator,
    UnsupportedImmediate(u64),
    InvalidMemoryAddress(u32),
    InvalidBlock(u32),
    InvalidBranchDisplacement(i64),
}

/// The fixed mapping of the thirteen PVM registers to OpenVM RV32 register-memory pointers:
/// register `i` lives at byte `4 * i`.
#[derive(Clone, Copy, Debug, PartialEq, Eq)]
pub struct NativePvmRegisterMap {
    pub pvm_to_openvm: [u32; 13],
}

impl Default for NativePvmRegisterMap {
    fn default() -> (r: Self)
        ensures
            forall|i: int| 0 <= i < 13 ==> r.pvm_to_openvm@[i] == 4 * i,
    {
        let mut map = [0u32; 13];
        let mut i: usize = 0;
        while i < 13
            invariant
                0 <= i <= 13,
                forall|k: int| 0 <= k < i ==> map@[k] == 4 * k,
            decreases 13 - i,
        {
            map[i] = (i as u32) * 4;
            i = i + 1;
        }
        NativePvmRegisterMap { pvm_to_openvm: map }
    }
}

impl NativePvmRegisterMap {
    /// The pointer of a PVM register.
    pub fn pointer(&self, register: u8) -> (r: Result<u32, NativePvmError>)
        ensures
            register < 13 ==> r == Ok::<u32, NativePvmError>(self.pvm_to_openvm@[register as int]),
            register >= 13 ==> r == Err::<u32, NativePvmError>(
                NativePvmError::InvalidRegister(register),
            ),
    {
        if (register as usize) < 13 {
            Ok(self.pvm_to_openvm[register as usize])
        } else {
            Err(NativePvmError::InvalidRegister(register))
        }
    }
}

/// The mapping from normalized PVM blocks to direct OpenVM instruction PCs.
#[derive(Clone, Debug, PartialEq, Eq)]
pub struct NativePcMap {
    pub pvm_block_to_openvm_pc: Vec<u32>,
}

/// The bounded native lowerer of the M4 fixture programs.
#[derive(Clone, Copy, Debug, PartialEq, Eq)]
pub struct NativePvmLowerer {
    pub register_map: NativePvmRegisterMap,
}

/// The OpenVM branch opcode of a PVM branch.
pub open spec fn branch_opcode_of(op: u8) -> Result<usize, NativePvmError> {
    if op == opcode::BRANCH_EQ {
        Ok(BRANCH_BEQ)
    } else if op == opcode::BRANCH_NE {
        Ok(BRANCH_BNE)
    } else if op == opcode::BRANCH_LT_U {
        Ok(BRANCH_BLTU)
    } else if op == opcode::BRANCH_LT_S {
        Ok(BRANCH_BLT)
    } else if op == opcode::BRANCH_GE_U {
        Ok(BRANCH_BGEU)
    } else if op == opcode::BRANCH_GE_S {
        Ok(BRANCH_BGE)
    } else {
        Err(NativePvmError::UnsupportedOpcode(op))
    }
}

pub fn branch_opcode(op: u8) -> (r: Result<usize, NativePvmError>)
    ensures
        r == branch_opcode_of(op),
{
    if op == opcode::BRANCH_EQ {
        Ok(BRANCH_BEQ)
    } else if op == opcode::BRANCH_NE {
        Ok(BRANCH_BNE)
    } else if op == opcode::BRANCH_LT_U {
        Ok(BRANCH_BLTU)
    } else if op == opcode::BRANCH_LT_S {
        Ok(BRANCH_BLT)
    } else if op == opcode::BRANCH_GE_U {
        Ok(BRANCH_BGEU)
    } else if op == opcode::BRANCH_GE_S {
        Ok(BRANCH_BGE)
    } else {
        Err(NativePvmError::UnsupportedOpcode(op))
    }
}

/// The signed distance from `current_pc` to `target_pc`, when it fits in 32 bits.
pub fn branch_displacement(target_pc: u32, current_pc: u32) -> (r: Result<isize, NativePvmError>)
    ensures
        i32::MIN <= target_pc - current_pc <= i32::MAX ==> r == Ok::<isize, NativePvmError>(
            (target_pc - current_pc) as isize,
        ),
        !(i32::MIN <= target_pc - current_pc <= i32::MAX) ==> r == Err::<isize, NativePvmError>(
            NativePvmError::InvalidBranchDisplacement((target_pc - current_pc) as i64),
        ),
{
    let displacement = target_pc as i64 - current_pc as i64;
    if displacement < i32::MIN as i64 || displacement > i32::MAX as i64 {
        return Err(NativePvmError::InvalidBranchDisplacement(displacement));
    }
    Ok(displacement as isize)
}

/// The low 24 bits of an immediate, as OpenVM encodes immediates.
pub fn imm24(value: i64) -> (r: isize)
    ensures
        r as int == (value as int) % 0x100_0000,
{
    let low = value & 0x00ff_ffff;
    assert(low == (value as int) % 0x100_0000 && 0 <= low < 0x100_0000) by (bit_vector)
        requires
            low == value & 0x00ff_ffff,
    ;
    low as isize
}

/// Stores `value` little-endian at `address` of `address_space` in an initial memory image.
pub fn write_u32(image: &mut BTreeMap<(u32, u32), u8>, address_space: u32, address: u32, value: u32)
    requires
        address + 3 <= u32::MAX,
    ensures
        final(image)@ == old(image)@.insert((address_space, address), spec_u32_to_le_bytes(value)[0])
            .insert((address_space, (address + 1) as u32), spec_u32_to_le_bytes(value)[1])
            .insert((address_space, (address + 2) as u32), spec_u32_to_le_bytes(value)[2])
            .insert((address_space, (address + 3) as u32), spec_u32_to_le_bytes(value)[3]),
{
    let bytes = u32_to_le_bytes(value);
    image.insert((address_space, address), bytes[0]);
    image.insert((address_space, address + 1), bytes[1]);
    image.insert((address_space, address + 2), bytes[2]);
    image.insert((address_space, address + 3), bytes[3]);
}

// ---------------------------------------------------------------------------------------------
// Fixture admission
// ---------------------------------------------------------------------------------------------
/// The first failure of `check` over `xs`, in order.
pub open spec fn first_failure<T>(check: spec_fn(T) -> Result<(), NativePvmError>, xs: Seq<T>) -> Result<
    (),
    NativePvmError,
>
    decreases xs.len(),
{
    if xs.len() == 0 {
        Ok(())
    } else {
        match check(xs[0]) {
            Err(e) => Err(e),
            Ok(_) => first_failure(check, xs.drop_first()),
        }
    }
}

pub proof fn lemma_first_failure_step<T>(
    check: spec_fn(T) -> Result<(), NativePvmError>,
    xs: Seq<T>,
    i: int,
)
    requires
        0 <= i < xs.len(),
    ensures
        first_failure(check, xs.skip(i)) == match check(xs[i]) {
            Err(e) => Err(e),
            Ok(_) => first_failure(check, xs.skip(i + 1)),
        },
{
    assert(xs.skip(i).drop_first() =~= xs.skip(i + 1));
}

/// The fixture memory: word-aligned addresses of the sixteen KiB above the protected page.
pub open spec fn memory_check(address: u32) -> Result<(), NativePvmError> {
    if address < PVM_PROTECTED_BYTES || address % 4 != 0 || address >= PVM_PROTECTED_BYTES
        + M3_MEMORY_BYTES {
        Err(NativePvmError::InvalidMemoryAddress(address))
    } else {
        Ok(())
    }
}

/// The instructions that the native lowering supports, with immediates of the right width,
/// 64-bit loads that fit in 32 bits and memory accesses inside the fixture memory.
pub open spec fn instruction_fixture_check(i: InstructionModel) -> Result<(), NativePvmError> {
    let op = i.opcode;
    if op == opcode::LOAD_IMM_64 {
        if i.immediate.len() != 8 {
            Err(NativePvmError::UnsupportedOpcode(op))
        } else if le_value(i.immediate) > u32::MAX {
            Err(NativePvmError::UnsupportedImmediate(le_value(i.immediate)))
        } else {
            Ok(())
        }
    } else if op == opcode::LOAD_U32 || op == opcode::STORE_U32 {
        if i.immediate.len() != 4 {
            Err(NativePvmError::UnsupportedOpcode(op))
        } else {
            memory_check(spec_u32_from_le_bytes(i.immediate))
        }
    } else if op == opcode::STORE_IMM_U32 {
        if i.immediate.len() != 8 {
            Err(NativePvmError::UnsupportedOpcode(op))
        } else {
            memory_check(spec_u32_from_le_bytes(i.immediate.subrange(0, 4)))
        }
    } else if op == opcode::MOVE_REG || op == opcode::ADD_32 || op == opcode::SUB_32 || op
        == opcode::MUL_32 || op == opcode::XOR || op == opcode::BRANCH_EQ || op == opcode::BRANCH_NE
        || op == opcode::BRANCH_LT_U || op == opcode::BRANCH_LT_S || op == opcode::BRANCH_GE_U || op
        == opcode::BRANCH_GE_S {
        Ok(())
    } else {
        Err(NativePvmError::UnsupportedOpcode(op))
    }
}

pub open spec fn instruction_fixture_check_fn() -> spec_fn(InstructionModel) -> Result<(), NativePvmError> {
    |i: InstructionModel| instruction_fixture_check(i)
}

pub open spec fn block_fixture_check(b: BlockModel) -> Result<(), NativePvmError> {
    first_failure(instruction_fixture_check_fn(), b.instructions)
}

pub open spec fn block_fixture_check_fn() -> spec_fn(BlockModel) -> Result<(), NativePvmError> {
    |b: BlockModel| block_fixture_check(b)
}

/// The outcome of `NativePvmLowerer::validate_fixture`.
pub open spec fn fixture_check(p: ProgramModel, output_register: u8) -> Result<(), NativePvmError> {
    if program_admission(p) is Err {
        Err(NativePvmError::UnsupportedTerminator)
    } else if output_register >= 13 {
        Err(NativePvmError::InvalidRegister(output_register))
    } else if p.blocks.len() > 3 || p.z_pages * 4096 < M3_MEMORY_BYTES {
        Err(NativePvmError::InvalidMemoryAddress(u32::MAX))
    } else {
        first_failure(block_fixture_check_fn(), p.blocks)
    }
}

impl NativePvmLowerer {
    /// Admits a fixture memory address.
    pub fn validate_memory(&self, address: u32) -> (r: Result<(), NativePvmError>)
        ensures
            r == memory_check(address),
    {
        if address < PVM_PROTECTED_BYTES || address % 4 != 0 || address >= PVM_PROTECTED_BYTES
            + M3_MEMORY_BYTES as u32 {
            return Err(NativePvmError::InvalidMemoryAddress(address));
        }
        Ok(())
    }

    fn validate_instruction(&self, instruction: &crate::program::PvmInstructionV1) -> (r: Result<
        (),
        NativePvmError,
    >)
        ensures
            r == instruction_fixture_check(instruction@),
    {
        let op = instruction.opcode;
        if op == opcode::LOAD_IMM_64 {
            if instruction.immediate.len() != 8 {
                return Err(NativePvmError::UnsupportedOpcode(op));
            }
            let value = le_u64(instruction.immediate.as_slice());
            if value > u32::MAX as u64 {
                return Err(NativePvmError::UnsupportedImmediate(value));
            }
            Ok(())
        } else if op == opcode::LOAD_U32 || op == opcode::STORE_U32 {
            if instruction.immediate.len() != 4 {
                return Err(NativePvmError::UnsupportedOpcode(op));
            }
            self.validate_memory(u32_from_le_bytes(instruction.immediate.as_slice()))
        } else if op == opcode::STORE_IMM_U32 {
            if instruction.immediate.len() != 8 {
                return Err(NativePvmError::UnsupportedOpcode(op));
            }
            self.validate_memory(
                u32_from_le_bytes(slice_subrange(instruction.immediate.as_slice(), 0, 4)),
            )
        } else if op == opcode::MOVE_REG || op == opcode::ADD_32 || op == opcode::SUB_32 || op
            == opcode::MUL_32 || op == opcode::XOR || op == opcode::BRANCH_EQ || op
            == opcode::BRANCH_NE || op == opcode::BRANCH_LT_U || op == opcode::BRANCH_LT_S || op
            == opcode::BRANCH_GE_U || op == opcode::BRANCH_GE_S {
            Ok(())
        } else {
            Err(NativePvmError::UnsupportedOpcode(op))
        }
    }

    /// Admits the bounded M4 fixture programs: an admitted program of at most three blocks with
    /// the fixture memory, an output register in range, and only supported instructions.
    pub fn validate_fixture(&self, program: &PvmProgramV1, output_register: u8) -> (r: Result<
        (),
        NativePvmError,
    >)
        ensures
            r == fixture_check(program@, output_register),
    {
        if program.validate().is_err() {
            return Err(NativePvmError::UnsupportedTerminator);
        }
        match self.register_map.pointer(output_register) {
            Ok(_) => {},
            Err(e) => return Err(e),
        }
        if program.blocks.len() > 3 || (program.z_pages as usize) * 4096 < M3_MEMORY_BYTES {
            return Err(NativePvmError::InvalidMemoryAddress(u32::MAX));
        }
        let ghost bs = program@.blocks;
        let mut k: usize = 0;
        while k < program.blocks.len()
            invariant
                bs == program@.blocks,
                bs.len() == program.blocks@.len(),
                0 <= k <= bs.len(),
                fixture_check(program@, output_register) == first_failure(
                    block_fixture_check_fn(),
                    bs.skip(k as int),
                ),
            decreases bs.len() - k,
        {
            proof {
                lemma_first_failure_step(block_fixture_check_fn(), bs, k as int);
            }
            let block = &program.blocks[k];
            let ghost xs = bs[k as int].instructions;
            assert(xs == block@.instructions);
            let mut j: usize = 0;
            while j < block.instructions.len()
                invariant
                    xs == block@.instructions,
                    xs.len() == block.instructions@.len(),
                    0 <= j <= xs.len(),
                    block_fixture_check(bs[k as int]) == first_failure(
                        instruction_fixture_check_fn(),
                        xs.skip(j as int),
                    ),
                    bs[k as int].instructions == xs,
                    0 <= k < bs.len(),
                    bs == program@.blocks,
                    fixture_check(program@, output_register) == (match block_fixture_check_fn()(
                        bs[k as int],
                    ) {
                        Err(e) => Err(e),
                        Ok(_) => first_failure(block_fixture_check_fn(), bs.skip(k + 1)),
                    }),
                decreases xs.len() - j,
            {
                proof {
                    lemma_first_failure_step(instruction_fixture_check_fn(), xs, j as int);
                }
                assert(xs[j as int] == block.instructions@[j as int]@);
                let r = self.validate_instruction(&block.instructions[j]);
                if r.is_err() {
                    return r;
                }
                j = j + 1;
            }
            assert(xs.skip(j as int) =~= Seq::<InstructionModel>::empty());
            k = k + 1;
        }
        assert(bs.skip(k as int) =~= Seq::<BlockModel>::empty());
        Ok(())
    }
}


/// The cost category of an OpenVM opcode.
pub open spec fn category_of(op: usize) -> Seq<char> {
    if op == BASE_ALU_ADD || op == BASE_ALU_SUB || op == BASE_ALU_XOR || op == BASE_ALU_OR || op
        == SHIFT_SLL || op == SHIFT_SRL {
        "alu"@
    } else if op == MUL {
        "mul"@
    } else if op == BRANCH_BEQ || op == BRANCH_BNE || op == BRANCH_BLT || op == BRANCH_BLTU || op
        == BRANCH_BGE || op == BRANCH_BGEU || op == JAL {
        "branch"@
    } else if op == LOAD_STORE_LOADW || op == LOAD_STORE_STOREW || op == LOAD_STORE_STOREB {
        "load_store"@
    } else if op == LUI {
        "memory"@
    } else if op == HINT_STOREW || op == PHANTOM {
        "hint"@
    } else if op == SHA256 {
        "sha256"@
    } else if op == TERMINATE {
        "system"@
    } else {
        "other"@
    }
}

pub fn category(op: usize) -> (r: &'static str)
    ensures
        r@ == category_of(op),
{
    if op == BASE_ALU_ADD || op == BASE_ALU_SUB || op == BASE_ALU_XOR || op == BASE_ALU_OR || op
        == SHIFT_SLL || op == SHIFT_SRL {
        "alu"
    } else if op == MUL {
        "mul"
    } else if op == BRANCH_BEQ || op == BRANCH_BNE || op == BRANCH_BLT || op == BRANCH_BLTU || op
        == BRANCH_BGE || op == BRANCH_BGEU || op == JAL {
        "branch"
    } else if op == LOAD_STORE_LOADW || op == LOAD_STORE_STOREW || op == LOAD_STORE_STOREB {
        "load_store"
    } else if op == LUI {
        "memory"
    } else if op == HINT_STOREW || op == PHANTOM {
        "hint"
    } else if op == SHA256 {
        "sha256"
    } else if op == TERMINATE {
        "system"
    } else {
        "other"
    }
}

} // verus!
