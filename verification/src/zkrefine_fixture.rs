//! The admission of the ZkRefine Profile v1 reference case: one work item importing and
//! exporting one segment, run by the fixed seventeen-instruction FETCH/EXPORT program.
use crate::case::{case_validation, CaseModel, RefineCaseV1, SEGMENT_SIZE};
use crate::codec::CodecError;
use crate::program::{InstructionModel, ProgramModel, PvmInstructionV1, PvmProgramV1, PvmTerminatorV1, total_instructions};
use crate::pvm_memory::first_miss;
use vstd::bytes::*;
use vstd::prelude::*;

verus! {

broadcast use vstd::seq_lib::group_seq_properties;

/// Why a case is outside the ZkRefine reference profile.
#[derive(Clone, Debug, PartialEq, Eq)]
pub enum ZkRefineFixtureError {
    /// The case fails its own validation.
    CaseValidation(CodecError),
    /// Not a single work item that imports one segment at offset zero without lookups.
    OutsideProfile,
    InstructionCountMismatch { actual: usize, expected: usize, blocks: usize },
    InstructionMismatch { index: usize },
    ImmediateMismatch { index: usize },
    MissingHalt,
}

/// Opcode, `rd`, `ra`, `rb` and immediate length of each instruction of the reference program.
pub open spec fn expected_shape() -> Seq<(u8, u8, u8, u8, usize)> {
    seq![
        (20u8, 0u8, 7u8, 0u8, 8usize),
        (20, 0, 8, 0, 8),
        (20, 0, 9, 0, 8),
        (20, 0, 10, 0, 8),
        (20, 0, 11, 0, 8),
        (20, 0, 12, 0, 8),
        (10, 0, 0, 0, 4),
        (56, 0, 1, 0, 4),
        (20, 0, 2, 0, 8),
        (211, 1, 1, 2, 0),
        (61, 0, 1, 0, 4),
        (20, 0, 7, 0, 8),
        (20, 0, 8, 0, 8),
        (20, 0, 7, 0, 8),
        (20, 0, 8, 0, 8),
        (10, 0, 0, 0, 4),
        (50, 0, 7, 0, 4),
    ]
}

/// The immediate of each instruction of the reference program.
pub open spec fn expected_immediates() -> Seq<Seq<u8>> {
    seq![
        spec_u64_to_le_bytes(0x20000),
        spec_u64_to_le_bytes(0),
        spec_u64_to_le_bytes(SEGMENT_SIZE as u64),
        spec_u64_to_le_bytes(6),
        spec_u64_to_le_bytes(0),
        spec_u64_to_le_bytes(0),
        spec_u32_to_le_bytes(1),
        spec_u32_to_le_bytes(0x20000),
        spec_u64_to_le_bytes(0xA5A5_A5A5),
        Seq::empty(),
        spec_u32_to_le_bytes(0x20000),
        spec_u64_to_le_bytes(0x20000),
        spec_u64_to_le_bytes(SEGMENT_SIZE as u64),
        spec_u64_to_le_bytes(0x20000),
        spec_u64_to_le_bytes(SEGMENT_SIZE as u64),
        spec_u32_to_le_bytes(7),
        spec_u32_to_le_bytes(0xFFFE_FFFF),
    ]
}

/// The encoded size of an instruction with opcode `op`.
pub open spec fn pc_step(op: u8) -> int {
    if op == 10 {
        5
    } else if op == 20 {
        10
    } else if op == 50 || op == 56 || op == 61 {
        6
    } else if op == 211 {
        3
    } else {
        0
    }
}

/// The program counter of reference instruction `k`.
pub open spec fn expected_pc(k: int) -> int
    decreases k,
{
    if k <= 0 {
        0
    } else {
        expected_pc(k - 1) + pc_step(expected_shape()[k - 1].0)
    }
}

pub open spec fn shape_matches(x: InstructionModel, k: int) -> bool {
    let e = expected_shape()[k];
    &&& x.pc == expected_pc(k)
    &&& x.opcode == e.0
    &&& x.registers.rd == e.1
    &&& x.registers.ra == e.2
    &&& x.registers.rb == e.3
    &&& x.pc_delta == 0
    &&& x.immediate.len() == e.4
}

/// The outcome of checking a program against the reference program: the instruction count,
/// then each instruction's shape in order, then each immediate in order, then the final halt.
pub open spec fn zkrefine_program_check(p: ProgramModel) -> Result<(), ZkRefineFixtureError> {
    if p.blocks.len() != 1 || total_instructions(p.blocks) != 17 {
        Err(
            ZkRefineFixtureError::InstructionCountMismatch {
                actual: total_instructions(p.blocks) as usize,
                expected: 17,
                blocks: p.blocks.len() as usize,
            },
        )
    } else {
        let xs = p.blocks[0].instructions;
        let shape = first_miss(|k: int| shape_matches(xs[k], k), 17);
        let imm = first_miss(|k: int| xs[k].immediate == expected_immediates()[k], 17);
        if shape < 17 {
            Err(ZkRefineFixtureError::InstructionMismatch { index: shape as usize })
        } else if imm < 17 {
            Err(ZkRefineFixtureError::ImmediateMismatch { index: imm as usize })
        } else if p.blocks[0].terminator != PvmTerminatorV1::Halt {
            Err(ZkRefineFixtureError::MissingHalt)
        } else {
            Ok(())
        }
    }
}

/// The outcome of checking a case against the reference profile.
pub open spec fn zkrefine_case_check(c: CaseModel) -> Result<(), ZkRefineFixtureError> {
    match case_validation(c) {
        Err(e) => Err(ZkRefineFixtureError::CaseValidation(e)),
        Ok(_) => if c.item_index != 0 || c.core_index != 0 || c.import_segments.len() != 1
            || c.import_segments[0].len() != 1 || c.import_segments[0][0].len() != SEGMENT_SIZE
            || c.export_offset != 0 || c.state_witness.historical_lookups.len() != 0 {
            Err(ZkRefineFixtureError::OutsideProfile)
        } else {
            zkrefine_program_check(c.program)
        },
    }
}

fn expected_immediates_exec() -> (r: Vec<Vec<u8>>)
    ensures
        r@.len() == 17,
        forall|k: int| 0 <= k < 17 ==> (#[trigger] r@[k])@ == expected_immediates()[k],
{
    let r = vec![
        u64_to_le_bytes(0x20000),
        u64_to_le_bytes(0),
        u64_to_le_bytes(SEGMENT_SIZE as u64),
        u64_to_le_bytes(6),
        u64_to_le_bytes(0),
        u64_to_le_bytes(0),
        u32_to_le_bytes(1),
        u32_to_le_bytes(0x20000),
        u64_to_le_bytes(0xA5A5_A5A5),
        Vec::new(),
        u32_to_le_bytes(0x20000),
        u64_to_le_bytes(0x20000),
        u64_to_le_bytes(SEGMENT_SIZE as u64),
        u64_to_le_bytes(0x20000),
        u64_to_le_bytes(SEGMENT_SIZE as u64),
        u32_to_le_bytes(7),
        u32_to_le_bytes(0xFFFE_FFFF),
    ];
    assert(r@[9]@ =~= Seq::<u8>::empty());
    r
}

fn bytes_equal(a: &Vec<u8>, b: &Vec<u8>) -> (r: bool)
    ensures
        r == (a@ == b@),
{
    if a.len() != b.len() {
        return false;
    }
    let mut i: usize = 0;
    while i < a.len()
        invariant
            a@.len() == b@.len(),
            0 <= i <= a@.len(),
            forall|k: int| 0 <= k < i ==> a@[k] == b@[k],
        decreases a@.len() - i,
    {
        if a[i] != b[i] {
            return false;
        }
        i = i + 1;
    }
    assert(a@ =~= b@);
    true
}

/// Checks a program against the reference FETCH/EXPORT program.
pub fn validate_zkrefine_program(program: &PvmProgramV1) -> (r: Result<(), ZkRefineFixtureError>)
    requires
        total_instructions(program@.blocks) <= usize::MAX,
    ensures
        r == zkrefine_program_check(program@),
{
    let count = program.instruction_count();
    if program.blocks.len() != 1 || count != 17 {
        return Err(
            ZkRefineFixtureError::InstructionCountMismatch {
                actual: count,
                expected: 17,
                blocks: program.blocks.len(),
            },
        );
    }
    let instructions = &program.blocks[0].instructions;
    let ghost xs = program@.blocks[0].instructions;
    assert(total_instructions(program@.blocks) == xs.len()) by {
        reveal_with_fuel(total_instructions, 2);
        assert(program@.blocks.drop_last().len() == 0);
    }
    let expected: [(u8, u8, u8, u8, usize); 17] = [
        (20, 0, 7, 0, 8),
        (20, 0, 8, 0, 8),
        (20, 0, 9, 0, 8),
        (20, 0, 10, 0, 8),
        (20, 0, 11, 0, 8),
        (20, 0, 12, 0, 8),
        (10, 0, 0, 0, 4),
        (56, 0, 1, 0, 4),
        (20, 0, 2, 0, 8),
        (211, 1, 1, 2, 0),
        (61, 0, 1, 0, 4),
        (20, 0, 7, 0, 8),
        (20, 0, 8, 0, 8),
        (20, 0, 7, 0, 8),
        (20, 0, 8, 0, 8),
        (10, 0, 0, 0, 4),
        (50, 0, 7, 0, 4),
    ];
    assert(expected@ =~= expected_shape());
    let ghost shape_ok = |k: int| shape_matches(xs[k], k);
    let mut pc: u32 = 0;
    let mut index: usize = 0;
    while index < 17
        invariant
            program@.blocks.len() == 1,
            total_instructions(program@.blocks) == 17,
            xs == program@.blocks[0].instructions,
            xs.len() == 17,
            instructions@.len() == 17,
            forall|k: int| 0 <= k < 17 ==> (#[trigger] instructions@[k])@ == xs[k],
            expected@ == expected_shape(),
            shape_ok == (|k: int| shape_matches(xs[k], k)),
            0 <= index <= 17,
            pc == expected_pc(index as int),
            pc <= 10 * index,
            first_miss(shape_ok, index as nat) == index,
        decreases 17 - index,
    {
        let instruction = &instructions[index];
        let (opcode, rd, ra, rb, immediate_len) = expected[index];
        assert(instruction@ == xs[index as int]);
        if instruction.pc != pc || instruction.opcode != opcode || instruction.registers.rd != rd
            || instruction.registers.ra != ra || instruction.registers.rb != rb
            || instruction.pc_delta != 0 || instruction.immediate.len() != immediate_len {
            proof {
                assert(!shape_ok(index as int));
                assert(first_miss(shape_ok, (index + 1) as nat) == index);
                crate::pvm_memory::lemma_first_miss_stable(shape_ok, (index + 1) as nat, 17);
            }
            return Err(ZkRefineFixtureError::InstructionMismatch { index });
        }
        assert(shape_ok(index as int));
        let step: u32 = if opcode == 10 {
            5
        } else if opcode == 20 {
            10
        } else if opcode == 50 || opcode == 56 || opcode == 61 {
            6
        } else if opcode == 211 {
            3
        } else {
            0
        };
        pc = pc + step;
        index = index + 1;
    }
    let immediates = expected_immediates_exec();
    let ghost imm_ok = |k: int| xs[k].immediate == expected_immediates()[k];
    let mut k: usize = 0;
    while k < 17
        invariant
            program@.blocks.len() == 1,
            total_instructions(program@.blocks) == 17,
            xs == program@.blocks[0].instructions,
            xs.len() == 17,
            instructions@.len() == 17,
            forall|m: int| 0 <= m < 17 ==> (#[trigger] instructions@[m])@ == xs[m],
            immediates@.len() == 17,
            forall|m: int| 0 <= m < 17 ==> (#[trigger] immediates@[m])@ == expected_immediates()[m],
            imm_ok == (|m: int| xs[m].immediate == expected_immediates()[m]),
            0 <= k <= 17,
            first_miss(imm_ok, k as nat) == k,
            first_miss(|m: int| shape_matches(xs[m], m), 17) == 17,
        decreases 17 - k,
    {
        assert(instructions@[k as int]@ == xs[k as int]);
        if !bytes_equal(&instructions[k].immediate, &immediates[k]) {
            proof {
                assert(!imm_ok(k as int));
                assert(first_miss(imm_ok, (k + 1) as nat) == k);
                crate::pvm_memory::lemma_first_miss_stable(imm_ok, (k + 1) as nat, 17);
            }
            return Err(ZkRefineFixtureError::ImmediateMismatch { index: k });
        }
        assert(imm_ok(k as int));
        k = k + 1;
    }
    match program.blocks[0].terminator {
        PvmTerminatorV1::Halt => Ok(()),
        _ => Err(ZkRefineFixtureError::MissingHalt),
    }
}

/// Checks a case against the ZkRefine reference profile.
pub fn validate_zkrefine_case(case: &RefineCaseV1) -> (r: Result<(), ZkRefineFixtureError>)
    requires
        total_instructions(case@.program.blocks) <= usize::MAX,
    ensures
        r == zkrefine_case_check(case@),
{
    match case.validate() {
        Ok(()) => {},
        Err(e) => return Err(ZkRefineFixtureError::CaseValidation(e)),
    }
    if case.item_index != 0 || case.core_index != 0 || case.import_segments.len() != 1
        || case.import_segments[0].len() != 1 || case.import_segments[0][0].len() != SEGMENT_SIZE
        || case.export_offset != 0 || case.state_witness.historical_lookups.len() != 0 {
        return Err(ZkRefineFixtureError::OutsideProfile);
    }
    validate_zkrefine_program(&case.program)
}

} // verus!
