//! The cost-model workloads: the three translated benchmark programs run on several inputs,
//! and small single-block programs that isolate dependent and independent ALU work,
//! multiplication and loads.
use crate::codec::le32;
use crate::opcode::{ADD_32, LOAD_IMM_64, LOAD_U32, MUL_32, SUB_32, XOR};
use crate::openvm_values::{M2Benchmark, M2Input};
use crate::program::{
    BlockModel, InstructionModel, ProgramModel, PvmBlockV1, PvmInstructionV1, PvmProgramV1,
    PvmTerminatorV1, RegisterOperandsV1, PVM_PROGRAM_FORMAT_V1,
};
use crate::pvm_memory::{M3_MEMORY_BYTES, PVM_PROTECTED_BYTES};
use crate::translation::{le64, workload_model, workload_program, M3Workload};
use vstd::bytes::*;
use vstd::prelude::*;

verus! {

/// A program with the input it is measured on, the register holding its result, and the
/// benchmark it is executed as.
#[derive(Clone, Debug)]
pub struct CostWorkload {
    pub name: &'static str,
    pub pattern: &'static str,
    pub program: PvmProgramV1,
    pub input: M2Input,
    pub output_register: u8,
    pub benchmark: M2Benchmark,
}

/// The mathematical value of a `CostWorkload`.
pub struct CostWorkloadModel {
    pub name: Seq<char>,
    pub pattern: Seq<char>,
    pub program: ProgramModel,
    pub input: M2Input,
    pub output_register: u8,
    pub benchmark: M2Benchmark,
}

impl View for CostWorkload {
    type V = CostWorkloadModel;

    open spec fn view(&self) -> CostWorkloadModel {
        CostWorkloadModel {
            name: self.name@,
            pattern: self.pattern@,
            program: self.program@,
            input: self.input,
            output_register: self.output_register,
            benchmark: self.benchmark,
        }
    }
}

pub open spec fn inst_model(op: u8, rd: u8, ra: u8, rb: u8, immediate: Seq<u8>) -> InstructionModel {
    InstructionModel {
        pc: 0,
        opcode: op,
        registers: RegisterOperandsV1 { rd, ra, rb },
        immediate,
        pc_delta: 0,
    }
}

/// Loads `value` into `register`.
pub open spec fn imm_model(register: u8, value: u64) -> InstructionModel {
    inst_model(LOAD_IMM_64, 0, register, 0, le64(value))
}

/// Loads the word at `offset` above the protected page into `register`.
pub open spec fn load_model(register: u8, offset: u32) -> InstructionModel {
    inst_model(LOAD_U32, register, 0, 0, le32((PVM_PROTECTED_BYTES + offset) as u32))
}

/// One halting block of `instructions`, over six pages, with a code hash of 32 copies of
/// `hash`.
pub open spec fn small_program(hash: u8, instructions: Seq<InstructionModel>) -> ProgramModel {
    ProgramModel {
        format_version: PVM_PROGRAM_FORMAT_V1,
        code_hash: Seq::new(32, |i: int| hash),
        o_blob: Seq::empty(),
        w_blob: Seq::empty(),
        z_pages: 6,
        s_bytes: 0,
        blocks: seq![BlockModel { entry_pc: 0, instructions, terminator: PvmTerminatorV1::Halt }],
        jump_table: Seq::empty(),
        c_blob: Seq::empty(),
    }
}

pub open spec fn existing_model(
    name: Seq<char>,
    pattern: Seq<char>,
    workload: M3Workload,
    input: M2Input,
    output_register: u8,
    benchmark: M2Benchmark,
) -> CostWorkloadModel {
    CostWorkloadModel {
        name,
        pattern,
        program: workload_model(workload),
        input,
        output_register,
        benchmark,
    }
}

pub open spec fn small_model(
    name: Seq<char>,
    pattern: Seq<char>,
    instructions: Seq<InstructionModel>,
    input: M2Input,
    output_register: u8,
    hash: u8,
) -> CostWorkloadModel {
    CostWorkloadModel {
        name,
        pattern,
        program: small_program(hash, instructions),
        input,
        output_register,
        benchmark: M2Benchmark::M4NativeArithmetic,
    }
}

/// The workloads, in order.
pub open spec fn cost_workloads() -> Seq<CostWorkloadModel> {
    let memory = M3_MEMORY_BYTES as u32;
    seq![
        existing_model("arithmetic"@, "arithmetic"@, M3Workload::Arithmetic, M2Input { a: 7, b: 9 }, 7, M2Benchmark::M4NativeArithmetic),
        existing_model("branch-true"@, "branch_taken"@, M3Workload::BranchTrue, M2Input { a: 21, b: 8 }, 5, M2Benchmark::M4NativeBranch),
        existing_model("memory-16384"@, "memory_mixed"@, M3Workload::Memory16K, M2Input { a: 0x1234_5678, b: memory }, 2, M2Benchmark::M4NativeMemory16K),
        small_model(
            "arithmetic-dependent"@,
            "alu_dependent"@,
            seq![
                inst_model(ADD_32, 3, 1, 2, Seq::empty()),
                inst_model(SUB_32, 4, 3, 1, Seq::empty()),
                inst_model(MUL_32, 5, 4, 2, Seq::empty()),
                inst_model(XOR, 6, 5, 3, Seq::empty()),
            ],
            M2Input { a: 7, b: 9 },
            6,
            4,
        ),
        small_model(
            "arithmetic-independent"@,
            "alu_independent"@,
            seq![imm_model(3, 3), imm_model(4, 5), inst_model(ADD_32, 5, 3, 4, Seq::empty())],
            M2Input { a: 7, b: 9 },
            5,
            5,
        ),
        small_model(
            "mul-heavy"@,
            "mul"@,
            seq![
                imm_model(3, 3),
                imm_model(4, 5),
                inst_model(MUL_32, 5, 3, 4, Seq::empty()),
                inst_model(MUL_32, 6, 5, 4, Seq::empty()),
                inst_model(MUL_32, 7, 6, 3, Seq::empty()),
            ],
            M2Input { a: 7, b: 9 },
            7,
            6,
        ),
        existing_model("branch-false"@, "branch_not_taken"@, M3Workload::BranchTrue, M2Input { a: 8, b: 21 }, 5, M2Benchmark::M4NativeBranch),
        small_model(
            "load-heavy"@,
            "load"@,
            seq![load_model(3, 0x100), load_model(4, 0x104), load_model(5, 0x108), inst_model(ADD_32, 2, 3, 4, Seq::empty())],
            M2Input { a: 7, b: 9 },
            2,
            7,
        ),
        existing_model("store-heavy"@, "store"@, M3Workload::Memory16K, M2Input { a: 1, b: memory }, 2, M2Benchmark::M4NativeMemory16K),
        existing_model("mixed-arithmetic-memory"@, "mixed"@, M3Workload::Memory16K, M2Input { a: 2, b: memory }, 2, M2Benchmark::M4NativeMemory16K),
    ]
}

fn inst(op: u8, rd: u8, ra: u8, rb: u8, immediate: Vec<u8>) -> (r: PvmInstructionV1)
    ensures
        r@ == inst_model(op, rd, ra, rb, immediate@),
{
    PvmInstructionV1 { pc: 0, opcode: op, registers: RegisterOperandsV1 { rd, ra, rb }, immediate, pc_delta: 0 }
}

fn plain(op: u8, rd: u8, ra: u8, rb: u8) -> (r: PvmInstructionV1)
    ensures
        r@ == inst_model(op, rd, ra, rb, Seq::empty()),
{
    let none: Vec<u8> = Vec::new();
    inst(op, rd, ra, rb, none)
}

fn imm(register: u8, value: u64) -> (r: PvmInstructionV1)
    ensures
        r@ == imm_model(register, value),
{
    inst(LOAD_IMM_64, 0, register, 0, u64_to_le_bytes(value))
}

fn load(register: u8, offset: u32) -> (r: PvmInstructionV1)
    requires
        offset <= 0x1000,
    ensures
        r@ == load_model(register, offset),
{
    inst(LOAD_U32, register, 0, 0, u32_to_le_bytes(PVM_PROTECTED_BYTES + offset))
}

fn filled(hash: u8) -> (r: [u8; 32])
    ensures
        r@ == Seq::new(32, |i: int| hash),
{
    let mut out = [0u8; 32];
    let mut i: usize = 0;
    while i < 32
        invariant
            0 <= i <= 32,
            forall|k: int| 0 <= k < i ==> out@[k] == hash,
        decreases 32 - i,
    {
        out[i] = hash;
        i = i + 1;
    }
    assert(out@ =~= Seq::new(32, |i: int| hash));
    out
}

fn program(hash: u8, instructions: Vec<PvmInstructionV1>) -> (r: PvmProgramV1)
    ensures
        r@ == small_program(hash, instructions@.map_values(|i: PvmInstructionV1| i@)),
{
    let r = PvmProgramV1 {
        format_version: PVM_PROGRAM_FORMAT_V1,
        code_hash: filled(hash),
        o_blob: Vec::new(),
        w_blob: Vec::new(),
        z_pages: 6,
        s_bytes: 0,
        blocks: vec![PvmBlockV1 { entry_pc: 0, instructions, terminator: PvmTerminatorV1::Halt }],
        jump_table: Vec::new(),
        c_blob: Vec::new(),
    };
    assert(r@.blocks =~= small_program(hash, instructions@.map_values(|i: PvmInstructionV1| i@)).blocks);
    r
}

fn existing(
    name: &'static str,
    pattern: &'static str,
    workload: M3Workload,
    input: M2Input,
    output_register: u8,
    benchmark: M2Benchmark,
) -> (r: CostWorkload)
    ensures
        r@ == existing_model(name@, pattern@, workload, input, output_register, benchmark),
{
    CostWorkload { name, pattern, program: workload_program(workload), input, output_register, benchmark }
}

fn small(
    name: &'static str,
    pattern: &'static str,
    instructions: Vec<PvmInstructionV1>,
    input: M2Input,
    output_register: u8,
    hash: u8,
) -> (r: CostWorkload)
    ensures
        r@ == small_model(
            name@,
            pattern@,
            instructions@.map_values(|i: PvmInstructionV1| i@),
            input,
            output_register,
            hash,
        ),
{
    CostWorkload {
        name,
        pattern,
        program: program(hash, instructions),
        input,
        output_register,
        benchmark: M2Benchmark::M4NativeArithmetic,
    }
}

/// Every cost-model workload, in order.
pub fn all() -> (r: Vec<CostWorkload>)
    ensures
        r@.map_values(|w: CostWorkload| w@) == cost_workloads(),
{
    let memory = M3_MEMORY_BYTES as u32;
    let dependent = vec![plain(ADD_32, 3, 1, 2), plain(SUB_32, 4, 3, 1), plain(MUL_32, 5, 4, 2), plain(XOR, 6, 5, 3)];
    let independent = vec![imm(3, 3), imm(4, 5), plain(ADD_32, 5, 3, 4)];
    let mul = vec![imm(3, 3), imm(4, 5), plain(MUL_32, 5, 3, 4), plain(MUL_32, 6, 5, 4), plain(MUL_32, 7, 6, 3)];
    let loads = vec![load(3, 0x100), load(4, 0x104), load(5, 0x108), plain(ADD_32, 2, 3, 4)];
    let ghost v = |i: PvmInstructionV1| i@;
    assert(dependent@.map_values(v) =~= seq![
        inst_model(ADD_32, 3, 1, 2, Seq::empty()),
        inst_model(SUB_32, 4, 3, 1, Seq::empty()),
        inst_model(MUL_32, 5, 4, 2, Seq::empty()),
        inst_model(XOR, 6, 5, 3, Seq::empty()),
    ]);
    assert(independent@.map_values(v) =~= seq![imm_model(3, 3), imm_model(4, 5), inst_model(ADD_32, 5, 3, 4, Seq::empty())]);
    assert(mul@.map_values(v) =~= seq![
        imm_model(3, 3),
        imm_model(4, 5),
        inst_model(MUL_32, 5, 3, 4, Seq::empty()),
        inst_model(MUL_32, 6, 5, 4, Seq::empty()),
        inst_model(MUL_32, 7, 6, 3, Seq::empty()),
    ]);
    assert(loads@.map_values(v) =~= seq![load_model(3, 0x100), load_model(4, 0x104), load_model(5, 0x108), inst_model(ADD_32, 2, 3, 4, Seq::empty())]);
    let r = vec![
        existing("arithmetic", "arithmetic", M3Workload::Arithmetic, M2Input::arithmetic(7, 9), 7, M2Benchmark::M4NativeArithmetic),
        existing("branch-true", "branch_taken", M3Workload::BranchTrue, M2Input::branch(21, 8), 5, M2Benchmark::M4NativeBranch),
        existing("memory-16384", "memory_mixed", M3Workload::Memory16K, M2Input { a: 0x1234_5678, b: memory }, 2, M2Benchmark::M4NativeMemory16K),
        small("arithmetic-dependent", "alu_dependent", dependent, M2Input::arithmetic(7, 9), 6, 4),
        small("arithmetic-independent", "alu_independent", independent, M2Input::arithmetic(7, 9), 5, 5),
        small("mul-heavy", "mul", mul, M2Input::arithmetic(7, 9), 7, 6),
        existing("branch-false", "branch_not_taken", M3Workload::BranchTrue, M2Input::branch(8, 21), 5, M2Benchmark::M4NativeBranch),
        small("load-heavy", "load", loads, M2Input::arithmetic(7, 9), 2, 7),
        existing("store-heavy", "store", M3Workload::Memory16K, M2Input { a: 1, b: memory }, 2, M2Benchmark::M4NativeMemory16K),
        existing("mixed-arithmetic-memory", "mixed", M3Workload::Memory16K, M2Input { a: 2, b: memory }, 2, M2Benchmark::M4NativeMemory16K),
    ];
    assert(r@.map_values(|w: CostWorkload| w@) =~= cost_workloads());
    r
}

} // verus!
