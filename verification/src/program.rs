//! The normalized PVM program interchange format and its admission rules.
use crate::codec::CodecError;
use vstd::bytes::*;
use vstd::prelude::*;

verus! {

broadcast use vstd::seq_lib::group_seq_properties;

pub const PVM_PROGRAM_FORMAT_V1: u16 = 1;

pub const PVM_REGISTER_COUNT: usize = 13;

/// A host call or execution feature outside ZkRefine Profile v1.
#[derive(Clone, Copy, Debug, PartialEq, Eq, Structural)]
pub enum UnsupportedFeature {
    GasHostCall,
    InnerPvm,
    UnsupportedHostCall(u32),
}

/// The fixed ZkRefine Profile v1 host-call admission policy: only FETCH (1) and EXPORT (7)
/// are admitted; GAS, the inner-PVM calls and every other call, historical lookup (6)
/// included, are refused.
pub open spec fn host_call_policy(id: u32) -> Result<(), UnsupportedFeature> {
    if id == 0 {
        Err(UnsupportedFeature::GasHostCall)
    } else if id == 1 || id == 7 {
        Ok(())
    } else if 8 <= id <= 13 {
        Err(UnsupportedFeature::InnerPvm)
    } else {
        Err(UnsupportedFeature::UnsupportedHostCall(id))
    }
}

/// Check the fixed ZkRefine Profile v1 host-call admission policy.
pub fn check_host_call(id: u32) -> (r: Result<(), UnsupportedFeature>)
    ensures
        r == host_call_policy(id),
{
    if id == 0 {
        Err(UnsupportedFeature::GasHostCall)
    } else if id == 1 || id == 7 {
        Ok(())
    } else if 8 <= id && id <= 13 {
        Err(UnsupportedFeature::InnerPvm)
    } else {
        Err(UnsupportedFeature::UnsupportedHostCall(id))
    }
}

#[derive(Clone, Copy, Debug, PartialEq, Eq, Structural)]
pub struct RegisterOperandsV1 {
    pub rd: u8,
    pub ra: u8,
    pub rb: u8,
}

impl Default for RegisterOperandsV1 {
    fn default() -> (r: Self)
        ensures
            r == (RegisterOperandsV1 { rd: 0, ra: 0, rb: 0 }),
    {
        RegisterOperandsV1 { rd: 0, ra: 0, rb: 0 }
    }
}

#[derive(Clone, Debug, PartialEq, Eq)]
pub struct PvmInstructionV1 {
    pub pc: u32,
    pub opcode: u8,
    pub registers: RegisterOperandsV1,
    pub immediate: Vec<u8>,
    pub pc_delta: u8,
}

/// The mathematical value of a `PvmInstructionV1`.
pub struct InstructionModel {
    pub pc: u32,
    pub opcode: u8,
    pub registers: RegisterOperandsV1,
    pub immediate: Seq<u8>,
    pub pc_delta: u8,
}

impl View for PvmInstructionV1 {
    type V = InstructionModel;

    open spec fn view(&self) -> InstructionModel {
        InstructionModel {
            pc: self.pc,
            opcode: self.opcode,
            registers: self.registers,
            immediate: self.immediate@,
            pc_delta: self.pc_delta,
        }
    }
}

impl DeepView for PvmInstructionV1 {
    type V = InstructionModel;

    open spec fn deep_view(&self) -> InstructionModel {
        self@
    }
}

/// The host call named by an `ECALLI` (opcode 10) with a 32-bit immediate.
pub open spec fn host_call_of(i: InstructionModel) -> Option<u32> {
    if i.opcode == 10 && i.immediate.len() >= 4 {
        Some(spec_u32_from_le_bytes(i.immediate.subrange(0, 4)))
    } else {
        None
    }
}

impl PvmInstructionV1 {
    pub fn host_call_id(&self) -> (r: Option<u32>)
        ensures
            r == host_call_of(self@),
    {
        if self.opcode == 10 && self.immediate.len() >= 4 {
            let head = vstd::slice::slice_subrange(self.immediate.as_slice(), 0, 4);
            Some(u32_from_le_bytes(head))
        } else {
            None
        }
    }

    /// A copy with the same value.
    pub fn duplicate(&self) -> (r: Self)
        ensures
            r@ == self@,
    {
        PvmInstructionV1 {
            pc: self.pc,
            opcode: self.opcode,
            registers: self.registers,
            immediate: copy_bytes(&self.immediate),
            pc_delta: self.pc_delta,
        }
    }
}

/// A fresh vector with the same bytes.
pub fn copy_bytes(v: &Vec<u8>) -> (r: Vec<u8>)
    ensures
        r@ == v@,
{
    let mut out: Vec<u8> = Vec::new();
    let mut i: usize = 0;
    while i < v.len()
        invariant
            0 <= i <= v@.len(),
            out@ == v@.subrange(0, i as int),
        decreases v@.len() - i,
    {
        out.push(v[i]);
        i = i + 1;
        assert(out@ =~= v@.subrange(0, i as int));
    }
    assert(v@.subrange(0, v@.len() as int) =~= v@);
    out
}

#[derive(Clone, Copy, Debug, PartialEq, Eq, Structural)]
pub enum PvmTerminatorV1 {
    Fallthrough { next_pc: u32, next: Option<u32> },
    BrEqz { true_pc: u32, false_pc: Option<u32>, true_block: Option<u32>, false_block: Option<u32> },
    Jump { target_pc: u32, target: Option<u32> },
    DJump,
    Halt,
    Trap(u32),
}

#[derive(Clone, Debug, PartialEq, Eq)]
pub struct PvmBlockV1 {
    pub entry_pc: u32,
    pub instructions: Vec<PvmInstructionV1>,
    pub terminator: PvmTerminatorV1,
}

/// The mathematical value of a `PvmBlockV1`.
pub struct BlockModel {
    pub entry_pc: u32,
    pub instructions: Seq<InstructionModel>,
    pub terminator: PvmTerminatorV1,
}

impl View for PvmBlockV1 {
    type V = BlockModel;

    open spec fn view(&self) -> BlockModel {
        BlockModel {
            entry_pc: self.entry_pc,
            instructions: self.instructions@.map_values(|i: PvmInstructionV1| i@),
            terminator: self.terminator,
        }
    }
}

impl DeepView for PvmBlockV1 {
    type V = BlockModel;

    open spec fn deep_view(&self) -> BlockModel {
        self@
    }
}

#[derive(Clone, Debug, PartialEq, Eq)]
pub struct PvmProgramV1 {
    pub format_version: u16,
    pub code_hash: [u8; 32],
    pub o_blob: Vec<u8>,
    pub w_blob: Vec<u8>,
    pub z_pages: u16,
    pub s_bytes: u32,
    pub blocks: Vec<PvmBlockV1>,
    pub jump_table: Vec<u32>,
    pub c_blob: Vec<u8>,
}

/// The mathematical value of a `PvmProgramV1`.
pub struct ProgramModel {
    pub format_version: u16,
    pub code_hash: Seq<u8>,
    pub o_blob: Seq<u8>,
    pub w_blob: Seq<u8>,
    pub z_pages: u16,
    pub s_bytes: u32,
    pub blocks: Seq<BlockModel>,
    pub jump_table: Seq<u32>,
    pub c_blob: Seq<u8>,
}

impl View for PvmProgramV1 {
    type V = ProgramModel;

    open spec fn view(&self) -> ProgramModel {
        ProgramModel {
            format_version: self.format_version,
            code_hash: self.code_hash@,
            o_blob: self.o_blob@,
            w_blob: self.w_blob@,
            z_pages: self.z_pages,
            s_bytes: self.s_bytes,
            blocks: self.blocks@.map_values(|b: PvmBlockV1| b@),
            jump_table: self.jump_table@,
            c_blob: self.c_blob@,
        }
    }
}

// ---------------------------------------------------------------------------------------------
// Admission rules
// ---------------------------------------------------------------------------------------------
/// The number of instructions over all blocks.
pub open spec fn total_instructions(blocks: Seq<BlockModel>) -> int
    decreases blocks.len(),
{
    if blocks.len() == 0 {
        0
    } else {
        total_instructions(blocks.drop_last()) + blocks.last().instructions.len()
    }
}

/// The first error that `check` reports over `xs`, in order.
pub open spec fn first_error<T>(check: spec_fn(T) -> Result<(), CodecError>, xs: Seq<T>) -> Result<
    (),
    CodecError,
>
    decreases xs.len(),
{
    if xs.len() == 0 {
        Ok(())
    } else {
        match check(xs[0]) {
            Err(e) => Err(e),
            Ok(_) => first_error(check, xs.drop_first()),
        }
    }
}

pub open spec fn register_in_range(r: u8) -> bool {
    (r as int) < PVM_REGISTER_COUNT as int
}

pub open spec fn instruction_admission(i: InstructionModel) -> Result<(), CodecError> {
    if !register_in_range(i.registers.rd) || !register_in_range(i.registers.ra) || !register_in_range(
        i.registers.rb,
    ) {
        Err(CodecError::InvalidValue("PVM register index out of range"))
    } else {
        match host_call_of(i) {
            Some(id) => match host_call_policy(id) {
                Ok(_) => Ok(()),
                Err(UnsupportedFeature::GasHostCall) => Err(
                    CodecError::InvalidValue("GAS host call is forbidden"),
                ),
                Err(UnsupportedFeature::InnerPvm) => Err(
                    CodecError::InvalidValue("Inner PVM host call is forbidden"),
                ),
                Err(UnsupportedFeature::UnsupportedHostCall(_)) => Err(
                    CodecError::InvalidValue("unsupported host call"),
                ),
            },
            None => Ok(()),
        }
    }
}

pub open spec fn instruction_admission_fn() -> spec_fn(InstructionModel) -> Result<(), CodecError> {
    |i: InstructionModel| instruction_admission(i)
}

pub open spec fn block_admission(b: BlockModel) -> Result<(), CodecError> {
    if b.instructions.len() == 0 {
        Err(CodecError::InvalidValue("PVM blocks may not be empty"))
    } else {
        first_error(instruction_admission_fn(), b.instructions)
    }
}

pub open spec fn block_admission_fn() -> spec_fn(BlockModel) -> Result<(), CodecError> {
    |b: BlockModel| block_admission(b)
}

/// The outcome of `PvmProgramV1::validate`: the first rule, in program order, that fails.
pub open spec fn program_admission(p: ProgramModel) -> Result<(), CodecError> {
    if p.format_version != PVM_PROGRAM_FORMAT_V1 {
        Err(CodecError::InvalidValue("unsupported PvmProgramV1 version"))
    } else if p.blocks.len() == 0 {
        Err(CodecError::InvalidValue("program must contain a block"))
    } else {
        first_error(block_admission_fn(), p.blocks)
    }
}

pub proof fn lemma_first_error_step<T>(check: spec_fn(T) -> Result<(), CodecError>, xs: Seq<T>, i: int)
    requires
        0 <= i < xs.len(),
    ensures
        first_error(check, xs.skip(i)) == match check(xs[i]) {
            Err(e) => Err(e),
            Ok(_) => first_error(check, xs.skip(i + 1)),
        },
{
    assert(xs.skip(i).drop_first() =~= xs.skip(i + 1));
}

fn instruction_admission_exec(instruction: &PvmInstructionV1) -> (r: Result<(), CodecError>)
    ensures
        r == instruction_admission(instruction@),
{
    let regs = instruction.registers;
    if regs.rd as usize >= PVM_REGISTER_COUNT || regs.ra as usize >= PVM_REGISTER_COUNT
        || regs.rb as usize >= PVM_REGISTER_COUNT {
        return Err(CodecError::InvalidValue("PVM register index out of range"));
    }
    match instruction.host_call_id() {
        Some(id) => match check_host_call(id) {
            Ok(()) => Ok(()),
            Err(UnsupportedFeature::GasHostCall) => Err(
                CodecError::InvalidValue("GAS host call is forbidden"),
            ),
            Err(UnsupportedFeature::InnerPvm) => Err(
                CodecError::InvalidValue("Inner PVM host call is forbidden"),
            ),
            Err(UnsupportedFeature::UnsupportedHostCall(_)) => Err(
                CodecError::InvalidValue("unsupported host call"),
            ),
        },
        None => Ok(()),
    }
}

fn block_admission_exec(block: &PvmBlockV1) -> (r: Result<(), CodecError>)
    ensures
        r == block_admission(block@),
{
    if block.instructions.len() == 0 {
        return Err(CodecError::InvalidValue("PVM blocks may not be empty"));
    }
    let ghost xs = block@.instructions;
    let mut i: usize = 0;
    while i < block.instructions.len()
        invariant
            0 <= i <= block.instructions@.len(),
            xs == block@.instructions,
            xs.len() == block.instructions@.len(),
            first_error(instruction_admission_fn(), xs) == first_error(
                instruction_admission_fn(),
                xs.skip(i as int),
            ),
        decreases block.instructions@.len() - i,
    {
        proof {
            lemma_first_error_step(instruction_admission_fn(), xs, i as int);
        }
        let r = instruction_admission_exec(&block.instructions[i]);
        assert(xs[i as int] == block.instructions@[i as int]@);
        if r.is_err() {
            return r;
        }
        i = i + 1;
    }
    assert(xs.skip(i as int) =~= Seq::<InstructionModel>::empty());
    Ok(())
}

impl PvmProgramV1 {
    pub fn instruction_count(&self) -> (n: usize)
        requires
            total_instructions(self@.blocks) <= usize::MAX,
        ensures
            n == total_instructions(self@.blocks),
    {
        let ghost bs = self@.blocks;
        let mut total: usize = 0;
        let mut i: usize = 0;
        while i < self.blocks.len()
            invariant
                0 <= i <= self.blocks@.len(),
                bs == self@.blocks,
                bs.len() == self.blocks@.len(),
                total == total_instructions(bs.take(i as int)),
                total_instructions(bs) <= usize::MAX,
            decreases self.blocks@.len() - i,
        {
            assert(bs.take(i + 1).drop_last() =~= bs.take(i as int));
            proof {
                lemma_total_instructions_prefix(bs, i + 1);
            }
            total = total + self.blocks[i].instructions.len();
            i = i + 1;
        }
        assert(bs.take(i as int) =~= bs);
        total
    }

    /// Checks the format version, that the program and its blocks are non-empty, the register
    /// indices, and the host-call admission policy, reporting the first failure in order.
    pub fn validate(&self) -> (r: Result<(), CodecError>)
        ensures
            r == program_admission(self@),
    {
        if self.format_version != PVM_PROGRAM_FORMAT_V1 {
            return Err(CodecError::InvalidValue("unsupported PvmProgramV1 version"));
        }
        if self.blocks.len() == 0 {
            return Err(CodecError::InvalidValue("program must contain a block"));
        }
        let ghost xs = self@.blocks;
        let mut i: usize = 0;
        while i < self.blocks.len()
            invariant
                0 <= i <= self.blocks@.len(),
                xs == self@.blocks,
                xs.len() == self.blocks@.len(),
                self.format_version == PVM_PROGRAM_FORMAT_V1,
                xs.len() > 0,
                first_error(block_admission_fn(), xs) == first_error(
                    block_admission_fn(),
                    xs.skip(i as int),
                ),
            decreases self.blocks@.len() - i,
        {
            proof {
                lemma_first_error_step(block_admission_fn(), xs, i as int);
            }
            let r = block_admission_exec(&self.blocks[i]);
            assert(xs[i as int] == self.blocks@[i as int]@);
            if r.is_err() {
                return r;
            }
            i = i + 1;
        }
        assert(xs.skip(i as int) =~= Seq::<BlockModel>::empty());
        Ok(())
    }
}

/// A first-error scan passes exactly when the check accepts every item.
pub proof fn lemma_first_error_ok_iff<T>(check: spec_fn(T) -> Result<(), CodecError>, xs: Seq<T>)
    ensures
        first_error(check, xs) is Ok <==> forall|i: int| 0 <= i < xs.len() ==> #[trigger] check(
            xs[i],
        ) is Ok,
    decreases xs.len(),
{
    if xs.len() > 0 {
        lemma_first_error_ok_iff(check, xs.drop_first());
        if forall|i: int| 0 <= i < xs.len() ==> #[trigger] check(xs[i]) is Ok {
            assert(check(xs[0]) is Ok);
            assert forall|i: int| 0 <= i < xs.drop_first().len() implies #[trigger] check(
                xs.drop_first()[i],
            ) is Ok by {
                assert(xs.drop_first()[i] == xs[i + 1]);
            }
        }
        if first_error(check, xs) is Ok {
            assert forall|i: int| 0 <= i < xs.len() implies #[trigger] check(xs[i]) is Ok by {
                if i > 0 {
                    assert(xs[i] == xs.drop_first()[i - 1]);
                }
            }
        }
    }
}

/// What admission asks of one instruction: register indices below 13, and a host call, where
/// it makes one, that is FETCH (1) or EXPORT (7).
pub open spec fn instruction_admissible(i: InstructionModel) -> bool {
    &&& register_in_range(i.registers.rd)
    &&& register_in_range(i.registers.ra)
    &&& register_in_range(i.registers.rb)
    &&& (host_call_of(i) matches Some(id) ==> id == 1 || id == 7)
}

/// What admission asks of a whole program, stated without the order of the checks.
pub open spec fn program_admissible(p: ProgramModel) -> bool {
    &&& p.format_version == PVM_PROGRAM_FORMAT_V1
    &&& p.blocks.len() > 0
    &&& forall|k: int| 0 <= k < p.blocks.len() ==> (#[trigger] p.blocks[k]).instructions.len() > 0
    &&& forall|k: int, j: int|
        0 <= k < p.blocks.len() && 0 <= j < p.blocks[k].instructions.len() ==> instruction_admissible(
            #[trigger] p.blocks[k].instructions[j],
        )
}

/// Program admission accepts a program exactly when it has format version 1, at least one
/// block, no empty block, every register index below 13, and only FETCH and EXPORT host calls;
/// the jump table, the terminators, the pcs and the blobs are not looked at.
pub proof fn lemma_program_admission_iff(p: ProgramModel)
    ensures
        program_admission(p) is Ok <==> program_admissible(p),
{
    lemma_first_error_ok_iff(block_admission_fn(), p.blocks);
    assert forall|k: int| 0 <= k < p.blocks.len() implies (block_admission_fn()(p.blocks[k]) is Ok
        <==> (p.blocks[k].instructions.len() > 0 && forall|j: int|
        0 <= j < p.blocks[k].instructions.len() ==> instruction_admissible(
            #[trigger] p.blocks[k].instructions[j],
        ))) by {
        let b = p.blocks[k];
        lemma_first_error_ok_iff(instruction_admission_fn(), b.instructions);
        assert forall|j: int| 0 <= j < b.instructions.len() implies (instruction_admission_fn()(
            b.instructions[j],
        ) is Ok <==> instruction_admissible(#[trigger] b.instructions[j])) by {
            assert(instruction_admission_fn()(b.instructions[j]) == instruction_admission(
                b.instructions[j],
            ));
        }
    }
    if program_admission(p) is Ok {
        assert forall|k: int| 0 <= k < p.blocks.len() implies (#[trigger] p.blocks[k]).instructions.len()
            > 0 by {
            assert(block_admission_fn()(p.blocks[k]) is Ok);
        }
        assert forall|k: int, j: int|
            0 <= k < p.blocks.len() && 0 <= j < p.blocks[k].instructions.len() implies instruction_admissible(
            #[trigger] p.blocks[k].instructions[j],
        ) by {
            assert(block_admission_fn()(p.blocks[k]) is Ok);
        }
    }
    if program_admissible(p) {
        assert forall|k: int| 0 <= k < p.blocks.len() implies #[trigger] block_admission_fn()(
            p.blocks[k],
        ) is Ok by {
            assert(p.blocks[k].instructions.len() > 0);
            assert forall|j: int| 0 <= j < p.blocks[k].instructions.len() implies instruction_admissible(
                #[trigger] p.blocks[k].instructions[j],
            ) by {}
        }
    }
}

/// Prefix sums of instruction counts never exceed the whole.
pub proof fn lemma_total_instructions_prefix(bs: Seq<BlockModel>, k: int)
    requires
        0 <= k <= bs.len(),
    ensures
        0 <= total_instructions(bs.take(k)) <= total_instructions(bs),
    decreases bs.len(),
{
    if bs.len() > 0 {
        if k == bs.len() {
            assert(bs.take(k) =~= bs);
            lemma_total_instructions_nonneg(bs);
        } else {
            assert(bs.drop_last().take(k) =~= bs.take(k));
            lemma_total_instructions_prefix(bs.drop_last(), k);
        }
    }
}

pub proof fn lemma_total_instructions_nonneg(bs: Seq<BlockModel>)
    ensures
        total_instructions(bs) >= 0,
    decreases bs.len(),
{
    if bs.len() > 0 {
        lemma_total_instructions_nonneg(bs.drop_last());
    }
}

} // verus!
