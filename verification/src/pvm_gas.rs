//! The bounded basic-block gas model: instruction issue costs, charged once per basic block,
//! less a conservative overlap for instructions that do not depend on their predecessor.
use crate::opcode;
use crate::program::{PvmBlockV1, PvmTerminatorV1};
use crate::translation::{GenericInstruction, TranslationError};
use std::collections::BTreeMap;
use vstd::prelude::*;

verus! {

broadcast use vstd::seq_lib::group_seq_properties;

pub const PVM_GAS_MODEL_VERSION: &'static str = "gray-paper-0.8.0";

/// The gas of one basic block.
#[derive(Clone, Copy, Debug, PartialEq, Eq)]
pub struct PvmBasicBlockGas {
    pub start_pc: u32,
    pub instruction_count: usize,
    pub gas: u64,
}

/// The gas of a program, block by block.
#[derive(Clone, Debug, PartialEq, Eq)]
pub struct PvmGasReport {
    pub model_version: String,
    pub total_gas: u64,
    pub basic_blocks: Vec<PvmBasicBlockGas>,
}

/// Why gas could not be computed.
#[derive(Clone, Debug, PartialEq, Eq)]
pub enum PvmGasError {
    Translation(TranslationError),
    UnsupportedOpcode(u8),
    UnsupportedTerminator,
}

/// The issue cost of one generic operation.
pub open spec fn cost_of(g: GenericInstruction) -> u64 {
    match g {
        GenericInstruction::LoadImm64 { .. } => 1,
        GenericInstruction::Move { .. } => 0,
        GenericInstruction::Add32 { .. } | GenericInstruction::Sub32 { .. }
        | GenericInstruction::Xor { .. } | GenericInstruction::Add64 { .. }
        | GenericInstruction::Sub64 { .. } => 2,
        GenericInstruction::Mul32 { .. } => 4,
        GenericInstruction::Mul64 { .. } => 4,
        GenericInstruction::Load32 { .. } => 1,
        GenericInstruction::Store32 { .. } | GenericInstruction::StoreImm32 { .. } => 25,
        GenericInstruction::Branch { .. } => 20,
        GenericInstruction::Jump => 15,
        GenericInstruction::Fallthrough => 2,
        GenericInstruction::Halt => 2,
        GenericInstruction::Trap(_) => 2,
    }
}

/// The registers an operation reads.
pub open spec fn reads_of(g: GenericInstruction) -> Seq<u8> {
    match g {
        GenericInstruction::Move { source, .. } => seq![source],
        GenericInstruction::Add32 { left, .. } | GenericInstruction::Sub32 { left, .. }
        | GenericInstruction::Mul32 { left, .. } | GenericInstruction::Add64 { left, .. }
        | GenericInstruction::Sub64 { left, .. } | GenericInstruction::Mul64 { left, .. }
        | GenericInstruction::Xor { left, .. } => seq![left],
        GenericInstruction::Store32 { source, .. } => seq![source],
        GenericInstruction::Branch { left, right, .. } => seq![left, right],
        _ => Seq::empty(),
    }
}

/// The registers an operation writes.
pub open spec fn writes_of(g: GenericInstruction) -> Seq<u8> {
    match g {
        GenericInstruction::LoadImm64 { register, .. } => seq![register],
        GenericInstruction::Move { destination, .. } | GenericInstruction::Add32 {
            destination,
            ..
        } | GenericInstruction::Sub32 { destination, .. } | GenericInstruction::Mul32 {
            destination,
            ..
        } | GenericInstruction::Add64 { destination, .. } | GenericInstruction::Sub64 {
            destination,
            ..
        } | GenericInstruction::Mul64 { destination, .. } | GenericInstruction::Xor {
            destination,
            ..
        } => seq![destination],
        GenericInstruction::Load32 { destination, .. } => seq![destination],
        _ => Seq::empty(),
    }
}

/// The summed issue cost.
pub open spec fn issue_cost(gs: Seq<GenericInstruction>) -> int
    decreases gs.len(),
{
    if gs.len() == 0 {
        0
    } else {
        issue_cost(gs.drop_last()) + cost_of(gs.last())
    }
}

/// The registers written by the operation before index `j`.
pub open spec fn previous_writes(gs: Seq<GenericInstruction>, j: int) -> Seq<u8> {
    if j == 0 {
        Seq::empty()
    } else {
        writes_of(gs[j - 1])
    }
}

/// An operation that reads nothing its predecessor wrote.
pub open spec fn independent(gs: Seq<GenericInstruction>, j: int) -> bool {
    forall|k: int| 0 <= k < reads_of(gs[j]).len() ==> !previous_writes(gs, j).contains(
        #[trigger] reads_of(gs[j])[k],
    )
}

/// The number of independent operations among the first `n`.
pub open spec fn independent_count(gs: Seq<GenericInstruction>, n: int) -> int
    decreases n,
{
    if n <= 0 {
        0
    } else {
        independent_count(gs, n - 1) + if independent(gs, n - 1) {
            1int
        } else {
            0int
        }
    }
}

pub open spec fn terminator_cost(t: PvmTerminatorV1) -> Result<u64, PvmGasError> {
    match t {
        PvmTerminatorV1::Fallthrough { .. } => Ok(2),
        PvmTerminatorV1::Jump { .. } => Ok(15),
        PvmTerminatorV1::BrEqz { .. } => Ok(20),
        PvmTerminatorV1::Halt => Ok(2),
        PvmTerminatorV1::Trap(_) => Ok(2),
        PvmTerminatorV1::DJump => Err(PvmGasError::UnsupportedTerminator),
    }
}

pub open spec fn sat_sub(a: int, b: int) -> int {
    if a >= b {
        a - b
    } else {
        0
    }
}

pub open spec fn min(a: int, b: int) -> int {
    if a <= b {
        a
    } else {
        b
    }
}

pub open spec fn max(a: int, b: int) -> int {
    if a >= b {
        a
    } else {
        b
    }
}

/// The gas of a basic block with `source_len` source instructions, translated operations `gs`
/// and terminator `t`: issue and terminator cost, less the overlap (the independent operations,
/// at most the issue cost less one), and never zero for a non-empty block.
pub open spec fn block_gas_result(source_len: int, gs: Seq<GenericInstruction>, t: PvmTerminatorV1) -> Result<
    u64,
    PvmGasError,
> {
    match terminator_cost(t) {
        Err(e) => Err(e),
        Ok(tc) => {
            let issue = issue_cost(gs);
            let overlap = min(independent_count(gs, gs.len() as int), sat_sub(issue, 1));
            Ok(max(sat_sub(issue + tc, overlap), min(source_len, 1)) as u64)
        },
    }
}

pub proof fn lemma_issue_cost_bounds(gs: Seq<GenericInstruction>, n: int)
    requires
        0 <= n <= gs.len(),
    ensures
        0 <= issue_cost(gs.take(n)) <= 25 * n,
    decreases n,
{
    if n > 0 {
        assert(gs.take(n).drop_last() =~= gs.take(n - 1));
        lemma_issue_cost_bounds(gs, n - 1);
    }
}

pub proof fn lemma_independent_count_bounds(gs: Seq<GenericInstruction>, n: int)
    requires
        0 <= n,
    ensures
        0 <= independent_count(gs, n) <= n,
    decreases n,
{
    if n > 0 {
        lemma_independent_count_bounds(gs, n - 1);
    }
}

/// The issue cost of one generic operation.
pub fn instruction_cost(instruction: &GenericInstruction) -> (r: Result<u64, PvmGasError>)
    ensures
        r == Ok::<u64, PvmGasError>(cost_of(*instruction)),
{
    Ok(
        match instruction {
            GenericInstruction::LoadImm64 { .. } => 1,
            GenericInstruction::Move { .. } => 0,
            GenericInstruction::Add32 { .. } | GenericInstruction::Sub32 { .. }
            | GenericInstruction::Xor { .. } | GenericInstruction::Add64 { .. }
            | GenericInstruction::Sub64 { .. } => 2,
            GenericInstruction::Mul32 { .. } => 4,
            GenericInstruction::Mul64 { .. } => 4,
            GenericInstruction::Load32 { .. } => 1,
            GenericInstruction::Store32 { .. } | GenericInstruction::StoreImm32 { .. } => 25,
            GenericInstruction::Branch { .. } => 20,
            GenericInstruction::Jump => 15,
            GenericInstruction::Fallthrough => 2,
            GenericInstruction::Halt => 2,
            GenericInstruction::Trap(_) => 2,
        },
    )
}

/// The registers an operation reads and writes.
pub fn registers(instruction: &GenericInstruction) -> (r: (Vec<u8>, Vec<u8>))
    ensures
        r.0@ == reads_of(*instruction),
        r.1@ == writes_of(*instruction),
{
    let r = match *instruction {
        GenericInstruction::LoadImm64 { register, .. } => (Vec::new(), vec![register]),
        GenericInstruction::Move { destination, source } => (vec![source], vec![destination]),
        GenericInstruction::Add32 { destination, left, .. } | GenericInstruction::Sub32 {
            destination,
            left,
            ..
        } | GenericInstruction::Mul32 { destination, left, .. } | GenericInstruction::Add64 {
            destination,
            left,
            ..
        } | GenericInstruction::Sub64 { destination, left, .. } | GenericInstruction::Mul64 {
            destination,
            left,
            ..
        } | GenericInstruction::Xor { destination, left, .. } => (vec![left], vec![destination]),
        GenericInstruction::Load32 { destination, .. } => (Vec::new(), vec![destination]),
        GenericInstruction::Store32 { source, .. } => (vec![source], Vec::new()),
        GenericInstruction::StoreImm32 { .. } => (Vec::new(), Vec::new()),
        GenericInstruction::Branch { left, right, .. } => (vec![left, right], Vec::new()),
        GenericInstruction::Jump | GenericInstruction::Fallthrough | GenericInstruction::Halt
        | GenericInstruction::Trap(_) => (Vec::new(), Vec::new()),
    };
    assert(r.0@ =~= reads_of(*instruction));
    assert(r.1@ =~= writes_of(*instruction));
    r
}

fn contains(xs: &Vec<u8>, x: u8) -> (r: bool)
    ensures
        r == xs@.contains(x),
{
    let mut i: usize = 0;
    while i < xs.len()
        invariant
            0 <= i <= xs@.len(),
            forall|k: int| 0 <= k < i ==> xs@[k] != x,
        decreases xs@.len() - i,
    {
        if xs[i] == x {
            return true;
        }
        i = i + 1;
    }
    false
}

/// The gas of one basic block.
pub fn block_gas(source: &PvmBlockV1, instructions: &[GenericInstruction], terminator: &PvmTerminatorV1) -> (r: Result<
    u64,
    PvmGasError,
>)
    requires
        25 * instructions@.len() + 20 <= u64::MAX,
    ensures
        r == block_gas_result(source.instructions@.len() as int, instructions@, *terminator),
{
    let ghost gs = instructions@;
    let mut issue: u64 = 0;
    let mut pairs: u64 = 0;
    let mut previous: Vec<u8> = Vec::new();
    let mut i: usize = 0;
    while i < instructions.len()
        invariant
            gs == instructions@,
            0 <= i <= gs.len(),
            25 * gs.len() + 20 <= u64::MAX,
            issue == issue_cost(gs.take(i as int)),
            pairs == independent_count(gs, i as int),
            previous@ == previous_writes(gs, i as int),
        decreases gs.len() - i,
    {
        proof {
            lemma_issue_cost_bounds(gs, i as int);
            lemma_independent_count_bounds(gs, i as int);
            assert(gs.take(i + 1).drop_last() =~= gs.take(i as int));
        }
        let cost = match instruction_cost(&instructions[i]) {
            Ok(c) => c,
            Err(e) => return Err(e),
        };
        issue = issue + cost;
        let (reads, writes) = registers(&instructions[i]);
        let mut dependent = false;
        let mut k: usize = 0;
        while k < reads.len()
            invariant
                0 <= k <= reads@.len(),
                reads@ == reads_of(gs[i as int]),
                previous@ == previous_writes(gs, i as int),
                0 <= i < gs.len(),
                dependent == (exists|m: int| 0 <= m < k && previous@.contains(#[trigger] reads@[m])),
            decreases reads@.len() - k,
        {
            if contains(&previous, reads[k]) {
                dependent = true;
            }
            k = k + 1;
        }
        if !dependent {
            pairs = pairs + 1;
        }
        previous = writes;
        i = i + 1;
    }
    assert(gs.take(i as int) =~= gs);
    let terminator_cost: u64 = match terminator {
        PvmTerminatorV1::Fallthrough { .. } => 2,
        PvmTerminatorV1::Jump { .. } => 15,
        PvmTerminatorV1::BrEqz { .. } => 20,
        PvmTerminatorV1::Halt => 2,
        PvmTerminatorV1::Trap(_) => 2,
        PvmTerminatorV1::DJump => return Err(PvmGasError::UnsupportedTerminator),
    };
    proof {
        lemma_issue_cost_bounds(gs, gs.len() as int);
    }
    let bound = issue.saturating_sub(1);
    let overlap = if pairs <= bound {
        pairs
    } else {
        bound
    };
    let charged = (issue + terminator_cost).saturating_sub(overlap);
    let source_shape = source.instructions.len() as u64;
    let floor = if source_shape <= 1 {
        source_shape
    } else {
        1
    };
    Ok(
        if charged >= floor {
            charged
        } else {
            floor
        },
    )
}

/// The issue cost of each supported opcode; an opcode that is absent has no cost and must be
/// refused.
pub open spec fn known_costs() -> Map<u8, u64> {
    map![
        opcode::MOVE_REG => 0u64,
        opcode::XOR => 2u64,
        opcode::ADD_32 => 2u64,
        opcode::SUB_32 => 2u64,
        opcode::MUL_32 => 4u64,
        opcode::ADD_64 => 2u64,
        opcode::SUB_64 => 2u64,
        opcode::MUL_64 => 4u64,
        opcode::LOAD_IMM_64 => 1u64,
        opcode::LOAD_U32 => 1u64,
        opcode::STORE_U32 => 25u64,
        opcode::STORE_IMM_U32 => 25u64,
        opcode::BRANCH_EQ => 20u64,
        opcode::BRANCH_NE => 20u64,
        opcode::BRANCH_LT_U => 20u64,
        opcode::BRANCH_LT_S => 20u64,
        opcode::BRANCH_GE_U => 20u64,
        opcode::BRANCH_GE_S => 20u64
    ]
}

pub fn known_opcode_costs() -> (r: BTreeMap<u8, u64>)
    ensures
        r@ == known_costs(),
{
    let mut m: BTreeMap<u8, u64> = BTreeMap::new();
    m.insert(opcode::MOVE_REG, 0);
    m.insert(opcode::XOR, 2);
    m.insert(opcode::ADD_32, 2);
    m.insert(opcode::SUB_32, 2);
    m.insert(opcode::MUL_32, 4);
    m.insert(opcode::ADD_64, 2);
    m.insert(opcode::SUB_64, 2);
    m.insert(opcode::MUL_64, 4);
    m.insert(opcode::LOAD_IMM_64, 1);
    m.insert(opcode::LOAD_U32, 1);
    m.insert(opcode::STORE_U32, 25);
    m.insert(opcode::STORE_IMM_U32, 25);
    m.insert(opcode::BRANCH_EQ, 20);
    m.insert(opcode::BRANCH_NE, 20);
    m.insert(opcode::BRANCH_LT_U, 20);
    m.insert(opcode::BRANCH_LT_S, 20);
    m.insert(opcode::BRANCH_GE_U, 20);
    m.insert(opcode::BRANCH_GE_S, 20);
    assert(m@ =~= known_costs());
    m
}


/// A basic block is never free: a block with at least one source instruction is charged at
/// least one unit of gas, and the overlap never cancels more than the issue work.
pub proof fn lemma_block_gas_never_free(source_len: int, gs: Seq<GenericInstruction>, t: PvmTerminatorV1)
    requires
        source_len >= 1,
        25 * gs.len() + 20 <= u64::MAX,
        block_gas_result(source_len, gs, t) is Ok,
    ensures
        block_gas_result(source_len, gs, t)->Ok_0 >= 1,
        block_gas_result(source_len, gs, t)->Ok_0 >= terminator_cost(t)->Ok_0,
{
    lemma_issue_cost_bounds(gs, gs.len() as int);
    assert(gs.take(gs.len() as int) =~= gs);
    lemma_independent_count_bounds(gs, gs.len() as int);
}

/// An operation counts as independent exactly when none of the registers it reads was written
/// by the operation just before it; the first operation of a block has no predecessor and
/// always counts.
pub proof fn lemma_independent_means_no_read_of_previous_write(gs: Seq<GenericInstruction>, j: int)
    requires
        0 <= j < gs.len(),
    ensures
        j == 0 ==> independent(gs, j),
        j > 0 ==> (independent(gs, j) <==> forall|r: u8|
            reads_of(gs[j]).contains(r) ==> !writes_of(gs[j - 1]).contains(r)),
{
    if j > 0 {
        if independent(gs, j) {
            assert forall|r: u8| reads_of(gs[j]).contains(r) implies !writes_of(gs[j - 1]).contains(r) by {
                let k = choose|k: int| 0 <= k < reads_of(gs[j]).len() && reads_of(gs[j])[k] == r;
                assert(!previous_writes(gs, j).contains(reads_of(gs[j])[k]));
            }
        }
        if forall|r: u8| reads_of(gs[j]).contains(r) ==> !writes_of(gs[j - 1]).contains(r) {
            assert forall|k: int| 0 <= k < reads_of(gs[j]).len() implies !previous_writes(gs, j).contains(
                #[trigger] reads_of(gs[j])[k],
            ) by {
                assert(reads_of(gs[j]).contains(reads_of(gs[j])[k]));
            }
        }
    }
}

/// The independent operations among the first `n` are counted one by one: adding an operation
/// that reads a register the operation before it wrote leaves the count as it is, and adding
/// one that reads none adds one.
pub proof fn lemma_independent_count_step(gs: Seq<GenericInstruction>, n: int, r: u8)
    requires
        1 <= n < gs.len(),
        reads_of(gs[n]).contains(r),
        writes_of(gs[n - 1]).contains(r),
    ensures
        independent_count(gs, n + 1) == independent_count(gs, n),
{
    lemma_independent_means_no_read_of_previous_write(gs, n);
}

/// The registers the gas model counts as written are the only ones an operation changes: on
/// any register file, every register outside `writes_of(g)` keeps its value.
pub proof fn lemma_writes_cover_register_effect(regs: Seq<u64>, g: GenericInstruction, x: int)
    requires
        0 <= x < regs.len(),
        crate::translation::generic_register_effect(regs, g) is Some,
        !writes_of(g).contains(x as u8),
        x < 256,
        forall|k: int| 0 <= k < writes_of(g).len() ==> (writes_of(g)[k] as int) < regs.len(),
    ensures
        crate::translation::generic_register_effect(regs, g)->Some_0[x] == regs[x],
{
    match g {
        GenericInstruction::LoadImm64 { register, .. } => {
            assert(writes_of(g)[0] == register);
            assert(writes_of(g).contains(register));
            assert(register as int != x);
        },
        GenericInstruction::Move { destination, .. } | GenericInstruction::Add32 {
            destination,
            ..
        } | GenericInstruction::Sub32 { destination, .. } | GenericInstruction::Mul32 {
            destination,
            ..
        } | GenericInstruction::Add64 { destination, .. } | GenericInstruction::Sub64 {
            destination,
            ..
        } | GenericInstruction::Mul64 { destination, .. } | GenericInstruction::Xor {
            destination,
            ..
        } => {
            assert(writes_of(g)[0] == destination);
            assert(writes_of(g).contains(destination));
            assert(destination as int != x);
        },
        _ => {},
    }
}

/// The issue cost of a translated instruction is the cost the opcode table gives its source
/// opcode: the two tables agree on every supported instruction that translates.
pub proof fn lemma_translated_cost_matches_opcode_table(i: crate::program::InstructionModel)
    requires
        known_costs().dom().contains(i.opcode),
        crate::translation::emit_instruction_result(i) is Ok,
    ensures
        cost_of(crate::translation::emit_instruction_result(i)->Ok_0) == known_costs()[i.opcode],
{
}

/// The cost charged for a block's terminator is the issue cost of the operation it translates
/// to: the two tables agree on every terminator that translates, and the one that does not
/// (a dynamic jump) is refused by both.
pub proof fn lemma_terminator_cost_matches_translation(t: PvmTerminatorV1)
    ensures
        crate::translation::emit_terminator_result(t) is Ok <==> terminator_cost(t) is Ok,
        crate::translation::emit_terminator_result(t) is Ok ==> cost_of(
            crate::translation::emit_terminator_result(t)->Ok_0,
        ) == terminator_cost(t)->Ok_0,
{
}

/// In a two-operation block whose second operation reads a register the first one wrote, only
/// the first operation counts as independent; when it reads none, both do.
pub proof fn lemma_two_operation_independence(gs: Seq<GenericInstruction>)
    requires
        gs.len() == 2,
    ensures
        (exists|r: u8| reads_of(gs[1]).contains(r) && writes_of(gs[0]).contains(r)) ==> independent_count(
            gs,
            2,
        ) == 1,
        !(exists|r: u8| reads_of(gs[1]).contains(r) && writes_of(gs[0]).contains(r)) ==> independent_count(
            gs,
            2,
        ) == 2,
{
    lemma_independent_means_no_read_of_previous_write(gs, 0);
    lemma_independent_means_no_read_of_previous_write(gs, 1);
    assert(independent_count(gs, 1) == 1) by {
        assert(independent_count(gs, 0) == 0);
    }
}

} // verus!
