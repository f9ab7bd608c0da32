//! The M4 benchmark programs and the inputs each is run on.
use crate::openvm_values::M2Benchmark;
use crate::translation::M3Workload;
use vstd::prelude::*;
use vstd::string::StrSliceExecFns;

verus! {

/// The three M4 benchmark programs.
#[derive(Clone, Copy, Debug, PartialEq, Eq, Structural)]
pub enum M4ProgramId {
    Arithmetic,
    Branch,
    Memory16K,
}

impl M4ProgramId {
    /// Every program, in order.
    pub fn all() -> (r: [M4ProgramId; 3])
        ensures
            r@ == seq![M4ProgramId::Arithmetic, M4ProgramId::Branch, M4ProgramId::Memory16K],
    {
        let r = [M4ProgramId::Arithmetic, M4ProgramId::Branch, M4ProgramId::Memory16K];
        assert(r@ =~= seq![M4ProgramId::Arithmetic, M4ProgramId::Branch, M4ProgramId::Memory16K]);
        r
    }

    pub fn name(self) -> (r: &'static str)
        ensures
            r@ == match self {
                M4ProgramId::Arithmetic => "arithmetic"@,
                M4ProgramId::Branch => "branch"@,
                M4ProgramId::Memory16K => "memory"@,
            },
    {
        match self {
            M4ProgramId::Arithmetic => "arithmetic",
            M4ProgramId::Branch => "branch",
            M4ProgramId::Memory16K => "memory",
        }
    }

    /// The translated workload the program runs.
    pub fn workload(self) -> (r: M3Workload)
        ensures
            r == match self {
                M4ProgramId::Arithmetic => M3Workload::Arithmetic,
                M4ProgramId::Branch => M3Workload::BranchTrue,
                M4ProgramId::Memory16K => M3Workload::Memory16K,
            },
    {
        match self {
            M4ProgramId::Arithmetic => M3Workload::Arithmetic,
            M4ProgramId::Branch => M3Workload::BranchTrue,
            M4ProgramId::Memory16K => M3Workload::Memory16K,
        }
    }

    /// The register that holds the program's result.
    pub fn output_register(self) -> (r: u8)
        ensures
            r == match self {
                M4ProgramId::Arithmetic => 7u8,
                M4ProgramId::Branch => 5u8,
                M4ProgramId::Memory16K => 2u8,
            },
    {
        match self {
            M4ProgramId::Arithmetic => 7,
            M4ProgramId::Branch => 5,
            M4ProgramId::Memory16K => 2,
        }
    }

    /// The generated-guest benchmark of the program.
    pub fn benchmark(self) -> (r: M2Benchmark)
        ensures
            r == match self {
                M4ProgramId::Arithmetic => M2Benchmark::M4GeneratedArithmetic,
                M4ProgramId::Branch => M2Benchmark::M4GeneratedBranch,
                M4ProgramId::Memory16K => M2Benchmark::M4GeneratedMemory16K,
            },
    {
        match self {
            M4ProgramId::Arithmetic => M2Benchmark::M4GeneratedArithmetic,
            M4ProgramId::Branch => M2Benchmark::M4GeneratedBranch,
            M4ProgramId::Memory16K => M2Benchmark::M4GeneratedMemory16K,
        }
    }

    /// The native-lowering benchmark of the program.
    pub fn native_benchmark(self) -> (r: M2Benchmark)
        ensures
            r == match self {
                M4ProgramId::Arithmetic => M2Benchmark::M4NativeArithmetic,
                M4ProgramId::Branch => M2Benchmark::M4NativeBranch,
                M4ProgramId::Memory16K => M2Benchmark::M4NativeMemory16K,
            },
    {
        match self {
            M4ProgramId::Arithmetic => M2Benchmark::M4NativeArithmetic,
            M4ProgramId::Branch => M2Benchmark::M4NativeBranch,
            M4ProgramId::Memory16K => M2Benchmark::M4NativeMemory16K,
        }
    }
}

/// One benchmark case: a program and its two input words.
#[derive(Clone, Copy, Debug, PartialEq, Eq)]
pub struct M4CaseSpec {
    pub name: &'static str,
    pub program: M4ProgramId,
    pub input: [u32; 2],
}

/// A program and its cases.
#[derive(Clone, Debug)]
pub struct M4ProgramSpec {
    pub id: M4ProgramId,
    pub cases: Vec<M4CaseSpec>,
}

/// The mathematical value of a case: name, program and inputs.
pub open spec fn case_model(c: M4CaseSpec) -> (Seq<char>, M4ProgramId, Seq<u32>) {
    (c.name@, c.program, c.input@)
}

/// The cases, in order.
pub open spec fn case_table() -> Seq<(Seq<char>, M4ProgramId, Seq<u32>)> {
    seq![
        ("arithmetic-input-a"@, M4ProgramId::Arithmetic, seq![7u32, 9]),
        ("arithmetic-input-b"@, M4ProgramId::Arithmetic, seq![10u32, 20]),
        ("branch-true"@, M4ProgramId::Branch, seq![21u32, 8]),
        ("branch-false"@, M4ProgramId::Branch, seq![8u32, 21]),
        ("branch-equal"@, M4ProgramId::Branch, seq![8u32, 8]),
        ("memory-16KiB"@, M4ProgramId::Memory16K, seq![0x1234_5678u32, 16384]),
    ]
}

fn case(name: &'static str, program: M4ProgramId, a: u32, b: u32) -> (r: M4CaseSpec)
    ensures
        case_model(r) == (name@, program, seq![a, b]),
{
    let r = M4CaseSpec { name, program, input: [a, b] };
    assert(r.input@ =~= seq![a, b]);
    r
}

/// The programs with their cases: two arithmetic cases, three branch cases (taken, not taken,
/// equal) and one memory case.
pub fn m4_program_specs() -> (r: Vec<M4ProgramSpec>)
    ensures
        r@.len() == 3,
        r@[0].id == M4ProgramId::Arithmetic,
        r@[1].id == M4ProgramId::Branch,
        r@[2].id == M4ProgramId::Memory16K,
        r@[0].cases@.map_values(|c: M4CaseSpec| case_model(c)) == case_table().subrange(0, 2),
        r@[1].cases@.map_values(|c: M4CaseSpec| case_model(c)) == case_table().subrange(2, 5),
        r@[2].cases@.map_values(|c: M4CaseSpec| case_model(c)) == case_table().subrange(5, 6),
{
    let arithmetic = vec![
        case("arithmetic-input-a", M4ProgramId::Arithmetic, 7, 9),
        case("arithmetic-input-b", M4ProgramId::Arithmetic, 10, 20),
    ];
    let branch = vec![
        case("branch-true", M4ProgramId::Branch, 21, 8),
        case("branch-false", M4ProgramId::Branch, 8, 21),
        case("branch-equal", M4ProgramId::Branch, 8, 8),
    ];
    let memory = vec![case("memory-16KiB", M4ProgramId::Memory16K, 0x1234_5678, 16 * 1024)];
    assert(arithmetic@.map_values(|c: M4CaseSpec| case_model(c)) =~= case_table().subrange(0, 2));
    assert(branch@.map_values(|c: M4CaseSpec| case_model(c)) =~= case_table().subrange(2, 5));
    assert(memory@.map_values(|c: M4CaseSpec| case_model(c)) =~= case_table().subrange(5, 6));
    vec![
        M4ProgramSpec { id: M4ProgramId::Arithmetic, cases: arithmetic },
        M4ProgramSpec { id: M4ProgramId::Branch, cases: branch },
        M4ProgramSpec { id: M4ProgramId::Memory16K, cases: memory },
    ]
}

/// Every case of every program, in program order.
pub fn m4_case_specs() -> (r: Vec<M4CaseSpec>)
    ensures
        r@.map_values(|c: M4CaseSpec| case_model(c)) == case_table(),
{
    let programs = m4_program_specs();
    let mut out: Vec<M4CaseSpec> = Vec::new();
    let mut i: usize = 0;
    while i < programs.len()
        invariant
            programs@.len() == 3,
            programs@[0].cases@.map_values(|c: M4CaseSpec| case_model(c)) == case_table().subrange(0, 2),
            programs@[1].cases@.map_values(|c: M4CaseSpec| case_model(c)) == case_table().subrange(2, 5),
            programs@[2].cases@.map_values(|c: M4CaseSpec| case_model(c)) == case_table().subrange(5, 6),
            0 <= i <= 3,
            out@.map_values(|c: M4CaseSpec| case_model(c)) == case_table().subrange(
                0,
                if i == 0 {
                    0
                } else if i == 1 {
                    2
                } else if i == 2 {
                    5
                } else {
                    6
                },
            ),
        decreases 3 - i,
    {
        let cases = &programs[i].cases;
        let ghost start = out@.map_values(|c: M4CaseSpec| case_model(c));
        let mut j: usize = 0;
        while j < cases.len()
            invariant
                0 <= j <= cases@.len(),
                out@.map_values(|c: M4CaseSpec| case_model(c)) == start + cases@.take(j as int).map_values(
                    |c: M4CaseSpec| case_model(c),
                ),
            decreases cases@.len() - j,
        {
            let ghost before = out@.map_values(|c: M4CaseSpec| case_model(c));
            out.push(cases[j]);
            assert(out@.map_values(|c: M4CaseSpec| case_model(c)) =~= before.push(case_model(cases@[j as int])));
            assert(cases@.take(j + 1) =~= cases@.take(j as int).push(cases@[j as int]));
            assert(cases@.take(j + 1).map_values(|c: M4CaseSpec| case_model(c)) =~= cases@.take(j as int).map_values(
                |c: M4CaseSpec| case_model(c),
            ).push(case_model(cases@[j as int])));
            assert(out@.map_values(|c: M4CaseSpec| case_model(c)) =~= start + cases@.take(j + 1).map_values(
                |c: M4CaseSpec| case_model(c),
            ));
            j = j + 1;
        }
        assert(cases@.take(j as int) =~= cases@);
        assert(case_table().subrange(0, 0) =~= Seq::<(Seq<char>, M4ProgramId, Seq<u32>)>::empty());
        assert(case_table().subrange(0, 2) + case_table().subrange(2, 5) =~= case_table().subrange(0, 5));
        assert(case_table().subrange(0, 5) + case_table().subrange(5, 6) =~= case_table().subrange(0, 6));
        assert(Seq::<(Seq<char>, M4ProgramId, Seq<u32>)>::empty() + case_table().subrange(0, 2)
            =~= case_table().subrange(0, 2));
        i = i + 1;
    }
    assert(case_table().subrange(0, 6) =~= case_table());
    out
}

/// The number of benchmark cases.
pub fn m4_case_count() -> (r: usize)
    ensures
        r == case_table().len(),
{
    let cases = m4_case_specs();
    cases.len()
}


/// The input each program is measured on.
pub open spec fn representative(id: M4ProgramId) -> Seq<u32> {
    match id {
        M4ProgramId::Arithmetic => seq![7u32, 9],
        M4ProgramId::Branch => seq![21u32, 8],
        M4ProgramId::Memory16K => seq![0x1234_5678u32, 16384],
    }
}

pub fn representative_input(workload: M4ProgramId) -> (r: [u32; 2])
    ensures
        r@ == representative(workload),
{
    let r = match workload {
        M4ProgramId::Arithmetic => [7, 9],
        M4ProgramId::Branch => [21, 8],
        M4ProgramId::Memory16K => [0x1234_5678, 16 * 1024],
    };
    assert(r@ =~= representative(workload));
    r
}

/// Every program with its representative input, in order.
pub fn representative_workloads() -> (r: [(M4ProgramId, [u32; 2]); 3])
    ensures
        r@[0].0 == M4ProgramId::Arithmetic && r@[0].1@ == representative(M4ProgramId::Arithmetic),
        r@[1].0 == M4ProgramId::Branch && r@[1].1@ == representative(M4ProgramId::Branch),
        r@[2].0 == M4ProgramId::Memory16K && r@[2].1@ == representative(M4ProgramId::Memory16K),
{
    [
        (M4ProgramId::Arithmetic, representative_input(M4ProgramId::Arithmetic)),
        (M4ProgramId::Branch, representative_input(M4ProgramId::Branch)),
        (M4ProgramId::Memory16K, representative_input(M4ProgramId::Memory16K)),
    ]
}

/// The published name of a workload.
pub fn public_name(workload: M4ProgramId) -> (r: &'static str)
    ensures
        r@ == match workload {
            M4ProgramId::Arithmetic => "arithmetic"@,
            M4ProgramId::Branch => "branch"@,
            M4ProgramId::Memory16K => "memory-16k"@,
        },
{
    match workload {
        M4ProgramId::Arithmetic => "arithmetic",
        M4ProgramId::Branch => "branch",
        M4ProgramId::Memory16K => "memory-16k",
    }
}

/// Why a workload name was refused.
#[derive(Clone, Copy, Debug, PartialEq, Eq, Structural)]
pub enum WorkloadNameError {
    UnknownWorkload,
}

pub(crate) fn same_text(a: &str, b: &str) -> (r: bool)
    ensures
        r == (a@ == b@),
{
    let n = a.unicode_len();
    if n != b.unicode_len() {
        return false;
    }
    let mut i: usize = 0;
    while i < n
        invariant
            n == a@.len(),
            n == b@.len(),
            0 <= i <= n,
            forall|k: int| 0 <= k < i ==> a@[k] == b@[k],
        decreases n - i,
    {
        if a.get_char(i) != b.get_char(i) {
            return false;
        }
        i = i + 1;
    }
    assert(a@ =~= b@);
    true
}

/// The workload a name denotes.
pub open spec fn workload_named(name: Seq<char>) -> Result<M4ProgramId, WorkloadNameError> {
    if name == "arithmetic"@ {
        Ok(M4ProgramId::Arithmetic)
    } else if name == "branch"@ {
        Ok(M4ProgramId::Branch)
    } else if name == "memory"@ || name == "memory-16k"@ || name == "memory-16384"@ {
        Ok(M4ProgramId::Memory16K)
    } else {
        Err(WorkloadNameError::UnknownWorkload)
    }
}

/// Parses a workload name, accepting the memory workload under all three of its names.
pub fn parse_workload(name: &str) -> (r: Result<M4ProgramId, WorkloadNameError>)
    ensures
        r == workload_named(name@),
{
    if same_text(name, "arithmetic") {
        Ok(M4ProgramId::Arithmetic)
    } else if same_text(name, "branch") {
        Ok(M4ProgramId::Branch)
    } else if same_text(name, "memory") || same_text(name, "memory-16k") || same_text(
        name,
        "memory-16384",
    ) {
        Ok(M4ProgramId::Memory16K)
    } else {
        Err(WorkloadNameError::UnknownWorkload)
    }
}

} // verus!
