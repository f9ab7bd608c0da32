//! The M4 benchmark reports: the execute-only preflight, the per-program proof partials and the
//! aggregated benchmark report, with the consistency rules that each must satisfy and the
//! aggregation of partials into the final report.
use crate::m4_specs::{case_model, case_table, m4_case_count, m4_program_specs, M4CaseSpec};
use crate::codec::le32;
use crate::openvm_values::{
    same32, M4PublicValuesV1, PublicValuesModel, M4_SEMANTIC_PUBLIC_VALUES_LEN,
    OPENVM_PINNED_GUEST_TOOLCHAIN, OPENVM_REVISION, OPENVM_VERSION,
};
use crate::m4_specs::same_text;
use crate::text::{lemma_text_lt_total, text_is, text_less, text_lt};
use crate::translation::TRANSLATION_VERSION;
use vstd::prelude::*;
use vstd::string::StringSliceAdditionalSpecFns;

verus! {

/// One proved M4 case.
#[derive(Clone, Debug, PartialEq, Eq)]
pub struct M4CaseRecord {
    pub program: String,
    pub name: String,
    pub pvm_program_commitment: String,
    pub translated_program_commitment: String,
    pub input_commitment: String,
    pub reference_output_hex: String,
    pub proven_output_hex: String,
    pub translation_ns: u128,
    pub emission_ns: u128,
    pub build_ns: u128,
    pub transpile_ns: u128,
    pub app_keygen_ns: u128,
    pub agg_keygen_ns: u128,
    pub keygen_ns: u128,
    pub execute_ns: u128,
    pub prove_ns: u128,
    pub verify_ns: u128,
    pub proof_bytes: usize,
    pub peak_rss_bytes: Option<u64>,
    pub proof_verified: bool,
    pub program_binding_verified: bool,
    pub input_binding_verified: bool,
    pub output_matches_reference: bool,
    pub error: Option<String>,
    pub complete: bool,
}

/// The aggregated M4 benchmark report.
#[derive(Clone, Debug, PartialEq, Eq)]
pub struct M4BenchmarkReport {
    pub schema_version: String,
    pub translation_version: u32,
    pub zk_jam_revision: String,
    pub git_dirty: bool,
    pub jambda_repository: String,
    pub jambda_revision: String,
    pub jambda_provenance_verified: bool,
    pub openvm_version: String,
    pub openvm_revision: String,
    pub guest_toolchain: String,
    pub backend: String,
    pub samples: usize,
    pub warmup: usize,
    pub programs: usize,
    pub cases: Vec<M4CaseRecord>,
    pub program_reuse_verified: bool,
    pub complete: bool,
    pub publication_ready: bool,
}

/// One executed (not proved) M4 case.
#[derive(Clone, Debug, PartialEq, Eq)]
pub struct M4PreflightCaseRecord {
    pub program: String,
    pub name: String,
    pub pvm_program_commitment: String,
    pub input_commitment: String,
    pub reference_output_hex: String,
    pub execution_output_hex: String,
    pub translation_ns: u128,
    pub emission_ns: u128,
    pub build_ns: u128,
    pub transpile_ns: u128,
    pub public_values_len: usize,
    pub execute_ns: u128,
    pub program_binding_verified: bool,
    pub input_binding_verified: bool,
    pub output_matches_reference: bool,
    pub error: Option<String>,
    pub complete: bool,
}

/// The execute-only preflight over every M4 case.
#[derive(Clone, Debug, PartialEq, Eq)]
pub struct M4PreflightReport {
    pub schema_version: String,
    pub translation_version: u32,
    pub zk_jam_revision: String,
    pub git_dirty: bool,
    pub jambda_repository: String,
    pub jambda_revision: String,
    pub jambda_provenance_verified: bool,
    pub openvm_version: String,
    pub openvm_revision: String,
    pub guest_toolchain: String,
    pub backend: String,
    pub programs: usize,
    pub cases: Vec<M4PreflightCaseRecord>,
    pub complete: bool,
}

/// The proofs of the cases of one program.
#[derive(Clone, Debug, PartialEq, Eq)]
pub struct M4ProofPartialReport {
    pub schema_version: String,
    pub translation_version: u32,
    pub program: String,
    pub zk_jam_revision: String,
    pub git_dirty: bool,
    pub jambda_repository: String,
    pub jambda_revision: String,
    pub jambda_provenance_verified: bool,
    pub openvm_version: String,
    pub openvm_revision: String,
    pub guest_toolchain: String,
    pub backend: String,
    pub cases: Vec<M4CaseRecord>,
    pub complete: bool,
}

/// Why an M4 report is inconsistent, or cannot be aggregated.
#[derive(Clone, Debug, PartialEq, Eq)]
pub enum M4ReportError {
    PartialCount,
    PartialMetadataMismatch,
    IncompletePartialSet,
    DuplicateCase(String),
    CaseMissingFromPreflight(String),
    CaseMismatch(String),
    MissingCases,
    SampleCounts,
    CompleteMismatch,
    ProgramReuseMismatch,
    PublicationReadyMismatch,
    UnknownProgram(String),
}

/// A proved case without error whose proof, program binding, input binding and output all
/// check.
pub open spec fn case_verified(c: M4CaseRecord) -> bool {
    &&& c.error is None
    &&& c.complete
    &&& c.proof_verified
    &&& c.program_binding_verified
    &&& c.input_binding_verified
    &&& c.output_matches_reference
}

pub open spec fn all_verified(cases: Seq<M4CaseRecord>) -> bool {
    forall|i: int| 0 <= i < cases.len() ==> case_verified(#[trigger] cases[i])
}

/// At least one case runs `program`, and all that do carry one PVM program commitment.
pub open spec fn one_commitment(cases: Seq<M4CaseRecord>, program: Seq<char>) -> bool {
    &&& exists|i: int| #![trigger cases[i]] 0 <= i < cases.len() && cases[i].program@ == program
    &&& forall|i: int, j: int|
        #![trigger cases[i], cases[j]]
        0 <= i < cases.len() && 0 <= j < cases.len() && cases[i].program@ == program
            && cases[j].program@ == program ==> cases[i].pvm_program_commitment@
            == cases[j].pvm_program_commitment@
}

/// The arithmetic cases share one program, and so do the branch cases.
pub open spec fn program_reuse(cases: Seq<M4CaseRecord>) -> bool {
    one_commitment(cases, "arithmetic"@) && one_commitment(cases, "branch"@)
}

/// The consistency rules of a benchmark report, checked in order: one sample without warm-up,
/// the completeness flag, the program-reuse flag, and the publication-readiness flag.
pub open spec fn m4_report_check(r: M4BenchmarkReport) -> Result<(), M4ReportError> {
    if r.samples != 1 || r.warmup != 0 {
        Err(M4ReportError::SampleCounts)
    } else if r.complete != (r.cases@.len() == 6 && all_verified(r.cases@)) {
        Err(M4ReportError::CompleteMismatch)
    } else if r.program_reuse_verified != program_reuse(r.cases@) {
        Err(M4ReportError::ProgramReuseMismatch)
    } else if r.publication_ready != (r.complete && r.jambda_provenance_verified && !r.git_dirty
        && r.translation_version == TRANSLATION_VERSION && r.guest_toolchain@
        == OPENVM_PINNED_GUEST_TOOLCHAIN@) {
        Err(M4ReportError::PublicationReadyMismatch)
    } else {
        Ok(())
    }
}

/// An executed case without error whose bindings and output check and that revealed the
/// semantic public values.
pub open spec fn preflight_case_verified(c: M4PreflightCaseRecord) -> bool {
    &&& c.error is None
    &&& c.complete
    &&& c.program_binding_verified
    &&& c.input_binding_verified
    &&& c.output_matches_reference
    &&& c.public_values_len == M4_SEMANTIC_PUBLIC_VALUES_LEN
}

/// The preflight is complete exactly when it covers the three programs and six cases and every
/// case checks.
pub open spec fn preflight_check(r: M4PreflightReport) -> Result<(), M4ReportError> {
    if r.complete != (r.programs == 3 && r.cases@.len() == 6 && forall|i: int|
        0 <= i < r.cases@.len() ==> preflight_case_verified(#[trigger] r.cases@[i])) {
        Err(M4ReportError::CompleteMismatch)
    } else {
        Ok(())
    }
}

/// The number of cases of the program with this name.
pub open spec fn expected_case_count(program: Seq<char>) -> Option<nat> {
    if program == "arithmetic"@ {
        Some(2)
    } else if program == "branch"@ {
        Some(3)
    } else if program == "memory"@ {
        Some(1)
    } else {
        None
    }
}

/// A proof partial names a known program, and is complete exactly when it holds that
/// program's number of cases, all of that program and all checked.
pub open spec fn partial_check(r: M4ProofPartialReport) -> Result<(), M4ReportError> {
    match expected_case_count(r.program@) {
        None => Err(M4ReportError::UnknownProgram(r.program)),
        Some(n) => if r.complete != (r.cases@.len() == n && forall|i: int|
            0 <= i < r.cases@.len() ==> (#[trigger] r.cases@[i]).program@ == r.program@
                && case_verified(r.cases@[i])) {
            Err(M4ReportError::CompleteMismatch)
        } else {
            Ok(())
        },
    }
}

fn case_ok(c: &M4CaseRecord) -> (r: bool)
    ensures
        r == case_verified(*c),
{
    c.error.is_none() && c.complete && c.proof_verified && c.program_binding_verified
        && c.input_binding_verified && c.output_matches_reference
}

fn all_cases_ok(cases: &Vec<M4CaseRecord>) -> (r: bool)
    ensures
        r == all_verified(cases@),
{
    let mut i: usize = 0;
    while i < cases.len()
        invariant
            0 <= i <= cases@.len(),
            forall|k: int| 0 <= k < i ==> case_verified(#[trigger] cases@[k]),
        decreases cases@.len() - i,
    {
        if !case_ok(&cases[i]) {
            return false;
        }
        i = i + 1;
    }
    true
}

fn one_commitment_exec(cases: &Vec<M4CaseRecord>, program: &str) -> (r: bool)
    ensures
        r == one_commitment(cases@, program@),
{
    let mut first: Option<usize> = None;
    let mut same = true;
    let mut i: usize = 0;
    while i < cases.len()
        invariant
            0 <= i <= cases@.len(),
            first is None ==> same && forall|k: int| 0 <= k < i ==> (#[trigger] cases@[k]).program@
                != program@,
            first matches Some(f) ==> {
                &&& f < i
                &&& cases@[f as int].program@ == program@
                &&& same == forall|k: int|
                    0 <= k < i && (#[trigger] cases@[k]).program@ == program@ ==> cases@[k].pvm_program_commitment@
                        == cases@[f as int].pvm_program_commitment@
            },
        decreases cases@.len() - i,
    {
        if text_is(&cases[i].program, program) {
            match first {
                None => {
                    first = Some(i);
                },
                Some(f) => {
                    if !(cases[i].pvm_program_commitment == cases[f].pvm_program_commitment) {
                        same = false;
                    }
                },
            }
        }
        i = i + 1;
    }
    match first {
        None => {
            assert(!(exists|k: int| #![trigger cases@[k]] 0 <= k < cases@.len() && cases@[k].program@
                == program@));
            false
        },
        Some(f) => {
            assert(cases@[f as int].program@ == program@);
            if same {
                assert forall|a: int, b: int|
                    #![trigger cases@[a], cases@[b]]
                    0 <= a < cases@.len() && 0 <= b < cases@.len() && cases@[a].program@ == program@
                        && cases@[b].program@ == program@ implies cases@[a].pvm_program_commitment@
                    == cases@[b].pvm_program_commitment@ by {
                    assert(cases@[a].pvm_program_commitment@ == cases@[f as int].pvm_program_commitment@);
                    assert(cases@[b].pvm_program_commitment@ == cases@[f as int].pvm_program_commitment@);
                }
            } else {
                let ghost w = choose|k: int|
                    0 <= k < cases@.len() && (#[trigger] cases@[k]).program@ == program@
                        && cases@[k].pvm_program_commitment@ != cases@[f as int].pvm_program_commitment@;
                assert(cases@[w].program@ == program@);
            }
            same
        },
    }
}

/// Checks the consistency rules of a benchmark report.
pub fn validate_m4_report(report: &M4BenchmarkReport) -> (r: Result<(), M4ReportError>)
    ensures
        r == m4_report_check(*report),
{
    if report.samples != 1 || report.warmup != 0 {
        return Err(M4ReportError::SampleCounts);
    }
    let complete = report.cases.len() == 6 && all_cases_ok(&report.cases);
    if report.complete != complete {
        return Err(M4ReportError::CompleteMismatch);
    }
    let reuse = one_commitment_exec(&report.cases, "arithmetic") && one_commitment_exec(
        &report.cases,
        "branch",
    );
    if report.program_reuse_verified != reuse {
        return Err(M4ReportError::ProgramReuseMismatch);
    }
    let ready = report.complete && report.jambda_provenance_verified && !report.git_dirty
        && report.translation_version == TRANSLATION_VERSION && text_is(
        &report.guest_toolchain,
        OPENVM_PINNED_GUEST_TOOLCHAIN,
    );
    if report.publication_ready != ready {
        return Err(M4ReportError::PublicationReadyMismatch);
    }
    Ok(())
}

/// Checks the completeness rule of an execute-only preflight report.
pub fn validate_m4_preflight_report(report: &M4PreflightReport) -> (r: Result<(), M4ReportError>)
    ensures
        r == preflight_check(*report),
{
    let mut all = true;
    let mut i: usize = 0;
    while i < report.cases.len()
        invariant
            0 <= i <= report.cases@.len(),
            all == forall|k: int| 0 <= k < i ==> preflight_case_verified(#[trigger] report.cases@[k]),
        decreases report.cases@.len() - i,
    {
        let c = &report.cases[i];
        let ok = c.error.is_none() && c.complete && c.program_binding_verified
            && c.input_binding_verified && c.output_matches_reference && c.public_values_len
            == M4_SEMANTIC_PUBLIC_VALUES_LEN;
        all = all && ok;
        i = i + 1;
    }
    let complete = report.programs == 3 && report.cases.len() == 6 && all;
    if report.complete != complete {
        return Err(M4ReportError::CompleteMismatch);
    }
    Ok(())
}

/// The number of cases of the named program, from the program table.
fn case_count_of(program: &String) -> (r: Option<usize>)
    ensures
        match expected_case_count(program@) {
            Some(n) => r == Some(n as usize),
            None => r is None,
        },
{
    let specs = m4_program_specs();
    proof {
        let m = |c: M4CaseSpec| case_model(c);
        assert(specs@[0].cases@.map_values(m).len() == 2);
        assert(specs@[1].cases@.map_values(m).len() == 3);
        assert(specs@[2].cases@.map_values(m).len() == 1);
    }
    let mut i: usize = 0;
    while i < specs.len()
        invariant
            specs@.len() == 3,
            specs@[0].id == crate::m4_specs::M4ProgramId::Arithmetic,
            specs@[1].id == crate::m4_specs::M4ProgramId::Branch,
            specs@[2].id == crate::m4_specs::M4ProgramId::Memory16K,
            specs@[0].cases@.len() == 2,
            specs@[1].cases@.len() == 3,
            specs@[2].cases@.len() == 1,
            0 <= i <= 3,
            i > 0 ==> program@ != "arithmetic"@,
            i > 1 ==> program@ != "branch"@,
            i > 2 ==> program@ != "memory"@,
        decreases 3 - i,
    {
        if text_is(program, specs[i].id.name()) {
            return Some(specs[i].cases.len());
        }
        i = i + 1;
    }
    None
}

/// Checks that a proof partial names a known program and the completeness rule.
pub fn validate_m4_proof_partial_report(report: &M4ProofPartialReport) -> (r: Result<
    (),
    M4ReportError,
>)
    ensures
        r == partial_check(*report),
{
    let expected = match case_count_of(&report.program) {
        Some(n) => n,
        None => return Err(M4ReportError::UnknownProgram(report.program.clone())),
    };
    let mut all = true;
    let mut i: usize = 0;
    while i < report.cases.len()
        invariant
            0 <= i <= report.cases@.len(),
            all == forall|k: int|
                0 <= k < i ==> (#[trigger] report.cases@[k]).program@ == report.program@
                    && case_verified(report.cases@[k]),
        decreases report.cases@.len() - i,
    {
        let ok = report.cases[i].program == report.program && case_ok(&report.cases[i]);
        all = all && ok;
        i = i + 1;
    }
    let complete = report.cases.len() == expected && all;
    if report.complete != complete {
        return Err(M4ReportError::CompleteMismatch);
    }
    Ok(())
}

// ---------------------------------------------------------------------------------------------
// Aggregation
// ---------------------------------------------------------------------------------------------
/// The cases of the partials, partial after partial.
pub open spec fn proof_cases(ps: Seq<M4ProofPartialReport>) -> Seq<M4CaseRecord>
    decreases ps.len(),
{
    if ps.len() == 0 {
        Seq::empty()
    } else {
        proof_cases(ps.drop_last()) + ps.last().cases@
    }
}

/// A partial was produced under the preflight's translation version, revisions, provenance,
/// toolchain and backend.
pub open spec fn partial_metadata_matches(p: M4ProofPartialReport, pre: M4PreflightReport) -> bool {
    &&& p.schema_version@ == "m4-proof-partial-v1"@
    &&& p.translation_version == pre.translation_version
    &&& p.zk_jam_revision@ == pre.zk_jam_revision@
    &&& p.git_dirty == pre.git_dirty
    &&& p.jambda_repository@ == pre.jambda_repository@
    &&& p.jambda_revision@ == pre.jambda_revision@
    &&& p.jambda_provenance_verified == pre.jambda_provenance_verified
    &&& p.openvm_version@ == pre.openvm_version@
    &&& p.openvm_revision@ == pre.openvm_revision@
    &&& p.guest_toolchain@ == pre.guest_toolchain@
    &&& p.backend@ == pre.backend@
}

pub open spec fn is_program_name(name: Seq<char>) -> bool {
    name == "arithmetic"@ || name == "branch"@ || name == "memory"@
}

pub open spec fn names_program(ps: Seq<M4ProofPartialReport>, name: Seq<char>) -> bool {
    exists|i: int| 0 <= i < ps.len() && (#[trigger] ps[i]).program@ == name
}

/// The partials name exactly the three programs, each is complete, and each holds cases of its
/// own program only.
pub open spec fn partial_set_complete(ps: Seq<M4ProofPartialReport>) -> bool {
    &&& forall|i: int| 0 <= i < ps.len() ==> is_program_name((#[trigger] ps[i]).program@)
    &&& names_program(ps, "arithmetic"@)
    &&& names_program(ps, "branch"@)
    &&& names_program(ps, "memory"@)
    &&& forall|i: int|
        0 <= i < ps.len() ==> (#[trigger] ps[i]).complete && forall|k: int|
            0 <= k < ps[i].cases@.len() ==> (#[trigger] ps[i].cases@[k]).program@ == ps[i].program@
}

/// The index of the last preflight case with this name.
pub open spec fn last_named(pre: Seq<M4PreflightCaseRecord>, name: Seq<char>) -> Option<int>
    decreases pre.len(),
{
    if pre.len() == 0 {
        None
    } else if pre.last().name@ == name {
        Some(pre.len() - 1)
    } else {
        last_named(pre.drop_last(), name)
    }
}

/// A proved case agrees with its preflight case on program, commitments and reference output,
/// and the preflight case completed.
pub open spec fn matches_preflight(c: M4CaseRecord, p: M4PreflightCaseRecord) -> bool {
    &&& p.program@ == c.program@
    &&& p.pvm_program_commitment@ == c.pvm_program_commitment@
    &&& p.input_commitment@ == c.input_commitment@
    &&& p.reference_output_hex@ == c.reference_output_hex@
    &&& p.complete
}

/// What is wrong with the proved case at `k`: a name used before, a name the preflight lacks,
/// or a disagreement with the preflight case of that name.
pub open spec fn case_error(xs: Seq<M4CaseRecord>, pre: Seq<M4PreflightCaseRecord>, k: int) -> Option<
    M4ReportError,
> {
    if exists|j: int| 0 <= j < k && (#[trigger] xs[j]).name@ == xs[k].name@ {
        Some(M4ReportError::DuplicateCase(xs[k].name))
    } else {
        match last_named(pre, xs[k].name@) {
            None => Some(M4ReportError::CaseMissingFromPreflight(xs[k].name)),
            Some(p) => if !matches_preflight(xs[k], pre[p]) {
                Some(M4ReportError::CaseMismatch(xs[k].name))
            } else {
                None
            },
        }
    }
}

/// The first case error among the first `n` proved cases.
pub open spec fn first_case_error(xs: Seq<M4CaseRecord>, pre: Seq<M4PreflightCaseRecord>, n: nat) -> Option<
    M4ReportError,
>
    decreases n,
{
    if n == 0 {
        None
    } else {
        match first_case_error(xs, pre, (n - 1) as nat) {
            Some(e) => Some(e),
            None => case_error(xs, pre, n - 1),
        }
    }
}

/// Why the partials cannot be aggregated, checked in order: three partials, their metadata,
/// the program set, each proved case in order, and all six cases present.
pub open spec fn aggregate_failure(pre: M4PreflightReport, ps: Seq<M4ProofPartialReport>) -> Option<
    M4ReportError,
> {
    if ps.len() != 3 {
        Some(M4ReportError::PartialCount)
    } else if !(forall|i: int| 0 <= i < ps.len() ==> partial_metadata_matches(#[trigger] ps[i], pre)) {
        Some(M4ReportError::PartialMetadataMismatch)
    } else if !partial_set_complete(ps) {
        Some(M4ReportError::IncompletePartialSet)
    } else {
        match first_case_error(proof_cases(ps), pre.cases@, proof_cases(ps).len()) {
            Some(e) => Some(e),
            None => if proof_cases(ps).len() != 6 {
                Some(M4ReportError::MissingCases)
            } else {
                None
            },
        }
    }
}

/// The names of `cs` at `k` and `k + 1` are in strictly increasing order.
pub open spec fn in_order(cs: Seq<M4CaseRecord>, k: int) -> bool {
    crate::text::text_lt(cs[k].name@, cs[k + 1].name@)
}

pub open spec fn sorted_by_name(cs: Seq<M4CaseRecord>) -> bool {
    forall|k: int| 0 <= k < cs.len() - 1 ==> #[trigger] in_order(cs, k)
}

/// `out` holds exactly the cases of `xs`, each once, ordered by name.
pub open spec fn sorted_arrangement(out: Seq<M4CaseRecord>, xs: Seq<M4CaseRecord>) -> bool {
    &&& out.len() == xs.len()
    &&& sorted_by_name(out)
    &&& holds_from(out, xs, 0)
}

/// The aggregated report: the proved cases ordered by name, the preflight's metadata, one
/// sample without warm-up over three programs, and the reuse, completeness and
/// publication-readiness flags computed from them.
pub open spec fn aggregated(rep: M4BenchmarkReport, pre: M4PreflightReport, ps: Seq<M4ProofPartialReport>) -> bool {
    &&& sorted_arrangement(rep.cases@, proof_cases(ps))
    &&& rep.schema_version@ == "m4-proven-translation-v1"@
    &&& rep.translation_version == pre.translation_version
    &&& rep.zk_jam_revision == pre.zk_jam_revision
    &&& rep.git_dirty == pre.git_dirty
    &&& rep.jambda_repository == pre.jambda_repository
    &&& rep.jambda_revision == pre.jambda_revision
    &&& rep.jambda_provenance_verified == pre.jambda_provenance_verified
    &&& rep.openvm_version == pre.openvm_version
    &&& rep.openvm_revision == pre.openvm_revision
    &&& rep.guest_toolchain == pre.guest_toolchain
    &&& rep.backend == pre.backend
    &&& rep.samples == 1
    &&& rep.warmup == 0
    &&& rep.programs == 3
    &&& rep.program_reuse_verified == program_reuse(rep.cases@)
    &&& rep.complete == (pre.complete && rep.cases@.len() == 6 && all_verified(rep.cases@)
        && rep.program_reuse_verified)
    &&& rep.publication_ready == (rep.complete && pre.jambda_provenance_verified && !pre.git_dirty
        && pre.translation_version == TRANSLATION_VERSION && pre.guest_toolchain@
        == OPENVM_PINNED_GUEST_TOOLCHAIN@ && pre.openvm_revision@ == OPENVM_REVISION@)
}

fn metadata_ok(p: &M4ProofPartialReport, pre: &M4PreflightReport) -> (r: bool)
    ensures
        r == partial_metadata_matches(*p, *pre),
{
    text_is(&p.schema_version, "m4-proof-partial-v1") && p.translation_version
        == pre.translation_version && p.zk_jam_revision == pre.zk_jam_revision && p.git_dirty
        == pre.git_dirty && p.jambda_repository == pre.jambda_repository && p.jambda_revision
        == pre.jambda_revision && p.jambda_provenance_verified == pre.jambda_provenance_verified
        && p.openvm_version == pre.openvm_version && p.openvm_revision == pre.openvm_revision
        && p.guest_toolchain == pre.guest_toolchain && p.backend == pre.backend
}

fn names_program_exec(ps: &Vec<M4ProofPartialReport>, name: &str) -> (r: bool)
    ensures
        r == names_program(ps@, name@),
{
    let mut i: usize = 0;
    while i < ps.len()
        invariant
            0 <= i <= ps@.len(),
            forall|k: int| 0 <= k < i ==> (#[trigger] ps@[k]).program@ != name@,
        decreases ps@.len() - i,
    {
        if text_is(&ps[i].program, name) {
            return true;
        }
        i = i + 1;
    }
    false
}

fn partial_set_ok(ps: &Vec<M4ProofPartialReport>) -> (r: bool)
    ensures
        r == partial_set_complete(ps@),
{
    let mut i: usize = 0;
    while i < ps.len()
        invariant
            0 <= i <= ps@.len(),
            forall|a: int| 0 <= a < i ==> is_program_name((#[trigger] ps@[a]).program@),
            forall|a: int|
                0 <= a < i ==> (#[trigger] ps@[a]).complete && forall|k: int|
                    0 <= k < ps@[a].cases@.len() ==> (#[trigger] ps@[a].cases@[k]).program@
                        == ps@[a].program@,
        decreases ps@.len() - i,
    {
        let p = &ps[i];
        if !(text_is(&p.program, "arithmetic") || text_is(&p.program, "branch") || text_is(
            &p.program,
            "memory",
        )) {
            return false;
        }
        if !p.complete {
            return false;
        }
        let mut k: usize = 0;
        while k < p.cases.len()
            invariant
                0 <= k <= p.cases@.len(),
                i < ps@.len(),
                *p == ps@[i as int],
                forall|c: int| 0 <= c < k ==> (#[trigger] p.cases@[c]).program@ == p.program@,
            decreases p.cases@.len() - k,
        {
            if !(p.cases[k].program == p.program) {
                assert(ps@[i as int].cases@[k as int].program@ != ps@[i as int].program@);
                return false;
            }
            k = k + 1;
        }
        i = i + 1;
    }
    names_program_exec(ps, "arithmetic") && names_program_exec(ps, "branch") && names_program_exec(
        ps,
        "memory",
    )
}

fn find_last_named(cases: &Vec<M4PreflightCaseRecord>, name: &String) -> (r: Option<usize>)
    ensures
        match r {
            Some(q) => q < cases@.len() && last_named(cases@, name@) == Some(q as int),
            None => last_named(cases@, name@) is None,
        },
{
    let mut i: usize = cases.len();
    assert(cases@.take(i as int) =~= cases@);
    while i > 0
        invariant
            0 <= i <= cases@.len(),
            last_named(cases@, name@) == last_named(cases@.take(i as int), name@),
        decreases i,
    {
        assert(cases@.take(i as int).last() == cases@[i - 1]);
        assert(cases@.take(i as int).drop_last() =~= cases@.take(i - 1));
        if cases[i - 1].name == *name {
            return Some(i - 1);
        }
        i = i - 1;
    }
    None
}

fn copy_text(s: &String) -> (r: String)
    ensures
        r == *s,
{
    s.clone()
}

fn copy_case(c: &M4CaseRecord) -> (r: M4CaseRecord)
    ensures
        r == *c,
{
    M4CaseRecord {
        program: copy_text(&c.program),
        name: copy_text(&c.name),
        pvm_program_commitment: copy_text(&c.pvm_program_commitment),
        translated_program_commitment: copy_text(&c.translated_program_commitment),
        input_commitment: copy_text(&c.input_commitment),
        reference_output_hex: copy_text(&c.reference_output_hex),
        proven_output_hex: copy_text(&c.proven_output_hex),
        translation_ns: c.translation_ns,
        emission_ns: c.emission_ns,
        build_ns: c.build_ns,
        transpile_ns: c.transpile_ns,
        app_keygen_ns: c.app_keygen_ns,
        agg_keygen_ns: c.agg_keygen_ns,
        keygen_ns: c.keygen_ns,
        execute_ns: c.execute_ns,
        prove_ns: c.prove_ns,
        verify_ns: c.verify_ns,
        proof_bytes: c.proof_bytes,
        peak_rss_bytes: c.peak_rss_bytes,
        proof_verified: c.proof_verified,
        program_binding_verified: c.program_binding_verified,
        input_binding_verified: c.input_binding_verified,
        output_matches_reference: c.output_matches_reference,
        error: match &c.error {
            Some(e) => Some(copy_text(e)),
            None => None,
        },
        complete: c.complete,
    }
}

proof fn lemma_proof_cases_take(ps: Seq<M4ProofPartialReport>, i: int)
    requires
        0 <= i < ps.len(),
    ensures
        proof_cases(ps.take(i + 1)) == proof_cases(ps.take(i)) + ps[i].cases@,
{
    assert(ps.take(i + 1).drop_last() =~= ps.take(i));
    assert(ps.take(i + 1).last() == ps[i]);
}

proof fn lemma_proof_cases_prefix(ps: Seq<M4ProofPartialReport>, i: int)
    requires
        0 <= i <= ps.len(),
    ensures
        proof_cases(ps.take(i)).len() <= proof_cases(ps).len(),
        proof_cases(ps).take(proof_cases(ps.take(i)).len() as int) == proof_cases(ps.take(i)),
    decreases ps.len(),
{
    if i == ps.len() {
        assert(ps.take(i) =~= ps);
        assert(proof_cases(ps).take(proof_cases(ps).len() as int) =~= proof_cases(ps));
    } else {
        lemma_proof_cases_prefix(ps.drop_last(), i);
        assert(ps.drop_last().take(i) =~= ps.take(i));
        let a = proof_cases(ps.drop_last());
        let n = proof_cases(ps.take(i)).len() as int;
        assert((a + ps.last().cases@).take(n) =~= a.take(n));
    }
}

proof fn lemma_first_case_error_stable(
    xs: Seq<M4CaseRecord>,
    pre: Seq<M4PreflightCaseRecord>,
    n: nat,
    m: nat,
)
    requires
        n <= m,
        first_case_error(xs, pre, n) is Some,
    ensures
        first_case_error(xs, pre, m) == first_case_error(xs, pre, n),
    decreases m,
{
    if m > n {
        lemma_first_case_error_stable(xs, pre, n, (m - 1) as nat);
    }
}

proof fn lemma_no_case_error_distinct(xs: Seq<M4CaseRecord>, pre: Seq<M4PreflightCaseRecord>, n: nat)
    requires
        first_case_error(xs, pre, n) is None,
        n <= xs.len(),
    ensures
        forall|a: int, b: int|
            #![trigger xs[a], xs[b]]
            0 <= a < b < n ==> xs[a].name@ != xs[b].name@,
    decreases n,
{
    if n > 0 {
        lemma_no_case_error_distinct(xs, pre, (n - 1) as nat);
        assert forall|a: int, b: int| #![trigger xs[a], xs[b]] 0 <= a < b < n implies xs[a].name@
            != xs[b].name@ by {
            if b == n - 1 && xs[a].name@ == xs[b].name@ {
                assert(exists|j: int| 0 <= j < b && (#[trigger] xs[j]).name@ == xs[b].name@);
            }
        }
    }
}

fn has_name(cases: &Vec<M4CaseRecord>, name: &String) -> (r: bool)
    ensures
        r == exists|a: int| 0 <= a < cases@.len() && (#[trigger] cases@[a]).name@ == name@,
{
    let mut j: usize = 0;
    while j < cases.len()
        invariant
            0 <= j <= cases@.len(),
            forall|a: int| 0 <= a < j ==> (#[trigger] cases@[a]).name@ != name@,
        decreases cases@.len() - j,
    {
        if cases[j].name == *name {
            return true;
        }
        j = j + 1;
    }
    false
}

/// The proved cases of the partials, in order, after checking each against the preflight.
fn collect_cases(pre: &M4PreflightReport, ps: &Vec<M4ProofPartialReport>) -> (r: Result<
    Vec<M4CaseRecord>,
    M4ReportError,
>)
    ensures
        match first_case_error(proof_cases(ps@), pre.cases@, proof_cases(ps@).len()) {
            Some(e) => r == Err::<Vec<M4CaseRecord>, M4ReportError>(e),
            None => r matches Ok(v) && v@ == proof_cases(ps@),
        },
{
    let ghost xs = proof_cases(ps@);
    let mut out: Vec<M4CaseRecord> = Vec::new();
    let mut i: usize = 0;
    assert(ps@.take(0) =~= Seq::<M4ProofPartialReport>::empty());
    while i < ps.len()
        invariant
            0 <= i <= ps@.len(),
            xs == proof_cases(ps@),
            out@ == proof_cases(ps@.take(i as int)),
            first_case_error(xs, pre.cases@, out@.len()) is None,
        decreases ps@.len() - i,
    {
        proof {
            lemma_proof_cases_take(ps@, i as int);
            lemma_proof_cases_prefix(ps@, i + 1);
        }
        let p = &ps[i];
        let mut k: usize = 0;
        assert(p.cases@.take(0) =~= Seq::<M4CaseRecord>::empty());
        assert(out@ =~= proof_cases(ps@.take(i as int)) + p.cases@.take(0));
        while k < p.cases.len()
            invariant
                i < ps@.len(),
                *p == ps@[i as int],
                xs == proof_cases(ps@),
                0 <= k <= p.cases@.len(),
                out@ == proof_cases(ps@.take(i as int)) + p.cases@.take(k as int),
                proof_cases(ps@.take(i + 1)) == proof_cases(ps@.take(i as int)) + ps@[i as int].cases@,
                proof_cases(ps@.take(i + 1)).len() <= xs.len(),
                xs.take(proof_cases(ps@.take(i + 1)).len() as int) == proof_cases(ps@.take(i + 1)),
                first_case_error(xs, pre.cases@, out@.len()) is None,
            decreases p.cases@.len() - k,
        {
            let ghost m = out@.len() as int;
            let c = &p.cases[k];
            proof {
                let whole = proof_cases(ps@.take(i + 1));
                assert(whole[m] == c);
                assert(xs.take(whole.len() as int)[m] == xs[m]);
                assert(xs[m] == *c);
                assert forall|a: int| 0 <= a < m implies xs[a] == out@[a] by {
                    assert(xs.take(whole.len() as int)[a] == xs[a]);
                    assert(whole[a] == out@[a]);
                }
            }
            if has_name(&out, &c.name) {
                proof {
                    let a = choose|a: int| 0 <= a < out@.len() && (#[trigger] out@[a]).name@ == c.name@;
                    assert(xs[a].name@ == xs[m].name@);
                    assert(case_error(xs, pre.cases@, m) == Some(M4ReportError::DuplicateCase(c.name)));
                    lemma_first_case_error_stable(xs, pre.cases@, (m + 1) as nat, xs.len());
                }
                return Err(M4ReportError::DuplicateCase(c.name.clone()));
            }
            assert(!(exists|a: int| 0 <= a < m && (#[trigger] xs[a]).name@ == xs[m].name@)) by {
                assert forall|a: int| 0 <= a < m implies (#[trigger] xs[a]).name@ != xs[m].name@ by {
                    assert(xs[a] == out@[a]);
                }
            }
            let q = match find_last_named(&pre.cases, &c.name) {
                None => {
                    proof {
                        lemma_first_case_error_stable(xs, pre.cases@, (m + 1) as nat, xs.len());
                    }
                    return Err(M4ReportError::CaseMissingFromPreflight(c.name.clone()));
                },
                Some(q) => q,
            };
            let pc = &pre.cases[q];
            if !(pc.program == c.program && pc.pvm_program_commitment == c.pvm_program_commitment
                && pc.input_commitment == c.input_commitment && pc.reference_output_hex
                == c.reference_output_hex && pc.complete) {
                proof {
                    assert(!matches_preflight(xs[m], pre.cases@[q as int]));
                    assert(case_error(xs, pre.cases@, m) == Some(M4ReportError::CaseMismatch(c.name)));
                    lemma_first_case_error_stable(xs, pre.cases@, (m + 1) as nat, xs.len());
                }
                return Err(M4ReportError::CaseMismatch(c.name.clone()));
            }
            assert(matches_preflight(xs[m], pre.cases@[q as int]));
            assert(case_error(xs, pre.cases@, m) is None);
            out.push(copy_case(c));
            proof {
                assert(p.cases@.take(k + 1) =~= p.cases@.take(k as int).push(*c));
            }
            k = k + 1;
            assert(out@ =~= proof_cases(ps@.take(i as int)) + p.cases@.take(k as int));
        }
        assert(p.cases@.take(k as int) =~= p.cases@);
        i = i + 1;
    }
    assert(ps@.take(ps@.len() as int) =~= ps@);
    Ok(out)
}

/// Where `x` goes among the sorted `out`: after every name before it, before every name after.
fn insertion_point(out: &Vec<M4CaseRecord>, x: &M4CaseRecord) -> (p: usize)
    requires
        forall|k: int| 0 <= k < out@.len() ==> (#[trigger] out@[k]).name@ != x.name@,
    ensures
        p <= out@.len(),
        forall|q: int| 0 <= q < p ==> text_lt((#[trigger] out@[q]).name@, x.name@),
        p < out@.len() ==> text_lt(x.name@, out@[p as int].name@),
{
    let mut p: usize = 0;
    while p < out.len() && !text_less(&x.name, &out[p].name)
        invariant
            0 <= p <= out@.len(),
            forall|k: int| 0 <= k < out@.len() ==> (#[trigger] out@[k]).name@ != x.name@,
            forall|q: int| 0 <= q < p ==> text_lt((#[trigger] out@[q]).name@, x.name@),
        decreases out@.len() - p,
    {
        proof {
            lemma_text_lt_total(x.name@, out@[p as int].name@);
        }
        p = p + 1;
    }
    p
}

proof fn lemma_insert_sorted(out: Seq<M4CaseRecord>, p: int, x: M4CaseRecord)
    requires
        0 <= p <= out.len(),
        sorted_by_name(out),
        forall|q: int| 0 <= q < p ==> text_lt((#[trigger] out[q]).name@, x.name@),
        p < out.len() ==> text_lt(x.name@, out[p].name@),
    ensures
        sorted_by_name(out.insert(p, x)),
{
    out.insert_ensures(p, x);
    let n = out.insert(p, x);
    assert forall|k: int| 0 <= k < n.len() - 1 implies #[trigger] in_order(n, k) by {
        if k < p - 1 {
            assert(in_order(out, k));
        } else if k == p - 1 {
            assert(text_lt(out[p - 1].name@, x.name@));
        } else if k == p {
            assert(text_lt(x.name@, out[p].name@));
        } else {
            assert(in_order(out, k - 1));
        }
    }
}

/// `out` holds each case of `xs` from `c` on, and nothing else.
pub open spec fn holds_from(out: Seq<M4CaseRecord>, xs: Seq<M4CaseRecord>, c: int) -> bool {
    &&& forall|k: int| 0 <= k < out.len() ==> exists|j: int| c <= j < xs.len() && xs[j] == #[trigger] out[k]
    &&& forall|j: int| c <= j < xs.len() ==> exists|k: int| 0 <= k < out.len() && out[k] == #[trigger] xs[j]
}

proof fn lemma_insert_holds(out: Seq<M4CaseRecord>, p: int, xs: Seq<M4CaseRecord>, c: int)
    requires
        0 <= p <= out.len(),
        0 <= c < xs.len(),
        holds_from(out, xs, c + 1),
    ensures
        holds_from(out.insert(p, xs[c]), xs, c),
{
    let x = xs[c];
    out.insert_ensures(p, x);
    let n = out.insert(p, x);
    assert forall|k: int| 0 <= k < n.len() implies exists|j: int| c <= j < xs.len() && xs[j] == #[trigger] n[k] by {
        if k < p {
            let j = choose|j: int| c + 1 <= j < xs.len() && xs[j] == #[trigger] out[k];
            assert(xs[j] == n[k]);
        } else if k == p {
            assert(xs[c] == n[k]);
        } else {
            let j = choose|j: int| c + 1 <= j < xs.len() && xs[j] == #[trigger] out[k - 1];
            assert(xs[j] == n[k]);
        }
    }
    assert forall|j: int| c <= j < xs.len() implies exists|k: int| 0 <= k < n.len() && n[k] == #[trigger] xs[j] by {
        if j == c {
            assert(n[p] == xs[j]);
        } else {
            let k0 = choose|k: int| 0 <= k < out.len() && out[k] == #[trigger] xs[j];
            if k0 < p {
                assert(n[k0] == xs[j]);
            } else {
                assert(n[k0 + 1] == xs[j]);
            }
        }
    }
}

proof fn lemma_names_differ(out: Seq<M4CaseRecord>, xs: Seq<M4CaseRecord>, c: int)
    requires
        0 <= c < xs.len(),
        holds_from(out, xs, c + 1),
        forall|a: int, b: int|
            #![trigger xs[a], xs[b]]
            0 <= a < b < xs.len() ==> xs[a].name@ != xs[b].name@,
    ensures
        forall|k: int| 0 <= k < out.len() ==> (#[trigger] out[k]).name@ != xs[c].name@,
{
    assert forall|k: int| 0 <= k < out.len() implies (#[trigger] out[k]).name@ != xs[c].name@ by {
        let j = choose|j: int| c + 1 <= j < xs.len() && xs[j] == #[trigger] out[k];
        assert(xs[c].name@ != xs[j].name@);
    }
}

/// The cases ordered by name.
fn sort_cases(cases: Vec<M4CaseRecord>) -> (r: Vec<M4CaseRecord>)
    requires
        forall|a: int, b: int|
            #![trigger cases@[a], cases@[b]]
            0 <= a < b < cases@.len() ==> cases@[a].name@ != cases@[b].name@,
    ensures
        sorted_arrangement(r@, cases@),
{
    let ghost xs = cases@;
    let mut rest = cases;
    let mut out: Vec<M4CaseRecord> = Vec::new();
    assert(xs.take(xs.len() as int) =~= xs);
    while rest.len() > 0
        invariant
            rest@.len() <= xs.len(),
            rest@ == xs.take(rest@.len() as int),
            forall|a: int, b: int|
                #![trigger xs[a], xs[b]]
                0 <= a < b < xs.len() ==> xs[a].name@ != xs[b].name@,
            out@.len() == xs.len() - rest@.len(),
            sorted_by_name(out@),
            holds_from(out@, xs, rest@.len() as int),
        decreases rest@.len(),
    {
        let ghost before = rest@;
        let x = rest.pop().unwrap();
        let ghost c = rest@.len() as int;
        assert(x == xs[c]) by {
            assert(before[c] == xs.take(c + 1)[c]);
        }
        assert(rest@ =~= xs.take(c));
        proof {
            lemma_names_differ(out@, xs, c);
        }
        let p = insertion_point(&out, &x);
        let ghost old_out = out@;
        out.insert(p, x);
        proof {
            lemma_insert_sorted(old_out, p as int, x);
            lemma_insert_holds(old_out, p as int, xs, c);
        }
    }
    out
}

/// Aggregates the three proof partials with the preflight into the benchmark report.
pub fn aggregate_m4_reports(preflight: M4PreflightReport, partials: Vec<M4ProofPartialReport>) -> (r:
    Result<M4BenchmarkReport, M4ReportError>)
    ensures
        match aggregate_failure(preflight, partials@) {
            Some(e) => r == Err::<M4BenchmarkReport, M4ReportError>(e),
            None => r matches Ok(rep) && aggregated(rep, preflight, partials@),
        },
{
    if partials.len() != 3 {
        return Err(M4ReportError::PartialCount);
    }
    let mut i: usize = 0;
    while i < partials.len()
        invariant
            partials@.len() == 3,
            0 <= i <= partials@.len(),
            forall|a: int| 0 <= a < i ==> partial_metadata_matches(#[trigger] partials@[a], preflight),
        decreases partials@.len() - i,
    {
        if !metadata_ok(&partials[i], &preflight) {
            assert(!partial_metadata_matches(partials@[i as int], preflight));
            assert(!(forall|a: int|
                0 <= a < partials@.len() ==> partial_metadata_matches(#[trigger] partials@[a], preflight)));
            assert(aggregate_failure(preflight, partials@) == Some(M4ReportError::PartialMetadataMismatch));
            return Err(M4ReportError::PartialMetadataMismatch);
        }
        i = i + 1;
    }
    if !partial_set_ok(&partials) {
        return Err(M4ReportError::IncompletePartialSet);
    }
    let collected = match collect_cases(&preflight, &partials) {
        Ok(v) => v,
        Err(e) => return Err(e),
    };
    proof {
        lemma_no_case_error_distinct(proof_cases(partials@), preflight.cases@, proof_cases(partials@).len());
    }
    let cases = sort_cases(collected);
    let count = m4_case_count();
    assert(case_table().len() == 6);
    if cases.len() != count {
        return Err(M4ReportError::MissingCases);
    }
    let reuse = one_commitment_exec(&cases, "arithmetic") && one_commitment_exec(&cases, "branch");
    let complete = preflight.complete && cases.len() == count && all_cases_ok(&cases) && reuse;
    let ready = complete && preflight.jambda_provenance_verified && !preflight.git_dirty
        && preflight.translation_version == TRANSLATION_VERSION && text_is(
        &preflight.guest_toolchain,
        OPENVM_PINNED_GUEST_TOOLCHAIN,
    ) && text_is(&preflight.openvm_revision, OPENVM_REVISION);
    let M4PreflightReport {
        translation_version,
        zk_jam_revision,
        git_dirty,
        jambda_repository,
        jambda_revision,
        jambda_provenance_verified,
        openvm_version,
        openvm_revision,
        guest_toolchain,
        backend,
        ..
    } = preflight;
    Ok(
        M4BenchmarkReport {
            schema_version: "m4-proven-translation-v1".to_owned(),
            translation_version,
            zk_jam_revision,
            git_dirty,
            jambda_repository,
            jambda_revision,
            jambda_provenance_verified,
            openvm_version,
            openvm_revision,
            guest_toolchain,
            backend,
            samples: 1,
            warmup: 0,
            programs: 3,
            cases,
            program_reuse_verified: reuse,
            complete,
            publication_ready: ready,
        },
    )
}

/// An aggregated report passes the benchmark report's consistency rules whenever the preflight
/// was complete, the cases reuse one program per workload, and the preflight ran the pinned
/// OpenVM revision.
pub proof fn lemma_aggregated_report_validates(
    rep: M4BenchmarkReport,
    pre: M4PreflightReport,
    ps: Seq<M4ProofPartialReport>,
)
    requires
        aggregated(rep, pre, ps),
        pre.complete,
        program_reuse(rep.cases@),
        pre.openvm_revision@ == OPENVM_REVISION@,
    ensures
        m4_report_check(rep) == Ok::<(), M4ReportError>(()),
{
}

// ---------------------------------------------------------------------------------------------
// Decisions of a proving run
// ---------------------------------------------------------------------------------------------
/// The 32-byte output a case expects: its reference word, little-endian, then zeros.
pub open spec fn expected_output_bytes(reference_output: u32) -> Seq<u8> {
    le32(reference_output) + Seq::new(28, |i: int| 0u8)
}

/// What one proved case establishes.
#[derive(Clone, Copy, Debug, PartialEq, Eq, Structural)]
pub struct M4CaseBindings {
    pub program_binding_verified: bool,
    pub input_binding_verified: bool,
    pub output_matches_reference: bool,
    pub complete: bool,
}

/// The bindings of a case: the proof reveals the PVM program commitment and the input
/// commitment, both the proof and the execution reveal the expected output, and a case is
/// complete when, besides, its proof verified.
pub open spec fn case_bindings(
    proof_verified: bool,
    pvm_commitment: Seq<u8>,
    input_commitment: Seq<u8>,
    reference_output: u32,
    proof_values: PublicValuesModel,
    execution_values: PublicValuesModel,
) -> M4CaseBindings {
    let program = proof_values.program_commitment == pvm_commitment;
    let input = proof_values.input_commitment == input_commitment;
    let output = proof_values.output == expected_output_bytes(reference_output)
        && execution_values.output == expected_output_bytes(reference_output);
    M4CaseBindings {
        program_binding_verified: program,
        input_binding_verified: input,
        output_matches_reference: output,
        complete: proof_verified && program && input && output,
    }
}

/// The expected output of a case with the given reference word.
pub fn m4_expected_output(reference_output: u32) -> (r: [u8; 32])
    ensures
        r@ == expected_output_bytes(reference_output),
{
    let word = vstd::bytes::u32_to_le_bytes(reference_output);
    proof {
        crate::codec::lemma_le32(reference_output);
    }
    let mut out = [0u8; 32];
    let mut i: usize = 0;
    while i < 4
        invariant
            0 <= i <= 4,
            word@ == le32(reference_output),
            word@.len() == 4,
            forall|k: int| 0 <= k < i ==> out@[k] == word@[k],
            forall|k: int| 4 <= k < 32 ==> out@[k] == 0,
        decreases 4 - i,
    {
        out[i] = word[i];
        i = i + 1;
    }
    assert(out@ =~= expected_output_bytes(reference_output));
    out
}

/// Decides the bindings of one proved case from what its proof and its execution revealed.
pub fn m4_case_bindings(
    proof_verified: bool,
    pvm_commitment: &[u8; 32],
    input_commitment: &[u8; 32],
    reference_output: u32,
    proof_values: &M4PublicValuesV1,
    execution_values: &M4PublicValuesV1,
) -> (r: M4CaseBindings)
    ensures
        r == case_bindings(
            proof_verified,
            pvm_commitment@,
            input_commitment@,
            reference_output,
            proof_values@,
            execution_values@,
        ),
{
    let expected = m4_expected_output(reference_output);
    let program = same32(&proof_values.program_commitment, pvm_commitment);
    let input = same32(&proof_values.input_commitment, input_commitment);
    let output = same32(&proof_values.output, &expected) && same32(&execution_values.output, &expected);
    M4CaseBindings {
        program_binding_verified: program,
        input_binding_verified: input,
        output_matches_reference: output,
        complete: proof_verified && program && input && output,
    }
}

/// The bindings of a case proved program by program: both the proof and the execution reveal
/// the PVM program commitment, the input commitment and the expected output, and a case is
/// complete when, besides, its proof verified.
pub open spec fn proof_program_bindings(
    proof_verified: bool,
    pvm_commitment: Seq<u8>,
    input_commitment: Seq<u8>,
    reference_output: u32,
    proof_values: PublicValuesModel,
    execution_values: PublicValuesModel,
) -> M4CaseBindings {
    let program = proof_values.program_commitment == pvm_commitment
        && execution_values.program_commitment == pvm_commitment;
    let input = proof_values.input_commitment == input_commitment
        && execution_values.input_commitment == input_commitment;
    let output = proof_values.output == expected_output_bytes(reference_output)
        && execution_values.output == expected_output_bytes(reference_output);
    M4CaseBindings {
        program_binding_verified: program,
        input_binding_verified: input,
        output_matches_reference: output,
        complete: proof_verified && program && input && output,
    }
}

/// Decides the bindings of one case proved program by program, from what its proof and its
/// execution revealed.
pub fn m4_proof_program_bindings(
    proof_verified: bool,
    pvm_commitment: &[u8; 32],
    input_commitment: &[u8; 32],
    reference_output: u32,
    proof_values: &M4PublicValuesV1,
    execution_values: &M4PublicValuesV1,
) -> (r: M4CaseBindings)
    ensures
        r == proof_program_bindings(
            proof_verified,
            pvm_commitment@,
            input_commitment@,
            reference_output,
            proof_values@,
            execution_values@,
        ),
{
    let expected = m4_expected_output(reference_output);
    let program = same32(&proof_values.program_commitment, pvm_commitment) && same32(
        &execution_values.program_commitment,
        pvm_commitment,
    );
    let input = same32(&proof_values.input_commitment, input_commitment) && same32(
        &execution_values.input_commitment,
        input_commitment,
    );
    let output = same32(&proof_values.output, &expected) && same32(&execution_values.output, &expected);
    M4CaseBindings {
        program_binding_verified: program,
        input_binding_verified: input,
        output_matches_reference: output,
        complete: proof_verified && program && input && output,
    }
}

/// A proving run is complete when it proved every case of the table and each is complete.
pub open spec fn run_complete(cases: Seq<M4CaseRecord>) -> bool {
    &&& cases.len() == case_table().len()
    &&& forall|i: int| 0 <= i < cases.len() ==> (#[trigger] cases[i]).complete
}

/// A complete run is ready for publication when the Jambda provenance verified, the worktree
/// was clean, the revision is a full 40-character commit id, and the pinned OpenVM version,
/// revision and guest toolchain are those of this build.
pub open spec fn run_publication_ready(
    complete: bool,
    provenance_verified: bool,
    git_dirty: bool,
    zk_jam_revision: Seq<u8>,
) -> bool {
    &&& complete
    &&& provenance_verified
    &&& !git_dirty
    &&& zk_jam_revision.len() == 40
    &&& OPENVM_VERSION@ == "2.0.1"@
    &&& OPENVM_REVISION.spec_bytes().len() == 40
    &&& OPENVM_PINNED_GUEST_TOOLCHAIN@ == "nightly-2026-01-18"@
}

/// Decides whether a proving run is complete and whether it is ready for publication.
pub fn m4_run_readiness(
    cases: &[M4CaseRecord],
    provenance_verified: bool,
    git_dirty: bool,
    zk_jam_revision: &str,
) -> (r: (bool, bool))
    ensures
        r.0 == run_complete(cases@),
        r.1 == run_publication_ready(r.0, provenance_verified, git_dirty, zk_jam_revision.spec_bytes()),
{
    let count = m4_case_count();
    let mut all = true;
    let mut i: usize = 0;
    while i < cases.len()
        invariant
            0 <= i <= cases@.len(),
            all == forall|k: int| 0 <= k < i ==> (#[trigger] cases@[k]).complete,
        decreases cases@.len() - i,
    {
        all = all && cases[i].complete;
        i = i + 1;
    }
    let complete = cases.len() == count && all;
    let ready = complete && provenance_verified && !git_dirty && zk_jam_revision.as_bytes().len()
        == 40 && same_text(OPENVM_VERSION, "2.0.1") && OPENVM_REVISION.as_bytes().len() == 40
        && same_text(OPENVM_PINNED_GUEST_TOOLCHAIN, "nightly-2026-01-18");
    (complete, ready)
}

/// What a complete report vouches for: six cases, each without error, proved, verified,
/// bound to its program and input, and matching its reference output.
pub open spec fn every_case_proved(cases: Seq<M4CaseRecord>) -> bool {
    &&& cases.len() == 6
    &&& forall|i: int|
        0 <= i < cases.len() ==> {
            &&& (#[trigger] cases[i]).error is None
            &&& cases[i].complete
            &&& cases[i].proof_verified
            &&& cases[i].program_binding_verified
            &&& cases[i].input_binding_verified
            &&& cases[i].output_matches_reference
        }
}

/// A benchmark report is publication-ready only when it is complete, its Jambda provenance is
/// verified, its worktree was clean, and it was built by this translation version with the
/// pinned guest toolchain; and a complete report is complete only when every one of six cases
/// was proved. This holds of every report that `validate_m4_report` accepts, and of every
/// report that aggregation produces, which besides needs the pinned OpenVM revision and is
/// ready whenever all these hold.
pub proof fn lemma_publication_ready_requirements(
    r: M4BenchmarkReport,
    rep: M4BenchmarkReport,
    pre: M4PreflightReport,
    ps: Seq<M4ProofPartialReport>,
)
    ensures
        m4_report_check(r) is Ok && r.publication_ready ==> {
            &&& r.complete
            &&& r.jambda_provenance_verified
            &&& !r.git_dirty
            &&& r.translation_version == TRANSLATION_VERSION
            &&& r.guest_toolchain@ == OPENVM_PINNED_GUEST_TOOLCHAIN@
        },
        m4_report_check(r) is Ok && r.complete ==> every_case_proved(r.cases@),
        aggregated(rep, pre, ps) && rep.publication_ready ==> {
            &&& rep.complete
            &&& rep.jambda_provenance_verified
            &&& !rep.git_dirty
            &&& rep.translation_version == TRANSLATION_VERSION
            &&& rep.guest_toolchain@ == OPENVM_PINNED_GUEST_TOOLCHAIN@
            &&& rep.openvm_revision@ == OPENVM_REVISION@
        },
        aggregated(rep, pre, ps) && rep.complete ==> pre.complete && every_case_proved(rep.cases@)
            && rep.program_reuse_verified,
        aggregated(rep, pre, ps) && rep.complete && rep.jambda_provenance_verified && !rep.git_dirty
            && rep.translation_version == TRANSLATION_VERSION && rep.guest_toolchain@
            == OPENVM_PINNED_GUEST_TOOLCHAIN@ && rep.openvm_revision@ == OPENVM_REVISION@
            ==> rep.publication_ready,
{
}

/// A proving run is publication-ready only when it is complete, its Jambda provenance is
/// verified, its worktree was clean and its revision is a full commit id; and it is complete
/// only when every case of the table was proved complete.
pub proof fn lemma_run_readiness_requirements(
    cases: Seq<M4CaseRecord>,
    complete: bool,
    provenance_verified: bool,
    git_dirty: bool,
    revision: Seq<u8>,
)
    ensures
        run_publication_ready(complete, provenance_verified, git_dirty, revision) ==> complete
            && provenance_verified && !git_dirty && revision.len() == 40,
        run_complete(cases) ==> cases.len() == case_table().len() && forall|i: int|
            0 <= i < cases.len() ==> (#[trigger] cases[i]).complete,
{
}

} // verus!
