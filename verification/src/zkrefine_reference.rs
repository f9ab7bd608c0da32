//! The ZkRefine Profile v1 reference run, before and after proving: the provenance and
//! canonical form of the reference fixture, the statement it commits to, the binding of the
//! reference work report, the tampered statements a proof must reject, and the acceptance
//! report of a proved run.
use crate::case::{
    bytes_list_view, decode_case, enc_bytes_list, enc_case, enc_profile,
    lemma_decoded_case_encodable, CaseModel, RefineCaseV1,
};
use crate::codec::{CanonicalCodec, CodecError};
use crate::hashing::{blake2b_256, blake2b_256_digest, keccak256, keccak256_digest, sha256, zkrefine_hash};
use crate::hex::{hex, hex_chars};
use crate::program_codec::{enc_program, lemma_program_instructions_within};
use crate::refine_result::{
    decode_result, enc_result, lemma_decoded_result_encodable, RefineResultV0, ResultModel,
};
use crate::zkrefine::{
    decode_exports, statement_bytes, statement_from, zkrefine_exports_commitment,
    zkrefine_profile_id, zkrefine_result_commitment, StatementV1Model, ZkRefineExportsV1,
    ZkRefineStatementV1, ZKREFINE_CASE_DOMAIN, ZKREFINE_EXPORTS_DOMAIN, ZKREFINE_PROFILE_DOMAIN,
    ZKREFINE_RESULT_DOMAIN,
};
use crate::text::text_is;
use crate::zkrefine_fixture::{validate_zkrefine_case, zkrefine_case_check, ZkRefineFixtureError};
use vstd::prelude::*;
use vstd::string::StringSliceAdditionalSpecFns;

verus! {

pub const ZKREFINE_REPORT_SCHEMA: &'static str = "zk-jam/zkrefine-report/v1";

pub const ZKREFINE_PROFILE: &'static str = "zk-jam/zkrefine/import-export/v1";

/// The size of the one exported segment.
pub const SEGMENT_BYTES: usize = 4104;

/// The reference client revision that produced the fixture.
pub const REFERENCE_REVISION: &'static str = "b850a458fa00da81e80be4cc84ddd7d2222f1edc";

pub const REFERENCE_CASE_SCHEMA: &'static str = "zk-jam/reference-case/v1";

pub const REFERENCE_CLIENT: &'static str = "Jambda";

pub const REFERENCE_JAM_SEMANTICS: &'static str = "0.7.2";

pub const WORK_REPORT_REFERENCE_SCHEMA: &'static str = "zk-jam/work-report-reference/v1";

/// The work report that the reference client produced for the fixture, hex fields as text.
#[derive(Clone, Debug)]
pub struct WorkReportReference {
    pub schema: String,
    pub package_hash: String,
    pub result: String,
    pub exports_root: String,
    pub exports_count: u16,
}

pub struct WorkReportReferenceModel {
    pub schema: Seq<char>,
    pub package_hash: Seq<char>,
    pub result: Seq<char>,
    pub exports_root: Seq<char>,
    pub exports_count: u16,
}

impl View for WorkReportReference {
    type V = WorkReportReferenceModel;

    open spec fn view(&self) -> WorkReportReferenceModel {
        WorkReportReferenceModel {
            schema: self.schema@,
            package_hash: self.package_hash@,
            result: self.result@,
            exports_root: self.exports_root@,
            exports_count: self.exports_count,
        }
    }
}

/// Where the fixture comes from and what it exercises.
#[derive(Clone, Debug)]
pub struct ReferenceProvenance {
    pub schema: String,
    pub reference_client: String,
    pub reference_revision: String,
    pub jam_semantics: String,
    pub profile: String,
    pub work_items: usize,
    pub fetch_host_call: u32,
    pub fetch_modes: Vec<u32>,
    pub export_host_call: u32,
    pub segment_bytes: usize,
}

pub struct ProvenanceModel {
    pub schema: Seq<char>,
    pub reference_client: Seq<char>,
    pub reference_revision: Seq<char>,
    pub jam_semantics: Seq<char>,
    pub profile: Seq<char>,
    pub work_items: usize,
    pub fetch_host_call: u32,
    pub fetch_modes: Seq<u32>,
    pub export_host_call: u32,
    pub segment_bytes: usize,
}

impl View for ReferenceProvenance {
    type V = ProvenanceModel;

    open spec fn view(&self) -> ProvenanceModel {
        ProvenanceModel {
            schema: self.schema@,
            reference_client: self.reference_client@,
            reference_revision: self.reference_revision@,
            jam_semantics: self.jam_semantics@,
            profile: self.profile@,
            work_items: self.work_items,
            fetch_host_call: self.fetch_host_call,
            fetch_modes: self.fetch_modes@,
            export_host_call: self.export_host_call,
            segment_bytes: self.segment_bytes,
        }
    }
}

#[derive(Clone, Debug)]
pub struct ExecutionSummary {
    pub work_items: usize,
    pub fetch_id: u32,
    pub fetch_modes: Vec<u32>,
    pub export_id: u32,
    pub segment_bytes: usize,
}

#[derive(Clone, Debug)]
pub struct ReferenceValidation {
    pub client: String,
    pub revision: String,
    pub result_match: bool,
    pub exports_match: bool,
}

#[derive(Clone, Copy, Debug, PartialEq, Eq, Structural)]
pub struct ProofValidation {
    pub verified: bool,
    pub serialized_reload_verified: bool,
    pub bytes: usize,
}

#[derive(Clone, Copy, Debug, PartialEq, Eq, Structural)]
pub struct WorkReportValidation {
    pub package_hash_match: bool,
    pub result_match: bool,
    pub exports_root_match: bool,
    pub exports_count_match: bool,
    pub gas_verified: bool,
}

#[derive(Clone, Copy, Debug, PartialEq, Eq, Structural)]
pub struct TamperValidation {
    pub case_rejected: bool,
    pub result_rejected: bool,
    pub exports_rejected: bool,
    pub statement_rejected: bool,
}

#[derive(Clone, Copy, Debug, PartialEq, Eq, Structural)]
pub struct ZkRefineScope {
    pub gas_proof: bool,
    pub historical_lookup: bool,
    pub inner_pvm: bool,
    pub aggregation: bool,
}

/// The acceptance report of a proved ZkRefine run.
#[derive(Clone, Debug)]
pub struct ZkRefineReportV1 {
    pub schema: String,
    pub verified: bool,
    pub profile: String,
    pub jam_semantics: String,
    pub execution: ExecutionSummary,
    pub reference: ReferenceValidation,
    pub proof: ProofValidation,
    pub work_report: WorkReportValidation,
    pub tamper: TamperValidation,
    pub capabilities: ZkRefineScope,
}

/// Why the reference fixture, or a proved run over it, is refused.
#[derive(Clone, Debug, PartialEq, Eq)]
pub enum ZkRefineReferenceError {
    ProvenanceOutsideProfile,
    UnsupportedWorkReportSchema,
    Case(CodecError),
    CaseOutsideProfile(ZkRefineFixtureError),
    CaseNotCanonical,
    Result(CodecError),
    ResultNotCanonical,
    Exports(CodecError),
    ExportsNotOneSegment,
    WorkReportUnbound,
    NotZkRefineProof,
    PublicValues(CodecError),
    StatementMismatch,
    AcceptanceFailed,
}

/// The provenance names the reference client and revision, this profile and JAM 0.7.2, one
/// work item fetching in mode 6 only through host call 1 and exporting through host call 7,
/// and segments of `SEGMENT_BYTES`.
pub open spec fn provenance_in_profile(p: ProvenanceModel) -> bool {
    &&& p.schema == REFERENCE_CASE_SCHEMA@
    &&& p.reference_client == REFERENCE_CLIENT@
    &&& p.reference_revision == REFERENCE_REVISION@
    &&& p.profile == ZKREFINE_PROFILE@
    &&& p.jam_semantics == REFERENCE_JAM_SEMANTICS@
    &&& p.work_items == 1
    &&& p.fetch_host_call == 1
    &&& p.fetch_modes.len() == 1
    &&& p.fetch_modes[0] == 6
    &&& p.export_host_call == 7
    &&& p.segment_bytes == SEGMENT_BYTES
}

/// The exports root: the Keccak-256 digest of the first exported segment (of nothing when
/// there is none).
pub open spec fn exports_root_of(exports: Seq<Seq<u8>>) -> Seq<u8> {
    keccak256(
        if exports.len() > 0 {
            exports[0]
        } else {
            Seq::empty()
        },
    )
}

/// The reference work report names the package hash, the result bytes and the exports root of
/// the fixture, each as lower-case hexadecimal text.
pub open spec fn work_report_binds(
    wr: WorkReportReferenceModel,
    c: CaseModel,
    result_bytes: Seq<u8>,
    exports: Seq<Seq<u8>>,
) -> bool {
    &&& wr.result == hex_chars(result_bytes)
    &&& wr.exports_root == hex_chars(exports_root_of(exports))
    &&& wr.package_hash == hex_chars(blake2b_256(c.work_package))
}

/// The first reason the reference fixture is refused, checked in this order: provenance, work
/// report schema, case decoding, case profile, case canonical form, result decoding, result
/// canonical form, exports decoding, one segment of `SEGMENT_BYTES`, work report binding.
pub open spec fn reference_failure(
    case_bytes: Seq<u8>,
    result_bytes: Seq<u8>,
    exports_bytes: Seq<u8>,
    wr: WorkReportReferenceModel,
    pv: ProvenanceModel,
) -> Option<ZkRefineReferenceError> {
    if !provenance_in_profile(pv) {
        Some(ZkRefineReferenceError::ProvenanceOutsideProfile)
    } else if wr.schema != WORK_REPORT_REFERENCE_SCHEMA@ {
        Some(ZkRefineReferenceError::UnsupportedWorkReportSchema)
    } else {
        match decode_case(case_bytes) {
            Err(e) => Some(ZkRefineReferenceError::Case(e)),
            Ok(c) => match zkrefine_case_check(c) {
                Err(f) => Some(ZkRefineReferenceError::CaseOutsideProfile(f)),
                Ok(_) => if enc_case(c) != case_bytes {
                    Some(ZkRefineReferenceError::CaseNotCanonical)
                } else {
                    match decode_result(result_bytes) {
                        Err(e) => Some(ZkRefineReferenceError::Result(e)),
                        Ok(res) => if enc_result(res) != result_bytes {
                            Some(ZkRefineReferenceError::ResultNotCanonical)
                        } else {
                            match decode_exports(exports_bytes) {
                                Err(e) => Some(ZkRefineReferenceError::Exports(e)),
                                Ok(ex) => if ex.len() != 1 || ex[0].len() != SEGMENT_BYTES {
                                    Some(ZkRefineReferenceError::ExportsNotOneSegment)
                                } else if !work_report_binds(wr, c, result_bytes, ex) {
                                    Some(ZkRefineReferenceError::WorkReportUnbound)
                                } else {
                                    None
                                },
                            }
                        },
                    }
                },
            },
        }
    }
}

/// The statement the fixture commits to: the profile identifier and the commitments to the
/// case bytes, the result and the exports.
pub open spec fn expected_statement(
    case_bytes: Seq<u8>,
    c: CaseModel,
    res: ResultModel,
    exports: Seq<Seq<u8>>,
) -> StatementV1Model {
    StatementV1Model {
        profile_id: sha256(ZKREFINE_PROFILE_DOMAIN.spec_bytes() + enc_profile(c.profile)),
        case_commitment: sha256(ZKREFINE_CASE_DOMAIN.spec_bytes() + case_bytes),
        result_commitment: sha256(ZKREFINE_RESULT_DOMAIN.spec_bytes() + enc_result(res)),
        exports_commitment: sha256(ZKREFINE_EXPORTS_DOMAIN.spec_bytes() + enc_bytes_list(exports)),
    }
}

/// The checked reference fixture and what it commits to.
pub struct ZkRefineReference {
    pub case: RefineCaseV1,
    pub result: RefineResultV0,
    pub exports: Vec<Vec<u8>>,
    pub expected: ZkRefineStatementV1,
    pub reference: ReferenceValidation,
    pub work_report: WorkReportValidation,
}

pub(crate) fn same_bytes(a: &[u8], b: &[u8]) -> (r: bool)
    ensures
        r == (a@ == b@),
{
    if a.len() != b.len() {
        return false;
    }
    let mut i: usize = 0;
    while i < a.len()
        invariant
            a@.len() == b@.len(),
            0 <= i <= a@.len(),
            forall|k: int| 0 <= k < i ==> a@[k] == b@[k],
        decreases a@.len() - i,
    {
        if a[i] != b[i] {
            return false;
        }
        i = i + 1;
    }
    assert(a@ =~= b@);
    true
}

fn provenance_ok(p: &ReferenceProvenance) -> (r: bool)
    ensures
        r == provenance_in_profile(p@),
{
    text_is(&p.schema, REFERENCE_CASE_SCHEMA) && text_is(&p.reference_client, REFERENCE_CLIENT)
        && text_is(&p.reference_revision, REFERENCE_REVISION) && text_is(
        &p.profile,
        ZKREFINE_PROFILE,
    ) && text_is(&p.jam_semantics, REFERENCE_JAM_SEMANTICS) && p.work_items == 1
        && p.fetch_host_call == 1 && p.fetch_modes.len() == 1 && p.fetch_modes[0] == 6
        && p.export_host_call == 7 && p.segment_bytes == SEGMENT_BYTES
}

/// The Keccak-256 exports root of the first exported segment.
fn exports_root(exports: &[Vec<u8>]) -> (r: [u8; 32])
    ensures
        r@ == exports_root_of(bytes_list_view(exports@)),
{
    if exports.len() > 0 {
        keccak256_digest(exports[0].as_slice())
    } else {
        let empty: Vec<u8> = Vec::new();
        keccak256_digest(empty.as_slice())
    }
}

/// Checks the reference fixture (the case, result and exports bytes, the reference work
/// report and the provenance) and computes the statement a proof of it must reveal.
pub fn check_zkrefine_reference(
    case_bytes: &[u8],
    result_bytes: &[u8],
    exports_bytes: &[u8],
    work_report: &WorkReportReference,
    provenance: &ReferenceProvenance,
) -> (r: Result<ZkRefineReference, ZkRefineReferenceError>)
    ensures
        match r {
            Err(e) => reference_failure(
                case_bytes@,
                result_bytes@,
                exports_bytes@,
                work_report@,
                provenance@,
            ) == Some(e),
            Ok(v) => {
                &&& reference_failure(
                    case_bytes@,
                    result_bytes@,
                    exports_bytes@,
                    work_report@,
                    provenance@,
                ) is None
                &&& v.case@ == decode_case(case_bytes@)->Ok_0
                &&& v.result@ == decode_result(result_bytes@)->Ok_0
                &&& bytes_list_view(v.exports@) == decode_exports(exports_bytes@)->Ok_0
                &&& v.expected@ == expected_statement(
                    case_bytes@,
                    v.case@,
                    v.result@,
                    bytes_list_view(v.exports@),
                )
                &&& v.reference.client@ == provenance.reference_client@
                &&& v.reference.revision@ == provenance.reference_revision@
                &&& v.reference.result_match
                &&& v.reference.exports_match
                &&& v.work_report == (WorkReportValidation {
                    package_hash_match: true,
                    result_match: true,
                    exports_root_match: true,
                    exports_count_match: work_report.exports_count == 1,
                    gas_verified: false,
                })
            },
        },
{
    if !provenance_ok(provenance) {
        return Err(ZkRefineReferenceError::ProvenanceOutsideProfile);
    }
    if !text_is(&work_report.schema, WORK_REPORT_REFERENCE_SCHEMA) {
        return Err(ZkRefineReferenceError::UnsupportedWorkReportSchema);
    }
    let case = match RefineCaseV1::decode_canonical(case_bytes) {
        Ok(c) => c,
        Err(e) => return Err(ZkRefineReferenceError::Case(e)),
    };
    proof {
        lemma_decoded_case_encodable(case_bytes@);
        lemma_program_instructions_within(case@.program);
        assert(enc_program(case@.program).len() <= enc_case(case@).len());
    }
    match validate_zkrefine_case(&case) {
        Ok(()) => {},
        Err(f) => return Err(ZkRefineReferenceError::CaseOutsideProfile(f)),
    }
    let encoded_case = case.encode_canonical();
    if !same_bytes(encoded_case.as_slice(), case_bytes) {
        return Err(ZkRefineReferenceError::CaseNotCanonical);
    }
    let result = match RefineResultV0::decode_canonical(result_bytes) {
        Ok(v) => v,
        Err(e) => return Err(ZkRefineReferenceError::Result(e)),
    };
    proof {
        lemma_decoded_result_encodable(result_bytes@);
    }
    let encoded_result = result.encode_canonical();
    if !same_bytes(encoded_result.as_slice(), result_bytes) {
        return Err(ZkRefineReferenceError::ResultNotCanonical);
    }
    let exports = match ZkRefineExportsV1::decode_canonical(exports_bytes) {
        Ok(v) => v.0,
        Err(e) => return Err(ZkRefineReferenceError::Exports(e)),
    };
    let ghost ex = bytes_list_view(exports@);
    if exports.len() != 1 || exports[0].len() != SEGMENT_BYTES {
        return Err(ZkRefineReferenceError::ExportsNotOneSegment);
    }
    assert(ex[0] == exports@[0]@);
    let package_hash = hex(&blake2b_256_digest(case.work_package.as_slice()));
    let result_hex = hex(result_bytes);
    let exports_root_hex = hex(&exports_root(exports.as_slice()));
    let expected = ZkRefineStatementV1 {
        profile_id: zkrefine_profile_id(&case.profile),
        case_commitment: zkrefine_hash(ZKREFINE_CASE_DOMAIN.as_bytes(), case_bytes),
        result_commitment: zkrefine_result_commitment(&result),
        exports_commitment: zkrefine_exports_commitment(exports.as_slice()),
    };
    let result_match = work_report.result == result_hex;
    let exports_match = work_report.exports_root == exports_root_hex;
    let package_hash_match = work_report.package_hash == package_hash;
    let reference = ReferenceValidation {
        client: provenance.reference_client.clone(),
        revision: provenance.reference_revision.clone(),
        result_match,
        exports_match,
    };
    let validation = WorkReportValidation {
        package_hash_match,
        result_match,
        exports_root_match: exports_match,
        exports_count_match: work_report.exports_count == 1,
        gas_verified: false,
    };
    if !result_match || !exports_match || !package_hash_match {
        return Err(ZkRefineReferenceError::WorkReportUnbound);
    }
    Ok(
        ZkRefineReference {
            case,
            result,
            exports,
            expected,
            reference,
            work_report: validation,
        },
    )
}

/// Which statement value a tampering flips.
#[derive(Clone, Copy, Debug, PartialEq, Eq, Structural)]
pub enum TamperTarget {
    Case,
    Result,
    Exports,
    Statement,
}

/// `bytes` with the low bit of its first byte flipped.
pub open spec fn flip_first(bytes: Seq<u8>) -> Seq<u8> {
    bytes.update(0, bytes[0] ^ 1u8)
}

/// The statement with the low bit of the first byte of one value flipped: the case, result or
/// exports commitment, or, for `Statement`, the profile identifier.
pub open spec fn tampered(v: StatementV1Model, target: TamperTarget) -> StatementV1Model {
    match target {
        TamperTarget::Case => StatementV1Model { case_commitment: flip_first(v.case_commitment), ..v },
        TamperTarget::Result => StatementV1Model {
            result_commitment: flip_first(v.result_commitment),
            ..v
        },
        TamperTarget::Exports => StatementV1Model {
            exports_commitment: flip_first(v.exports_commitment),
            ..v
        },
        TamperTarget::Statement => StatementV1Model { profile_id: flip_first(v.profile_id), ..v },
    }
}

/// A tampered copy of `expected`.
pub fn tampered_statement(expected: &ZkRefineStatementV1, target: TamperTarget) -> (r:
    ZkRefineStatementV1)
    ensures
        r@ == tampered(expected@, target),
{
    let mut value = *expected;
    match target {
        TamperTarget::Case => {
            value.case_commitment[0] = value.case_commitment[0] ^ 1;
        },
        TamperTarget::Result => {
            value.result_commitment[0] = value.result_commitment[0] ^ 1;
        },
        TamperTarget::Exports => {
            value.exports_commitment[0] = value.exports_commitment[0] ^ 1;
        },
        TamperTarget::Statement => {
            value.profile_id[0] = value.profile_id[0] ^ 1;
        },
    }
    assert(value@.case_commitment =~= tampered(expected@, target).case_commitment);
    assert(value@.result_commitment =~= tampered(expected@, target).result_commitment);
    assert(value@.exports_commitment =~= tampered(expected@, target).exports_commitment);
    assert(value@.profile_id =~= tampered(expected@, target).profile_id);
    value
}

/// A proof verifies against a statement when it is a proof of the ZkRefine guest and its
/// public values decode to exactly that statement.
pub open spec fn statement_check(
    zkrefine_proof: bool,
    public_output: Seq<u8>,
    expected: StatementV1Model,
) -> Result<(), ZkRefineReferenceError> {
    if !zkrefine_proof {
        Err(ZkRefineReferenceError::NotZkRefineProof)
    } else {
        public_values_check(public_output, expected)
    }
}

/// Public values match a statement when they decode to exactly that statement.
pub open spec fn public_values_check(public_output: Seq<u8>, expected: StatementV1Model) -> Result<
    (),
    ZkRefineReferenceError,
> {
    match statement_from(public_output) {
        Err(e) => Err(ZkRefineReferenceError::PublicValues(e)),
        Ok(actual) => if actual == expected {
            Ok(())
        } else {
            Err(ZkRefineReferenceError::StatementMismatch)
        },
    }
}

fn same_array(a: &[u8; 32], b: &[u8; 32]) -> (r: bool)
    ensures
        r == (a@ == b@),
{
    let mut i: usize = 0;
    while i < 32
        invariant
            0 <= i <= 32,
            forall|k: int| 0 <= k < i ==> a@[k] == b@[k],
        decreases 32 - i,
    {
        if a[i] != b[i] {
            return false;
        }
        i = i + 1;
    }
    assert(a@ =~= b@);
    true
}

/// Checks that a proof, of the guest that `zkrefine_proof` says whether it is the ZkRefine
/// guest, reveals exactly the expected statement in its public values.
pub fn verify_statement(
    zkrefine_proof: bool,
    public_output: &[u8],
    expected: &ZkRefineStatementV1,
) -> (r: Result<(), ZkRefineReferenceError>)
    ensures
        r == statement_check(zkrefine_proof, public_output@, expected@),
{
    if !zkrefine_proof {
        return Err(ZkRefineReferenceError::NotZkRefineProof);
    }
    let actual = match ZkRefineStatementV1::decode_openvm(public_output) {
        Ok(v) => v,
        Err(e) => return Err(ZkRefineReferenceError::PublicValues(e)),
    };
    if same_array(&actual.profile_id, &expected.profile_id) && same_array(
        &actual.case_commitment,
        &expected.case_commitment,
    ) && same_array(&actual.result_commitment, &expected.result_commitment) && same_array(
        &actual.exports_commitment,
        &expected.exports_commitment,
    ) {
        Ok(())
    } else {
        Err(ZkRefineReferenceError::StatementMismatch)
    }
}

proof fn lemma_flip_differs(b: u8)
    ensures
        b ^ 1u8 != b,
{
    assert(b ^ 1u8 != b) by (bit_vector);
}

/// A ZkRefine proof that reveals the public values of a statement verifies against it, and
/// against none of its tampered copies.
pub proof fn lemma_tampered_statement_rejected(v: StatementV1Model, target: TamperTarget)
    requires
        v.profile_id.len() == 32,
        v.case_commitment.len() == 32,
        v.result_commitment.len() == 32,
        v.exports_commitment.len() == 32,
    ensures
        statement_check(true, statement_bytes(v), v) == Ok::<(), ZkRefineReferenceError>(()),
        statement_check(true, statement_bytes(v), tampered(v, target))
            == Err::<(), ZkRefineReferenceError>(ZkRefineReferenceError::StatementMismatch),
{
    crate::zkrefine::lemma_statement_roundtrip(v);
    let t = tampered(v, target);
    match target {
        TamperTarget::Case => {
            lemma_flip_differs(v.case_commitment[0]);
            assert(t.case_commitment[0] != v.case_commitment[0]);
        },
        TamperTarget::Result => {
            lemma_flip_differs(v.result_commitment[0]);
            assert(t.result_commitment[0] != v.result_commitment[0]);
        },
        TamperTarget::Exports => {
            lemma_flip_differs(v.exports_commitment[0]);
            assert(t.exports_commitment[0] != v.exports_commitment[0]);
        },
        TamperTarget::Statement => {
            lemma_flip_differs(v.profile_id[0]);
            assert(t.profile_id[0] != v.profile_id[0]);
        },
    }
}

/// A proved run is accepted when the reference matched, the proof verified before and after
/// reloading, the work report is bound, and every tampered statement was rejected.
pub open spec fn run_accepted(
    reference: ReferenceValidation,
    work_report: WorkReportValidation,
    proof: ProofValidation,
    tamper: TamperValidation,
) -> bool {
    &&& reference.result_match
    &&& reference.exports_match
    &&& proof.verified
    &&& proof.serialized_reload_verified
    &&& work_report.package_hash_match
    &&& work_report.result_match
    &&& work_report.exports_root_match
    &&& work_report.exports_count_match
    &&& tamper.case_rejected
    &&& tamper.result_rejected
    &&& tamper.exports_rejected
    &&& tamper.statement_rejected
}

/// The acceptance report of a proved run, refused unless the run is accepted.
pub fn zkrefine_report(
    reference: ReferenceValidation,
    work_report: WorkReportValidation,
    proof: ProofValidation,
    tamper: TamperValidation,
) -> (r: Result<ZkRefineReportV1, ZkRefineReferenceError>)
    ensures
        r is Ok <==> run_accepted(reference, work_report, proof, tamper),
        r is Err ==> r->Err_0 == ZkRefineReferenceError::AcceptanceFailed,
        r matches Ok(report) ==> {
            &&& report.verified
            &&& report.schema@ == ZKREFINE_REPORT_SCHEMA@
            &&& report.profile@ == ZKREFINE_PROFILE@
            &&& report.jam_semantics@ == REFERENCE_JAM_SEMANTICS@
            &&& report.execution.work_items == 1
            &&& report.execution.fetch_id == 1
            &&& report.execution.fetch_modes@ == seq![6u32]
            &&& report.execution.export_id == 7
            &&& report.execution.segment_bytes == SEGMENT_BYTES
            &&& report.reference == reference
            &&& report.proof == proof
            &&& report.work_report == work_report
            &&& report.tamper == tamper
            &&& report.capabilities == (ZkRefineScope {
                gas_proof: false,
                historical_lookup: false,
                inner_pvm: false,
                aggregation: false,
            })
        },
{
    let verified = reference.result_match && reference.exports_match && proof.verified
        && proof.serialized_reload_verified && work_report.package_hash_match
        && work_report.result_match && work_report.exports_root_match
        && work_report.exports_count_match && tamper.case_rejected && tamper.result_rejected
        && tamper.exports_rejected && tamper.statement_rejected;
    if !verified {
        return Err(ZkRefineReferenceError::AcceptanceFailed);
    }
    let fetch_modes = vec![6u32];
    assert(fetch_modes@ =~= seq![6u32]);
    Ok(
        ZkRefineReportV1 {
            schema: ZKREFINE_REPORT_SCHEMA.to_owned(),
            verified,
            profile: ZKREFINE_PROFILE.to_owned(),
            jam_semantics: REFERENCE_JAM_SEMANTICS.to_owned(),
            execution: ExecutionSummary {
                work_items: 1,
                fetch_id: 1,
                fetch_modes,
                export_id: 7,
                segment_bytes: SEGMENT_BYTES,
            },
            reference,
            proof,
            work_report,
            tamper,
            capabilities: ZkRefineScope {
                gas_proof: false,
                historical_lookup: false,
                inner_pvm: false,
                aggregation: false,
            },
        },
    )
}

/// What an accepted reference fixture guarantees: the provenance is this profile's, the case
/// decodes, lies in the profile and is canonical, the result decodes and is canonical, the
/// exports are one segment of `SEGMENT_BYTES`, and the reference work report names the
/// BLAKE2b-256 digest of the work package, the result bytes and the Keccak-256 digest of the
/// segment, each as lower-case hexadecimal text.
pub proof fn lemma_accepted_reference_is_bound(
    case_bytes: Seq<u8>,
    result_bytes: Seq<u8>,
    exports_bytes: Seq<u8>,
    wr: WorkReportReferenceModel,
    pv: ProvenanceModel,
)
    requires
        reference_failure(case_bytes, result_bytes, exports_bytes, wr, pv) is None,
    ensures
        pv.reference_client == REFERENCE_CLIENT@,
        pv.fetch_modes == seq![6u32],
        wr.schema == WORK_REPORT_REFERENCE_SCHEMA@,
        decode_case(case_bytes) is Ok,
        zkrefine_case_check(decode_case(case_bytes)->Ok_0) is Ok,
        enc_case(decode_case(case_bytes)->Ok_0) == case_bytes,
        decode_result(result_bytes) is Ok,
        enc_result(decode_result(result_bytes)->Ok_0) == result_bytes,
        decode_exports(exports_bytes) is Ok,
        decode_exports(exports_bytes)->Ok_0.len() == 1,
        decode_exports(exports_bytes)->Ok_0[0].len() == SEGMENT_BYTES,
        wr.package_hash == hex_chars(blake2b_256(decode_case(case_bytes)->Ok_0.work_package)),
        wr.result == hex_chars(result_bytes),
        wr.exports_root == hex_chars(keccak256(decode_exports(exports_bytes)->Ok_0[0])),
{
    assert(pv.fetch_modes =~= seq![6u32]);
}

} // verus!
