//! The M5 ZkRefine core run over the reference adapter's output: the adapter schema, the
//! canonical case in the single-item mode-6 profile, the reference result, the one exported
//! segment, the binding of the reference work report, the statement a proof must reveal, and
//! the report of a proved run.
use crate::case::{bytes_list_view, decode_case, enc_case, lemma_decoded_case_encodable, CaseModel, RefineCaseV1};
use crate::codec::{CanonicalCodec, CodecError};
use crate::hashing::{blake2b_256, blake2b_256_digest, keccak256, keccak256_digest, zkrefine_hash};
use crate::hex::{decode_hex, even_offsets_start_chars, hex, hex_chars, hex_decoding, HexError};
use crate::program::total_instructions;
use crate::program_codec::{enc_program, lemma_program_instructions_within};
use crate::refine_result::{decode_result, RefineResultV0, ResultModel};
use crate::zkrefine::{
    zkrefine_exports_commitment, zkrefine_profile_id, zkrefine_result_commitment,
    ZkRefineStatementV1, ZKREFINE_CASE_DOMAIN,
};
use crate::zkrefine_fixture::{validate_zkrefine_case, zkrefine_case_check, ZkRefineFixtureError};
use crate::text::text_is;
use crate::zkrefine_reference::{expected_statement, same_bytes, REFERENCE_JAM_SEMANTICS};
use crate::zkrefine::StatementV1Model;
use vstd::prelude::*;
use vstd::string::StringSliceAdditionalSpecFns;
use vstd::utf8::encode_utf8;

verus! {

pub const M5_ADAPTER_SCHEMA: &'static str = "zk-jam/m5/jambda-adapter/v1";

pub const M5_REPORT_SCHEMA: &'static str = "zk-jam/m5-zkrefine/v1";

/// The size of the one imported and the one exported segment.
pub const M5_SEGMENT_BYTES: usize = 4104;

/// What the reference adapter reports: the case, result and exports as hexadecimal text, and
/// the work report's package hash, exports root, exports count and result.
#[derive(Clone, Debug)]
pub struct M5JambdaAdapterOutput {
    pub schema: String,
    pub jambda_repository: String,
    pub jambda_revision: String,
    pub case_hex: String,
    pub reference_result_hex: String,
    pub reference_exports_hex: Vec<String>,
    pub work_package_hash_hex: String,
    pub work_report_package_hash_hex: String,
    pub work_report_exports_root_hex: String,
    pub work_report_exports_count: u16,
    pub work_report_result_hex: String,
}

/// The mathematical value of an `M5JambdaAdapterOutput`.
pub struct M5AdapterModel {
    pub schema: Seq<char>,
    pub jambda_repository: Seq<char>,
    pub jambda_revision: Seq<char>,
    pub case_hex: Seq<char>,
    pub reference_result_hex: Seq<char>,
    pub reference_exports_hex: Seq<Seq<char>>,
    pub work_package_hash_hex: Seq<char>,
    pub work_report_package_hash_hex: Seq<char>,
    pub work_report_exports_root_hex: Seq<char>,
    pub work_report_exports_count: u16,
    pub work_report_result_hex: Seq<char>,
}

impl View for M5JambdaAdapterOutput {
    type V = M5AdapterModel;

    open spec fn view(&self) -> M5AdapterModel {
        M5AdapterModel {
            schema: self.schema@,
            jambda_repository: self.jambda_repository@,
            jambda_revision: self.jambda_revision@,
            case_hex: self.case_hex@,
            reference_result_hex: self.reference_result_hex@,
            reference_exports_hex: self.reference_exports_hex@.map_values(|s: String| s@),
            work_package_hash_hex: self.work_package_hash_hex@,
            work_report_package_hash_hex: self.work_report_package_hash_hex@,
            work_report_exports_root_hex: self.work_report_exports_root_hex@,
            work_report_exports_count: self.work_report_exports_count,
            work_report_result_hex: self.work_report_result_hex@,
        }
    }
}

/// The reference work report: package hash, exports root, exports count and result.
#[derive(Clone, Debug)]
pub struct M5WorkReportEnvelope {
    pub package_hash_hex: String,
    pub exports_root_hex: String,
    pub exports_count: u16,
    pub result_hex: String,
}

#[derive(Clone, Copy, Debug, PartialEq, Eq, Structural)]
pub struct M5Scope {
    pub work_items: usize,
    pub gas_proof: bool,
    pub historical_lookup: bool,
    pub inner_pvm: bool,
    pub aggregation: bool,
}

#[derive(Clone, Debug)]
pub struct M5HostCalls {
    pub fetch: bool,
    pub fetch_id: u32,
    pub fetch_modes: Vec<u32>,
    pub export: bool,
    pub export_id: u32,
}

#[derive(Clone, Copy, Debug, PartialEq, Eq, Structural)]
pub struct M5FixtureSummary {
    pub real_work_package: bool,
    pub item_index: u16,
    pub imports: usize,
    pub exports: usize,
    pub segment_bytes: usize,
}

#[derive(Clone, Copy, Debug, PartialEq, Eq, Structural)]
pub struct M5ReferenceSummary {
    pub result_match: bool,
    pub exports_match: bool,
}

#[derive(Clone, Copy, Debug, PartialEq, Eq, Structural)]
pub struct M5Bindings {
    pub case: bool,
    pub program: bool,
    pub work_package: bool,
    pub imports: bool,
    pub result: bool,
    pub exports: bool,
}

#[derive(Clone, Copy, Debug, PartialEq, Eq, Structural)]
pub struct M5WorkReportSummary {
    pub package_hash_match: bool,
    pub result_match: bool,
    pub exports_root_match: bool,
    pub exports_count_match: bool,
    pub gas_verified: bool,
}

#[derive(Clone, Copy, Debug, PartialEq, Eq, Structural)]
pub struct M5ProofSummary {
    pub verified: bool,
    pub serialized_reload_verified: bool,
    pub bytes: usize,
}

#[derive(Clone, Copy, Debug, PartialEq, Eq, Structural)]
pub struct M5TamperSummary {
    pub case_rejected: bool,
    pub result_rejected: bool,
    pub exports_rejected: bool,
    pub statement_rejected: bool,
}

/// The report of a proved M5 run.
#[derive(Clone, Debug)]
pub struct M5Report {
    pub schema: String,
    pub complete: bool,
    pub jam_semantics: String,
    pub scope: M5Scope,
    pub host_calls: M5HostCalls,
    pub fixture: M5FixtureSummary,
    pub reference: M5ReferenceSummary,
    pub bindings: M5Bindings,
    pub work_report: M5WorkReportSummary,
    pub proof: M5ProofSummary,
    pub tamper: M5TamperSummary,
    pub jambda_repository: String,
    pub jambda_revision: String,
}

/// Why the adapter's output, or a proved run over it, is refused.
#[derive(Clone, Debug, PartialEq, Eq)]
pub enum M5ReferenceError {
    UnsupportedAdapterSchema,
    CaseHex(HexError),
    Case(CodecError),
    CaseOutsideProfile(ZkRefineFixtureError),
    CaseNotCanonical,
    ResultHex(HexError),
    Result(CodecError),
    ExportsHex(HexError),
    ExportsNotOneSegment,
    WorkReportUnbound,
    AcceptanceFailed,
}

/// The bytes of hexadecimal text.
pub open spec fn hex_value(text: Seq<char>) -> Result<Seq<u8>, HexError> {
    hex_decoding(encode_utf8(text))
}

/// Hexadecimal text of even length that can be cut into two-byte pieces at character
/// boundaries (text of odd length is refused before it is cut).
pub open spec fn hex_sliceable(text: Seq<char>) -> bool {
    encode_utf8(text).len() % 2 == 0 ==> even_offsets_start_chars(encode_utf8(text))
}

/// Every text decoded, in order, stopping at the first that fails.
pub open spec fn hex_values(texts: Seq<Seq<char>>) -> Result<Seq<Seq<u8>>, HexError>
    decreases texts.len(),
{
    if texts.len() == 0 {
        Ok(Seq::empty())
    } else {
        match hex_values(texts.drop_last()) {
            Err(e) => Err(e),
            Ok(vs) => match hex_value(texts.last()) {
                Err(e) => Err(e),
                Ok(v) => Ok(vs.push(v)),
            },
        }
    }
}

/// The M5 case shape: a valid case with one work item at core and item index zero, one import
/// of one `M5_SEGMENT_BYTES` segment, export offset zero, no historical lookups, and the single
/// FETCH/EXPORT fixture program of the ZkRefine Profile v1 reference case.
pub open spec fn m5_case_check(c: CaseModel) -> Result<(), ZkRefineFixtureError> {
    zkrefine_case_check(c)
}

/// The case stage, in order: the adapter schema, the case text, the case bytes, the case shape,
/// and that the case re-encodes to exactly its bytes.
pub open spec fn m5_case_stage(a: M5AdapterModel) -> Result<(Seq<u8>, CaseModel), M5ReferenceError> {
    if a.schema != M5_ADAPTER_SCHEMA@ {
        Err(M5ReferenceError::UnsupportedAdapterSchema)
    } else {
        match hex_value(a.case_hex) {
            Err(e) => Err(M5ReferenceError::CaseHex(e)),
            Ok(bytes) => match decode_case(bytes) {
                Err(e) => Err(M5ReferenceError::Case(e)),
                Ok(c) => match m5_case_check(c) {
                    Err(f) => Err(M5ReferenceError::CaseOutsideProfile(f)),
                    Ok(_) => if enc_case(c) != bytes {
                        Err(M5ReferenceError::CaseNotCanonical)
                    } else {
                        Ok((bytes, c))
                    },
                },
            },
        }
    }
}

/// The result stage: the result text, then the result bytes.
pub open spec fn m5_result_stage(a: M5AdapterModel) -> Result<(Seq<u8>, ResultModel), M5ReferenceError> {
    match hex_value(a.reference_result_hex) {
        Err(e) => Err(M5ReferenceError::ResultHex(e)),
        Ok(bytes) => match decode_result(bytes) {
            Err(e) => Err(M5ReferenceError::Result(e)),
            Ok(r) => Ok((bytes, r)),
        },
    }
}

/// Every hexadecimal text that the run cuts into pieces can be cut at character boundaries:
/// the case text once the schema is accepted, the result text once the case is accepted, and
/// each export text once the result and the exports before it are accepted.
pub open spec fn m5_texts_sliceable(a: M5AdapterModel) -> bool {
    &&& a.schema == M5_ADAPTER_SCHEMA@ ==> hex_sliceable(a.case_hex)
    &&& m5_case_stage(a) is Ok ==> hex_sliceable(a.reference_result_hex)
    &&& forall|i: int|
        0 <= i < a.reference_exports_hex.len() && m5_case_stage(a) is Ok && m5_result_stage(a) is Ok
            && hex_values(a.reference_exports_hex.take(i)) is Ok ==> hex_sliceable(
            #[trigger] a.reference_exports_hex[i],
        )
}

/// The reference work report binds the case and its outputs: the package hash (the BLAKE2b-256
/// digest of the work package) is the one the adapter names and the one the report names, the
/// report counts one export, names the reference result text, and names the Keccak-256 root of
/// the exported segment.
pub open spec fn m5_work_report_binds(a: M5AdapterModel, c: CaseModel, exports: Seq<Seq<u8>>) -> bool {
    let package_hash = hex_chars(blake2b_256(c.work_package));
    &&& package_hash == a.work_package_hash_hex
    &&& package_hash == a.work_report_package_hash_hex
    &&& a.work_report_exports_count == 1
    &&& a.work_report_result_hex == a.reference_result_hex
    &&& a.work_report_exports_root_hex == hex_chars(keccak256(exports[0]))
}

/// The first reason the adapter's output is refused: the case stage, the result stage, the
/// export texts, one export of `M5_SEGMENT_BYTES`, then the work report binding.
pub open spec fn m5_failure(a: M5AdapterModel) -> Option<M5ReferenceError> {
    match m5_case_stage(a) {
        Err(e) => Some(e),
        Ok((_, c)) => match m5_result_stage(a) {
            Err(e) => Some(e),
            Ok(_) => match hex_values(a.reference_exports_hex) {
                Err(e) => Some(M5ReferenceError::ExportsHex(e)),
                Ok(exports) => if exports.len() != 1 || exports[0].len() != M5_SEGMENT_BYTES {
                    Some(M5ReferenceError::ExportsNotOneSegment)
                } else if !m5_work_report_binds(a, c, exports) {
                    Some(M5ReferenceError::WorkReportUnbound)
                } else {
                    None
                },
            },
        },
    }
}

/// The statement a proof of the M5 run must reveal: the ZkRefine Profile v1 statement of the
/// case bytes, the case, the result and the exports.
pub open spec fn m5_expected_statement(
    case_bytes: Seq<u8>,
    c: CaseModel,
    res: ResultModel,
    exports: Seq<Seq<u8>>,
) -> StatementV1Model {
    expected_statement(case_bytes, c, res, exports)
}

/// The checked adapter output and what it commits to.
pub struct M5Reference {
    pub case: RefineCaseV1,
    pub case_bytes: Vec<u8>,
    pub result: RefineResultV0,
    pub result_bytes: Vec<u8>,
    pub exports: Vec<Vec<u8>>,
    pub work_report: M5WorkReportEnvelope,
    pub work_report_summary: M5WorkReportSummary,
    pub expected: ZkRefineStatementV1,
    pub jambda_repository: String,
    pub jambda_revision: String,
}

/// Checks a case against the M5 case shape.
pub fn validate_m5_case(case: &RefineCaseV1) -> (r: Result<(), ZkRefineFixtureError>)
    requires
        total_instructions(case@.program.blocks) <= usize::MAX,
    ensures
        r == m5_case_check(case@),
{
    validate_zkrefine_case(case)
}

fn decode_hex_text(text: &String) -> (r: Result<Vec<u8>, HexError>)
    requires
        hex_sliceable(text@),
    ensures
        match hex_value(text@) {
            Ok(b) => r is Ok && r->Ok_0@ == b,
            Err(e) => r == Err::<Vec<u8>, HexError>(e),
        },
{
    decode_hex(text.as_str())
}

/// Decodes the export texts in order, stopping at the first that fails.
fn decode_export_texts(a: &M5JambdaAdapterOutput) -> (r: Result<Vec<Vec<u8>>, HexError>)
    requires
        m5_case_stage(a@) is Ok,
        m5_result_stage(a@) is Ok,
        m5_texts_sliceable(a@),
    ensures
        match hex_values(a@.reference_exports_hex) {
            Ok(vs) => r is Ok && bytes_list_view(r->Ok_0@) == vs,
            Err(e) => r == Err::<Vec<Vec<u8>>, HexError>(e),
        },
{
    let ghost texts = a@.reference_exports_hex;
    let mut out: Vec<Vec<u8>> = Vec::new();
    let mut i: usize = 0;
    assert(texts.take(0) =~= Seq::<Seq<char>>::empty());
    assert(bytes_list_view(out@) =~= Seq::<Seq<u8>>::empty());
    while i < a.reference_exports_hex.len()
        invariant
            texts == a@.reference_exports_hex,
            texts.len() == a.reference_exports_hex@.len(),
            0 <= i <= texts.len(),
            m5_case_stage(a@) is Ok,
            m5_result_stage(a@) is Ok,
            m5_texts_sliceable(a@),
            hex_values(texts.take(i as int)) == Ok::<Seq<Seq<u8>>, HexError>(bytes_list_view(out@)),
        decreases texts.len() - i,
    {
        assert(texts.take(i + 1).drop_last() =~= texts.take(i as int));
        assert(texts[i as int] == a.reference_exports_hex@[i as int]@);
        assert(hex_sliceable(texts[i as int]));
        let ghost before = bytes_list_view(out@);
        match decode_hex_text(&a.reference_exports_hex[i]) {
            Ok(v) => {
                out.push(v);
                assert(bytes_list_view(out@) =~= before.push(v@));
            },
            Err(e) => {
                proof {
                    lemma_hex_values_err_stays(texts, i as int + 1);
                }
                return Err(e);
            },
        }
        i = i + 1;
    }
    assert(texts.take(i as int) =~= texts);
    Ok(out)
}

/// Once a prefix fails to decode, every longer prefix fails with the same error.
proof fn lemma_hex_values_err_stays(texts: Seq<Seq<char>>, k: int)
    requires
        0 <= k <= texts.len(),
        hex_values(texts.take(k)) is Err,
    ensures
        hex_values(texts) == hex_values(texts.take(k)),
    decreases texts.len() - k,
{
    if k < texts.len() {
        assert(texts.take(k + 1).drop_last() =~= texts.take(k));
        lemma_hex_values_err_stays(texts, k + 1);
    } else {
        assert(texts.take(k) =~= texts);
    }
}

/// Checks the adapter's output (schema, case, result, exports and the reference work report)
/// and computes the statement a proof of the run must reveal.
pub fn check_m5_reference(adapter: &M5JambdaAdapterOutput) -> (r: Result<M5Reference, M5ReferenceError>)
    requires
        m5_texts_sliceable(adapter@),
    ensures
        match r {
            Err(e) => m5_failure(adapter@) == Some(e),
            Ok(v) => {
                &&& m5_failure(adapter@) is None
                &&& v.case_bytes@ == m5_case_stage(adapter@)->Ok_0.0
                &&& v.case@ == m5_case_stage(adapter@)->Ok_0.1
                &&& v.case@ == decode_case(v.case_bytes@)->Ok_0
                &&& v.result_bytes@ == m5_result_stage(adapter@)->Ok_0.0
                &&& v.result@ == m5_result_stage(adapter@)->Ok_0.1
                &&& bytes_list_view(v.exports@) == hex_values(adapter@.reference_exports_hex)->Ok_0
                &&& v.expected@ == m5_expected_statement(
                    v.case_bytes@,
                    v.case@,
                    v.result@,
                    bytes_list_view(v.exports@),
                )
                &&& v.work_report.package_hash_hex@ == adapter@.work_report_package_hash_hex
                &&& v.work_report.exports_root_hex@ == adapter@.work_report_exports_root_hex
                &&& v.work_report.exports_count == adapter@.work_report_exports_count
                &&& v.work_report.result_hex@ == adapter@.work_report_result_hex
                &&& v.work_report_summary == (M5WorkReportSummary {
                    package_hash_match: true,
                    result_match: true,
                    exports_root_match: true,
                    exports_count_match: true,
                    gas_verified: false,
                })
                &&& v.jambda_repository@ == adapter@.jambda_repository
                &&& v.jambda_revision@ == adapter@.jambda_revision
            },
        },
{
    if !text_is(&adapter.schema, M5_ADAPTER_SCHEMA) {
        return Err(M5ReferenceError::UnsupportedAdapterSchema);
    }
    let case_bytes = match decode_hex_text(&adapter.case_hex) {
        Ok(b) => b,
        Err(e) => return Err(M5ReferenceError::CaseHex(e)),
    };
    let case = match RefineCaseV1::decode_canonical(case_bytes.as_slice()) {
        Ok(c) => c,
        Err(e) => return Err(M5ReferenceError::Case(e)),
    };
    proof {
        lemma_decoded_case_encodable(case_bytes@);
        lemma_program_instructions_within(case@.program);
        assert(enc_program(case@.program).len() <= enc_case(case@).len());
    }
    match validate_m5_case(&case) {
        Ok(()) => {},
        Err(f) => return Err(M5ReferenceError::CaseOutsideProfile(f)),
    }
    let encoded_case = case.encode_canonical();
    if !same_bytes(encoded_case.as_slice(), case_bytes.as_slice()) {
        return Err(M5ReferenceError::CaseNotCanonical);
    }
    let result_bytes = match decode_hex_text(&adapter.reference_result_hex) {
        Ok(b) => b,
        Err(e) => return Err(M5ReferenceError::ResultHex(e)),
    };
    let result = match RefineResultV0::decode_canonical(result_bytes.as_slice()) {
        Ok(v) => v,
        Err(e) => return Err(M5ReferenceError::Result(e)),
    };
    let exports = match decode_export_texts(adapter) {
        Ok(v) => v,
        Err(e) => return Err(M5ReferenceError::ExportsHex(e)),
    };
    let ghost ex = bytes_list_view(exports@);
    if exports.len() != 1 || exports[0].len() != M5_SEGMENT_BYTES {
        return Err(M5ReferenceError::ExportsNotOneSegment);
    }
    assert(ex[0] == exports@[0]@);
    let work_report = M5WorkReportEnvelope {
        package_hash_hex: adapter.work_report_package_hash_hex.clone(),
        exports_root_hex: adapter.work_report_exports_root_hex.clone(),
        exports_count: adapter.work_report_exports_count,
        result_hex: adapter.work_report_result_hex.clone(),
    };
    let package_hash_hex = hex(&blake2b_256_digest(case.work_package.as_slice()));
    let work_package_bound = package_hash_hex == adapter.work_package_hash_hex
        && package_hash_hex == work_report.package_hash_hex;
    let exports_root_hex = hex(&keccak256_digest(exports[0].as_slice()));
    if !work_package_bound || work_report.exports_count != 1 || work_report.result_hex
        != adapter.reference_result_hex || work_report.exports_root_hex != exports_root_hex {
        return Err(M5ReferenceError::WorkReportUnbound);
    }
    let expected = ZkRefineStatementV1 {
        profile_id: zkrefine_profile_id(&case.profile),
        case_commitment: zkrefine_hash(ZKREFINE_CASE_DOMAIN.as_bytes(), case_bytes.as_slice()),
        result_commitment: zkrefine_result_commitment(&result),
        exports_commitment: zkrefine_exports_commitment(exports.as_slice()),
    };
    let work_report_summary = M5WorkReportSummary {
        package_hash_match: true,
        result_match: true,
        exports_root_match: work_report.exports_root_hex == exports_root_hex,
        exports_count_match: work_report.exports_count as usize == exports.len(),
        gas_verified: false,
    };
    Ok(
        M5Reference {
            case,
            case_bytes,
            result,
            result_bytes,
            exports,
            work_report,
            work_report_summary,
            expected,
            jambda_repository: adapter.jambda_repository.clone(),
            jambda_revision: adapter.jambda_revision.clone(),
        },
    )
}

/// A proved run is accepted when its proof verified before and after reloading and every
/// tampered statement was rejected.
pub open spec fn m5_accepted(proof: M5ProofSummary, tamper: M5TamperSummary) -> bool {
    &&& proof.verified
    &&& proof.serialized_reload_verified
    &&& tamper.case_rejected
    &&& tamper.result_rejected
    &&& tamper.exports_rejected
    &&& tamper.statement_rejected
}

/// The report of a proved run over a checked adapter output, refused unless the run is
/// accepted.
pub fn m5_report(checked: &M5Reference, proof: M5ProofSummary, tamper: M5TamperSummary) -> (r:
    Result<M5Report, M5ReferenceError>)
    ensures
        r is Ok <==> m5_accepted(proof, tamper),
        r is Err ==> r->Err_0 == M5ReferenceError::AcceptanceFailed,
        r matches Ok(report) ==> {
            &&& report.schema@ == M5_REPORT_SCHEMA@
            &&& report.complete
            &&& report.jam_semantics@ == REFERENCE_JAM_SEMANTICS@
            &&& report.scope == (M5Scope {
                work_items: 1,
                gas_proof: false,
                historical_lookup: false,
                inner_pvm: false,
                aggregation: false,
            })
            &&& report.host_calls.fetch
            &&& report.host_calls.fetch_id == 1
            &&& report.host_calls.fetch_modes@ == seq![6u32]
            &&& report.host_calls.export
            &&& report.host_calls.export_id == 7
            &&& report.fixture == (M5FixtureSummary {
                real_work_package: true,
                item_index: checked.case.item_index,
                imports: 1,
                exports: 1,
                segment_bytes: M5_SEGMENT_BYTES,
            })
            &&& report.reference == (M5ReferenceSummary { result_match: true, exports_match: true })
            &&& report.bindings == (M5Bindings {
                case: true,
                program: true,
                work_package: true,
                imports: true,
                result: true,
                exports: true,
            })
            &&& report.work_report == checked.work_report_summary
            &&& report.proof == proof
            &&& report.tamper == tamper
            &&& report.jambda_repository@ == checked.jambda_repository@
            &&& report.jambda_revision@ == checked.jambda_revision@
        },
{
    if !(proof.verified && proof.serialized_reload_verified && tamper.case_rejected
        && tamper.result_rejected && tamper.exports_rejected && tamper.statement_rejected) {
        return Err(M5ReferenceError::AcceptanceFailed);
    }
    let fetch_modes = vec![6u32];
    assert(fetch_modes@ =~= seq![6u32]);
    Ok(
        M5Report {
            schema: M5_REPORT_SCHEMA.to_owned(),
            complete: true,
            jam_semantics: REFERENCE_JAM_SEMANTICS.to_owned(),
            scope: M5Scope {
                work_items: 1,
                gas_proof: false,
                historical_lookup: false,
                inner_pvm: false,
                aggregation: false,
            },
            host_calls: M5HostCalls {
                fetch: true,
                fetch_id: 1,
                fetch_modes,
                export: true,
                export_id: 7,
            },
            fixture: M5FixtureSummary {
                real_work_package: true,
                item_index: checked.case.item_index,
                imports: 1,
                exports: 1,
                segment_bytes: M5_SEGMENT_BYTES,
            },
            reference: M5ReferenceSummary { result_match: true, exports_match: true },
            bindings: M5Bindings {
                case: true,
                program: true,
                work_package: true,
                imports: true,
                result: true,
                exports: true,
            },
            work_report: checked.work_report_summary,
            proof,
            tamper,
            jambda_repository: checked.jambda_repository.clone(),
            jambda_revision: checked.jambda_revision.clone(),
        },
    )
}

/// What an accepted adapter output guarantees: the adapter schema is this run's, the case
/// decodes from its text, lies in the M5 shape and is canonical, the result decodes from its
/// text, there is one exported segment of `M5_SEGMENT_BYTES`, and the work report counts one
/// export, names the reference result text, and names the Keccak-256 root of the segment; and
/// both the adapter and the report name the BLAKE2b-256 digest of the work package.
pub proof fn lemma_accepted_adapter_output_is_bound(a: M5AdapterModel)
    requires
        m5_failure(a) is None,
    ensures
        a.schema == M5_ADAPTER_SCHEMA@,
        hex_value(a.case_hex) is Ok,
        decode_case(hex_value(a.case_hex)->Ok_0) is Ok,
        zkrefine_case_check(decode_case(hex_value(a.case_hex)->Ok_0)->Ok_0) is Ok,
        enc_case(decode_case(hex_value(a.case_hex)->Ok_0)->Ok_0) == hex_value(a.case_hex)->Ok_0,
        hex_value(a.reference_result_hex) is Ok,
        decode_result(hex_value(a.reference_result_hex)->Ok_0) is Ok,
        hex_values(a.reference_exports_hex) is Ok,
        hex_values(a.reference_exports_hex)->Ok_0.len() == 1,
        hex_values(a.reference_exports_hex)->Ok_0[0].len() == M5_SEGMENT_BYTES,
        a.work_report_exports_count == 1,
        a.work_report_result_hex == a.reference_result_hex,
        a.work_report_exports_root_hex == hex_chars(keccak256(hex_values(a.reference_exports_hex)->Ok_0[0])),
        a.work_package_hash_hex == hex_chars(blake2b_256(decode_case(hex_value(a.case_hex)->Ok_0)->Ok_0.work_package)),
        a.work_report_package_hash_hex == a.work_package_hash_hex,
{
}

} // verus!
