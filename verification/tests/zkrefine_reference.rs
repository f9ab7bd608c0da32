use tiny_keccak::{Hasher, Keccak};
use zk_jam::case::{RefineCaseV1, SmokeProfile, REFINE_CASE_FORMAT_V1};
use zk_jam::codec::{CanonicalCodec, CodecError};
use zk_jam::hashing::zkrefine_hash;
use zk_jam::hex::hex;
use zk_jam::program::{PvmBlockV1, PvmInstructionV1, PvmProgramV1, PvmTerminatorV1, RegisterOperandsV1};
use zk_jam::refine_result::RefineResultV0;
use zk_jam::state_witness::{RefineStateWitnessV1, StateWitnessBindingV1};
use zk_jam::translation::{workload_program, M3Workload};
use zk_jam::zkrefine::{zkrefine_exports_commitment, zkrefine_profile_id, zkrefine_result_commitment, ZkRefineExportsV1, ZKREFINE_CASE_DOMAIN};
use zk_jam::zkrefine_fixture::ZkRefineFixtureError;
use zk_jam::zkrefine_reference::{
    check_zkrefine_reference, tampered_statement, verify_statement, zkrefine_report, ProofValidation,
    ReferenceProvenance, TamperTarget, TamperValidation, WorkReportReference, ZkRefineReferenceError,
    SEGMENT_BYTES,
};

fn reference_program() -> PvmProgramV1 {
    let shape: [(u8, u8, u8, u8, Vec<u8>); 17] = [
        (20, 0, 7, 0, 0x20000u64.to_le_bytes().to_vec()),
        (20, 0, 8, 0, 0u64.to_le_bytes().to_vec()),
        (20, 0, 9, 0, 4104u64.to_le_bytes().to_vec()),
        (20, 0, 10, 0, 6u64.to_le_bytes().to_vec()),
        (20, 0, 11, 0, 0u64.to_le_bytes().to_vec()),
        (20, 0, 12, 0, 0u64.to_le_bytes().to_vec()),
        (10, 0, 0, 0, 1u32.to_le_bytes().to_vec()),
        (56, 0, 1, 0, 0x20000u32.to_le_bytes().to_vec()),
        (20, 0, 2, 0, 0xA5A5_A5A5u64.to_le_bytes().to_vec()),
        (211, 1, 1, 2, Vec::new()),
        (61, 0, 1, 0, 0x20000u32.to_le_bytes().to_vec()),
        (20, 0, 7, 0, 0x20000u64.to_le_bytes().to_vec()),
        (20, 0, 8, 0, 4104u64.to_le_bytes().to_vec()),
        (20, 0, 7, 0, 0x20000u64.to_le_bytes().to_vec()),
        (20, 0, 8, 0, 4104u64.to_le_bytes().to_vec()),
        (10, 0, 0, 0, 7u32.to_le_bytes().to_vec()),
        (50, 0, 7, 0, (-65_537i32).to_le_bytes().to_vec()),
    ];
    let mut pc = 0u32;
    let mut instructions = Vec::new();
    for (opcode, rd, ra, rb, immediate) in shape {
        instructions.push(PvmInstructionV1 { pc, opcode, registers: RegisterOperandsV1 { rd, ra, rb }, immediate, pc_delta: 0 });
        pc += match opcode {
            10 => 5,
            20 => 10,
            211 => 3,
            _ => 6,
        };
    }
    let mut program = workload_program(M3Workload::Arithmetic);
    program.blocks = vec![PvmBlockV1 { entry_pc: 0, instructions, terminator: PvmTerminatorV1::Halt }];
    program
}

fn reference_case() -> RefineCaseV1 {
    RefineCaseV1 {
        format_version: REFINE_CASE_FORMAT_V1,
        profile: SmokeProfile::default(),
        core_index: 0,
        item_index: 0,
        work_package: b"reference package".to_vec(),
        authorization_trace: Vec::new(),
        external_data: vec![Vec::new()],
        import_segments: vec![vec![vec![0x5a; SEGMENT_BYTES]]],
        export_offset: 0,
        program: reference_program(),
        state_witness: RefineStateWitnessV1 {
            binding: StateWitnessBindingV1::Fixture,
            historical_lookups: Vec::new(),
        },
    }
}

fn provenance() -> ReferenceProvenance {
    ReferenceProvenance {
        schema: "zk-jam/reference-case/v1".to_string(),
        reference_client: "Jambda".to_string(),
        reference_revision: "b850a458fa00da81e80be4cc84ddd7d2222f1edc".to_string(),
        jam_semantics: "0.7.2".to_string(),
        profile: "zk-jam/zkrefine/import-export/v1".to_string(),
        work_items: 1,
        fetch_host_call: 1,
        fetch_modes: vec![6],
        export_host_call: 7,
        segment_bytes: 4104,
    }
}

fn blake2b(bytes: &[u8]) -> Vec<u8> {
    blake2b_simd::Params::new().hash_length(32).hash(bytes).as_bytes().to_vec()
}

fn keccak(bytes: &[u8]) -> [u8; 32] {
    let mut hasher = Keccak::v256();
    hasher.update(bytes);
    let mut out = [0u8; 32];
    hasher.finalize(&mut out);
    out
}

struct Fixture {
    case_bytes: Vec<u8>,
    result_bytes: Vec<u8>,
    exports_bytes: Vec<u8>,
    work_report: WorkReportReference,
}

fn fixture() -> Fixture {
    let case = reference_case();
    let case_bytes = case.encode_canonical();
    let result = RefineResultV0::Output(vec![1, 2, 3]);
    let result_bytes = result.encode_canonical();
    let segment = vec![0xa5; SEGMENT_BYTES];
    let exports_bytes = ZkRefineExportsV1(vec![segment.clone()]).encode_canonical();
    let work_report = WorkReportReference {
        schema: "zk-jam/work-report-reference/v1".to_string(),
        package_hash: hex(&blake2b(&case.work_package)),
        result: hex(&result_bytes),
        exports_root: hex(&keccak(&segment)),
        exports_count: 1,
    };
    Fixture { case_bytes, result_bytes, exports_bytes, work_report }
}

fn check(f: &Fixture, provenance: &ReferenceProvenance) -> Result<zk_jam::zkrefine_reference::ZkRefineReference, ZkRefineReferenceError> {
    check_zkrefine_reference(&f.case_bytes, &f.result_bytes, &f.exports_bytes, &f.work_report, provenance)
}

#[test]
fn reference_fixture_is_checked_and_committed() {
    let f = fixture();
    let checked = check(&f, &provenance()).expect("reference fixture");
    assert_eq!(checked.case, reference_case());
    assert_eq!(checked.result, RefineResultV0::Output(vec![1, 2, 3]));
    assert_eq!(checked.exports, vec![vec![0xa5; SEGMENT_BYTES]]);
    assert_eq!(checked.expected.profile_id, zkrefine_profile_id(&SmokeProfile::default()));
    assert_eq!(checked.expected.case_commitment, zkrefine_hash(ZKREFINE_CASE_DOMAIN.as_bytes(), &f.case_bytes));
    assert_eq!(checked.expected.result_commitment, zkrefine_result_commitment(&checked.result));
    assert_eq!(checked.expected.exports_commitment, zkrefine_exports_commitment(&checked.exports));
    assert_eq!(checked.reference.client, "Jambda");
    assert_eq!(checked.reference.revision, "b850a458fa00da81e80be4cc84ddd7d2222f1edc");
    assert!(checked.reference.result_match && checked.reference.exports_match);
    assert!(checked.work_report.package_hash_match);
    assert!(checked.work_report.exports_count_match);
    assert!(!checked.work_report.gas_verified);
}

#[test]
fn reference_fixture_refusals_come_in_order() {
    let f = fixture();
    let mut outside = provenance();
    outside.fetch_modes = vec![6, 7];
    assert_eq!(check(&f, &outside).err(), Some(ZkRefineReferenceError::ProvenanceOutsideProfile));
    let mut other_client = provenance();
    other_client.reference_client = "Other".to_string();
    assert_eq!(check(&f, &other_client).err(), Some(ZkRefineReferenceError::ProvenanceOutsideProfile));

    let mut schema = fixture();
    schema.work_report.schema = "zk-jam/work-report-reference/v2".to_string();
    assert_eq!(check(&schema, &provenance()).err(), Some(ZkRefineReferenceError::UnsupportedWorkReportSchema));

    let mut short = fixture();
    short.case_bytes.truncate(5);
    assert_eq!(check(&short, &provenance()).err(), Some(ZkRefineReferenceError::Case(CodecError::UnexpectedEof)));

    let mut second_item = reference_case();
    second_item.item_index = 1;
    let mut item = fixture();
    item.case_bytes = second_item.encode_canonical();
    assert_eq!(
        check(&item, &provenance()).err(),
        Some(ZkRefineReferenceError::CaseOutsideProfile(ZkRefineFixtureError::OutsideProfile))
    );

    let mut bad_result = fixture();
    bad_result.result_bytes = vec![9];
    assert_eq!(
        check(&bad_result, &provenance()).err(),
        Some(ZkRefineReferenceError::Result(CodecError::InvalidValue("refine result tag")))
    );

    let mut trailing = fixture();
    trailing.exports_bytes.push(0);
    assert_eq!(check(&trailing, &provenance()).err(), Some(ZkRefineReferenceError::Exports(CodecError::TrailingBytes)));

    let mut two = fixture();
    two.exports_bytes = ZkRefineExportsV1(vec![vec![0; SEGMENT_BYTES], vec![0; SEGMENT_BYTES]]).encode_canonical();
    assert_eq!(check(&two, &provenance()).err(), Some(ZkRefineReferenceError::ExportsNotOneSegment));

    let mut unbound = fixture();
    unbound.work_report.exports_root = hex(&[0u8; 32]);
    assert_eq!(check(&unbound, &provenance()).err(), Some(ZkRefineReferenceError::WorkReportUnbound));
    let mut other_package = fixture();
    other_package.work_report.package_hash = hex(&blake2b(b"another package"));
    assert_eq!(check(&other_package, &provenance()).err(), Some(ZkRefineReferenceError::WorkReportUnbound));
}

#[test]
fn exports_count_mismatch_is_reported_not_refused() {
    let mut f = fixture();
    f.work_report.exports_count = 2;
    let checked = check(&f, &provenance()).expect("count is reported only");
    assert!(!checked.work_report.exports_count_match);
}

#[test]
fn tampered_statements_are_rejected() {
    let f = fixture();
    let expected = check(&f, &provenance()).unwrap().expected;
    let output = expected.encode_openvm();
    assert_eq!(verify_statement(true, &output, &expected), Ok(()));
    for target in [TamperTarget::Case, TamperTarget::Result, TamperTarget::Exports, TamperTarget::Statement] {
        let tampered = tampered_statement(&expected, target);
        assert_ne!(tampered, expected);
        assert_eq!(verify_statement(true, &output, &tampered), Err(ZkRefineReferenceError::StatementMismatch));
    }
    assert_eq!(
        verify_statement(false, &output, &expected),
        Err(ZkRefineReferenceError::NotZkRefineProof)
    );
    let tampered = tampered_statement(&expected, TamperTarget::Case);
    assert_eq!(tampered.case_commitment[0], expected.case_commitment[0] ^ 1);
    assert_eq!(tampered.case_commitment[1..], expected.case_commitment[1..]);
    assert_eq!(
        verify_statement(true, &output[..127], &expected),
        Err(ZkRefineReferenceError::PublicValues(CodecError::InvalidValue("ZkRefine public values length")))
    );
}

#[test]
fn acceptance_report_requires_every_check() {
    let checked = check(&fixture(), &provenance()).unwrap();
    let proof = ProofValidation { verified: true, serialized_reload_verified: true, bytes: 1234 };
    let tamper = TamperValidation { case_rejected: true, result_rejected: true, exports_rejected: true, statement_rejected: true };
    let report = zkrefine_report(checked.reference.clone(), checked.work_report, proof, tamper).expect("accepted");
    assert!(report.verified);
    assert_eq!(report.schema, "zk-jam/zkrefine-report/v1");
    assert_eq!(report.profile, "zk-jam/zkrefine/import-export/v1");
    assert_eq!(report.jam_semantics, "0.7.2");
    assert_eq!(report.execution.fetch_modes, vec![6]);
    assert_eq!(report.execution.segment_bytes, 4104);
    assert_eq!(report.proof, proof);
    assert!(!report.capabilities.gas_proof && !report.capabilities.aggregation);
    let weak = TamperValidation { statement_rejected: false, ..tamper };
    assert_eq!(
        zkrefine_report(checked.reference.clone(), checked.work_report, proof, weak).err(),
        Some(ZkRefineReferenceError::AcceptanceFailed)
    );
    let unreloaded = ProofValidation { serialized_reload_verified: false, ..proof };
    assert_eq!(
        zkrefine_report(checked.reference, checked.work_report, unreloaded, tamper).err(),
        Some(ZkRefineReferenceError::AcceptanceFailed)
    );
}
