use tiny_keccak::{Hasher, Keccak};
use zk_jam::case::{RefineCaseV1, SmokeProfile, REFINE_CASE_FORMAT_V1};
use zk_jam::codec::{CanonicalCodec, CodecError};
use zk_jam::hashing::zkrefine_hash;
use zk_jam::hex::{hex, HexError};
use zk_jam::m5::{
    check_m5_reference, m5_report, validate_m5_case, M5JambdaAdapterOutput, M5ProofSummary,
    M5ReferenceError, M5TamperSummary, M5_ADAPTER_SCHEMA, M5_REPORT_SCHEMA, M5_SEGMENT_BYTES,
};
use zk_jam::program::{PvmBlockV1, PvmInstructionV1, PvmProgramV1, PvmTerminatorV1, RegisterOperandsV1};
use zk_jam::refine_result::RefineResultV0;
use zk_jam::state_witness::{HistoricalLookupWitnessV1, RefineStateWitnessV1, StateWitnessBindingV1};
use zk_jam::translation::{workload_program, M3Workload};
use zk_jam::zkrefine::{zkrefine_exports_commitment, zkrefine_profile_id, zkrefine_result_commitment, ZKREFINE_CASE_DOMAIN};
use zk_jam::zkrefine_fixture::ZkRefineFixtureError;

fn fixture_program() -> PvmProgramV1 {
    let shape: [(u8, u8, u8, u8, Vec<u8>); 17] = [
        (20, 0, 7, 0, 0x20000u64.to_le_bytes().to_vec()),
        (20, 0, 8, 0, 0u64.to_le_bytes().to_vec()),
        (20, 0, 9, 0, 4104u64.to_le_bytes().to_vec()),
        (20, 0, 10, 0, 6u64.to_le_bytes().to_vec()),
        (20, 0, 11, 0, 0u64.to_le_bytes().to_vec()),
        (20, 0, 12, 0, 0u64.to_le_bytes().to_vec()),
        (10, 0, 0, 0, 1u32.to_le_bytes().to_vec()),
        (56, 0, 1, 0, 0x20000u32.to_le_bytes().to_vec()),
        (20, 0, 2, 0, 0xA5A5_A5A5u64.to_le_bytes().to_vec()),
        (211, 1, 1, 2, Vec::new()),
        (61, 0, 1, 0, 0x20000u32.to_le_bytes().to_vec()),
        (20, 0, 7, 0, 0x20000u64.to_le_bytes().to_vec()),
        (20, 0, 8, 0, 4104u64.to_le_bytes().to_vec()),
        (20, 0, 7, 0, 0x20000u64.to_le_bytes().to_vec()),
        (20, 0, 8, 0, 4104u64.to_le_bytes().to_vec()),
        (10, 0, 0, 0, 7u32.to_le_bytes().to_vec()),
        (50, 0, 7, 0, (-65_537i32).to_le_bytes().to_vec()),
    ];
    let mut pc = 0u32;
    let mut instructions = Vec::new();
    for (opcode, rd, ra, rb, immediate) in shape {
        instructions.push(PvmInstructionV1 { pc, opcode, registers: RegisterOperandsV1 { rd, ra, rb }, immediate, pc_delta: 0 });
        pc += match opcode {
            10 => 5,
            20 => 10,
            211 => 3,
            _ => 6,
        };
    }
    let mut program = workload_program(M3Workload::Arithmetic);
    program.blocks = vec![PvmBlockV1 { entry_pc: 0, instructions, terminator: PvmTerminatorV1::Halt }];
    program
}

fn m5_case() -> RefineCaseV1 {
    RefineCaseV1 {
        format_version: REFINE_CASE_FORMAT_V1,
        profile: SmokeProfile::default(),
        core_index: 0,
        item_index: 0,
        work_package: b"m5 package".to_vec(),
        authorization_trace: Vec::new(),
        external_data: vec![Vec::new()],
        import_segments: vec![vec![vec![0x11; M5_SEGMENT_BYTES]]],
        export_offset: 0,
        program: fixture_program(),
        state_witness: RefineStateWitnessV1 { binding: StateWitnessBindingV1::Fixture, historical_lookups: Vec::new() },
    }
}

fn blake2b(bytes: &[u8]) -> Vec<u8> {
    blake2b_simd::Params::new().hash_length(32).hash(bytes).as_bytes().to_vec()
}

fn keccak(bytes: &[u8]) -> [u8; 32] {
    let mut hasher = Keccak::v256();
    hasher.update(bytes);
    let mut out = [0u8; 32];
    hasher.finalize(&mut out);
    out
}

fn adapter_output() -> M5JambdaAdapterOutput {
    let case = m5_case();
    let result_hex = hex(&RefineResultV0::Output(vec![9, 8]).encode_canonical());
    let segment = vec![0x22; M5_SEGMENT_BYTES];
    let package = hex(&blake2b(&case.work_package));
    M5JambdaAdapterOutput {
        schema: M5_ADAPTER_SCHEMA.to_string(),
        jambda_repository: "https://example.invalid/jambda".to_string(),
        jambda_revision: "0123456789abcdef0123456789abcdef01234567".to_string(),
        case_hex: hex(&case.encode_canonical()),
        reference_result_hex: result_hex.clone(),
        reference_exports_hex: vec![hex(&segment)],
        work_package_hash_hex: package.clone(),
        work_report_package_hash_hex: package,
        work_report_exports_root_hex: hex(&keccak(&segment)),
        work_report_exports_count: 1,
        work_report_result_hex: result_hex,
    }
}

#[test]
fn m5_reference_is_checked_and_committed() {
    let adapter = adapter_output();
    let checked = check_m5_reference(&adapter).expect("adapter output accepted");
    let case = m5_case();
    assert_eq!(checked.case, case);
    assert_eq!(checked.case_bytes, case.encode_canonical());
    assert_eq!(checked.result, RefineResultV0::Output(vec![9, 8]));
    assert_eq!(checked.exports, vec![vec![0x22; M5_SEGMENT_BYTES]]);
    assert_eq!(checked.expected.profile_id, zkrefine_profile_id(&case.profile));
    assert_eq!(checked.expected.case_commitment, zkrefine_hash(ZKREFINE_CASE_DOMAIN.as_bytes(), &checked.case_bytes));
    assert_eq!(checked.expected.result_commitment, zkrefine_result_commitment(&checked.result));
    assert_eq!(checked.expected.exports_commitment, zkrefine_exports_commitment(&checked.exports));
    assert!(checked.work_report_summary.exports_root_match && checked.work_report_summary.exports_count_match);
    assert!(!checked.work_report_summary.gas_verified);
    assert_eq!(checked.work_report.exports_count, 1);

    let mut upper = adapter_output();
    upper.case_hex = upper.case_hex.to_uppercase();
    assert!(check_m5_reference(&upper).is_ok());
}

#[test]
fn m5_reference_refuses_each_failure_in_order() {
    let mut a = adapter_output();
    a.schema = "zk-jam/m5/jambda-adapter/v0".to_string();
    a.case_hex = "0".to_string();
    assert!(matches!(check_m5_reference(&a), Err(M5ReferenceError::UnsupportedAdapterSchema)));

    let mut a = adapter_output();
    a.case_hex = "0".to_string();
    assert!(matches!(check_m5_reference(&a), Err(M5ReferenceError::CaseHex(HexError::OddLength))));
    a.case_hex = "zz".to_string();
    assert!(matches!(check_m5_reference(&a), Err(M5ReferenceError::CaseHex(HexError::InvalidDigit))));
    a.case_hex = "00".to_string();
    assert!(matches!(check_m5_reference(&a), Err(M5ReferenceError::Case(CodecError::UnexpectedEof))));

    let mut moved = m5_case();
    moved.item_index = 1;
    let mut a = adapter_output();
    a.case_hex = hex(&moved.encode_canonical());
    assert!(matches!(check_m5_reference(&a), Err(M5ReferenceError::CaseOutsideProfile(ZkRefineFixtureError::OutsideProfile))));

    let mut lookup = m5_case();
    lookup.state_witness.historical_lookups.push(HistoricalLookupWitnessV1 {
        service_id: 1,
        hash: [0; 32],
        value: Vec::new(),
        commitment_proof: Vec::new(),
    });
    let mut a = adapter_output();
    a.case_hex = hex(&lookup.encode_canonical());
    assert!(matches!(check_m5_reference(&a), Err(M5ReferenceError::CaseOutsideProfile(ZkRefineFixtureError::OutsideProfile))));

    let mut a = adapter_output();
    a.reference_result_hex = "0".to_string();
    assert!(matches!(check_m5_reference(&a), Err(M5ReferenceError::ResultHex(HexError::OddLength))));
    a.reference_result_hex = "ff".to_string();
    assert!(matches!(check_m5_reference(&a), Err(M5ReferenceError::Result(_))));

    let mut a = adapter_output();
    a.reference_exports_hex.push("x".to_string());
    assert!(matches!(check_m5_reference(&a), Err(M5ReferenceError::ExportsHex(HexError::OddLength))));
    let mut a = adapter_output();
    a.reference_exports_hex.push("00".to_string());
    assert!(matches!(check_m5_reference(&a), Err(M5ReferenceError::ExportsNotOneSegment)));
    let mut a = adapter_output();
    a.reference_exports_hex = vec![hex(&[0x22; 10])];
    assert!(matches!(check_m5_reference(&a), Err(M5ReferenceError::ExportsNotOneSegment)));

    let mut a = adapter_output();
    a.work_package_hash_hex = hex(&[0; 32]);
    assert!(matches!(check_m5_reference(&a), Err(M5ReferenceError::WorkReportUnbound)));
    let mut a = adapter_output();
    a.work_report_exports_count = 2;
    assert!(matches!(check_m5_reference(&a), Err(M5ReferenceError::WorkReportUnbound)));
    let mut a = adapter_output();
    a.work_report_result_hex.push_str("00");
    assert!(matches!(check_m5_reference(&a), Err(M5ReferenceError::WorkReportUnbound)));
    let mut a = adapter_output();
    a.work_report_exports_root_hex = hex(&[0; 32]);
    assert!(matches!(check_m5_reference(&a), Err(M5ReferenceError::WorkReportUnbound)));
}

#[test]
fn m5_case_shape_is_the_single_fixture_program() {
    assert_eq!(validate_m5_case(&m5_case()), Ok(()));
    let mut short = m5_case();
    short.program.blocks[0].instructions.truncate(15);
    assert!(matches!(validate_m5_case(&short), Err(ZkRefineFixtureError::InstructionCountMismatch { actual: 15, expected: 17, blocks: 1 })));
    let mut open_end = m5_case();
    open_end.program.blocks[0].terminator = PvmTerminatorV1::Trap(0);
    assert_eq!(validate_m5_case(&open_end), Err(ZkRefineFixtureError::MissingHalt));
    let mut wide = m5_case();
    wide.import_segments[0][0].push(0);
    assert!(matches!(validate_m5_case(&wide), Err(ZkRefineFixtureError::CaseValidation(_))));
    let mut narrow = m5_case();
    narrow.import_segments[0][0].pop();
    assert_eq!(validate_m5_case(&narrow), Err(ZkRefineFixtureError::OutsideProfile));
}

#[test]
fn m5_report_requires_verified_reload_and_every_tamper_rejected() {
    let checked = check_m5_reference(&adapter_output()).unwrap();
    let proof = M5ProofSummary { verified: true, serialized_reload_verified: true, bytes: 4321 };
    let tamper = M5TamperSummary { case_rejected: true, result_rejected: true, exports_rejected: true, statement_rejected: true };
    let report = m5_report(&checked, proof, tamper).expect("accepted");
    assert_eq!(report.schema, M5_REPORT_SCHEMA);
    assert!(report.complete);
    assert_eq!(report.jam_semantics, "0.7.2");
    assert_eq!(report.host_calls.fetch_modes, vec![6]);
    assert_eq!((report.host_calls.fetch_id, report.host_calls.export_id), (1, 7));
    assert_eq!(report.fixture.segment_bytes, 4104);
    assert_eq!(report.fixture.item_index, 0);
    assert!(!report.scope.historical_lookup && !report.scope.gas_proof && report.scope.work_items == 1);
    assert_eq!(report.proof, proof);
    assert_eq!(report.tamper, tamper);
    assert_eq!(report.jambda_revision, "0123456789abcdef0123456789abcdef01234567");
    let unreloaded = M5ProofSummary { serialized_reload_verified: false, ..proof };
    assert!(matches!(m5_report(&checked, unreloaded, tamper), Err(M5ReferenceError::AcceptanceFailed)));
    let accepted_tamper = M5TamperSummary { exports_rejected: false, ..tamper };
    assert!(matches!(m5_report(&checked, proof, accepted_tamper), Err(M5ReferenceError::AcceptanceFailed)));
}
