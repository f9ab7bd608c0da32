use zk_jam::case::{RefineCaseV1, SmokeProfile, SmokeProfileV0, REFINE_CASE_FORMAT_V1};
use zk_jam::codec::CanonicalCodec;
use zk_jam::program::{
    check_host_call, PvmBlockV1, PvmInstructionV1, PvmProgramV1, PvmTerminatorV1,
    RegisterOperandsV1, UnsupportedFeature, PVM_PROGRAM_FORMAT_V1,
};
use zk_jam::state_witness::{RefineStateWitnessV1, StateWitnessBindingV1};

fn program(opcode: u8, immediate: Vec<u8>) -> PvmProgramV1 {
    PvmProgramV1 {
        format_version: PVM_PROGRAM_FORMAT_V1,
        code_hash: [7; 32],
        o_blob: Vec::new(),
        w_blob: Vec::new(),
        z_pages: 1,
        s_bytes: 0,
        blocks: vec![PvmBlockV1 {
            entry_pc: 0,
            instructions: vec![PvmInstructionV1 {
                pc: 0,
                opcode,
                registers: RegisterOperandsV1::default(),
                immediate,
                pc_delta: 0,
            }],
            terminator: PvmTerminatorV1::Halt,
        }],
        jump_table: Vec::new(),
        c_blob: Vec::new(),
    }
}

#[test]
fn zkrefine_profile_is_fixed_to_no_gas_no_inner_pvm() {
    assert!(SmokeProfile::default().validate().is_ok());
    let profile = SmokeProfileV0 {
        gas_proof: true,
        ..SmokeProfileV0::default()
    };
    assert!(SmokeProfile::V0(profile).validate().is_err());
}

#[test]
fn forbidden_host_calls_are_explicit() {
    assert_eq!(check_host_call(0), Err(UnsupportedFeature::GasHostCall));
    assert_eq!(check_host_call(8), Err(UnsupportedFeature::InnerPvm));
    assert_eq!(
        check_host_call(99),
        Err(UnsupportedFeature::UnsupportedHostCall(99))
    );
    assert!(check_host_call(1).is_ok());
}

#[test]
fn program_roundtrips_deterministically() {
    let value = program(10, 7u32.to_le_bytes().to_vec());
    let encoded = value.encode_canonical();
    assert_eq!(encoded, value.encode_canonical());
    let decoded = PvmProgramV1::decode_canonical(&encoded).unwrap();
    assert_eq!(decoded, value);
}

#[test]
fn program_rejects_gas_and_inner_pvm() {
    assert!(program(10, 0u32.to_le_bytes().to_vec()).validate().is_err());
    assert!(program(10, 12u32.to_le_bytes().to_vec())
        .validate()
        .is_err());
}

#[test]
fn refine_case_roundtrips_with_fixture_witness() {
    let case = RefineCaseV1 {
        format_version: REFINE_CASE_FORMAT_V1,
        profile: SmokeProfile::default(),
        core_index: 2,
        item_index: 0,
        work_package: vec![1, 2, 3],
        authorization_trace: vec![4],
        external_data: vec![vec![vec![5, 6]]],
        import_segments: vec![vec![vec![7, 8]]],
        export_offset: 0,
        program: program(1, Vec::new()),
        state_witness: RefineStateWitnessV1 {
            binding: StateWitnessBindingV1::Fixture,
            historical_lookups: Vec::new(),
        },
    };
    case.validate().unwrap();
    let encoded = case.encode_canonical();
    assert_eq!(RefineCaseV1::decode_canonical(&encoded).unwrap(), case);
}

#[test]
fn historical_lookup_is_outside_the_profile() {
    assert_eq!(
        check_host_call(6),
        Err(UnsupportedFeature::UnsupportedHostCall(6))
    );
    assert!(check_host_call(7).is_ok());
    for id in [2u32, 3, 4, 5, 6, 14, 100] {
        assert_eq!(
            check_host_call(id),
            Err(UnsupportedFeature::UnsupportedHostCall(id))
        );
    }
    for id in 8u32..=13 {
        assert_eq!(check_host_call(id), Err(UnsupportedFeature::InnerPvm));
    }
}

#[test]
fn program_admission_follows_the_stated_rules() {
    assert!(program(10, 1u32.to_le_bytes().to_vec()).validate().is_ok());
    assert!(program(10, 7u32.to_le_bytes().to_vec()).validate().is_ok());
    assert!(program(10, 6u32.to_le_bytes().to_vec()).validate().is_err());
    // Not an ECALLI, so the immediate names no host call.
    assert!(program(11, 6u32.to_le_bytes().to_vec()).validate().is_ok());
    // ECALLI with a short immediate names no host call either.
    assert!(program(10, vec![6, 0]).validate().is_ok());

    let mut wrong_version = program(1, Vec::new());
    wrong_version.format_version = 2;
    assert!(wrong_version.validate().is_err());

    let mut no_blocks = program(1, Vec::new());
    no_blocks.blocks.clear();
    assert!(no_blocks.validate().is_err());

    let mut empty_block = program(1, Vec::new());
    empty_block.blocks[0].instructions.clear();
    assert!(empty_block.validate().is_err());

    let mut bad_register = program(1, Vec::new());
    bad_register.blocks[0].instructions[0].registers.rb = 13;
    assert!(bad_register.validate().is_err());
    bad_register.blocks[0].instructions[0].registers.rb = 12;
    assert!(bad_register.validate().is_ok());

    // The jump table and the terminator are not looked at.
    let mut unchecked = program(1, Vec::new());
    unchecked.jump_table = vec![999];
    unchecked.blocks[0].terminator = PvmTerminatorV1::Trap(3);
    assert!(unchecked.validate().is_ok());
}

#[test]
fn case_validation_reports_the_version_first() {
    let mut case = RefineCaseV1 {
        format_version: 9,
        profile: SmokeProfile::default(),
        core_index: 0,
        item_index: 0,
        work_package: Vec::new(),
        authorization_trace: Vec::new(),
        external_data: Vec::new(),
        import_segments: vec![vec![vec![0; 4105]]],
        export_offset: 0,
        program: program(10, 0u32.to_le_bytes().to_vec()),
        state_witness: RefineStateWitnessV1 {
            binding: StateWitnessBindingV1::Fixture,
            historical_lookups: Vec::new(),
        },
    };
    let err = case.validate().unwrap_err();
    assert_eq!(format!("{:?}", err), "InvalidValue(\"unsupported RefineCaseV1 version\")");
    case.format_version = REFINE_CASE_FORMAT_V1;
    assert!(case.validate().is_err());
    case.program = program(1, Vec::new());
    assert!(case.validate().is_err());
    case.import_segments = vec![vec![vec![0; 4104]]];
    assert!(case.validate().is_ok());
}
