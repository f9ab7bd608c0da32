use zk_jam::cost_workload::all;
use zk_jam::jam_blob::{code_blob, fnencode, instruction_bytes};
use zk_jam::m4_specs::{m4_case_count, m4_case_specs, m4_program_specs, parse_workload, public_name, representative_input, representative_workloads, M4ProgramId, WorkloadNameError};
use zk_jam::native_pvm::{branch_displacement, branch_opcode, category, imm24, write_u32, NativePvmError, NativePvmLowerer, NativePvmRegisterMap, BRANCH_BGEU};
use zk_jam::openvm_values::{public_values_match, select_guest_toolchain, M2Benchmark, M2Input, M2InputError, M4ExpectedStatement, M4PublicValuesError, M4PublicValuesV1, OpenVmBackend, OPENVM_PINNED_GUEST_TOOLCHAIN};
use zk_jam::program::{PvmBlockV1, PvmInstructionV1, PvmProgramV1, PvmTerminatorV1, RegisterOperandsV1};
use zk_jam::pvm_gas::{block_gas, known_opcode_costs, PvmGasError};
use zk_jam::translation::{translate, workload_program, M3Workload};
use zk_jam::zkrefine_fixture::{validate_zkrefine_program, ZkRefineFixtureError};
use std::collections::BTreeMap;

#[test]
fn benchmark_names_labels_and_inputs() {
    assert_eq!(M2Benchmark::Memory { bytes: 1024 }.label(), "memory-1024");
    assert_eq!(M2Benchmark::Memory { bytes: 0 }.label(), "memory-0");
    assert_eq!(M2Benchmark::M4NativeBranch.label(), "m4-native-branch");
    assert_eq!(M2Benchmark::M4GeneratedBranch.guest_binary(), "m4-generated-v1");
    assert_eq!(M2Input::memory(5, 8), Ok(M2Input { a: 5, b: 8 }));
    assert_eq!(M2Input::memory(5, 6), Err(M2InputError::InvalidMemorySize(6)));
    let hash = M2Input::branch(1, 2).context_hash(&M2Benchmark::Branch);
    assert_eq!(hash.len(), 64);
    assert!(hash.chars().all(|c| c.is_ascii_hexdigit() && !c.is_ascii_uppercase()));
    let info = OpenVmBackend::info("nightly");
    assert_eq!(info.version, "2.0.1");
    assert_eq!(info.security_bits, 100);
    assert_eq!(info.guest_toolchain, "nightly");
}

#[test]
fn toolchain_selection_covers_every_line_shape() {
    assert_eq!(select_guest_toolchain(""), OPENVM_PINNED_GUEST_TOOLCHAIN);
    assert_eq!(select_guest_toolchain("stable-x86_64\n"), OPENVM_PINNED_GUEST_TOOLCHAIN);
    assert_eq!(select_guest_toolchain("  nightly \r\n"), "nightly");
    assert_eq!(select_guest_toolchain("nightly-aarch64-apple-darwin"), "nightly");
    assert_eq!(select_guest_toolchain("x nightly-2026-01-18\n"), OPENVM_PINNED_GUEST_TOOLCHAIN);
    assert_eq!(select_guest_toolchain("nightly-2026-01-18 (default)"), OPENVM_PINNED_GUEST_TOOLCHAIN);
}

#[test]
fn public_values_decode_errors_carry_lengths() {
    assert_eq!(M4PublicValuesV1::decode(&[0; 3]), Err(M4PublicValuesError::InvalidLength(3)));
    assert_eq!(M4PublicValuesV1::decode_openvm(&[0; 96]), Err(M4PublicValuesError::InvalidOpenVmLength(96)));
    let values = M4PublicValuesV1 { program_commitment: [1; 32], input_commitment: [2; 32], output: [0; 32] };
    let expected = M4ExpectedStatement { program_commitment: [1; 32], input_commitment: [2; 32], public_output: [0; 32] };
    assert!(public_values_match(&values, &expected));
    let mut wide = values;
    wide.output[5] = 1;
    assert!(!public_values_match(&wide, &M4ExpectedStatement { public_output: wide.output, ..expected }));
}

#[test]
fn native_helpers() {
    assert_eq!(branch_opcode(174), Ok(BRANCH_BGEU));
    assert_eq!(branch_opcode(1), Err(NativePvmError::UnsupportedOpcode(1)));
    assert_eq!(branch_displacement(4, 16), Ok(-12));
    assert_eq!(imm24(-1), 0x00ff_ffff);
    assert_eq!(category(0x250), "mul");
    assert_eq!(category(0x999), "other");
    let mut image = BTreeMap::new();
    write_u32(&mut image, 1, 100, 0x0403_0201);
    assert_eq!(image.get(&(1, 102)), Some(&3));
    let lowerer = NativePvmLowerer { register_map: NativePvmRegisterMap::default() };
    for (workload, register) in [(M3Workload::Arithmetic, 7), (M3Workload::BranchTrue, 5), (M3Workload::Memory16K, 2)] {
        assert_eq!(lowerer.validate_fixture(&workload_program(workload), register), Ok(()));
    }
    assert_eq!(lowerer.validate_fixture(&workload_program(M3Workload::Arithmetic), 13), Err(NativePvmError::InvalidRegister(13)));
    assert_eq!(lowerer.validate_memory(0x1002), Err(NativePvmError::InvalidMemoryAddress(0x1002)));
}

#[test]
fn arithmetic_block_gas() {
    let program = workload_program(M3Workload::Arithmetic);
    let translated = translate(M3Workload::Arithmetic, &program).unwrap();
    let gas = block_gas(&program.blocks[0], &translated.generic_instructions[..7], &PvmTerminatorV1::Halt);
    assert_eq!(gas, Ok(7));
    assert_eq!(
        block_gas(&program.blocks[0], &translated.generic_instructions[..7], &PvmTerminatorV1::DJump),
        Err(PvmGasError::UnsupportedTerminator)
    );
    assert_eq!(known_opcode_costs().get(&61), Some(&25));
    assert_eq!(known_opcode_costs().len(), 18);
}

#[test]
fn m4_cases() {
    assert_eq!(m4_case_count(), 6);
    assert_eq!(m4_program_specs()[1].cases.len(), 3);
    assert_eq!(m4_case_specs()[5].name, "memory-16KiB");
    assert_eq!(parse_workload("memory-16384"), Ok(M4ProgramId::Memory16K));
    assert_eq!(parse_workload("mem"), Err(WorkloadNameError::UnknownWorkload));
    assert_eq!(public_name(M4ProgramId::Memory16K), "memory-16k");
    assert_eq!(representative_input(M4ProgramId::Branch), [21, 8]);
    assert_eq!(M4ProgramId::Branch.output_register(), 5);
    assert_eq!(M4ProgramId::Branch.benchmark(), M2Benchmark::M4GeneratedBranch);
    assert_eq!(M4ProgramId::Memory16K.native_benchmark(), M2Benchmark::M4NativeMemory16K);
    let workloads = representative_workloads();
    assert_eq!(workloads[1], (M4ProgramId::Branch, [21, 8]));
    assert_eq!(workloads.map(|(id, _)| id), [M4ProgramId::Arithmetic, M4ProgramId::Branch, M4ProgramId::Memory16K]);
}

#[test]
fn natural_number_encoding_vectors() {
    let encode = |value: usize| {
        let mut out = Vec::new();
        fnencode(value, &mut out);
        out
    };
    assert_eq!(encode(0), vec![0]);
    assert_eq!(encode(0x7F), vec![0x7F]);
    assert_eq!(encode(0x80), vec![0x80, 0x80]);
    assert_eq!(encode(0x3FFF), vec![0xBF, 0xFF]);
    assert_eq!(encode(0x4000), vec![0xC0, 0x00, 0x40]);
    assert_eq!(encode(usize::MAX), vec![0xFF; 9]);
}

#[test]
fn reference_program_bytes_and_blob() {
    let (code, instructions) = instruction_bytes();
    assert_eq!(code.len(), 121);
    assert_eq!(instructions.len(), 15);
    assert_eq!(instructions[14].pc, 115);
    assert_eq!(&code[115..117], &[50, 7]);
    let blob = code_blob(&code);
    assert_eq!(blob.len(), 156);
    assert_eq!(&blob[..12], &[0, 0, 0, 0, 0, 0, 0, 2, 0, 0, 0, 0]);
    assert_eq!(&blob[12..16], &140u32.to_le_bytes());
    let valid = &blob[16 + 3 + 121..];
    assert_eq!(valid.len(), 16);
    assert_eq!(valid[0], 1);
    assert_eq!(valid[1], 1 << 2);
}

fn reference_program() -> PvmProgramV1 {
    let shape: [(u8, u8, u8, u8, Vec<u8>); 17] = [
        (20, 0, 7, 0, 0x20000u64.to_le_bytes().to_vec()),
        (20, 0, 8, 0, 0u64.to_le_bytes().to_vec()),
        (20, 0, 9, 0, 4104u64.to_le_bytes().to_vec()),
        (20, 0, 10, 0, 6u64.to_le_bytes().to_vec()),
        (20, 0, 11, 0, 0u64.to_le_bytes().to_vec()),
        (20, 0, 12, 0, 0u64.to_le_bytes().to_vec()),
        (10, 0, 0, 0, 1u32.to_le_bytes().to_vec()),
        (56, 0, 1, 0, 0x20000u32.to_le_bytes().to_vec()),
        (20, 0, 2, 0, 0xA5A5_A5A5u64.to_le_bytes().to_vec()),
        (211, 1, 1, 2, Vec::new()),
        (61, 0, 1, 0, 0x20000u32.to_le_bytes().to_vec()),
        (20, 0, 7, 0, 0x20000u64.to_le_bytes().to_vec()),
        (20, 0, 8, 0, 4104u64.to_le_bytes().to_vec()),
        (20, 0, 7, 0, 0x20000u64.to_le_bytes().to_vec()),
        (20, 0, 8, 0, 4104u64.to_le_bytes().to_vec()),
        (10, 0, 0, 0, 7u32.to_le_bytes().to_vec()),
        (50, 0, 7, 0, (-65_537i32).to_le_bytes().to_vec()),
    ];
    let mut pc = 0u32;
    let mut instructions = Vec::new();
    for (opcode, rd, ra, rb, immediate) in shape {
        instructions.push(PvmInstructionV1 { pc, opcode, registers: RegisterOperandsV1 { rd, ra, rb }, immediate, pc_delta: 0 });
        pc += match opcode {
            10 => 5,
            20 => 10,
            211 => 3,
            _ => 6,
        };
    }
    let mut program = workload_program(M3Workload::Arithmetic);
    program.blocks = vec![PvmBlockV1 { entry_pc: 0, instructions, terminator: PvmTerminatorV1::Halt }];
    program
}

#[test]
fn zkrefine_reference_program_is_admitted_exactly() {
    let program = reference_program();
    assert_eq!(validate_zkrefine_program(&program), Ok(()));
    let mut tampered = program.clone();
    tampered.blocks[0].instructions[3].immediate[0] = 7;
    assert_eq!(validate_zkrefine_program(&tampered), Err(ZkRefineFixtureError::ImmediateMismatch { index: 3 }));
    let mut moved = program.clone();
    moved.blocks[0].instructions[4].pc += 1;
    assert_eq!(validate_zkrefine_program(&moved), Err(ZkRefineFixtureError::InstructionMismatch { index: 4 }));
    let mut no_halt = program.clone();
    no_halt.blocks[0].terminator = PvmTerminatorV1::Trap(0);
    assert_eq!(validate_zkrefine_program(&no_halt), Err(ZkRefineFixtureError::MissingHalt));
    assert_eq!(
        validate_zkrefine_program(&workload_program(M3Workload::Arithmetic)),
        Err(ZkRefineFixtureError::InstructionCountMismatch { actual: 7, expected: 17, blocks: 1 })
    );
}

#[test]
fn cost_workloads_are_the_published_set() {
    let workloads = all();
    let names: Vec<&str> = workloads.iter().map(|w| w.name).collect();
    assert_eq!(
        names,
        [
            "arithmetic", "branch-true", "memory-16384", "arithmetic-dependent", "arithmetic-independent",
            "mul-heavy", "branch-false", "load-heavy", "store-heavy", "mixed-arithmetic-memory"
        ]
    );
    assert_eq!(workloads[0].program, workload_program(M3Workload::Arithmetic));
    assert_eq!(workloads[2].input, M2Input { a: 0x1234_5678, b: 16384 });
    assert_eq!(workloads[6].input, M2Input::branch(8, 21));
    assert_eq!(workloads[6].benchmark, M2Benchmark::M4NativeBranch);
    let load = &workloads[7];
    assert_eq!(load.pattern, "load");
    assert_eq!(load.benchmark, M2Benchmark::M4NativeArithmetic);
    assert_eq!(load.program.code_hash, [7; 32]);
    assert_eq!(load.program.z_pages, 6);
    assert_eq!(load.program.blocks.len(), 1);
    assert_eq!(load.program.blocks[0].terminator, PvmTerminatorV1::Halt);
    let first = &load.program.blocks[0].instructions[0];
    assert_eq!((first.opcode, first.registers.rd), (56, 3));
    assert_eq!(first.immediate, (4096u32 + 0x100).to_le_bytes().to_vec());
    let mul = &workloads[5].program.blocks[0].instructions;
    assert_eq!(mul.len(), 5);
    assert_eq!(mul[1].immediate, 5u64.to_le_bytes().to_vec());
    assert_eq!(mul[4].registers, RegisterOperandsV1 { rd: 7, ra: 6, rb: 3 });
    for workload in &workloads {
        assert!(workload.program.validate().is_ok(), "{} admits", workload.name);
    }
}
