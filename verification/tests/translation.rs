use zk_jam::program::PvmTerminatorV1;
use zk_jam::pvm_machine::PvmMachineV0;
use zk_jam::pvm_memory::{PvmMemoryV0, PVM_PAGE_SIZE};
use zk_jam::translation::{
    translate, workload_program, GenericInstruction, M3Workload, TranslatedProgram, TranslationError,
};

#[test]
fn three_workloads_translate_without_runtime_interpreter() {
    for workload in M3Workload::all() {
        let program = workload_program(workload);
        let translated = translate(workload, &program).unwrap();
        assert_eq!(
            translated.pvm_instruction_count,
            program.instruction_count()
        );
        assert!(!translated.generic_instructions.is_empty());
        assert!(translated.translated_instruction_count() >= translated.pvm_instruction_count);
        assert!(translated
            .debug_rust_source()
            .contains("generated by zk-jam Translation M3"));
    }
}

#[test]
fn arithmetic_branch_and_memory_match_expected_results() {
    let mut arithmetic = PvmMachineV0::default();
    assert_eq!(
        arithmetic
            .run(&workload_program(M3Workload::Arithmetic), 7)
            .unwrap() as u32,
        0xA5A5_5A6A
    );

    let mut branch = PvmMachineV0::default();
    assert_eq!(
        branch
            .run(&workload_program(M3Workload::BranchTrue), 5)
            .unwrap() as u32,
        91
    );

    let mut memory = PvmMachineV0::default();
    for page in 1..=5 {
        memory.memory.map_zeroed_page(page, true).unwrap();
    }
    let value = memory
        .run(&workload_program(M3Workload::Memory16K), 2)
        .unwrap() as u32;
    assert_eq!(value, 0x80F0_2E78);
}

#[test]
fn sparse_memory_checks_permissions_and_cross_page_access() {
    let mut memory = PvmMemoryV0::new();
    memory.map_zeroed_page(1, true).unwrap();
    memory.map_zeroed_page(2, true).unwrap();
    memory.write(2 * PVM_PAGE_SIZE - 2, 4, 0xAABB_CCDD).unwrap();
    assert_eq!(memory.read(2 * PVM_PAGE_SIZE - 2, 4).unwrap(), 0xAABB_CCDD);
    assert!(memory.read(0, 1).is_err());
    memory.map_zeroed_page(3, false).unwrap();
    assert!(memory.write(3 * PVM_PAGE_SIZE, 1, 1).is_err());
}

#[test]
fn unsupported_opcode_and_dynamic_jump_fail_closed() {
    let mut program = workload_program(M3Workload::Arithmetic);
    program.blocks[0].instructions[0].opcode = 10;
    program.blocks[0].instructions[0].immediate = 1u32.to_le_bytes().to_vec();
    assert!(matches!(
        translate(M3Workload::Arithmetic, &program),
        Err(TranslationError::UnsupportedOpcode(10))
    ));

    let mut program = workload_program(M3Workload::Arithmetic);
    program.blocks[0].terminator = PvmTerminatorV1::DJump;
    assert!(matches!(
        translate(M3Workload::Arithmetic, &program),
        Err(TranslationError::UnsupportedTerminator)
    ));
}

#[test]
fn debug_source_lists_each_operation_as_its_debug_text() {
    let operations = vec![
        GenericInstruction::LoadImm64 { register: 3, value: u64::MAX },
        GenericInstruction::Move { destination: 1, source: 12 },
        GenericInstruction::Add32 { destination: 0, left: 1, right: 2 },
        GenericInstruction::Sub32 { destination: 3, left: 4, right: 5 },
        GenericInstruction::Mul32 { destination: 6, left: 7, right: 8 },
        GenericInstruction::Add64 { destination: 9, left: 10, right: 11 },
        GenericInstruction::Sub64 { destination: 12, left: 0, right: 1 },
        GenericInstruction::Mul64 { destination: 2, left: 3, right: 4 },
        GenericInstruction::Xor { destination: 5, left: 6, right: 7 },
        GenericInstruction::Load32 { destination: 8, address: 4096 },
        GenericInstruction::Store32 { source: 9, address: u32::MAX },
        GenericInstruction::StoreImm32 { address: 0, value: 1_000_000 },
        GenericInstruction::Branch { opcode: 170, left: 1, right: 255 },
        GenericInstruction::Jump,
        GenericInstruction::Fallthrough,
        GenericInstruction::Halt,
        GenericInstruction::Trap(42),
    ];
    let program = TranslatedProgram {
        workload: M3Workload::Arithmetic,
        source_code_hash: [0; 32],
        pvm_instruction_count: 0,
        generic_instructions: operations.clone(),
    };
    let mut expected = String::from("// generated by zk-jam Translation M3\nfn translated_guest() {\n");
    for operation in &operations {
        expected.push_str(&format!("    // {:?}\n", operation));
    }
    expected.push_str("}\n");
    assert_eq!(program.debug_rust_source(), expected);
}
