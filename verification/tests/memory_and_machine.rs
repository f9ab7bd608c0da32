use zk_jam::program::{PvmBlockV1, PvmInstructionV1, PvmProgramV1, PvmTerminatorV1, RegisterOperandsV1};
use zk_jam::pvm_machine::PvmMachineV0;
use zk_jam::pvm_memory::{PvmMemoryV0, PVM_PAGE_SIZE};
use zk_jam::translation::{translate, workload_program, GenericInstruction, M3Workload, TranslationError};

#[test]
fn written_values_read_back_modulo_their_width() {
    let mut memory = PvmMemoryV0::new();
    memory.map_zeroed_page(1, true).unwrap();
    for width in 1..=8usize {
        let value = 0x1122_3344_5566_7788u64;
        memory.write(PVM_PAGE_SIZE, width, value).unwrap();
        let expected = if width == 8 { value } else { value % (1u64 << (8 * width)) };
        assert_eq!(memory.read(PVM_PAGE_SIZE, width).unwrap(), expected);
    }
}

#[test]
fn writes_leave_other_bytes_alone() {
    let mut memory = PvmMemoryV0::new();
    memory.map_zeroed_page(1, true).unwrap();
    memory.write(PVM_PAGE_SIZE, 8, u64::MAX).unwrap();
    memory.write(PVM_PAGE_SIZE + 2, 2, 0).unwrap();
    assert_eq!(memory.read_bytes(PVM_PAGE_SIZE, 8).unwrap(), vec![0xFF, 0xFF, 0, 0, 0xFF, 0xFF, 0xFF, 0xFF]);
}

#[test]
fn protected_page_and_bad_widths_fault_at_their_address() {
    let mut memory = PvmMemoryV0::new();
    assert_eq!(memory.map_zeroed_page(0, true), Err(TranslationError::MemoryFault { address: 0 }));
    memory.map_zeroed_page(1, true).unwrap();
    assert_eq!(memory.read(100, 1), Err(TranslationError::MemoryFault { address: 100 }));
    assert_eq!(memory.read(PVM_PAGE_SIZE, 0), Err(TranslationError::MemoryFault { address: PVM_PAGE_SIZE }));
    assert_eq!(memory.read(PVM_PAGE_SIZE, 9), Err(TranslationError::MemoryFault { address: PVM_PAGE_SIZE }));
    assert_eq!(memory.read(u32::MAX - 1, 4), Err(TranslationError::MemoryFault { address: u32::MAX - 1 }));
    assert_eq!(
        memory.read(2 * PVM_PAGE_SIZE - 1, 2),
        Err(TranslationError::MemoryFault { address: 2 * PVM_PAGE_SIZE })
    );
}

#[test]
fn a_write_into_a_read_only_page_keeps_the_bytes_before_the_fault() {
    let mut memory = PvmMemoryV0::new();
    memory.map_zeroed_page(1, true).unwrap();
    memory.map_zeroed_page(2, false).unwrap();
    assert_eq!(
        memory.write(2 * PVM_PAGE_SIZE - 2, 4, 0xAABB_CCDD),
        Err(TranslationError::MemoryFault { address: 2 * PVM_PAGE_SIZE })
    );
    assert_eq!(memory.read_bytes(2 * PVM_PAGE_SIZE - 2, 4).unwrap(), vec![0xDD, 0xCC, 0, 0]);
}

#[test]
fn remapping_a_page_changes_permission_not_content() {
    let mut memory = PvmMemoryV0::new();
    memory.map_zeroed_page(3, true).unwrap();
    memory.write(3 * PVM_PAGE_SIZE, 4, 0x0102_0304).unwrap();
    memory.map_zeroed_page(3, false).unwrap();
    assert_eq!(memory.read(3 * PVM_PAGE_SIZE, 4).unwrap(), 0x0102_0304);
    assert!(memory.write(3 * PVM_PAGE_SIZE, 1, 0).is_err());
}

fn single_block(instructions: Vec<PvmInstructionV1>, terminator: PvmTerminatorV1) -> PvmProgramV1 {
    let mut program = workload_program(M3Workload::Arithmetic);
    program.blocks = vec![PvmBlockV1 { entry_pc: 0, instructions, terminator }];
    program
}

fn instr(opcode: u8, rd: u8, ra: u8, rb: u8, immediate: Vec<u8>) -> PvmInstructionV1 {
    PvmInstructionV1 { pc: 0, opcode, registers: RegisterOperandsV1 { rd, ra, rb }, immediate, pc_delta: 0 }
}

#[test]
fn machine_refuses_bad_programs_and_registers() {
    let mut machine = PvmMachineV0::default();
    let mut program = workload_program(M3Workload::Arithmetic);
    program.format_version = 2;
    assert_eq!(
        machine.run(&program, 7),
        Err(TranslationError::InvalidProgram("interface validation failed"))
    );
    assert_eq!(
        machine.run(&workload_program(M3Workload::Arithmetic), 13),
        Err(TranslationError::InvalidProgram("output register out of range"))
    );
}

#[test]
fn machine_arithmetic_is_sign_extended_32_bit() {
    let program = single_block(
        vec![
            instr(20, 0, 1, 0, 0x7FFF_FFFFu64.to_le_bytes().to_vec()),
            instr(20, 0, 2, 0, 1u64.to_le_bytes().to_vec()),
            instr(190, 3, 1, 2, Vec::new()),
            instr(191, 4, 2, 1, Vec::new()),
            instr(201, 5, 2, 1, Vec::new()),
            instr(173, 0, 4, 2, Vec::new()),
        ],
        PvmTerminatorV1::Halt,
    );
    let mut machine = PvmMachineV0::default();
    assert_eq!(machine.run(&program, 3).unwrap(), 0xFFFF_FFFF_8000_0000);
    assert_eq!(machine.registers[4], 0xFFFF_FFFF_8000_0002);
    assert_eq!(machine.registers[5], 0xFFFF_FFFF_8000_0002);
    assert_eq!(machine.output_register, 3);
}

#[test]
fn machine_traps_and_faults() {
    let mut machine = PvmMachineV0::default();
    let trap = single_block(vec![instr(20, 0, 1, 0, 5u64.to_le_bytes().to_vec())], PvmTerminatorV1::Trap(9));
    assert_eq!(machine.run(&trap, 1), Err(TranslationError::Trap(9)));
    assert_eq!(machine.registers[1], 5);
    let fault = single_block(vec![instr(56, 0, 1, 0, 0x1000u32.to_le_bytes().to_vec())], PvmTerminatorV1::Halt);
    assert_eq!(machine.run(&fault, 1), Err(TranslationError::MemoryFault { address: 0x1000 }));
    let bad = single_block(vec![instr(20, 0, 1, 0, 5u32.to_le_bytes().to_vec())], PvmTerminatorV1::Halt);
    assert_eq!(
        machine.run(&bad, 1),
        Err(TranslationError::InvalidImmediate { opcode: 20, expected: 8, actual: 4 })
    );
}

#[test]
fn translation_emits_one_operation_per_instruction_and_block() {
    for workload in M3Workload::all() {
        let program = workload_program(workload);
        let translated = translate(workload, &program).unwrap();
        assert_eq!(
            translated.generic_instructions.len(),
            program.instruction_count() + program.blocks.len()
        );
        assert_eq!(translated.source_code_hash, program.code_hash);
        assert_eq!(translated.workload, workload);
    }
    let translated = translate(M3Workload::Arithmetic, &workload_program(M3Workload::Arithmetic)).unwrap();
    assert_eq!(translated.generic_instructions[0], GenericInstruction::LoadImm64 { register: 1, value: 7 });
    assert_eq!(translated.generic_instructions[7], GenericInstruction::Halt);
    assert_eq!(translated.translated_instruction_count(), 2 + 2 + 1 + 2 + 1 + 2 + 1 + 1);
}

#[test]
fn translation_checks_immediate_widths() {
    let program = single_block(vec![instr(56, 0, 1, 0, vec![1, 2])], PvmTerminatorV1::Halt);
    assert_eq!(
        translate(M3Workload::Arithmetic, &program).err(),
        Some(TranslationError::InvalidImmediate { opcode: 56, expected: 4, actual: 2 })
    );
}

#[test]
fn newly_mapped_page_reads_zero_and_remapping_keeps_bytes() {
    let mut memory = PvmMemoryV0::new();
    memory.map_zeroed_page(3, true).unwrap();
    assert_eq!(memory.read_bytes(3 * PVM_PAGE_SIZE, 8).unwrap(), vec![0; 8]);
    assert_eq!(memory.read(4 * PVM_PAGE_SIZE - 8, 8).unwrap(), 0);
    memory.write(3 * PVM_PAGE_SIZE + 16, 4, 0xDEAD_BEEF).unwrap();
    memory.map_zeroed_page(3, false).unwrap();
    assert_eq!(memory.read(3 * PVM_PAGE_SIZE + 16, 4).unwrap(), 0xDEAD_BEEF);
    assert_eq!(
        memory.write(3 * PVM_PAGE_SIZE, 1, 1),
        Err(TranslationError::MemoryFault { address: 3 * PVM_PAGE_SIZE })
    );
    let copy = memory.clone();
    assert_eq!(copy.read(3 * PVM_PAGE_SIZE + 16, 4).unwrap(), 0xDEAD_BEEF);
}
