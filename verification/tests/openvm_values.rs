use zk_jam::native_pvm::{NativePvmError, NativePvmRegisterMap};
use zk_jam::openvm_values::{
    check_m4_claim, check_m4_context, m2_benchmarks, M2SelectionError, check_m4_public_values, check_m4_statement, M4ExpectedStatement, M4StatementError,
    expected_arithmetic, expected_branch, select_guest_toolchain, M2Benchmark, M2Input,
    M4PublicValuesError, M4PublicValuesV1, M4_OPENVM_PUBLIC_VALUES_LEN,
    M4_PUBLIC_VALUES_MERKLE_CHUNK_BYTES, M4_SEMANTIC_PUBLIC_VALUES_LEN,
    OPENVM_PINNED_GUEST_TOOLCHAIN,
};

#[test]
fn arithmetic_vector_matches_guest_formula() {
    assert_eq!(expected_arithmetic(7, 9), 0xA5A5_5A6A);
    assert_eq!(expected_arithmetic(u32::MAX, 1), 0xA5A5_5A5A);
}

#[test]
fn branch_covers_true_false_and_equal() {
    assert_eq!(expected_branch(21, 8), 91);
    assert_eq!(expected_branch(8, 21), 143);
    assert_eq!(expected_branch(8, 8), 0);
}

#[test]
fn memory_input_is_bounded_to_word_sizes() {
    assert!(M2Input::memory(1, 1024).is_ok());
    assert!(M2Input::memory(1, 16 * 1024).is_ok());
    assert!(M2Input::memory(1, 256 * 1024).is_ok());
    assert!(M2Input::memory(1, 3).is_err());
    assert!(M2Input::memory(1, 0).is_err());
}

#[test]
fn context_changes_when_input_changes() {
    let benchmark = M2Benchmark::Arithmetic;
    assert_ne!(
        M2Input::arithmetic(1, 2).context_hash(&benchmark),
        M2Input::arithmetic(1, 3).context_hash(&benchmark)
    );
}

#[test]
fn m4_public_values_roundtrip_and_fail_closed() {
    let values = M4PublicValuesV1 {
        program_commitment: [1; 32],
        input_commitment: [2; 32],
        output: [3; 32],
    };
    assert_eq!(M4PublicValuesV1::decode(&values.encode()).unwrap(), values);
    assert!(M4PublicValuesV1::decode(&values.encode()[..95]).is_err());
    let mut oversized = values.encode().to_vec();
    oversized.push(4);
    assert!(M4PublicValuesV1::decode(&oversized).is_err());
    let mut tampered = values.encode();
    tampered[0] ^= 1;
    assert_ne!(M4PublicValuesV1::decode(&tampered).unwrap(), values);
    tampered[32] ^= 1;
    assert_ne!(M4PublicValuesV1::decode(&tampered).unwrap(), values);
    tampered[64] ^= 1;
    assert_ne!(M4PublicValuesV1::decode(&tampered).unwrap(), values);

    assert_eq!(M4_OPENVM_PUBLIC_VALUES_LEN, 128);
    assert_eq!(M4_SEMANTIC_PUBLIC_VALUES_LEN, 96);
    assert_eq!(
        M4_OPENVM_PUBLIC_VALUES_LEN % M4_PUBLIC_VALUES_MERKLE_CHUNK_BYTES,
        0
    );
    assert!(
        (M4_OPENVM_PUBLIC_VALUES_LEN / M4_PUBLIC_VALUES_MERKLE_CHUNK_BYTES).is_power_of_two()
    );
    let openvm = values.encode_openvm();
    assert_eq!(openvm.len(), 128);
    assert_eq!(M4PublicValuesV1::decode_openvm(&openvm).unwrap(), values);
    let mut short = openvm.to_vec();
    short.pop();
    assert!(M4PublicValuesV1::decode_openvm(&short).is_err());
    let mut long = openvm.to_vec();
    long.push(0);
    assert!(M4PublicValuesV1::decode_openvm(&long).is_err());
    let mut non_zero_padding = openvm;
    non_zero_padding[96] = 1;
    assert!(matches!(
        M4PublicValuesV1::decode_openvm(&non_zero_padding),
        Err(M4PublicValuesError::NonZeroPadding)
    ));
}

#[test]
fn guest_toolchain_selection_prefers_the_pin() {
    assert_eq!(
        select_guest_toolchain(
            "nightly-x86_64-unknown-linux-gnu\nnightly-2026-01-18-x86_64-unknown-linux-gnu\n"
        ),
        OPENVM_PINNED_GUEST_TOOLCHAIN
    );
    assert_eq!(
        select_guest_toolchain("nightly-x86_64-unknown-linux-gnu\n"),
        "nightly"
    );
}

#[test]
fn register_mapping_is_fixed_and_deterministic() {
    let first = NativePvmRegisterMap::default();
    let second = NativePvmRegisterMap::default();
    assert_eq!(first, second);
    assert_eq!(first.pointer(0), Ok(0));
    assert_eq!(first.pointer(12), Ok(48));
    assert_eq!(first.pointer(13), Err(NativePvmError::InvalidRegister(13)));
}

#[test]
fn m4_statement_checks_refuse_each_mismatch() {
    let expected = M4ExpectedStatement {
        program_commitment: [1; 32],
        input_commitment: [2; 32],
        public_output: [3; 32],
    };
    assert_eq!(check_m4_claim(1, &[1; 32], &[2; 32], &[3; 32], &expected), Ok(()));
    assert_eq!(
        check_m4_claim(2, &[1; 32], &[2; 32], &[3; 32], &expected),
        Err(M4StatementError::UnsupportedVersion)
    );
    assert_eq!(
        check_m4_claim(1, &[1; 32], &[9; 32], &[3; 32], &expected),
        Err(M4StatementError::ExpectedStatementMismatch)
    );
    let values = M4PublicValuesV1 {
        program_commitment: [1; 32],
        input_commitment: [2; 32],
        output: [3; 32],
    };
    let revealed = values.encode_openvm();
    assert_eq!(check_m4_public_values(&expected, &revealed), Ok(()));
    assert_eq!(
        check_m4_public_values(&expected, &revealed[..96]),
        Err(M4StatementError::PublicValues(M4PublicValuesError::InvalidOpenVmLength(96)))
    );
    let mut padded = revealed;
    padded[127] = 1;
    assert_eq!(
        check_m4_public_values(&expected, &padded),
        Err(M4StatementError::PublicValues(M4PublicValuesError::NonZeroPadding))
    );
    let mut other = revealed;
    other[40] = 0;
    assert_eq!(
        check_m4_public_values(&expected, &other),
        Err(M4StatementError::PublicValuesMismatch)
    );
}

#[test]
fn m4_context_binds_the_supplied_input() {
    let input = M2Input::arithmetic(7, 9);
    let benchmark = M2Benchmark::M4GeneratedArithmetic;
    let context = input.context_hash(&benchmark);
    assert_eq!(check_m4_context(&context, input, &benchmark), Ok(()));
    assert_eq!(
        check_m4_context(&context, M2Input::arithmetic(7, 10), &benchmark),
        Err(M4StatementError::ContextMismatch)
    );
    assert_eq!(
        check_m4_context(&context, input, &M2Benchmark::M4NativeArithmetic),
        Err(M4StatementError::ContextMismatch)
    );
    assert_eq!(
        check_m4_context(&context.to_uppercase(), input, &benchmark),
        Err(M4StatementError::ContextMismatch)
    );

    let expected = M4ExpectedStatement {
        program_commitment: [1; 32],
        input_commitment: [2; 32],
        public_output: [3; 32],
    };
    let claimed = M4PublicValuesV1 {
        program_commitment: [1; 32],
        input_commitment: [2; 32],
        output: [3; 32],
    };
    let revealed = claimed.encode_openvm();
    assert_eq!(
        check_m4_statement(1, &claimed, &expected, &revealed, &context, input, &benchmark),
        Ok(())
    );
    assert_eq!(
        check_m4_statement(0, &claimed, &expected, &revealed[..3], "x", input, &benchmark),
        Err(M4StatementError::UnsupportedVersion)
    );
    assert_eq!(
        check_m4_statement(1, &claimed, &expected, &revealed[..3], "x", input, &benchmark),
        Err(M4StatementError::PublicValues(M4PublicValuesError::InvalidOpenVmLength(3)))
    );
    assert_eq!(
        check_m4_statement(1, &claimed, &expected, &revealed, "x", input, &benchmark),
        Err(M4StatementError::ContextMismatch)
    );
}

#[test]
fn benchmark_selection_follows_backend_and_name() {
    let memory = vec![
        M2Benchmark::Memory { bytes: 1024 },
        M2Benchmark::Memory { bytes: 16 * 1024 },
        M2Benchmark::Memory { bytes: 256 * 1024 },
    ];
    let mut all = vec![M2Benchmark::Arithmetic, M2Benchmark::Branch];
    all.extend(memory.clone());
    assert_eq!(m2_benchmarks("cpu", None), Ok(all));
    assert_eq!(m2_benchmarks("cpu", Some("arithmetic")), Ok(vec![M2Benchmark::Arithmetic]));
    assert_eq!(m2_benchmarks("cpu", Some("branch")), Ok(vec![M2Benchmark::Branch]));
    assert_eq!(m2_benchmarks("cpu", Some("memory")), Ok(memory));
    assert_eq!(
        m2_benchmarks("cpu", Some("sha")),
        Err(M2SelectionError::UnknownBenchmark("sha".to_string()))
    );
    assert_eq!(m2_benchmarks("gpu", Some("sha")), Err(M2SelectionError::UnsupportedBackend));
}

#[test]
fn context_hash_is_64_lower_case_hex_digits() {
    for benchmark in [M2Benchmark::Arithmetic, M2Benchmark::Memory { bytes: 1024 }, M2Benchmark::M4NativeBranch] {
        let context = M2Input::arithmetic(1, 2).context_hash(&benchmark);
        assert_eq!(context.len(), 64);
        assert!(context.chars().all(|c| c.is_ascii_digit() || ('a'..='f').contains(&c)));
    }
    assert_eq!(M2Benchmark::Memory { bytes: 16384 }.label(), "memory-16384");
}
