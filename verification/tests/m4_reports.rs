use zk_jam::m4_reports::{
    aggregate_m4_reports, validate_m4_preflight_report, validate_m4_proof_partial_report,
    validate_m4_report, M4BenchmarkReport, M4CaseRecord, M4PreflightCaseRecord, M4PreflightReport,
    M4ProofPartialReport, M4ReportError, m4_case_bindings, m4_proof_program_bindings, m4_expected_output, m4_run_readiness,
    M4CaseBindings,
};
use zk_jam::m4_render::{render_csv, render_markdown};
use zk_jam::openvm_values::M4PublicValuesV1;
use zk_jam::openvm_values::{OPENVM_PINNED_GUEST_TOOLCHAIN, OPENVM_REVISION};
use zk_jam::translation::TRANSLATION_VERSION;

fn commitment(program: &str) -> String {
    format!("commit-{program}")
}

fn case(program: &str, name: &str) -> M4CaseRecord {
    M4CaseRecord {
        program: program.to_string(),
        name: name.to_string(),
        pvm_program_commitment: commitment(program),
        translated_program_commitment: format!("translated-{program}"),
        input_commitment: format!("input-{name}"),
        reference_output_hex: format!("out-{name}"),
        proven_output_hex: format!("out-{name}"),
        translation_ns: 1,
        emission_ns: 2,
        build_ns: 3,
        transpile_ns: 4,
        app_keygen_ns: 5,
        agg_keygen_ns: 6,
        keygen_ns: 11,
        execute_ns: 7,
        prove_ns: 8,
        verify_ns: 9,
        proof_bytes: 1000,
        peak_rss_bytes: Some(1 << 20),
        proof_verified: true,
        program_binding_verified: true,
        input_binding_verified: true,
        output_matches_reference: true,
        error: None,
        complete: true,
    }
}

fn preflight_case(program: &str, name: &str) -> M4PreflightCaseRecord {
    M4PreflightCaseRecord {
        program: program.to_string(),
        name: name.to_string(),
        pvm_program_commitment: commitment(program),
        input_commitment: format!("input-{name}"),
        reference_output_hex: format!("out-{name}"),
        execution_output_hex: format!("out-{name}"),
        translation_ns: 1,
        emission_ns: 2,
        build_ns: 3,
        transpile_ns: 4,
        public_values_len: 96,
        execute_ns: 5,
        program_binding_verified: true,
        input_binding_verified: true,
        output_matches_reference: true,
        error: None,
        complete: true,
    }
}

const CASES: [(&str, &str); 6] = [
    ("arithmetic", "arithmetic-input-a"),
    ("arithmetic", "arithmetic-input-b"),
    ("branch", "branch-true"),
    ("branch", "branch-false"),
    ("branch", "branch-equal"),
    ("memory", "memory-16KiB"),
];

fn preflight() -> M4PreflightReport {
    M4PreflightReport {
        schema_version: "m4-preflight-v1".to_string(),
        translation_version: TRANSLATION_VERSION,
        zk_jam_revision: "abc".to_string(),
        git_dirty: false,
        jambda_repository: "jambda".to_string(),
        jambda_revision: "b850".to_string(),
        jambda_provenance_verified: true,
        openvm_version: "2.0.1".to_string(),
        openvm_revision: OPENVM_REVISION.to_string(),
        guest_toolchain: OPENVM_PINNED_GUEST_TOOLCHAIN.to_string(),
        backend: "cpu".to_string(),
        programs: 3,
        cases: CASES.iter().map(|(p, n)| preflight_case(p, n)).collect(),
        complete: true,
    }
}

fn partial(program: &str) -> M4ProofPartialReport {
    let pre = preflight();
    M4ProofPartialReport {
        schema_version: "m4-proof-partial-v1".to_string(),
        translation_version: pre.translation_version,
        program: program.to_string(),
        zk_jam_revision: pre.zk_jam_revision,
        git_dirty: pre.git_dirty,
        jambda_repository: pre.jambda_repository,
        jambda_revision: pre.jambda_revision,
        jambda_provenance_verified: pre.jambda_provenance_verified,
        openvm_version: pre.openvm_version,
        openvm_revision: pre.openvm_revision,
        guest_toolchain: pre.guest_toolchain,
        backend: pre.backend,
        cases: CASES.iter().filter(|(p, _)| *p == program).map(|(p, n)| case(p, n)).collect(),
        complete: true,
    }
}

fn partials() -> Vec<M4ProofPartialReport> {
    vec![partial("memory"), partial("branch"), partial("arithmetic")]
}

#[test]
fn aggregation_orders_cases_by_name_and_sets_flags() {
    let report = aggregate_m4_reports(preflight(), partials()).expect("aggregated");
    let names: Vec<&str> = report.cases.iter().map(|c| c.name.as_str()).collect();
    assert_eq!(
        names,
        ["arithmetic-input-a", "arithmetic-input-b", "branch-equal", "branch-false", "branch-true", "memory-16KiB"]
    );
    assert_eq!(report.schema_version, "m4-proven-translation-v1");
    assert_eq!((report.samples, report.warmup, report.programs), (1, 0, 3));
    assert!(report.program_reuse_verified && report.complete && report.publication_ready);
    assert_eq!(report.backend, "cpu");
    assert_eq!(validate_m4_report(&report), Ok(()));
}

#[test]
fn aggregation_refusals() {
    assert_eq!(aggregate_m4_reports(preflight(), partials()[..2].to_vec()).err(), Some(M4ReportError::PartialCount));

    let mut other_backend = partials();
    other_backend[1].backend = "gpu".to_string();
    assert_eq!(aggregate_m4_reports(preflight(), other_backend).err(), Some(M4ReportError::PartialMetadataMismatch));

    let twice = vec![partial("arithmetic"), partial("arithmetic"), partial("branch")];
    assert_eq!(aggregate_m4_reports(preflight(), twice).err(), Some(M4ReportError::IncompletePartialSet));
    let mut unfinished = partials();
    unfinished[0].complete = false;
    assert_eq!(aggregate_m4_reports(preflight(), unfinished).err(), Some(M4ReportError::IncompletePartialSet));

    let mut duplicate = partials();
    duplicate[2].cases[1].name = "arithmetic-input-a".to_string();
    assert_eq!(
        aggregate_m4_reports(preflight(), duplicate).err(),
        Some(M4ReportError::DuplicateCase("arithmetic-input-a".to_string()))
    );

    let mut unknown = partials();
    unknown[1].cases[0].name = "branch-sideways".to_string();
    assert_eq!(
        aggregate_m4_reports(preflight(), unknown).err(),
        Some(M4ReportError::CaseMissingFromPreflight("branch-sideways".to_string()))
    );

    let mut drifted = partials();
    drifted[0].cases[0].input_commitment = "other".to_string();
    assert_eq!(
        aggregate_m4_reports(preflight(), drifted).err(),
        Some(M4ReportError::CaseMismatch("memory-16KiB".to_string()))
    );

    let mut short = partials();
    short[1].cases.pop();
    assert_eq!(aggregate_m4_reports(preflight(), short).err(), Some(M4ReportError::MissingCases));
}

#[test]
fn aggregation_flags_follow_reuse_and_readiness() {
    let mut split = partials();
    split[2].cases[1].pvm_program_commitment = "another".to_string();
    let mut pre = preflight();
    pre.cases[1].pvm_program_commitment = "another".to_string();
    let report = aggregate_m4_reports(pre, split).unwrap();
    assert!(!report.program_reuse_verified && !report.complete && !report.publication_ready);

    let mut dirty = preflight();
    dirty.git_dirty = true;
    let mut dirty_partials = partials();
    dirty_partials.iter_mut().for_each(|p| p.git_dirty = true);
    let report = aggregate_m4_reports(dirty, dirty_partials).unwrap();
    assert!(report.complete && !report.publication_ready);
    assert_eq!(validate_m4_report(&report), Ok(()));

    let mut other_revision = preflight();
    other_revision.openvm_revision = "0000".to_string();
    let mut other_partials = partials();
    other_partials.iter_mut().for_each(|p| p.openvm_revision = "0000".to_string());
    let report = aggregate_m4_reports(other_revision, other_partials).unwrap();
    assert!(report.complete && !report.publication_ready);
    // The readiness rule of the benchmark report does not look at the OpenVM revision.
    assert_eq!(validate_m4_report(&report), Err(M4ReportError::PublicationReadyMismatch));

    let mut incomplete = preflight();
    incomplete.complete = false;
    let report = aggregate_m4_reports(incomplete, partials()).unwrap();
    assert!(!report.complete);
    assert_eq!(validate_m4_report(&report), Err(M4ReportError::CompleteMismatch));
}

fn benchmark_report() -> M4BenchmarkReport {
    aggregate_m4_reports(preflight(), partials()).unwrap()
}

#[test]
fn benchmark_report_consistency_rules() {
    let mut two_samples = benchmark_report();
    two_samples.samples = 2;
    assert_eq!(validate_m4_report(&two_samples), Err(M4ReportError::SampleCounts));
    let mut claims_incomplete = benchmark_report();
    claims_incomplete.complete = false;
    assert_eq!(validate_m4_report(&claims_incomplete), Err(M4ReportError::CompleteMismatch));
    let mut failed_case = benchmark_report();
    failed_case.cases[3].error = Some("prover crashed".to_string());
    assert_eq!(validate_m4_report(&failed_case), Err(M4ReportError::CompleteMismatch));
    let mut no_reuse = benchmark_report();
    no_reuse.program_reuse_verified = false;
    assert_eq!(validate_m4_report(&no_reuse), Err(M4ReportError::ProgramReuseMismatch));
    let mut nightly = benchmark_report();
    nightly.guest_toolchain = "nightly".to_string();
    assert_eq!(validate_m4_report(&nightly), Err(M4ReportError::PublicationReadyMismatch));
    nightly.publication_ready = false;
    assert_eq!(validate_m4_report(&nightly), Ok(()));
}

#[test]
fn preflight_and_partial_consistency_rules() {
    assert_eq!(validate_m4_preflight_report(&preflight()), Ok(()));
    let mut short_values = preflight();
    short_values.cases[0].public_values_len = 128;
    assert_eq!(validate_m4_preflight_report(&short_values), Err(M4ReportError::CompleteMismatch));
    short_values.complete = false;
    assert_eq!(validate_m4_preflight_report(&short_values), Ok(()));

    assert_eq!(validate_m4_proof_partial_report(&partial("branch")), Ok(()));
    let mut sha = partial("branch");
    sha.program = "sha".to_string();
    assert_eq!(validate_m4_proof_partial_report(&sha), Err(M4ReportError::UnknownProgram("sha".to_string())));
    let mut foreign = partial("memory");
    foreign.cases[0].program = "branch".to_string();
    assert_eq!(validate_m4_proof_partial_report(&foreign), Err(M4ReportError::CompleteMismatch));
    let mut missing = partial("arithmetic");
    missing.cases.pop();
    assert_eq!(validate_m4_proof_partial_report(&missing), Err(M4ReportError::CompleteMismatch));
    missing.complete = false;
    assert_eq!(validate_m4_proof_partial_report(&missing), Ok(()));
}

#[test]
fn proved_case_bindings_follow_the_revealed_values() {
    let expected = m4_expected_output(0xA5A5_5A6A);
    assert_eq!(&expected[..4], &0xA5A5_5A6Au32.to_le_bytes());
    assert!(expected[4..].iter().all(|byte| *byte == 0));
    let values = M4PublicValuesV1 { program_commitment: [1; 32], input_commitment: [2; 32], output: expected };
    let all = M4CaseBindings {
        program_binding_verified: true,
        input_binding_verified: true,
        output_matches_reference: true,
        complete: true,
    };
    assert_eq!(m4_case_bindings(true, &[1; 32], &[2; 32], 0xA5A5_5A6A, &values, &values), all);
    assert_eq!(
        m4_case_bindings(false, &[1; 32], &[2; 32], 0xA5A5_5A6A, &values, &values),
        M4CaseBindings { complete: false, ..all }
    );
    assert_eq!(
        m4_case_bindings(true, &[9; 32], &[2; 32], 0xA5A5_5A6A, &values, &values),
        M4CaseBindings { program_binding_verified: false, complete: false, ..all }
    );
    assert_eq!(
        m4_case_bindings(true, &[1; 32], &[9; 32], 0xA5A5_5A6A, &values, &values),
        M4CaseBindings { input_binding_verified: false, complete: false, ..all }
    );
    let mut executed = values;
    executed.output[31] = 1;
    assert_eq!(
        m4_case_bindings(true, &[1; 32], &[2; 32], 0xA5A5_5A6A, &values, &executed),
        M4CaseBindings { output_matches_reference: false, complete: false, ..all }
    );
}

#[test]
fn run_readiness_needs_every_case_and_a_clean_pinned_build() {
    let revision = "0123456789abcdef0123456789abcdef01234567";
    let cases: Vec<M4CaseRecord> = (0..6).map(|i| case("arithmetic", &format!("case-{i}"))).collect();
    assert_eq!(m4_run_readiness(&cases, true, false, revision), (true, true));
    assert_eq!(m4_run_readiness(&cases, false, false, revision), (true, false));
    assert_eq!(m4_run_readiness(&cases, true, true, revision), (true, false));
    assert_eq!(m4_run_readiness(&cases, true, false, &revision[..39]), (true, false));
    assert_eq!(m4_run_readiness(&cases[..5], true, false, revision), (false, false));
    let mut failed = cases.clone();
    failed[3].complete = false;
    assert_eq!(m4_run_readiness(&failed, true, false, revision), (false, false));
}

fn formatted_csv(report: &M4BenchmarkReport) -> String {
    let mut output = String::from("program,name,pvm_program_commitment,translated_program_commitment,input_commitment,reference_output_hex,proven_output_hex,translation_ns,emission_ns,build_ns,transpile_ns,app_keygen_ns,agg_keygen_ns,keygen_ns,execute_ns,prove_ns,verify_ns,proof_bytes,complete\n");
    for case in &report.cases {
        output.push_str(&format!(
            "{},{},{},{},{},{},{},{},{},{},{},{},{},{},{},{},{},{},{}\n",
            case.program,
            case.name,
            case.pvm_program_commitment,
            case.translated_program_commitment,
            case.input_commitment,
            case.reference_output_hex,
            case.proven_output_hex,
            case.translation_ns,
            case.emission_ns,
            case.build_ns,
            case.transpile_ns,
            case.app_keygen_ns,
            case.agg_keygen_ns,
            case.keygen_ns,
            case.execute_ns,
            case.prove_ns,
            case.verify_ns,
            case.proof_bytes,
            case.complete
        ));
    }
    output
}

fn formatted_markdown(report: &M4BenchmarkReport, elapsed_ns: u128) -> String {
    let mut output = format!("# ZK-JAM M4 Proven Translation Benchmark\n\n- Translation version: `{}`\n- ZK-JAM revision: `{}`\n- Git dirty: `{}`\n- Jambda: `{}`\n- Jambda revision: `{}`\n- Jambda provenance verified: `{}`\n- OpenVM: `{}` at `{}`\n- Guest toolchain: `{}`\n- Programs: `{}`\n- Program reuse verified: `{}`\n- Cases: `{}`\n- Complete: `{}`\n- Publication ready: `{}`\n- Collection time: {} ns\n\n", report.translation_version, report.zk_jam_revision, report.git_dirty, report.jambda_repository, report.jambda_revision, report.jambda_provenance_verified, report.openvm_version, report.openvm_revision, report.guest_toolchain, report.programs, report.program_reuse_verified, report.cases.len(), report.complete, report.publication_ready, elapsed_ns);
    output.push_str("| Program | Case | Prove ns | Verify ns | Proof bytes | Program bound | Input bound | Output matches | Complete |\n|---|---|---:|---:|---:|:---:|:---:|:---:|:---:|\n");
    for case in &report.cases {
        output.push_str(&format!(
            "| {} | {} | {} | {} | {} | {} | {} | {} | {} |\n",
            case.program,
            case.name,
            case.prove_ns,
            case.verify_ns,
            case.proof_bytes,
            case.program_binding_verified,
            case.input_binding_verified,
            case.output_matches_reference,
            case.complete
        ));
    }
    output.push_str("\nM4 proves the checked-in bounded PVM fixtures through deterministic Translation IR and generated OpenVM guest source. Full JAM Refine, Host Calls, GAS, sub-VM, Native AIR, and consensus semantics are outside this milestone.\n");
    output
}

#[test]
fn report_views_render_every_field() {
    let mut report = benchmark_report();
    report.cases[0].prove_ns = u128::MAX;
    report.cases[1].translation_ns = 0;
    report.cases[2].complete = false;
    report.cases[3].proof_bytes = 10;
    report.git_dirty = true;
    assert_eq!(render_csv(&report), formatted_csv(&report));
    assert_eq!(render_markdown(&report, 0), formatted_markdown(&report, 0));
    assert_eq!(render_markdown(&report, 1_234_567_890_123), formatted_markdown(&report, 1_234_567_890_123));
    let first_row = render_csv(&report).lines().nth(1).unwrap().to_string();
    assert!(first_row.contains(&u128::MAX.to_string()));
    report.cases.clear();
    assert_eq!(render_csv(&report).lines().count(), 1);
    assert_eq!(render_markdown(&report, 5), formatted_markdown(&report, 5));
}

#[test]
fn proof_program_bindings_also_check_the_execution() {
    let expected = m4_expected_output(91);
    let values = M4PublicValuesV1 { program_commitment: [1; 32], input_commitment: [2; 32], output: expected };
    let all = M4CaseBindings {
        program_binding_verified: true,
        input_binding_verified: true,
        output_matches_reference: true,
        complete: true,
    };
    assert_eq!(m4_proof_program_bindings(true, &[1; 32], &[2; 32], 91, &values, &values), all);
    let mut executed = values;
    executed.program_commitment[0] = 9;
    assert_eq!(
        m4_proof_program_bindings(true, &[1; 32], &[2; 32], 91, &values, &executed),
        M4CaseBindings { program_binding_verified: false, complete: false, ..all }
    );
    // The proving-run rule looks at the proof's commitments only.
    assert_eq!(m4_case_bindings(true, &[1; 32], &[2; 32], 91, &values, &executed), all);
    let mut executed = values;
    executed.input_commitment[5] = 0;
    assert_eq!(
        m4_proof_program_bindings(true, &[1; 32], &[2; 32], 91, &values, &executed),
        M4CaseBindings { input_binding_verified: false, complete: false, ..all }
    );
}
