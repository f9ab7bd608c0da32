use zk_jam::case::{RefineCaseV1, SmokeProfile, SmokeProfileV0, REFINE_CASE_FORMAT_V1, SEGMENT_SIZE};
use zk_jam::codec::{CanonicalCodec, CodecError, Reader, Writer};
use zk_jam::commitment::{encode_nested_bytes, encode_segments, input_commitments, statement_for};
use zk_jam::hashing::{hash_domain, zkrefine_hash};
use zk_jam::hex::{decode_hex, hex, HexError};
use zk_jam::refine_result::{ReferenceRefineOutput, RefineResultV0};
use zk_jam::state_witness::{HistoricalLookupWitnessV1, RefineStateWitnessV1, StateWitnessBindingV1};
use zk_jam::translation::{workload_program, M3Workload};
use zk_jam::zkrefine::{
    zkrefine_exports_canonical, zkrefine_exports_commitment, zkrefine_profile_id,
    zkrefine_result_commitment, ZkRefineExportsV1, ZkRefineStatementV1,
};

fn sample_case() -> RefineCaseV1 {
    RefineCaseV1 {
        format_version: REFINE_CASE_FORMAT_V1,
        profile: SmokeProfile::default(),
        core_index: 0,
        item_index: 0,
        work_package: vec![9, 8, 7],
        authorization_trace: Vec::new(),
        external_data: vec![vec![vec![1], vec![2, 3]], Vec::new()],
        import_segments: vec![vec![vec![0; 16]]],
        export_offset: 3,
        program: workload_program(M3Workload::Arithmetic),
        state_witness: RefineStateWitnessV1 {
            binding: StateWitnessBindingV1::Committed,
            historical_lookups: vec![HistoricalLookupWitnessV1 {
                service_id: 5,
                hash: [4; 32],
                value: vec![1, 2],
                commitment_proof: vec![3],
            }],
        },
    }
}

#[test]
fn writer_and_reader_agree() {
    let mut writer = Writer::new();
    writer.u8(1);
    writer.u16(0x0203);
    writer.u32(0x0405_0607);
    writer.bytes(&[8, 9]).unwrap();
    writer.count(2).unwrap();
    writer.u32(10);
    writer.u32(11);
    assert_eq!(writer.bytes, vec![1, 3, 2, 7, 6, 5, 4, 2, 0, 0, 0, 8, 9, 2, 0, 0, 0, 10, 0, 0, 0, 11, 0, 0, 0]);
    let mut reader = Reader::new(&writer.bytes);
    assert_eq!(reader.u8(), Ok(1));
    assert_eq!(reader.u16(), Ok(0x0203));
    assert_eq!(reader.u32(), Ok(0x0405_0607));
    assert_eq!(reader.bytes(), Ok(vec![8, 9]));
    assert_eq!(reader.u32(), Ok(2));
    assert_eq!(reader.fixed::<4>(), Ok([10, 0, 0, 0]));
    assert_eq!(reader.u32(), Ok(11));
    assert_eq!(reader.finish(), Ok(()));
    let mut short = Reader::new(&[1, 2]);
    assert_eq!(short.u32(), Err(CodecError::UnexpectedEof));
}

#[test]
fn every_codec_roundtrips() {
    let case = sample_case();
    assert_eq!(RefineCaseV1::decode_canonical(&case.encode_canonical()).unwrap(), case);
    let witness = case.state_witness.clone();
    assert_eq!(RefineStateWitnessV1::decode_canonical(&witness.encode_canonical()).unwrap(), witness);
    for result in [RefineResultV0::Output(vec![1, 2, 3]), RefineResultV0::Bad, RefineResultV0::Big, RefineResultV0::OutOfGas, RefineResultV0::Panic] {
        assert_eq!(RefineResultV0::decode_canonical(&result.encode_canonical()).unwrap(), result);
    }
    let profile = SmokeProfile::default();
    assert_eq!(profile.encode_canonical(), vec![0, 0, 0, 2, 7, 0, 0]);
    assert_eq!(SmokeProfile::decode_canonical(&profile.encode_canonical()).unwrap(), profile);
    let exports = ZkRefineExportsV1(vec![vec![1, 2], Vec::new()]);
    assert_eq!(exports.encode_canonical(), vec![2, 0, 0, 0, 2, 0, 0, 0, 1, 2, 0, 0, 0, 0]);
    assert_eq!(ZkRefineExportsV1::decode_canonical(&exports.encode_canonical()).unwrap(), exports);
    assert_eq!(zkrefine_exports_canonical(&exports.0), exports.encode_canonical());
}

#[test]
fn decoders_report_each_error() {
    assert_eq!(RefineResultV0::decode_canonical(&[5]), Err(CodecError::InvalidValue("refine result tag")));
    assert_eq!(RefineResultV0::decode_canonical(&[1, 0]), Err(CodecError::TrailingBytes));
    assert_eq!(RefineResultV0::decode_canonical(&[0, 9, 0, 0, 0]), Err(CodecError::UnexpectedEof));
    assert_eq!(SmokeProfile::decode_canonical(&[1]), Err(CodecError::InvalidValue("SmokeProfile tag")));
    assert_eq!(
        RefineStateWitnessV1::decode_canonical(&[2, 0, 0, 0, 0]),
        Err(CodecError::InvalidValue("state witness binding"))
    );
    let decoded = SmokeProfile::decode_canonical(&[0, 0, 0, 2, 7, 2, 0]).unwrap();
    assert_eq!(decoded, SmokeProfile::V0(SmokeProfileV0 { gas_proof: true, ..SmokeProfileV0::default() }));
    assert!(decoded.validate().is_err());
}

#[test]
fn case_validation_reports_the_first_failure() {
    let mut case = sample_case();
    case.validate().unwrap();
    case.import_segments[0].push(vec![0; SEGMENT_SIZE + 1]);
    assert_eq!(case.validate(), Err(CodecError::InvalidValue("import segment exceeds segment size")));
    case.profile = SmokeProfile::V0(SmokeProfileV0 { inner_pvm: true, ..SmokeProfileV0::default() });
    assert_eq!(case.validate(), Err(CodecError::InvalidValue("invalid SmokeProfileV0")));
    case.format_version = 2;
    assert_eq!(case.validate(), Err(CodecError::InvalidValue("unsupported RefineCaseV1 version")));
}

#[test]
fn statement_public_values_roundtrip_and_require_128_bytes() {
    let statement = ZkRefineStatementV1 {
        profile_id: [1; 32],
        case_commitment: [2; 32],
        result_commitment: [3; 32],
        exports_commitment: [4; 32],
    };
    let bytes = statement.encode_openvm();
    assert_eq!(bytes[32], 2);
    assert_eq!(ZkRefineStatementV1::decode_openvm(&bytes).unwrap(), statement);
    assert_eq!(
        ZkRefineStatementV1::decode_openvm(&bytes[..127]),
        Err(CodecError::InvalidValue("ZkRefine public values length"))
    );
}

#[test]
fn sha256_statement_hash_is_the_digest_of_domain_and_bytes() {
    let digest = zkrefine_hash(b"ab", b"c");
    assert_eq!(hex(&digest), "ba7816bf8f01cfea414140de5dae2223b00361a396177a9cb410ff61f20015ad");
    assert_eq!(zkrefine_hash(b"", b"abc"), digest);
}

#[test]
fn blake2b_hash_depends_on_the_concatenation() {
    let a = hash_domain(b"zk-jam/", b"x");
    assert_eq!(a, hash_domain(b"zk-", b"jam/x"));
    assert_ne!(a, hash_domain(b"zk-jam/", b"y"));
    assert_ne!(&a[..], b"zk-jam/x");
}

#[test]
fn commitments_bind_each_input() {
    let case = sample_case();
    let output = ReferenceRefineOutput { result: RefineResultV0::Output(vec![1]), exports: vec![vec![2; 4]] };
    let first = input_commitments(&case);
    assert_eq!(first, input_commitments(&case));
    let mut other = sample_case();
    other.work_package.push(0);
    let second = input_commitments(&other);
    assert_ne!(first.work_package_hash, second.work_package_hash);
    assert_eq!(first.program_hash, second.program_hash);
    let statement = statement_for(&case, &output);
    assert_eq!(statement.profile_id, case.profile.id());
    assert_eq!(statement.result, output.result);
    assert_eq!(statement.input_commitments, first);
    assert_eq!(encode_segments(&output.exports), vec![1, 0, 0, 0, 4, 0, 0, 0, 2, 2, 2, 2]);
    assert_eq!(encode_nested_bytes(&vec![vec![vec![7]]]), vec![1, 0, 0, 0, 1, 0, 0, 0, 7]);
    assert_ne!(zkrefine_profile_id(&case.profile), case.profile.id());
    assert_ne!(
        zkrefine_result_commitment(&RefineResultV0::Bad),
        zkrefine_result_commitment(&RefineResultV0::Big)
    );
    assert_ne!(zkrefine_exports_commitment(&[vec![1]]), zkrefine_exports_commitment(&[vec![2]]));
}

#[test]
fn hex_roundtrips_and_refuses_bad_text() {
    let bytes = vec![0u8, 1, 0xAB, 0xFF];
    assert_eq!(hex(&bytes), "0001abff");
    assert_eq!(decode_hex(&hex(&bytes)), Ok(bytes));
    assert_eq!(decode_hex("0A"), Ok(vec![10]));
    assert_eq!(decode_hex("+f"), Ok(vec![15]));
    assert_eq!(decode_hex("abc"), Err(HexError::OddLength));
    assert_eq!(decode_hex("zz"), Err(HexError::InvalidDigit));
    assert_eq!(decode_hex("-1"), Err(HexError::InvalidDigit));
}

#[test]
fn decoders_accept_only_canonical_bytes() {
    let case = sample_case();
    let bytes = case.encode_canonical();
    let decoded = RefineCaseV1::decode_canonical(&bytes).unwrap();
    assert_eq!(decoded.encode_canonical(), bytes);
    let program_bytes = case.program.encode_canonical();
    let program = zk_jam::program::PvmProgramV1::decode_canonical(&program_bytes).unwrap();
    assert_eq!(program.encode_canonical(), program_bytes);
    let witness_bytes = case.state_witness.encode_canonical();
    let witness = RefineStateWitnessV1::decode_canonical(&witness_bytes).unwrap();
    assert_eq!(witness.encode_canonical(), witness_bytes);
    let exports_bytes = ZkRefineExportsV1(vec![vec![1, 2], Vec::new()]).encode_canonical();
    let exports = ZkRefineExportsV1::decode_canonical(&exports_bytes).unwrap();
    assert_eq!(exports.encode_canonical(), exports_bytes);
    let result_bytes = vec![3u8];
    let result = RefineResultV0::decode_canonical(&result_bytes).unwrap();
    assert_eq!(result, RefineResultV0::OutOfGas);
    assert_eq!(result.encode_canonical(), result_bytes);
    // A profile flag byte other than zero or one decodes as set, and re-encodes as one.
    let mut flagged = bytes.clone();
    flagged[7] = 2;
    let loose = RefineCaseV1::decode_canonical(&flagged).unwrap();
    let SmokeProfile::V0(profile) = loose.profile;
    assert!(profile.gas_proof);
    assert_ne!(loose.encode_canonical(), flagged);
    assert_eq!(loose.encode_canonical()[7], 1);
}

#[test]
fn input_commitments_ignore_indices_version_profile_and_offset() {
    let case = sample_case();
    let mut other = sample_case();
    other.core_index = other.core_index.wrapping_add(5);
    other.item_index = 9;
    other.export_offset = 77;
    other.format_version = 3;
    other.profile = SmokeProfile::V0(SmokeProfileV0 { inner_pvm: true, ..SmokeProfileV0::default() });
    assert_eq!(input_commitments(&case), input_commitments(&other));
    let mut imports = sample_case();
    imports.import_segments.push(Vec::new());
    let changed = input_commitments(&imports);
    assert_ne!(input_commitments(&case).imports_hash, changed.imports_hash);
    assert_eq!(input_commitments(&case).external_data_hash, changed.external_data_hash);
}

#[test]
fn canonical_exports_decode_back() {
    let exports = vec![vec![9, 8, 7], Vec::new(), vec![0; 300]];
    let bytes = zkrefine_exports_canonical(&exports);
    assert_eq!(&bytes[0..4], &[3, 0, 0, 0]);
    assert_eq!(&bytes[4..11], &[3, 0, 0, 0, 9, 8, 7]);
    assert_eq!(bytes.len(), 4 + 7 + 4 + 4 + 300);
    assert_eq!(ZkRefineExportsV1::decode_canonical(&bytes).unwrap(), ZkRefineExportsV1(exports));
    assert_eq!(zkrefine_exports_canonical(&[]), vec![0, 0, 0, 0]);
}

#[test]
fn short_byte_string_keeps_its_length_prefix_consumed() {
    let data = [5u8, 0, 0, 0, 1];
    let mut reader = Reader::new(&data);
    assert_eq!(reader.bytes(), Err(CodecError::UnexpectedEof));
    assert_eq!(reader.u8(), Ok(1));
    assert_eq!(reader.finish(), Ok(()));
    let mut short = Reader::new(&[1, 2, 3]);
    assert_eq!(short.bytes(), Err(CodecError::UnexpectedEof));
    assert_eq!(short.u16(), Ok(0x0201));
}
