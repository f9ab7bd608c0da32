//! Deterministic development commitments to a refine case and its reference output, each a
//! domain-separated BLAKE2b-256 hash of canonical bytes.
use crate::case::{bytes_list_view, enc_bytes_list, enc_bytes_list_fn, enc_profile, nested_view, RefineCaseV1, PROFILE_ID_DOMAIN};
use crate::codec::{enc_bytes, enc_seq, lemma_enc_seq_push, CanonicalCodec, Writer};
use crate::hashing::{blake2b_256, hash_domain};
use crate::program_codec::{enc_program, program_encodable};
use crate::refine_result::{ReferenceRefineOutput, RefineResultV0, ResultModel};
use crate::state_witness::{enc_witness, witness_encodable};
use vstd::prelude::*;
use vstd::string::StringSliceAdditionalSpecFns;

verus! {

broadcast use vstd::seq_lib::group_seq_properties;

pub const WORK_PACKAGE_DOMAIN: &'static str = "zk-jam/m0/work-package";

pub const PROGRAM_DOMAIN: &'static str = "zk-jam/m0/program";

pub const AUTHORIZATION_TRACE_DOMAIN: &'static str = "zk-jam/m0/authorization-trace";

pub const EXTERNAL_DATA_DOMAIN: &'static str = "zk-jam/m0/external-data";

pub const IMPORTS_DOMAIN: &'static str = "zk-jam/m0/imports";

pub const STATE_WITNESS_DOMAIN: &'static str = "zk-jam/m0/state-witness";

pub const EXPORTS_DOMAIN: &'static str = "zk-jam/m0/exports";

#[derive(Clone, Debug, PartialEq, Eq)]
pub struct RefineInputCommitmentsV0 {
    pub work_package_hash: [u8; 32],
    pub program_hash: [u8; 32],
    pub authorization_trace_hash: [u8; 32],
    pub external_data_hash: [u8; 32],
    pub imports_hash: [u8; 32],
    pub state_witness_hash: [u8; 32],
}

/// The mathematical value of a `RefineInputCommitmentsV0`.
pub struct InputCommitmentsModel {
    pub work_package_hash: Seq<u8>,
    pub program_hash: Seq<u8>,
    pub authorization_trace_hash: Seq<u8>,
    pub external_data_hash: Seq<u8>,
    pub imports_hash: Seq<u8>,
    pub state_witness_hash: Seq<u8>,
}

impl View for RefineInputCommitmentsV0 {
    type V = InputCommitmentsModel;

    open spec fn view(&self) -> InputCommitmentsModel {
        InputCommitmentsModel {
            work_package_hash: self.work_package_hash@,
            program_hash: self.program_hash@,
            authorization_trace_hash: self.authorization_trace_hash@,
            external_data_hash: self.external_data_hash@,
            imports_hash: self.imports_hash@,
            state_witness_hash: self.state_witness_hash@,
        }
    }
}

#[derive(Clone, Debug, PartialEq, Eq)]
pub struct ZkRefineStatementV0 {
    pub profile_id: [u8; 32],
    pub input_commitments: RefineInputCommitmentsV0,
    pub result: RefineResultV0,
    pub exports_root: [u8; 32],
}

/// The mathematical value of a `ZkRefineStatementV0`.
pub struct StatementV0Model {
    pub profile_id: Seq<u8>,
    pub input_commitments: InputCommitmentsModel,
    pub result: ResultModel,
    pub exports_root: Seq<u8>,
}

impl View for ZkRefineStatementV0 {
    type V = StatementV0Model;

    open spec fn view(&self) -> StatementV0Model {
        StatementV0Model {
            profile_id: self.profile_id@,
            input_commitments: self.input_commitments@,
            result: self.result@,
            exports_root: self.exports_root@,
        }
    }
}

/// Each outer list as its count then its length-prefixed items, without an outer count.
/// Counts and lengths are taken modulo 2^32.
pub open spec fn enc_nested_flat(xss: Seq<Seq<Seq<u8>>>) -> Seq<u8> {
    enc_seq(enc_bytes_list_fn(), xss)
}

/// The commitments to each input of a case.
pub open spec fn input_commitments_of(c: crate::case::CaseModel) -> InputCommitmentsModel {
    InputCommitmentsModel {
        work_package_hash: blake2b_256(WORK_PACKAGE_DOMAIN.spec_bytes() + c.work_package),
        program_hash: blake2b_256(PROGRAM_DOMAIN.spec_bytes() + enc_program(c.program)),
        authorization_trace_hash: blake2b_256(
            AUTHORIZATION_TRACE_DOMAIN.spec_bytes() + c.authorization_trace,
        ),
        external_data_hash: blake2b_256(
            EXTERNAL_DATA_DOMAIN.spec_bytes() + enc_nested_flat(c.external_data),
        ),
        imports_hash: blake2b_256(IMPORTS_DOMAIN.spec_bytes() + enc_nested_flat(c.import_segments)),
        state_witness_hash: blake2b_256(
            STATE_WITNESS_DOMAIN.spec_bytes() + enc_witness(c.state_witness),
        ),
    }
}

fn write_bytes_truncating(w: &mut Writer, value: &[u8])
    ensures
        final(w).bytes@ == old(w).bytes@ + enc_bytes(value@),
{
    w.u32(value.len() as u32);
    w.fixed(value);
    assert(w.bytes@ =~= old(w).bytes@ + enc_bytes(value@));
}

pub(crate) fn write_bytes_list_truncating(w: &mut Writer, values: &[Vec<u8>])
    ensures
        final(w).bytes@ == old(w).bytes@ + enc_bytes_list(bytes_list_view(values@)),
{
    let ghost xs = bytes_list_view(values@);
    w.u32(values.len() as u32);
    let ghost start = w.bytes@;
    let mut i: usize = 0;
    while i < values.len()
        invariant
            0 <= i <= values@.len(),
            xs == bytes_list_view(values@),
            xs.len() == values@.len(),
            w.bytes@ == start + enc_seq(crate::codec::enc_bytes_fn(), xs.take(i as int)),
        decreases values@.len() - i,
    {
        assert(xs[i as int] == values@[i as int]@);
        write_bytes_truncating(w, values[i].as_slice());
        proof {
            assert(xs.take(i + 1) =~= xs.take(i as int).push(xs[i as int]));
            lemma_enc_seq_push(crate::codec::enc_bytes_fn(), xs.take(i as int), xs[i as int]);
        }
        i = i + 1;
        assert(w.bytes@ =~= start + enc_seq(crate::codec::enc_bytes_fn(), xs.take(i as int)));
    }
    assert(xs.take(i as int) =~= xs);
    assert(w.bytes@ =~= old(w).bytes@ + enc_bytes_list(xs));
}

/// The flat encoding of nested byte lists that the external-data and import commitments hash.
pub fn encode_nested_bytes(values: &Vec<Vec<Vec<u8>>>) -> (r: Vec<u8>)
    ensures
        r@ == enc_nested_flat(nested_view(values@)),
{
    let ghost xss = nested_view(values@);
    let mut w = Writer::new();
    let mut i: usize = 0;
    while i < values.len()
        invariant
            0 <= i <= values@.len(),
            xss == nested_view(values@),
            xss.len() == values@.len(),
            w.bytes@ == enc_seq(enc_bytes_list_fn(), xss.take(i as int)),
        decreases values@.len() - i,
    {
        assert(xss[i as int] == bytes_list_view(values@[i as int]@));
        write_bytes_list_truncating(&mut w, values[i].as_slice());
        proof {
            assert(xss.take(i + 1) =~= xss.take(i as int).push(xss[i as int]));
            lemma_enc_seq_push(enc_bytes_list_fn(), xss.take(i as int), xss[i as int]);
        }
        i = i + 1;
    }
    assert(xss.take(i as int) =~= xss);
    w.bytes
}

/// The count-prefixed, length-prefixed segments that the exports root hashes.
pub fn encode_segments(values: &[Vec<u8>]) -> (r: Vec<u8>)
    ensures
        r@ == enc_bytes_list(bytes_list_view(values@)),
{
    let mut w = Writer::new();
    write_bytes_list_truncating(&mut w, values);
    w.bytes
}

/// The development commitments to every input of `case`.
pub fn input_commitments(case: &RefineCaseV1) -> (r: RefineInputCommitmentsV0)
    requires
        program_encodable(case@.program),
        witness_encodable(case@.state_witness),
    ensures
        r@ == input_commitments_of(case@),
{
    let program_bytes = case.program.encode_canonical();
    let external = encode_nested_bytes(&case.external_data);
    let imports = encode_nested_bytes(&case.import_segments);
    let witness_bytes = case.state_witness.encode_canonical();
    RefineInputCommitmentsV0 {
        work_package_hash: hash_domain(WORK_PACKAGE_DOMAIN.as_bytes(), case.work_package.as_slice()),
        program_hash: hash_domain(PROGRAM_DOMAIN.as_bytes(), program_bytes.as_slice()),
        authorization_trace_hash: hash_domain(
            AUTHORIZATION_TRACE_DOMAIN.as_bytes(),
            case.authorization_trace.as_slice(),
        ),
        external_data_hash: hash_domain(EXTERNAL_DATA_DOMAIN.as_bytes(), external.as_slice()),
        imports_hash: hash_domain(IMPORTS_DOMAIN.as_bytes(), imports.as_slice()),
        state_witness_hash: hash_domain(STATE_WITNESS_DOMAIN.as_bytes(), witness_bytes.as_slice()),
    }
}

/// The development statement of a case and its reference output.
pub fn statement_for(case: &RefineCaseV1, output: &ReferenceRefineOutput) -> (r: ZkRefineStatementV0)
    requires
        program_encodable(case@.program),
        witness_encodable(case@.state_witness),
    ensures
        r@.profile_id == blake2b_256(PROFILE_ID_DOMAIN.spec_bytes() + enc_profile(case@.profile)),
        r@.input_commitments == input_commitments_of(case@),
        r@.result == output.result@,
        r@.exports_root == blake2b_256(
            EXPORTS_DOMAIN.spec_bytes() + enc_bytes_list(bytes_list_view(output.exports@)),
        ),
{
    let exports = encode_segments(output.exports.as_slice());
    ZkRefineStatementV0 {
        profile_id: case.profile.id(),
        input_commitments: input_commitments(case),
        result: output.result.duplicate(),
        exports_root: hash_domain(EXPORTS_DOMAIN.as_bytes(), exports.as_slice()),
    }
}

/// The input commitments depend only on the work package, the program, the authorization
/// trace, the external data, the imports and the state witness: two cases that differ only in
/// format version, profile, core index, item index or export offset commit to the same inputs.
pub proof fn lemma_input_commitments_independent(c1: crate::case::CaseModel, c2: crate::case::CaseModel)
    requires
        c1.work_package == c2.work_package,
        c1.program == c2.program,
        c1.authorization_trace == c2.authorization_trace,
        c1.external_data == c2.external_data,
        c1.import_segments == c2.import_segments,
        c1.state_witness == c2.state_witness,
    ensures
        input_commitments_of(c1) == input_commitments_of(c2),
{
}

} // verus!
