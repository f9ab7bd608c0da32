//! The ZkRefine Profile v1 public statement: four 32-byte commitments revealed by the proving
//! guest, and the canonical exports encoding they bind.
use crate::case::{
    bytes_list_encodable, bytes_list_view, enc_bytes_list, enc_profile, read_bytes_list,
    read_bytes_list_exec, lemma_bytes_list_reads_back, SmokeProfile,
};
use crate::codec::{
    at_is, decode_matches, enc_bytes_fn, finish_read, lemma_bytes_and_words_exact, lemma_exact_whole,
    lemma_read_vec_exact, read_bytes_fn, reads_back, CanonicalCodec, CodecError, Reader, Writer,
};
use crate::commitment::write_bytes_list_truncating;
use crate::hashing::{sha256, zkrefine_hash};
use crate::refine_result::{enc_result, result_encodable, RefineResultV0};
use vstd::prelude::*;
use vstd::slice::slice_subrange;
use vstd::string::StringSliceAdditionalSpecFns;

verus! {

broadcast use vstd::seq_lib::group_seq_properties;

pub const ZKREFINE_CASE_DOMAIN: &'static str = "zk-jam/zkrefine/case/v1";

pub const ZKREFINE_RESULT_DOMAIN: &'static str = "zk-jam/zkrefine/result/v1";

pub const ZKREFINE_EXPORTS_DOMAIN: &'static str = "zk-jam/zkrefine/exports/v1";

pub const ZKREFINE_PROFILE_DOMAIN: &'static str = "zk-jam/zkrefine/profile/v1";

/// The byte length of the public values: four 32-byte commitments.
pub const OPENVM_LEN: usize = 128;

/// The four 32-byte values revealed by the ZkRefine guest, in public-value order.
#[derive(Clone, Copy, Debug, PartialEq, Eq)]
pub struct ZkRefineStatementV1 {
    pub profile_id: [u8; 32],
    pub case_commitment: [u8; 32],
    pub result_commitment: [u8; 32],
    pub exports_commitment: [u8; 32],
}

/// The mathematical value of a `ZkRefineStatementV1`.
pub struct StatementV1Model {
    pub profile_id: Seq<u8>,
    pub case_commitment: Seq<u8>,
    pub result_commitment: Seq<u8>,
    pub exports_commitment: Seq<u8>,
}

impl View for ZkRefineStatementV1 {
    type V = StatementV1Model;

    open spec fn view(&self) -> StatementV1Model {
        StatementV1Model {
            profile_id: self.profile_id@,
            case_commitment: self.case_commitment@,
            result_commitment: self.result_commitment@,
            exports_commitment: self.exports_commitment@,
        }
    }
}

/// The public values: the four commitments concatenated in order.
pub open spec fn statement_bytes(v: StatementV1Model) -> Seq<u8> {
    v.profile_id + v.case_commitment + v.result_commitment + v.exports_commitment
}

/// The statement that `bytes` reveal, when there are exactly `OPENVM_LEN` of them.
pub open spec fn statement_from(bytes: Seq<u8>) -> Result<StatementV1Model, CodecError> {
    if bytes.len() != OPENVM_LEN {
        Err(CodecError::InvalidValue("ZkRefine public values length"))
    } else {
        Ok(
            StatementV1Model {
                profile_id: bytes.subrange(0, 32),
                case_commitment: bytes.subrange(32, 64),
                result_commitment: bytes.subrange(64, 96),
                exports_commitment: bytes.subrange(96, 128),
            },
        )
    }
}

fn copy_into(out: &mut [u8; 128], at: usize, value: &[u8; 32])
    requires
        at + 32 <= 128,
    ensures
        forall|k: int| at <= k < at + 32 ==> final(out)@[k] == value@[k - at],
        forall|k: int| 0 <= k < 128 && !(at <= k < at + 32) ==> final(out)@[k] == old(out)@[k],
{
    let mut i: usize = 0;
    while i < 32
        invariant
            0 <= i <= 32,
            at + 32 <= 128,
            forall|k: int| at <= k < at + i ==> out@[k] == value@[k - at],
            forall|k: int| 0 <= k < 128 && !(at <= k < at + i) ==> out@[k] == old(out)@[k],
        decreases 32 - i,
    {
        out[at + i] = value[i];
        i = i + 1;
    }
}

fn array32(bytes: &[u8]) -> (r: [u8; 32])
    requires
        bytes@.len() == 32,
    ensures
        r@ == bytes@,
{
    let mut out = [0u8; 32];
    let mut i: usize = 0;
    while i < 32
        invariant
            0 <= i <= 32,
            bytes@.len() == 32,
            forall|k: int| 0 <= k < i ==> out@[k] == bytes@[k],
        decreases 32 - i,
    {
        out[i] = bytes[i];
        i = i + 1;
    }
    assert(out@ =~= bytes@);
    out
}

impl ZkRefineStatementV1 {
    /// The 128 public-value bytes.
    pub fn encode_openvm(&self) -> (r: [u8; 128])
        ensures
            r@ == statement_bytes(self@),
    {
        let mut out = [0u8; 128];
        copy_into(&mut out, 0, &self.profile_id);
        copy_into(&mut out, 32, &self.case_commitment);
        copy_into(&mut out, 64, &self.result_commitment);
        copy_into(&mut out, 96, &self.exports_commitment);
        assert(out@ =~= statement_bytes(self@));
        out
    }

    /// The statement revealed by exactly 128 public-value bytes.
    pub fn decode_openvm(bytes: &[u8]) -> (r: Result<Self, CodecError>)
        ensures
            decode_matches(r, statement_from(bytes@)),
    {
        if bytes.len() != OPENVM_LEN {
            return Err(CodecError::InvalidValue("ZkRefine public values length"));
        }
        Ok(
            ZkRefineStatementV1 {
                profile_id: array32(slice_subrange(bytes, 0, 32)),
                case_commitment: array32(slice_subrange(bytes, 32, 64)),
                result_commitment: array32(slice_subrange(bytes, 64, 96)),
                exports_commitment: array32(slice_subrange(bytes, 96, 128)),
            },
        )
    }
}

/// Decoding the public values of a statement gives the statement back.
pub proof fn lemma_statement_roundtrip(v: StatementV1Model)
    requires
        v.profile_id.len() == 32,
        v.case_commitment.len() == 32,
        v.result_commitment.len() == 32,
        v.exports_commitment.len() == 32,
    ensures
        statement_from(statement_bytes(v)) == Ok::<StatementV1Model, CodecError>(v),
{
    let s = statement_bytes(v);
    assert(s.subrange(0, 32) =~= v.profile_id);
    assert(s.subrange(32, 64) =~= v.case_commitment);
    assert(s.subrange(64, 96) =~= v.result_commitment);
    assert(s.subrange(96, 128) =~= v.exports_commitment);
}

/// Public values are accepted exactly when there are 128 of them, and then re-encode to
/// themselves.
pub proof fn lemma_statement_bytes_canonical(bytes: Seq<u8>)
    ensures
        statement_from(bytes) is Ok <==> bytes.len() == OPENVM_LEN,
        statement_from(bytes) is Ok ==> statement_bytes(statement_from(bytes)->Ok_0) == bytes,
{
    if bytes.len() == OPENVM_LEN {
        assert(statement_bytes(statement_from(bytes)->Ok_0) =~= bytes);
    }
}

/// The exported segments of a refine.
#[derive(Clone, Debug, PartialEq, Eq)]
pub struct ZkRefineExportsV1(pub Vec<Vec<u8>>);

impl View for ZkRefineExportsV1 {
    type V = Seq<Seq<u8>>;

    open spec fn view(&self) -> Seq<Seq<u8>> {
        bytes_list_view(self.0@)
    }
}

pub open spec fn decode_exports(s: Seq<u8>) -> Result<Seq<Seq<u8>>, CodecError> {
    finish_read(read_bytes_list(s, 0), s)
}

/// Decoding encoded exports gives the exports back.
pub proof fn lemma_exports_roundtrip(e: Seq<Seq<u8>>)
    requires
        bytes_list_encodable(e),
    ensures
        decode_exports(enc_bytes_list(e)) == Ok::<Seq<Seq<u8>>, CodecError>(e),
{
    let s = enc_bytes_list(e);
    assert(s.subrange(0, s.len() as int) =~= s);
    lemma_bytes_list_reads_back(e);
    assert(at_is(s, 0, crate::case::enc_bytes_list_fn()(e)));
}

/// The exports decoder accepts only canonical bytes: whatever it decodes encodes back to
/// exactly the bytes it was decoded from.
pub proof fn lemma_exports_decode_canonical(s: Seq<u8>)
    requires
        decode_exports(s) is Ok,
    ensures
        enc_bytes_list(decode_exports(s)->Ok_0) == s,
{
    lemma_bytes_and_words_exact();
    lemma_read_vec_exact(enc_bytes_fn(), read_bytes_fn(), s, 0);
    lemma_exact_whole(s, enc_bytes_list(decode_exports(s)->Ok_0));
}

impl CanonicalCodec for ZkRefineExportsV1 {
    /// Counts and lengths are taken modulo 2^32, so every value encodes.
    open spec fn encodable(v: Seq<Seq<u8>>) -> bool {
        true
    }

    open spec fn encoding(v: Seq<Seq<u8>>) -> Seq<u8> {
        enc_bytes_list(v)
    }

    open spec fn decoding(bytes: Seq<u8>) -> Result<Seq<Seq<u8>>, CodecError> {
        decode_exports(bytes)
    }

    fn encode_canonical(&self) -> (out: Vec<u8>) {
        let mut w = Writer::new();
        write_bytes_list_truncating(&mut w, self.0.as_slice());
        w.bytes
    }

    fn decode_canonical(bytes: &[u8]) -> (r: Result<Self, CodecError>) {
        let mut reader = Reader::new(bytes);
        let segments = read_bytes_list_exec(&mut reader)?;
        reader.finish()?;
        Ok(ZkRefineExportsV1(segments))
    }
}

/// The canonical encoding of `exports`.
pub fn zkrefine_exports_canonical(exports: &[Vec<u8>]) -> (r: Vec<u8>)
    ensures
        r@ == enc_bytes_list(bytes_list_view(exports@)),
        bytes_list_encodable(bytes_list_view(exports@)) ==> decode_exports(r@) == Ok::<
            Seq<Seq<u8>>,
            CodecError,
        >(bytes_list_view(exports@)),
{
    let mut w = Writer::new();
    write_bytes_list_truncating(&mut w, exports);
    proof {
        if bytes_list_encodable(bytes_list_view(exports@)) {
            lemma_exports_roundtrip(bytes_list_view(exports@));
        }
    }
    w.bytes
}

/// The profile identifier of the ZkRefine statement.
pub fn zkrefine_profile_id(profile: &SmokeProfile) -> (r: [u8; 32])
    ensures
        r@ == sha256(ZKREFINE_PROFILE_DOMAIN.spec_bytes() + enc_profile(*profile)),
{
    let encoded = profile.encode_canonical();
    zkrefine_hash(ZKREFINE_PROFILE_DOMAIN.as_bytes(), encoded.as_slice())
}

/// The commitment to a refine result.
pub fn zkrefine_result_commitment(result: &RefineResultV0) -> (r: [u8; 32])
    requires
        result_encodable(result@),
    ensures
        r@ == sha256(ZKREFINE_RESULT_DOMAIN.spec_bytes() + enc_result(result@)),
{
    let encoded = result.encode_canonical();
    zkrefine_hash(ZKREFINE_RESULT_DOMAIN.as_bytes(), encoded.as_slice())
}

/// The commitment to the exported segments.
pub fn zkrefine_exports_commitment(exports: &[Vec<u8>]) -> (r: [u8; 32])
    ensures
        r@ == sha256(ZKREFINE_EXPORTS_DOMAIN.spec_bytes() + enc_bytes_list(bytes_list_view(exports@))),
{
    let encoded = zkrefine_exports_canonical(exports);
    zkrefine_hash(ZKREFINE_EXPORTS_DOMAIN.as_bytes(), encoded.as_slice())
}

} // verus!
