//! The outcome of a refine execution and its canonical encoding.
use crate::codec::{
    at_is, decode_matches, enc_bytes, finish_read, fits_u32, lemma_read_bytes_back, read_bytes,
    read_matches, read_u8, CanonicalCodec, CodecError, ReadResult, Reader, Writer,
    lemma_read_bytes_sized, lemma_read_u8_exact, lemma_read_bytes_exact, lemma_at_is_join,
    lemma_exact_whole,
};
use crate::program_codec::lemma_tag_back;
use vstd::bytes::*;
use vstd::prelude::*;

verus! {

broadcast use vstd::seq_lib::group_seq_properties;

/// The result of a refine: its output bytes, or why it produced none.
#[derive(Clone, Debug, PartialEq, Eq)]
pub enum RefineResultV0 {
    Output(Vec<u8>),
    Bad,
    Big,
    OutOfGas,
    Panic,
}

/// The mathematical value of a `RefineResultV0`.
pub enum ResultModel {
    Output(Seq<u8>),
    Bad,
    Big,
    OutOfGas,
    Panic,
}

impl View for RefineResultV0 {
    type V = ResultModel;

    open spec fn view(&self) -> ResultModel {
        match self {
            RefineResultV0::Output(b) => ResultModel::Output(b@),
            RefineResultV0::Bad => ResultModel::Bad,
            RefineResultV0::Big => ResultModel::Big,
            RefineResultV0::OutOfGas => ResultModel::OutOfGas,
            RefineResultV0::Panic => ResultModel::Panic,
        }
    }
}

/// The reference client's refine output: the result and the exported segments.
#[derive(Clone, Debug, PartialEq, Eq)]
pub struct ReferenceRefineOutput {
    pub result: RefineResultV0,
    pub exports: Vec<Vec<u8>>,
}

/// A one-byte tag, then the output bytes for `Output`.
pub open spec fn enc_result(v: ResultModel) -> Seq<u8> {
    match v {
        ResultModel::Output(b) => seq![0u8] + enc_bytes(b),
        ResultModel::Bad => seq![1u8],
        ResultModel::Big => seq![2u8],
        ResultModel::OutOfGas => seq![3u8],
        ResultModel::Panic => seq![4u8],
    }
}

pub open spec fn result_encodable(v: ResultModel) -> bool {
    match v {
        ResultModel::Output(b) => fits_u32(b.len() as int),
        _ => true,
    }
}

pub open spec fn read_result(s: Seq<u8>, at: int) -> ReadResult<ResultModel> {
    match read_u8(s, at) {
        Err(e) => Err(e),
        Ok((t, a)) => if t == 0 {
            match read_bytes(s, a) {
                Ok((b, c)) => Ok((ResultModel::Output(b), c)),
                Err(e) => Err(e),
            }
        } else if t == 1 {
            Ok((ResultModel::Bad, a))
        } else if t == 2 {
            Ok((ResultModel::Big, a))
        } else if t == 3 {
            Ok((ResultModel::OutOfGas, a))
        } else if t == 4 {
            Ok((ResultModel::Panic, a))
        } else {
            Err(CodecError::InvalidValue("refine result tag"))
        },
    }
}

pub open spec fn decode_result(s: Seq<u8>) -> Result<ResultModel, CodecError> {
    finish_read(read_result(s, 0), s)
}

pub proof fn lemma_result_back(s: Seq<u8>, at: int, v: ResultModel)
    requires
        result_encodable(v),
        at_is(s, at, enc_result(v)),
    ensures
        read_result(s, at) == Ok::<(ResultModel, int), CodecError>((v, at + enc_result(v).len())),
{
    match v {
        ResultModel::Output(b) => {
            lemma_tag_back(s, at, 0, enc_bytes(b));
            lemma_read_bytes_back(s, at + 1, b);
        },
        ResultModel::Bad => {
            lemma_tag_back(s, at, 1, Seq::empty());
        },
        ResultModel::Big => {
            lemma_tag_back(s, at, 2, Seq::empty());
        },
        ResultModel::OutOfGas => {
            lemma_tag_back(s, at, 3, Seq::empty());
        },
        ResultModel::Panic => {
            lemma_tag_back(s, at, 4, Seq::empty());
        },
    }
}

/// Decoding an encoded refine result gives the result back.
pub proof fn lemma_result_roundtrip(v: ResultModel)
    requires
        result_encodable(v),
    ensures
        decode_result(enc_result(v)) == Ok::<ResultModel, CodecError>(v),
{
    let s = enc_result(v);
    assert(s.subrange(0, s.len() as int) =~= s);
    if !(v is Output) {
        assert(s =~= s + Seq::<u8>::empty());
    }
    lemma_result_back(s, 0, v);
}

/// Whatever the result decoder accepts encodes again, to exactly the bytes' length.
pub proof fn lemma_decoded_result_encodable(s: Seq<u8>)
    requires
        decode_result(s) is Ok,
    ensures
        result_encodable(decode_result(s)->Ok_0),
        enc_result(decode_result(s)->Ok_0).len() == s.len(),
{
    if s[0] == 0 {
        lemma_read_bytes_sized(s, 1);
    }
}

/// The result decoder accepts only canonical bytes: whatever it decodes encodes back to
/// exactly the bytes it was decoded from.
pub proof fn lemma_result_decode_canonical(s: Seq<u8>)
    requires
        decode_result(s) is Ok,
    ensures
        enc_result(decode_result(s)->Ok_0) == s,
{
    let v = decode_result(s)->Ok_0;
    lemma_read_u8_exact(s, 0);
    if s[0] == 0 {
        lemma_read_bytes_exact(s, 1);
        lemma_at_is_join(s, 0, seq![0u8], enc_bytes(v->Output_0));
    }
    lemma_exact_whole(s, enc_result(v));
}

pub(crate) fn write_result(w: &mut Writer, value: &RefineResultV0)
    requires
        result_encodable(value@),
    ensures
        final(w).bytes@ == old(w).bytes@ + enc_result(value@),
{
    match value {
        RefineResultV0::Output(b) => {
            w.u8(0);
            let _r = w.bytes(b.as_slice());
        },
        RefineResultV0::Bad => w.u8(1),
        RefineResultV0::Big => w.u8(2),
        RefineResultV0::OutOfGas => w.u8(3),
        RefineResultV0::Panic => w.u8(4),
    }
    assert(w.bytes@ =~= old(w).bytes@ + enc_result(value@));
}

pub(crate) fn read_result_exec(r: &mut Reader) -> (res: Result<RefineResultV0, CodecError>)
    requires
        old(r).wf(),
    ensures
        final(r).wf(),
        final(r).data() == old(r).data(),
        read_matches(res, read_result(old(r).data(), old(r).pos()), final(r).pos()),
{
    let t = r.u8()?;
    if t == 0 {
        let b = r.bytes()?;
        Ok(RefineResultV0::Output(b))
    } else if t == 1 {
        Ok(RefineResultV0::Bad)
    } else if t == 2 {
        Ok(RefineResultV0::Big)
    } else if t == 3 {
        Ok(RefineResultV0::OutOfGas)
    } else if t == 4 {
        Ok(RefineResultV0::Panic)
    } else {
        Err(CodecError::InvalidValue("refine result tag"))
    }
}

impl RefineResultV0 {
    /// A copy with the same value.
    pub fn duplicate(&self) -> (r: Self)
        ensures
            r@ == self@,
    {
        match self {
            RefineResultV0::Output(b) => RefineResultV0::Output(crate::program::copy_bytes(b)),
            RefineResultV0::Bad => RefineResultV0::Bad,
            RefineResultV0::Big => RefineResultV0::Big,
            RefineResultV0::OutOfGas => RefineResultV0::OutOfGas,
            RefineResultV0::Panic => RefineResultV0::Panic,
        }
    }
}

impl CanonicalCodec for RefineResultV0 {
    open spec fn encodable(v: ResultModel) -> bool {
        result_encodable(v)
    }

    open spec fn encoding(v: ResultModel) -> Seq<u8> {
        enc_result(v)
    }

    open spec fn decoding(bytes: Seq<u8>) -> Result<ResultModel, CodecError> {
        decode_result(bytes)
    }

    fn encode_canonical(&self) -> (out: Vec<u8>) {
        let mut w = Writer::new();
        write_result(&mut w, self);
        w.bytes
    }

    fn decode_canonical(bytes: &[u8]) -> (r: Result<Self, CodecError>) {
        let mut reader = Reader::new(bytes);
        let value = read_result_exec(&mut reader)?;
        reader.finish()?;
        Ok(value)
    }
}

/// The canonical encoding of a refine result, byte by byte: `Output(b)` is tag 0, the length
/// of `b` as four little-endian bytes, then `b`; `Bad`, `Big`, `OutOfGas` and `Panic` are the
/// single bytes 1, 2, 3 and 4. A single byte decodes to the result whose tag it is, and no
/// single byte above 4 decodes.
pub proof fn lemma_result_encoding_pinned(b: Seq<u8>, t: u8)
    ensures
        enc_result(ResultModel::Output(b)) == seq![0u8] + spec_u32_to_le_bytes(b.len() as u32) + b,
        enc_result(ResultModel::Bad) == seq![1u8],
        enc_result(ResultModel::Big) == seq![2u8],
        enc_result(ResultModel::OutOfGas) == seq![3u8],
        enc_result(ResultModel::Panic) == seq![4u8],
        t == 1 ==> decode_result(seq![t]) == Ok::<ResultModel, CodecError>(ResultModel::Bad),
        t == 2 ==> decode_result(seq![t]) == Ok::<ResultModel, CodecError>(ResultModel::Big),
        t == 3 ==> decode_result(seq![t]) == Ok::<ResultModel, CodecError>(ResultModel::OutOfGas),
        t == 4 ==> decode_result(seq![t]) == Ok::<ResultModel, CodecError>(ResultModel::Panic),
        t > 4 ==> decode_result(seq![t]) is Err,
{
    assert(enc_result(ResultModel::Output(b)) =~= seq![0u8] + spec_u32_to_le_bytes(b.len() as u32) + b);
}

} // verus!
