//! The state witness of a refine case and its canonical encoding.
use crate::codec::{
    at_is, enc_bytes, enc_vec, enc_seq, finish_read, fits_u32, le32, lemma_at_is_concat,
    lemma_enc_seq_push, lemma_read_bytes_back, lemma_read_u32_back,
    lemma_read_vec_back, read_bytes, read_fixed, read_matches, read_u32, read_u8,
    read_vec, reads_back, CanonicalCodec, CodecError, ReadResult, Reader, Writer, reads_sized,
    lemma_read_vec_sized, lemma_read_bytes_sized, lemma_le32, reads_exact, lemma_read_u32_exact,
    lemma_read_bytes_exact, lemma_at_is_join, lemma_read_u8_exact, lemma_read_vec_exact,
    lemma_exact_whole, decodes_as,
};
use crate::program::copy_bytes;
use crate::program_codec::lemma_tag_back;
use vstd::bytes::*;
use vstd::prelude::*;

verus! {

broadcast use vstd::seq_lib::group_seq_properties;

#[derive(Clone, Debug, PartialEq, Eq)]
pub struct HistoricalLookupWitnessV1 {
    pub service_id: u32,
    pub hash: [u8; 32],
    pub value: Vec<u8>,
    pub commitment_proof: Vec<u8>,
}

/// The mathematical value of a `HistoricalLookupWitnessV1`.
pub struct LookupModel {
    pub service_id: u32,
    pub hash: Seq<u8>,
    pub value: Seq<u8>,
    pub commitment_proof: Seq<u8>,
}

impl View for HistoricalLookupWitnessV1 {
    type V = LookupModel;

    open spec fn view(&self) -> LookupModel {
        LookupModel {
            service_id: self.service_id,
            hash: self.hash@,
            value: self.value@,
            commitment_proof: self.commitment_proof@,
        }
    }
}

impl DeepView for HistoricalLookupWitnessV1 {
    type V = LookupModel;

    open spec fn deep_view(&self) -> LookupModel {
        self@
    }
}

/// Whether the witnessed state is materialized fixture data or committed state evidence.
#[derive(Clone, Copy, Debug, PartialEq, Eq, Structural)]
pub enum StateWitnessBindingV1 {
    Fixture,
    Committed,
}

#[derive(Clone, Debug, PartialEq, Eq)]
pub struct RefineStateWitnessV1 {
    pub binding: StateWitnessBindingV1,
    pub historical_lookups: Vec<HistoricalLookupWitnessV1>,
}

/// The mathematical value of a `RefineStateWitnessV1`.
pub struct WitnessModel {
    pub binding: StateWitnessBindingV1,
    pub historical_lookups: Seq<LookupModel>,
}

impl View for RefineStateWitnessV1 {
    type V = WitnessModel;

    open spec fn view(&self) -> WitnessModel {
        WitnessModel {
            binding: self.binding,
            historical_lookups: self.historical_lookups@.map_values(
                |l: HistoricalLookupWitnessV1| l@,
            ),
        }
    }
}

pub open spec fn enc_lookup(l: LookupModel) -> Seq<u8> {
    le32(l.service_id) + l.hash + enc_bytes(l.value) + enc_bytes(l.commitment_proof)
}

pub open spec fn enc_lookup_fn() -> spec_fn(LookupModel) -> Seq<u8> {
    |l: LookupModel| enc_lookup(l)
}

pub open spec fn binding_tag(b: StateWitnessBindingV1) -> u8 {
    match b {
        StateWitnessBindingV1::Fixture => 0,
        StateWitnessBindingV1::Committed => 1,
    }
}

/// The binding tag, then the count-prefixed lookups.
pub open spec fn enc_witness(w: WitnessModel) -> Seq<u8> {
    seq![binding_tag(w.binding)] + enc_vec(enc_lookup_fn(), w.historical_lookups)
}

pub open spec fn lookup_encodable(l: LookupModel) -> bool {
    l.hash.len() == 32 && fits_u32(l.value.len() as int) && fits_u32(l.commitment_proof.len() as int)
}

pub open spec fn witness_encodable(w: WitnessModel) -> bool {
    &&& fits_u32(w.historical_lookups.len() as int)
    &&& forall|k: int|
        0 <= k < w.historical_lookups.len() ==> lookup_encodable(#[trigger] w.historical_lookups[k])
}

pub open spec fn read_lookup(s: Seq<u8>, at: int) -> ReadResult<LookupModel> {
    match read_u32(s, at) {
        Err(e) => Err(e),
        Ok((service_id, a)) => match read_fixed(s, a, 32) {
            Err(e) => Err(e),
            Ok((hash, b)) => match read_bytes(s, b) {
                Err(e) => Err(e),
                Ok((value, c)) => match read_bytes(s, c) {
                    Err(e) => Err(e),
                    Ok((commitment_proof, d)) => Ok(
                        (LookupModel { service_id, hash, value, commitment_proof }, d),
                    ),
                },
            },
        },
    }
}

pub open spec fn read_lookup_fn() -> spec_fn(Seq<u8>, int) -> ReadResult<LookupModel> {
    |s: Seq<u8>, at: int| read_lookup(s, at)
}

pub open spec fn read_witness(s: Seq<u8>, at: int) -> ReadResult<WitnessModel> {
    match read_u8(s, at) {
        Err(e) => Err(e),
        Ok((t, a)) => if t == 0 || t == 1 {
            match read_vec(read_lookup_fn(), s, a) {
                Err(e) => Err(e),
                Ok((ls, b)) => Ok(
                    (
                        WitnessModel {
                            binding: if t == 0 {
                                StateWitnessBindingV1::Fixture
                            } else {
                                StateWitnessBindingV1::Committed
                            },
                            historical_lookups: ls,
                        },
                        b,
                    ),
                ),
            }
        } else {
            Err(CodecError::InvalidValue("state witness binding"))
        },
    }
}

pub open spec fn decode_witness(s: Seq<u8>) -> Result<WitnessModel, CodecError> {
    finish_read(read_witness(s, 0), s)
}

pub proof fn lemma_lookup_back(s: Seq<u8>, at: int, l: LookupModel)
    requires
        lookup_encodable(l),
        at_is(s, at, enc_lookup(l)),
    ensures
        read_lookup(s, at) == Ok::<(LookupModel, int), CodecError>((l, at + enc_lookup(l).len())),
{
    let e1 = le32(l.service_id);
    let e2 = l.hash;
    let e3 = enc_bytes(l.value);
    let e4 = enc_bytes(l.commitment_proof);
    lemma_at_is_concat(s, at, e1 + e2 + e3, e4);
    lemma_at_is_concat(s, at, e1 + e2, e3);
    lemma_at_is_concat(s, at, e1, e2);
    crate::codec::lemma_le32(l.service_id);
    lemma_read_u32_back(s, at, l.service_id);
    lemma_read_bytes_back(s, at + 36, l.value);
    lemma_read_bytes_back(s, at + 36 + e3.len(), l.commitment_proof);
}

pub proof fn lemma_lookup_reads_back(l: LookupModel)
    requires
        lookup_encodable(l),
    ensures
        reads_back(enc_lookup_fn(), read_lookup_fn(), l),
{
    assert forall|s: Seq<u8>, at: int| #[trigger] at_is(s, at, enc_lookup_fn()(l)) implies read_lookup_fn()(
        s,
        at,
    ) == Ok::<(LookupModel, int), CodecError>((l, at + enc_lookup_fn()(l).len())) by {
        lemma_lookup_back(s, at, l);
    }
}

pub proof fn lemma_witness_back(s: Seq<u8>, at: int, w: WitnessModel)
    requires
        witness_encodable(w),
        at_is(s, at, enc_witness(w)),
    ensures
        read_witness(s, at) == Ok::<(WitnessModel, int), CodecError>((w, at + enc_witness(w).len())),
{
    lemma_tag_back(s, at, binding_tag(w.binding), enc_vec(enc_lookup_fn(), w.historical_lookups));
    assert forall|k: int| 0 <= k < w.historical_lookups.len() implies #[trigger] reads_back(
        enc_lookup_fn(),
        read_lookup_fn(),
        w.historical_lookups[k],
    ) by {
        lemma_lookup_reads_back(w.historical_lookups[k]);
    }
    lemma_read_vec_back(enc_lookup_fn(), read_lookup_fn(), w.historical_lookups, s, at + 1);
}

/// Decoding an encoded state witness gives the witness back.
pub proof fn lemma_witness_roundtrip(w: WitnessModel)
    requires
        witness_encodable(w),
    ensures
        decode_witness(enc_witness(w)) == Ok::<WitnessModel, CodecError>(w),
{
    let s = enc_witness(w);
    assert(s.subrange(0, s.len() as int) =~= s);
    lemma_witness_back(s, 0, w);
}

pub open spec fn lookup_encodable_fn() -> spec_fn(LookupModel) -> bool {
    |l: LookupModel| lookup_encodable(l)
}

pub proof fn lemma_read_lookup_sized(s: Seq<u8>, at: int)
    requires
        read_lookup(s, at) is Ok,
    ensures
        lookup_encodable(read_lookup(s, at)->Ok_0.0),
        enc_lookup(read_lookup(s, at)->Ok_0.0).len() == read_lookup(s, at)->Ok_0.1 - at,
{
    lemma_le32(read_u32(s, at)->Ok_0.0);
    lemma_read_bytes_sized(s, at + 36);
    let c = read_bytes(s, at + 36)->Ok_0.1;
    lemma_read_bytes_sized(s, c);
}

pub proof fn lemma_lookups_sized()
    ensures
        reads_sized(enc_lookup_fn(), read_lookup_fn(), lookup_encodable_fn()),
{
    assert forall|s: Seq<u8>, at: int| #[trigger] read_lookup_fn()(s, at) is Ok implies lookup_encodable_fn()(
        read_lookup_fn()(s, at)->Ok_0.0,
    ) && enc_lookup_fn()(read_lookup_fn()(s, at)->Ok_0.0).len() == read_lookup_fn()(s, at)->Ok_0.1
        - at by {
        lemma_read_lookup_sized(s, at);
    }
}

/// Whatever the state-witness decoder accepts encodes again, to exactly the bytes' length.
pub proof fn lemma_decoded_witness_encodable(s: Seq<u8>)
    requires
        decode_witness(s) is Ok,
    ensures
        witness_encodable(decode_witness(s)->Ok_0),
        enc_witness(decode_witness(s)->Ok_0).len() == s.len(),
{
    lemma_lookups_sized();
    lemma_read_vec_sized(enc_lookup_fn(), read_lookup_fn(), lookup_encodable_fn(), s, 1);
    let w = decode_witness(s)->Ok_0;
    assert forall|k: int| 0 <= k < w.historical_lookups.len() implies lookup_encodable(
        #[trigger] w.historical_lookups[k],
    ) by {
        assert(lookup_encodable_fn()(w.historical_lookups[k]));
    }
}

pub proof fn lemma_read_lookup_exact(s: Seq<u8>, at: int)
    requires
        read_lookup(s, at) is Ok,
    ensures
        at_is(s, at, enc_lookup(read_lookup(s, at)->Ok_0.0)),
        read_lookup(s, at)->Ok_0.1 == at + enc_lookup(read_lookup(s, at)->Ok_0.0).len(),
{
    let l = read_lookup(s, at)->Ok_0.0;
    lemma_read_u32_exact(s, at);
    lemma_read_bytes_exact(s, at + 36);
    let c = read_bytes(s, at + 36)->Ok_0.1;
    lemma_read_bytes_exact(s, c);
    lemma_at_is_join(s, at, le32(l.service_id), l.hash);
    lemma_at_is_join(s, at, le32(l.service_id) + l.hash, enc_bytes(l.value));
    lemma_at_is_join(
        s,
        at,
        le32(l.service_id) + l.hash + enc_bytes(l.value),
        enc_bytes(l.commitment_proof),
    );
}

pub proof fn lemma_lookups_exact()
    ensures
        reads_exact(enc_lookup_fn(), read_lookup_fn()),
{
    assert forall|s: Seq<u8>, at: int| #[trigger] read_lookup_fn()(s, at) is Ok implies at_is(
        s,
        at,
        enc_lookup_fn()(read_lookup_fn()(s, at)->Ok_0.0),
    ) && read_lookup_fn()(s, at)->Ok_0.1 == at + enc_lookup_fn()(read_lookup_fn()(s, at)->Ok_0.0).len() by {
        lemma_read_lookup_exact(s, at);
    }
}

/// The state-witness decoder accepts only canonical bytes: whatever it decodes encodes back to
/// exactly the bytes it was decoded from.
pub proof fn lemma_witness_decode_canonical(s: Seq<u8>)
    requires
        decode_witness(s) is Ok,
    ensures
        enc_witness(decode_witness(s)->Ok_0) == s,
{
    let w = decode_witness(s)->Ok_0;
    lemma_read_u8_exact(s, 0);
    assert(seq![s[0]] == seq![binding_tag(w.binding)]);
    lemma_lookups_exact();
    lemma_read_vec_exact(enc_lookup_fn(), read_lookup_fn(), s, 1);
    lemma_at_is_join(s, 0, seq![binding_tag(w.binding)], enc_vec(enc_lookup_fn(), w.historical_lookups));
    lemma_exact_whole(s, enc_witness(w));
}

fn write_lookup(w: &mut Writer, l: &HistoricalLookupWitnessV1)
    requires
        lookup_encodable(l@),
    ensures
        final(w).bytes@ == old(w).bytes@ + enc_lookup(l@),
{
    w.u32(l.service_id);
    w.fixed(l.hash.as_slice());
    let _r = w.bytes(l.value.as_slice());
    let _r = w.bytes(l.commitment_proof.as_slice());
    assert(w.bytes@ =~= old(w).bytes@ + enc_lookup(l@));
}

pub(crate) fn write_witness(w: &mut Writer, value: &RefineStateWitnessV1)
    requires
        witness_encodable(value@),
    ensures
        final(w).bytes@ == old(w).bytes@ + enc_witness(value@),
{
    let ghost ls = value@.historical_lookups;
    match value.binding {
        StateWitnessBindingV1::Fixture => w.u8(0),
        StateWitnessBindingV1::Committed => w.u8(1),
    }
    let _r = w.count(value.historical_lookups.len());
    let ghost start = w.bytes@;
    let mut i: usize = 0;
    while i < value.historical_lookups.len()
        invariant
            0 <= i <= value.historical_lookups@.len(),
            ls == value@.historical_lookups,
            ls.len() == value.historical_lookups@.len(),
            witness_encodable(value@),
            w.bytes@ == start + enc_seq(enc_lookup_fn(), ls.take(i as int)),
        decreases value.historical_lookups@.len() - i,
    {
        assert(ls[i as int] == value.historical_lookups@[i as int]@);
        assert(lookup_encodable(ls[i as int]));
        write_lookup(w, &value.historical_lookups[i]);
        proof {
            assert(ls.take(i + 1) =~= ls.take(i as int).push(ls[i as int]));
            lemma_enc_seq_push(enc_lookup_fn(), ls.take(i as int), ls[i as int]);
        }
        i = i + 1;
        assert(w.bytes@ =~= start + enc_seq(enc_lookup_fn(), ls.take(i as int)));
    }
    assert(ls.take(i as int) =~= ls);
    assert(w.bytes@ =~= old(w).bytes@ + enc_witness(value@));
}

fn read_lookup_exec(r: &mut Reader) -> (res: Result<HistoricalLookupWitnessV1, CodecError>)
    requires
        old(r).wf(),
    ensures
        final(r).wf(),
        final(r).data() == old(r).data(),
        read_matches(res, read_lookup(old(r).data(), old(r).pos()), final(r).pos()),
        decodes_as(read_lookup_fn(), *old(r), res, *final(r)),
{
    let service_id = r.u32()?;
    let hash = r.fixed()?;
    let value = r.bytes()?;
    let commitment_proof = r.bytes()?;
    Ok(HistoricalLookupWitnessV1 { service_id, hash, value, commitment_proof })
}

pub(crate) fn read_witness_exec(r: &mut Reader) -> (res: Result<RefineStateWitnessV1, CodecError>)
    requires
        old(r).wf(),
    ensures
        final(r).wf(),
        final(r).data() == old(r).data(),
        read_matches(res, read_witness(old(r).data(), old(r).pos()), final(r).pos()),
{
    let t = r.u8()?;
    let binding = if t == 0 {
        StateWitnessBindingV1::Fixture
    } else if t == 1 {
        StateWitnessBindingV1::Committed
    } else {
        return Err(CodecError::InvalidValue("state witness binding"));
    };
    let lookups = r.vec(read_lookup_exec, Ghost(read_lookup_fn()))?;
    assert(lookups@.map_values(|x: HistoricalLookupWitnessV1| x@) =~= lookups.deep_view());
    Ok(RefineStateWitnessV1 { binding, historical_lookups: lookups })
}

impl HistoricalLookupWitnessV1 {
    /// A copy with the same value.
    pub fn duplicate(&self) -> (r: Self)
        ensures
            r@ == self@,
    {
        HistoricalLookupWitnessV1 {
            service_id: self.service_id,
            hash: self.hash,
            value: copy_bytes(&self.value),
            commitment_proof: copy_bytes(&self.commitment_proof),
        }
    }
}

impl CanonicalCodec for RefineStateWitnessV1 {
    open spec fn encodable(v: WitnessModel) -> bool {
        witness_encodable(v)
    }

    open spec fn encoding(v: WitnessModel) -> Seq<u8> {
        enc_witness(v)
    }

    open spec fn decoding(bytes: Seq<u8>) -> Result<WitnessModel, CodecError> {
        decode_witness(bytes)
    }

    fn encode_canonical(&self) -> (out: Vec<u8>) {
        let mut w = Writer::new();
        write_witness(&mut w, self);
        w.bytes
    }

    fn decode_canonical(bytes: &[u8]) -> (r: Result<Self, CodecError>) {
        let mut reader = Reader::new(bytes);
        let value = read_witness_exec(&mut reader)?;
        reader.finish()?;
        Ok(value)
    }
}

/// The canonical encoding of a state witness, byte by byte: the binding tag (fixture 0,
/// committed 1), then the lookups as a 32-bit count and each lookup's service id, 32-byte hash,
/// and length-prefixed value and commitment proof.
pub proof fn lemma_witness_encoding_pinned(w: WitnessModel, l: LookupModel)
    ensures
        enc_witness(w) == seq![
            if w.binding == StateWitnessBindingV1::Fixture {
                0u8
            } else {
                1u8
            },
        ] + enc_vec(enc_lookup_fn(), w.historical_lookups),
        enc_lookup(l) == spec_u32_to_le_bytes(l.service_id) + l.hash + spec_u32_to_le_bytes(
            l.value.len() as u32,
        ) + l.value + spec_u32_to_le_bytes(l.commitment_proof.len() as u32) + l.commitment_proof,
{
    assert(enc_lookup(l) =~= spec_u32_to_le_bytes(l.service_id) + l.hash + spec_u32_to_le_bytes(
        l.value.len() as u32,
    ) + l.value + spec_u32_to_le_bytes(l.commitment_proof.len() as u32) + l.commitment_proof);
}

} // verus!
