//! The refine case: the versioned, client-independent input of one refine, its admission rules
//! and its canonical encoding.
use crate::codec::{
    at_is, enc_bytes, enc_bytes_fn, enc_seq, enc_vec, finish_read, fits_u32, le16, le32,
    lemma_at_is_concat, lemma_bytes_reads_back, lemma_enc_seq_push, lemma_le16, lemma_le32,
    lemma_read_bytes_back, lemma_read_u16_back, lemma_read_u32_back,
    lemma_read_vec_back, read_bytes, read_bytes_fn, read_matches, read_u16, read_u32,
    read_u8, read_vec, reads_back, CanonicalCodec, CodecError, ReadResult, Reader, Writer,
    reads_sized, lemma_read_vec_sized, lemma_read_bytes_sized, lemma_bytes_and_words_sized,
    fits_u32_fn, reads_exact, lemma_read_vec_exact, lemma_read_bytes_exact, lemma_read_u32_exact,
    lemma_read_u16_exact, lemma_read_u8_exact, lemma_at_is_join, lemma_bytes_and_words_exact,
    lemma_exact_whole, decodes_as,
};
use crate::hashing::{blake2b_256, hash_domain};
use crate::program::{program_admission, ProgramModel, PvmProgramV1};
use crate::program_codec::{
    decode_program, enc_program, lemma_decoded_program_encodable, lemma_program_roundtrip,
    lemma_program_decode_canonical,
    lemma_tag_back, program_encodable,
};
use crate::state_witness::{
    decode_witness, enc_witness, lemma_decoded_witness_encodable, lemma_witness_roundtrip,
    lemma_witness_decode_canonical,
    witness_encodable, RefineStateWitnessV1, WitnessModel,
};
use vstd::bytes::*;
use vstd::prelude::*;
use vstd::string::StringSliceAdditionalSpecFns;

verus! {

broadcast use vstd::seq_lib::group_seq_properties;

pub const REFINE_CASE_FORMAT_V1: u16 = 1;

pub const JAM_SEMANTICS_VERSION_0_7_2: u16 = 0x0702;

/// The byte length of one imported or exported segment.
pub const SEGMENT_SIZE: usize = 4104;

/// The hashing domain of profile identifiers.
pub const PROFILE_ID_DOMAIN: &'static str = "zk-jam/profile-v0";

/// The smoke profile, version 0.
#[derive(Clone, Copy, Debug, PartialEq, Eq, Structural)]
pub struct SmokeProfileV0 {
    pub version: u16,
    pub jam_semantics: u16,
    pub gas_proof: bool,
    pub inner_pvm: bool,
}

impl Default for SmokeProfileV0 {
    fn default() -> (r: Self)
        ensures
            r == (SmokeProfileV0 {
                version: 0,
                jam_semantics: JAM_SEMANTICS_VERSION_0_7_2,
                gas_proof: false,
                inner_pvm: false,
            }),
    {
        SmokeProfileV0 {
            version: 0,
            jam_semantics: JAM_SEMANTICS_VERSION_0_7_2,
            gas_proof: false,
            inner_pvm: false,
        }
    }
}

/// The versioned execution profile of a case.
#[derive(Clone, Copy, Debug, PartialEq, Eq, Structural)]
pub enum SmokeProfile {
    V0(SmokeProfileV0),
}

impl Default for SmokeProfile {
    fn default() -> (r: Self)
        ensures
            r == SmokeProfile::V0(
                SmokeProfileV0 {
                    version: 0,
                    jam_semantics: JAM_SEMANTICS_VERSION_0_7_2,
                    gas_proof: false,
                    inner_pvm: false,
                },
            ),
    {
        SmokeProfile::V0(SmokeProfileV0::default())
    }
}

impl View for SmokeProfile {
    type V = SmokeProfile;

    open spec fn view(&self) -> SmokeProfile {
        *self
    }
}

pub open spec fn bool_byte(b: bool) -> u8 {
    if b {
        1
    } else {
        0
    }
}

/// A zero tag, the version and JAM semantics words, then one byte per flag.
pub open spec fn enc_profile(p: SmokeProfile) -> Seq<u8> {
    match p {
        SmokeProfile::V0(v) => seq![0u8] + le16(v.version) + le16(v.jam_semantics) + seq![
            bool_byte(v.gas_proof),
            bool_byte(v.inner_pvm),
        ],
    }
}

/// Reads a profile; a flag byte other than zero reads as set.
pub open spec fn read_profile(s: Seq<u8>, at: int) -> ReadResult<SmokeProfile> {
    match read_u8(s, at) {
        Err(e) => Err(e),
        Ok((t, a)) => if t != 0 {
            Err(CodecError::InvalidValue("SmokeProfile tag"))
        } else {
            match read_u16(s, a) {
                Err(e) => Err(e),
                Ok((version, b)) => match read_u16(s, b) {
                    Err(e) => Err(e),
                    Ok((jam_semantics, c)) => match read_u8(s, c) {
                        Err(e) => Err(e),
                        Ok((g, d)) => match read_u8(s, d) {
                            Err(e) => Err(e),
                            Ok((i, e)) => Ok(
                                (
                                    SmokeProfile::V0(
                                        SmokeProfileV0 {
                                            version,
                                            jam_semantics,
                                            gas_proof: g != 0,
                                            inner_pvm: i != 0,
                                        },
                                    ),
                                    e,
                                ),
                            ),
                        },
                    },
                },
            }
        },
    }
}

pub open spec fn decode_profile(s: Seq<u8>) -> Result<SmokeProfile, CodecError> {
    finish_read(read_profile(s, 0), s)
}

/// The only admitted profile: version 0 of JAM 0.7.2 semantics, without gas proof or inner PVM.
pub open spec fn profile_validation(p: SmokeProfile) -> Result<(), CodecError> {
    match p {
        SmokeProfile::V0(v) => if v.version == 0 && v.jam_semantics == JAM_SEMANTICS_VERSION_0_7_2
            && !v.gas_proof && !v.inner_pvm {
            Ok(())
        } else {
            Err(CodecError::InvalidValue("invalid SmokeProfileV0"))
        },
    }
}

pub proof fn lemma_profile_back(s: Seq<u8>, at: int, p: SmokeProfile)
    requires
        at_is(s, at, enc_profile(p)),
    ensures
        read_profile(s, at) == Ok::<(SmokeProfile, int), CodecError>((p, at + enc_profile(p).len())),
{
    let SmokeProfile::V0(v) = p;
    let rest = le16(v.version) + le16(v.jam_semantics) + seq![
        bool_byte(v.gas_proof),
        bool_byte(v.inner_pvm),
    ];
    assert(enc_profile(p) =~= seq![0u8] + rest);
    lemma_tag_back(s, at, 0, rest);
    lemma_le16(v.version);
    lemma_le16(v.jam_semantics);
    lemma_at_is_concat(s, at + 1, le16(v.version) + le16(v.jam_semantics), seq![
        bool_byte(v.gas_proof),
        bool_byte(v.inner_pvm),
    ]);
    lemma_at_is_concat(s, at + 1, le16(v.version), le16(v.jam_semantics));
    lemma_read_u16_back(s, at + 1, v.version);
    lemma_read_u16_back(s, at + 3, v.jam_semantics);
    assert(s.subrange(at + 5, at + 7)[0] == s[at + 5]);
    assert(s.subrange(at + 5, at + 7)[1] == s[at + 6]);
}

/// Decoding an encoded profile gives the profile back.
pub proof fn lemma_profile_roundtrip(p: SmokeProfile)
    ensures
        decode_profile(enc_profile(p)) == Ok::<SmokeProfile, CodecError>(p),
{
    let s = enc_profile(p);
    assert(s.subrange(0, s.len() as int) =~= s);
    lemma_profile_back(s, 0, p);
}

fn write_profile(w: &mut Writer, p: &SmokeProfile)
    ensures
        final(w).bytes@ == old(w).bytes@ + enc_profile(*p),
{
    match p {
        SmokeProfile::V0(v) => {
            w.u8(0);
            w.u16(v.version);
            w.u16(v.jam_semantics);
            w.u8(if v.gas_proof {
                1
            } else {
                0
            });
            w.u8(if v.inner_pvm {
                1
            } else {
                0
            });
        },
    }
    assert(w.bytes@ =~= old(w).bytes@ + enc_profile(*p));
}

fn read_profile_exec(r: &mut Reader) -> (res: Result<SmokeProfile, CodecError>)
    requires
        old(r).wf(),
    ensures
        final(r).wf(),
        final(r).data() == old(r).data(),
        read_matches(res, read_profile(old(r).data(), old(r).pos()), final(r).pos()),
{
    let t = r.u8()?;
    if t != 0 {
        return Err(CodecError::InvalidValue("SmokeProfile tag"));
    }
    let version = r.u16()?;
    let jam_semantics = r.u16()?;
    let g = r.u8()?;
    let i = r.u8()?;
    Ok(SmokeProfile::V0(SmokeProfileV0 { version, jam_semantics, gas_proof: g != 0, inner_pvm: i != 0 }))
}

impl SmokeProfile {
    /// The profile identifier: the BLAKE2b-256 hash of the profile's canonical encoding under
    /// the profile domain.
    pub fn id(&self) -> (r: [u8; 32])
        ensures
            r@ == blake2b_256(PROFILE_ID_DOMAIN.spec_bytes() + enc_profile(*self)),
    {
        let encoded = self.encode_canonical();
        hash_domain(PROFILE_ID_DOMAIN.as_bytes(), encoded.as_slice())
    }

    /// Admits only the fixed smoke profile.
    pub fn validate(&self) -> (r: Result<(), CodecError>)
        ensures
            r == profile_validation(*self),
    {
        match self {
            SmokeProfile::V0(v) => {
                if v.version == 0 && v.jam_semantics == JAM_SEMANTICS_VERSION_0_7_2 && !v.gas_proof
                    && !v.inner_pvm {
                    Ok(())
                } else {
                    Err(CodecError::InvalidValue("invalid SmokeProfileV0"))
                }
            },
        }
    }
}

impl CanonicalCodec for SmokeProfile {
    open spec fn encodable(v: SmokeProfile) -> bool {
        true
    }

    open spec fn encoding(v: SmokeProfile) -> Seq<u8> {
        enc_profile(v)
    }

    open spec fn decoding(bytes: Seq<u8>) -> Result<SmokeProfile, CodecError> {
        decode_profile(bytes)
    }

    fn encode_canonical(&self) -> (out: Vec<u8>) {
        let mut w = Writer::new();
        write_profile(&mut w, self);
        w.bytes
    }

    fn decode_canonical(bytes: &[u8]) -> (r: Result<Self, CodecError>) {
        let mut reader = Reader::new(bytes);
        let value = read_profile_exec(&mut reader)?;
        reader.finish()?;
        Ok(value)
    }
}


// ---------------------------------------------------------------------------------------------
// Nested byte lists
// ---------------------------------------------------------------------------------------------
pub open spec fn bytes_list_view(v: Seq<Vec<u8>>) -> Seq<Seq<u8>> {
    v.map_values(|x: Vec<u8>| x@)
}

pub open spec fn nested_view(v: Seq<Vec<Vec<u8>>>) -> Seq<Seq<Seq<u8>>> {
    v.map_values(|o: Vec<Vec<u8>>| bytes_list_view(o@))
}

/// A count-prefixed list of length-prefixed byte strings.
pub open spec fn enc_bytes_list(xs: Seq<Seq<u8>>) -> Seq<u8> {
    enc_vec(enc_bytes_fn(), xs)
}

pub open spec fn enc_bytes_list_fn() -> spec_fn(Seq<Seq<u8>>) -> Seq<u8> {
    |xs: Seq<Seq<u8>>| enc_bytes_list(xs)
}

/// A count-prefixed list of byte-string lists.
pub open spec fn enc_nested(xss: Seq<Seq<Seq<u8>>>) -> Seq<u8> {
    enc_vec(enc_bytes_list_fn(), xss)
}

pub open spec fn bytes_list_encodable(xs: Seq<Seq<u8>>) -> bool {
    &&& fits_u32(xs.len() as int)
    &&& forall|k: int| 0 <= k < xs.len() ==> fits_u32(#[trigger] xs[k].len() as int)
}

pub open spec fn nested_encodable(xss: Seq<Seq<Seq<u8>>>) -> bool {
    &&& fits_u32(xss.len() as int)
    &&& forall|k: int| 0 <= k < xss.len() ==> bytes_list_encodable(#[trigger] xss[k])
}

pub open spec fn read_bytes_list(s: Seq<u8>, at: int) -> ReadResult<Seq<Seq<u8>>> {
    read_vec(read_bytes_fn(), s, at)
}

pub open spec fn read_bytes_list_fn() -> spec_fn(Seq<u8>, int) -> ReadResult<Seq<Seq<u8>>> {
    |s: Seq<u8>, at: int| read_bytes_list(s, at)
}

pub open spec fn read_nested(s: Seq<u8>, at: int) -> ReadResult<Seq<Seq<Seq<u8>>>> {
    read_vec(read_bytes_list_fn(), s, at)
}

pub proof fn lemma_bytes_list_reads_back(xs: Seq<Seq<u8>>)
    requires
        bytes_list_encodable(xs),
    ensures
        reads_back(enc_bytes_list_fn(), read_bytes_list_fn(), xs),
{
    assert forall|k: int| 0 <= k < xs.len() implies #[trigger] reads_back(
        enc_bytes_fn(),
        read_bytes_fn(),
        xs[k],
    ) by {
        lemma_bytes_reads_back(xs[k]);
    }
    assert forall|s: Seq<u8>, at: int| #[trigger] at_is(s, at, enc_bytes_list_fn()(xs)) implies read_bytes_list_fn()(
        s,
        at,
    ) == Ok::<(Seq<Seq<u8>>, int), CodecError>((xs, at + enc_bytes_list_fn()(xs).len())) by {
        lemma_read_vec_back(enc_bytes_fn(), read_bytes_fn(), xs, s, at);
    }
}

pub proof fn lemma_nested_back(s: Seq<u8>, at: int, xss: Seq<Seq<Seq<u8>>>)
    requires
        nested_encodable(xss),
        at_is(s, at, enc_nested(xss)),
    ensures
        read_nested(s, at) == Ok::<(Seq<Seq<Seq<u8>>>, int), CodecError>(
            (xss, at + enc_nested(xss).len()),
        ),
{
    assert forall|k: int| 0 <= k < xss.len() implies #[trigger] reads_back(
        enc_bytes_list_fn(),
        read_bytes_list_fn(),
        xss[k],
    ) by {
        lemma_bytes_list_reads_back(xss[k]);
    }
    lemma_read_vec_back(enc_bytes_list_fn(), read_bytes_list_fn(), xss, s, at);
}

pub(crate) fn write_bytes_list(w: &mut Writer, values: &Vec<Vec<u8>>)
    requires
        bytes_list_encodable(bytes_list_view(values@)),
    ensures
        final(w).bytes@ == old(w).bytes@ + enc_bytes_list(bytes_list_view(values@)),
{
    let ghost xs = bytes_list_view(values@);
    let _r = w.count(values.len());
    let ghost start = w.bytes@;
    let mut i: usize = 0;
    while i < values.len()
        invariant
            0 <= i <= values@.len(),
            xs == bytes_list_view(values@),
            xs.len() == values@.len(),
            bytes_list_encodable(xs),
            w.bytes@ == start + enc_seq(enc_bytes_fn(), xs.take(i as int)),
        decreases values@.len() - i,
    {
        assert(xs[i as int] == values@[i as int]@);
        let _r = w.bytes(values[i].as_slice());
        proof {
            assert(xs.take(i + 1) =~= xs.take(i as int).push(xs[i as int]));
            lemma_enc_seq_push(enc_bytes_fn(), xs.take(i as int), xs[i as int]);
        }
        i = i + 1;
        assert(w.bytes@ =~= start + enc_seq(enc_bytes_fn(), xs.take(i as int)));
    }
    assert(xs.take(i as int) =~= xs);
    assert(w.bytes@ =~= old(w).bytes@ + enc_bytes_list(xs));
}

pub(crate) fn write_nested(w: &mut Writer, values: &Vec<Vec<Vec<u8>>>)
    requires
        nested_encodable(nested_view(values@)),
    ensures
        final(w).bytes@ == old(w).bytes@ + enc_nested(nested_view(values@)),
{
    let ghost xss = nested_view(values@);
    let _r = w.count(values.len());
    let ghost start = w.bytes@;
    let mut i: usize = 0;
    while i < values.len()
        invariant
            0 <= i <= values@.len(),
            xss == nested_view(values@),
            xss.len() == values@.len(),
            nested_encodable(xss),
            w.bytes@ == start + enc_seq(enc_bytes_list_fn(), xss.take(i as int)),
        decreases values@.len() - i,
    {
        assert(xss[i as int] == bytes_list_view(values@[i as int]@));
        assert(bytes_list_encodable(xss[i as int]));
        write_bytes_list(w, &values[i]);
        proof {
            assert(xss.take(i + 1) =~= xss.take(i as int).push(xss[i as int]));
            lemma_enc_seq_push(enc_bytes_list_fn(), xss.take(i as int), xss[i as int]);
        }
        i = i + 1;
        assert(w.bytes@ =~= start + enc_seq(enc_bytes_list_fn(), xss.take(i as int)));
    }
    assert(xss.take(i as int) =~= xss);
    assert(w.bytes@ =~= old(w).bytes@ + enc_nested(xss));
}

proof fn lemma_bytes_list_deep_view(v: Vec<Vec<u8>>)
    ensures
        bytes_list_view(v@) == v.deep_view(),
{
    assert forall|i: int| 0 <= i < v@.len() implies bytes_list_view(v@)[i]
        == #[trigger] v.deep_view()[i] by {
        assert(v@[i].deep_view() =~= v@[i]@);
    }
    assert(bytes_list_view(v@) =~= v.deep_view());
}

/// One length-prefixed byte string, as an item of a list.
fn read_bytes_item(r: &mut Reader) -> (x: Result<Vec<u8>, CodecError>)
    requires
        old(r).wf(),
    ensures
        decodes_as(read_bytes_fn(), *old(r), x, *final(r)),
{
    let x = r.bytes();
    assert(x is Ok ==> x->Ok_0.deep_view() =~= x->Ok_0@);
    x
}

pub(crate) fn read_bytes_list_exec(r: &mut Reader) -> (res: Result<Vec<Vec<u8>>, CodecError>)
    requires
        old(r).wf(),
    ensures
        final(r).wf(),
        final(r).data() == old(r).data(),
        match read_bytes_list(old(r).data(), old(r).pos()) {
            Ok((v, a)) => res is Ok && bytes_list_view(res->Ok_0@) == v && final(r).pos() == a,
            Err(e) => res is Err && res->Err_0 == e,
        },
        decodes_as(read_bytes_list_fn(), *old(r), res, *final(r)),
{
    let res = r.vec(read_bytes_item, Ghost(read_bytes_fn()));
    proof {
        if res is Ok {
            lemma_bytes_list_deep_view(res->Ok_0);
        }
    }
    res
}

pub(crate) fn read_nested_exec(r: &mut Reader) -> (res: Result<Vec<Vec<Vec<u8>>>, CodecError>)
    requires
        old(r).wf(),
    ensures
        final(r).wf(),
        final(r).data() == old(r).data(),
        match read_nested(old(r).data(), old(r).pos()) {
            Ok((v, a)) => res is Ok && nested_view(res->Ok_0@) == v && final(r).pos() == a,
            Err(e) => res is Err && res->Err_0 == e,
        },
{
    let res = r.vec(read_bytes_list_exec, Ghost(read_bytes_list_fn()));
    proof {
        if res is Ok {
            let v = res->Ok_0;
            assert forall|i: int| 0 <= i < v@.len() implies bytes_list_view(v@[i]@)
                == #[trigger] v.deep_view()[i] by {
                lemma_bytes_list_deep_view(v@[i]);
            }
            assert(nested_view(v@) =~= v.deep_view());
        }
    }
    res
}

// ---------------------------------------------------------------------------------------------
// The refine case
// ---------------------------------------------------------------------------------------------
#[derive(Clone, Debug, PartialEq, Eq)]
pub struct RefineCaseV1 {
    pub format_version: u16,
    pub profile: SmokeProfile,
    pub core_index: u16,
    pub item_index: u16,
    pub work_package: Vec<u8>,
    pub authorization_trace: Vec<u8>,
    pub external_data: Vec<Vec<Vec<u8>>>,
    pub import_segments: Vec<Vec<Vec<u8>>>,
    pub export_offset: u32,
    pub program: PvmProgramV1,
    pub state_witness: RefineStateWitnessV1,
}

/// The mathematical value of a `RefineCaseV1`.
pub struct CaseModel {
    pub format_version: u16,
    pub profile: SmokeProfile,
    pub core_index: u16,
    pub item_index: u16,
    pub work_package: Seq<u8>,
    pub authorization_trace: Seq<u8>,
    pub external_data: Seq<Seq<Seq<u8>>>,
    pub import_segments: Seq<Seq<Seq<u8>>>,
    pub export_offset: u32,
    pub program: ProgramModel,
    pub state_witness: WitnessModel,
}

impl View for RefineCaseV1 {
    type V = CaseModel;

    open spec fn view(&self) -> CaseModel {
        CaseModel {
            format_version: self.format_version,
            profile: self.profile,
            core_index: self.core_index,
            item_index: self.item_index,
            work_package: self.work_package@,
            authorization_trace: self.authorization_trace@,
            external_data: nested_view(self.external_data@),
            import_segments: nested_view(self.import_segments@),
            export_offset: self.export_offset,
            program: self.program@,
            state_witness: self.state_witness@,
        }
    }
}

/// Every imported segment fits in a segment.
pub open spec fn segments_fit(imports: Seq<Seq<Seq<u8>>>) -> bool {
    forall|i: int, j: int|
        0 <= i < imports.len() && 0 <= j < imports[i].len() ==> (#[trigger] imports[i][j]).len()
            <= SEGMENT_SIZE
}

/// The outcome of `RefineCaseV1::validate`: the format version, then the profile, then program
/// admission, then the size of every imported segment.
pub open spec fn case_validation(c: CaseModel) -> Result<(), CodecError> {
    if c.format_version != REFINE_CASE_FORMAT_V1 {
        Err(CodecError::InvalidValue("unsupported RefineCaseV1 version"))
    } else {
        match profile_validation(c.profile) {
            Err(e) => Err(e),
            Ok(_) => match program_admission(c.program) {
                Err(e) => Err(e),
                Ok(_) => if segments_fit(c.import_segments) {
                    Ok(())
                } else {
                    Err(CodecError::InvalidValue("import segment exceeds segment size"))
                },
            },
        }
    }
}

pub open spec fn enc_case(c: CaseModel) -> Seq<u8> {
    le16(c.format_version) + enc_profile(c.profile) + le16(c.core_index) + le16(c.item_index)
        + enc_bytes(c.work_package) + enc_bytes(c.authorization_trace) + enc_nested(c.external_data)
        + enc_nested(c.import_segments) + le32(c.export_offset) + enc_bytes(enc_program(c.program))
        + enc_bytes(enc_witness(c.state_witness))
}

pub open spec fn case_encodable(c: CaseModel) -> bool {
    &&& fits_u32(c.work_package.len() as int)
    &&& fits_u32(c.authorization_trace.len() as int)
    &&& nested_encodable(c.external_data)
    &&& nested_encodable(c.import_segments)
    &&& program_encodable(c.program)
    &&& fits_u32(enc_program(c.program).len() as int)
    &&& witness_encodable(c.state_witness)
    &&& fits_u32(enc_witness(c.state_witness).len() as int)
}

/// The leading fields of a case, up to the external data.
pub open spec fn read_case_head(s: Seq<u8>, at: int) -> ReadResult<
    (u16, SmokeProfile, u16, u16, Seq<u8>, Seq<u8>),
> {
    match read_u16(s, at) {
        Err(e) => Err(e),
        Ok((format_version, a1)) => match read_profile(s, a1) {
            Err(e) => Err(e),
            Ok((profile, a2)) => match read_u16(s, a2) {
                Err(e) => Err(e),
                Ok((core_index, a3)) => match read_u16(s, a3) {
                    Err(e) => Err(e),
                    Ok((item_index, a4)) => match read_bytes(s, a4) {
                        Err(e) => Err(e),
                        Ok((work_package, a5)) => match read_bytes(s, a5) {
                            Err(e) => Err(e),
                            Ok((authorization_trace, a6)) => Ok(
                                (
                                    (
                                        format_version,
                                        profile,
                                        core_index,
                                        item_index,
                                        work_package,
                                        authorization_trace,
                                    ),
                                    a6,
                                ),
                            ),
                        },
                    },
                },
            },
        },
    }
}

/// Reads a case; the embedded program is decoded as soon as its bytes are read, before the
/// state witness.
pub open spec fn read_case(s: Seq<u8>, at: int) -> ReadResult<CaseModel> {
    match read_case_head(s, at) {
        Err(e) => Err(e),
        Ok((h, a6)) => match read_nested(s, a6) {
            Err(e) => Err(e),
            Ok((external_data, a7)) => match read_nested(s, a7) {
                Err(e) => Err(e),
                Ok((import_segments, a8)) => match read_u32(s, a8) {
                    Err(e) => Err(e),
                    Ok((export_offset, a9)) => match read_bytes(s, a9) {
                        Err(e) => Err(e),
                        Ok((pb, a10)) => match decode_program(pb) {
                            Err(e) => Err(e),
                            Ok(program) => match read_bytes(s, a10) {
                                Err(e) => Err(e),
                                Ok((wb, a11)) => match decode_witness(wb) {
                                    Err(e) => Err(e),
                                    Ok(state_witness) => Ok(
                                        (
                                            CaseModel {
                                                format_version: h.0,
                                                profile: h.1,
                                                core_index: h.2,
                                                item_index: h.3,
                                                work_package: h.4,
                                                authorization_trace: h.5,
                                                external_data,
                                                import_segments,
                                                export_offset,
                                                program,
                                                state_witness,
                                            },
                                            a11,
                                        ),
                                    ),
                                },
                            },
                        },
                    },
                },
            },
        },
    }
}

pub open spec fn decode_case(s: Seq<u8>) -> Result<CaseModel, CodecError> {
    finish_read(read_case(s, 0), s)
}

pub open spec fn bytes_list_encodable_fn() -> spec_fn(Seq<Seq<u8>>) -> bool {
    |xs: Seq<Seq<u8>>| bytes_list_encodable(xs)
}

pub proof fn lemma_bytes_lists_sized()
    ensures
        reads_sized(enc_bytes_list_fn(), read_bytes_list_fn(), bytes_list_encodable_fn()),
{
    lemma_bytes_and_words_sized();
    assert forall|s: Seq<u8>, at: int| #[trigger] read_bytes_list_fn()(s, at) is Ok implies bytes_list_encodable_fn()(
        read_bytes_list_fn()(s, at)->Ok_0.0,
    ) && enc_bytes_list_fn()(read_bytes_list_fn()(s, at)->Ok_0.0).len() == read_bytes_list_fn()(
        s,
        at,
    )->Ok_0.1 - at by {
        lemma_read_vec_sized(enc_bytes_fn(), read_bytes_fn(), fits_u32_fn(), s, at);
        let xs = read_bytes_list(s, at)->Ok_0.0;
        assert forall|k: int| 0 <= k < xs.len() implies fits_u32(#[trigger] xs[k].len() as int) by {
            assert(fits_u32_fn()(xs[k]));
        }
    }
}

pub proof fn lemma_read_nested_sized(s: Seq<u8>, at: int)
    requires
        read_nested(s, at) is Ok,
    ensures
        nested_encodable(read_nested(s, at)->Ok_0.0),
        enc_nested(read_nested(s, at)->Ok_0.0).len() == read_nested(s, at)->Ok_0.1 - at,
{
    lemma_bytes_lists_sized();
    lemma_read_vec_sized(enc_bytes_list_fn(), read_bytes_list_fn(), bytes_list_encodable_fn(), s, at);
    let xss = read_nested(s, at)->Ok_0.0;
    assert forall|k: int| 0 <= k < xss.len() implies bytes_list_encodable(#[trigger] xss[k]) by {
        assert(bytes_list_encodable_fn()(xss[k]));
    }
}

/// Whatever the case decoder accepts encodes again, to exactly the bytes' length.
pub proof fn lemma_decoded_case_encodable(s: Seq<u8>)
    requires
        decode_case(s) is Ok,
    ensures
        case_encodable(decode_case(s)->Ok_0),
        enc_case(decode_case(s)->Ok_0).len() == s.len(),
{
    let c = decode_case(s)->Ok_0;
    lemma_le16(c.format_version);
    lemma_le16(c.core_index);
    lemma_le16(c.item_index);
    lemma_le16(read_u16(s, 3)->Ok_0.0);
    lemma_le16(read_u16(s, 5)->Ok_0.0);
    let a4 = 13;
    lemma_read_bytes_sized(s, a4);
    let a5 = read_bytes(s, a4)->Ok_0.1;
    lemma_read_bytes_sized(s, a5);
    let a6 = read_bytes(s, a5)->Ok_0.1;
    lemma_read_nested_sized(s, a6);
    let a7 = read_nested(s, a6)->Ok_0.1;
    lemma_read_nested_sized(s, a7);
    let a8 = read_nested(s, a7)->Ok_0.1;
    lemma_le32(c.export_offset);
    let a9 = a8 + 4;
    lemma_read_bytes_sized(s, a9);
    let pb = read_bytes(s, a9)->Ok_0.0;
    let a10 = read_bytes(s, a9)->Ok_0.1;
    lemma_decoded_program_encodable(pb);
    lemma_read_bytes_sized(s, a10);
    let wb = read_bytes(s, a10)->Ok_0.0;
    lemma_decoded_witness_encodable(wb);
}

/// Flag bytes are canonical when they are zero or one.
pub open spec fn profile_flags_canonical(s: Seq<u8>, at: int) -> bool {
    s[at + 5] <= 1 && s[at + 6] <= 1
}

pub proof fn lemma_read_profile_exact(s: Seq<u8>, at: int)
    requires
        read_profile(s, at) is Ok,
        profile_flags_canonical(s, at),
    ensures
        at_is(s, at, enc_profile(read_profile(s, at)->Ok_0.0)),
        read_profile(s, at)->Ok_0.1 == at + enc_profile(read_profile(s, at)->Ok_0.0).len(),
{
    let SmokeProfile::V0(v) = read_profile(s, at)->Ok_0.0;
    lemma_read_u8_exact(s, at);
    lemma_read_u16_exact(s, at + 1);
    lemma_read_u16_exact(s, at + 3);
    lemma_le16(v.version);
    lemma_le16(v.jam_semantics);
    let flags = seq![bool_byte(v.gas_proof), bool_byte(v.inner_pvm)];
    assert(s.subrange(at + 5, at + 7) =~= flags);
    lemma_at_is_join(s, at, seq![0u8], le16(v.version));
    lemma_at_is_join(s, at, seq![0u8] + le16(v.version), le16(v.jam_semantics));
    lemma_at_is_join(s, at, seq![0u8] + le16(v.version) + le16(v.jam_semantics), flags);
}

/// The profile decoder accepts exactly one spelling of each profile once its two flag bytes
/// are zero or one: what it decodes then encodes back to the bytes it was decoded from.
pub proof fn lemma_profile_decode_canonical(s: Seq<u8>)
    requires
        decode_profile(s) is Ok,
        profile_flags_canonical(s, 0),
    ensures
        enc_profile(decode_profile(s)->Ok_0) == s,
{
    lemma_read_profile_exact(s, 0);
    lemma_exact_whole(s, enc_profile(decode_profile(s)->Ok_0));
}

pub proof fn lemma_bytes_lists_exact()
    ensures
        reads_exact(enc_bytes_list_fn(), read_bytes_list_fn()),
{
    lemma_bytes_and_words_exact();
    assert forall|s: Seq<u8>, at: int| #[trigger] read_bytes_list_fn()(s, at) is Ok implies at_is(
        s,
        at,
        enc_bytes_list_fn()(read_bytes_list_fn()(s, at)->Ok_0.0),
    ) && read_bytes_list_fn()(s, at)->Ok_0.1 == at + enc_bytes_list_fn()(
        read_bytes_list_fn()(s, at)->Ok_0.0,
    ).len() by {
        lemma_read_vec_exact(enc_bytes_fn(), read_bytes_fn(), s, at);
    }
}

/// The case decoder accepts only canonical bytes once the two profile flag bytes are zero or
/// one: whatever it decodes encodes back to exactly the bytes it was decoded from.
pub proof fn lemma_case_decode_canonical(s: Seq<u8>)
    requires
        decode_case(s) is Ok,
        profile_flags_canonical(s, 2),
    ensures
        enc_case(decode_case(s)->Ok_0) == s,
{
    let c = decode_case(s)->Ok_0;
    lemma_read_u16_exact(s, 0);
    lemma_le16(c.format_version);
    lemma_read_profile_exact(s, 2);
    lemma_read_u16_exact(s, 9);
    lemma_le16(c.core_index);
    lemma_read_u16_exact(s, 11);
    lemma_le16(c.item_index);
    let a4 = 13;
    lemma_read_bytes_exact(s, a4);
    let a5 = read_bytes(s, a4)->Ok_0.1;
    lemma_read_bytes_exact(s, a5);
    let a6 = read_bytes(s, a5)->Ok_0.1;
    lemma_bytes_lists_exact();
    lemma_read_vec_exact(enc_bytes_list_fn(), read_bytes_list_fn(), s, a6);
    let a7 = read_nested(s, a6)->Ok_0.1;
    lemma_read_vec_exact(enc_bytes_list_fn(), read_bytes_list_fn(), s, a7);
    let a8 = read_nested(s, a7)->Ok_0.1;
    lemma_read_u32_exact(s, a8);
    let a9 = a8 + 4;
    lemma_read_bytes_exact(s, a9);
    let pb = read_bytes(s, a9)->Ok_0.0;
    lemma_program_decode_canonical(pb);
    let a10 = read_bytes(s, a9)->Ok_0.1;
    lemma_read_bytes_exact(s, a10);
    let wb = read_bytes(s, a10)->Ok_0.0;
    lemma_witness_decode_canonical(wb);
    let e1 = le16(c.format_version);
    let e2 = enc_profile(c.profile);
    let e3 = le16(c.core_index);
    let e4 = le16(c.item_index);
    let e5 = enc_bytes(c.work_package);
    let e6 = enc_bytes(c.authorization_trace);
    let e7 = enc_nested(c.external_data);
    let e8 = enc_nested(c.import_segments);
    let e9 = le32(c.export_offset);
    let e10 = enc_bytes(enc_program(c.program));
    let e11 = enc_bytes(enc_witness(c.state_witness));
    lemma_at_is_join(s, 0, e1, e2);
    lemma_at_is_join(s, 0, e1 + e2, e3);
    lemma_at_is_join(s, 0, e1 + e2 + e3, e4);
    lemma_at_is_join(s, 0, e1 + e2 + e3 + e4, e5);
    lemma_at_is_join(s, 0, e1 + e2 + e3 + e4 + e5, e6);
    lemma_at_is_join(s, 0, e1 + e2 + e3 + e4 + e5 + e6, e7);
    lemma_at_is_join(s, 0, e1 + e2 + e3 + e4 + e5 + e6 + e7, e8);
    lemma_at_is_join(s, 0, e1 + e2 + e3 + e4 + e5 + e6 + e7 + e8, e9);
    lemma_at_is_join(s, 0, e1 + e2 + e3 + e4 + e5 + e6 + e7 + e8 + e9, e10);
    lemma_at_is_join(s, 0, e1 + e2 + e3 + e4 + e5 + e6 + e7 + e8 + e9 + e10, e11);
    lemma_exact_whole(s, enc_case(c));
}

pub proof fn lemma_case_back(s: Seq<u8>, at: int, c: CaseModel)
    requires
        case_encodable(c),
        at_is(s, at, enc_case(c)),
    ensures
        read_case(s, at) == Ok::<(CaseModel, int), CodecError>((c, at + enc_case(c).len())),
{
    let e1 = le16(c.format_version);
    let e2 = enc_profile(c.profile);
    let e3 = le16(c.core_index);
    let e4 = le16(c.item_index);
    let e5 = enc_bytes(c.work_package);
    let e6 = enc_bytes(c.authorization_trace);
    let e7 = enc_nested(c.external_data);
    let e8 = enc_nested(c.import_segments);
    let e9 = le32(c.export_offset);
    let pb = enc_program(c.program);
    let wb = enc_witness(c.state_witness);
    let e10 = enc_bytes(pb);
    let e11 = enc_bytes(wb);
    lemma_at_is_concat(s, at, e1 + e2 + e3 + e4 + e5 + e6 + e7 + e8 + e9 + e10, e11);
    lemma_at_is_concat(s, at, e1 + e2 + e3 + e4 + e5 + e6 + e7 + e8 + e9, e10);
    lemma_at_is_concat(s, at, e1 + e2 + e3 + e4 + e5 + e6 + e7 + e8, e9);
    lemma_at_is_concat(s, at, e1 + e2 + e3 + e4 + e5 + e6 + e7, e8);
    lemma_at_is_concat(s, at, e1 + e2 + e3 + e4 + e5 + e6, e7);
    lemma_at_is_concat(s, at, e1 + e2 + e3 + e4 + e5, e6);
    lemma_at_is_concat(s, at, e1 + e2 + e3 + e4, e5);
    lemma_at_is_concat(s, at, e1 + e2 + e3, e4);
    lemma_at_is_concat(s, at, e1 + e2, e3);
    lemma_at_is_concat(s, at, e1, e2);
    lemma_le16(c.format_version);
    lemma_le16(c.core_index);
    lemma_le16(c.item_index);
    lemma_le32(c.export_offset);
    let a1 = at + 2;
    let a2 = a1 + e2.len();
    let a3 = a2 + 2;
    let a4 = a3 + 2;
    let a5 = a4 + e5.len();
    let a6 = a5 + e6.len();
    let a7 = a6 + e7.len();
    let a8 = a7 + e8.len();
    let a9 = a8 + 4;
    let a10 = a9 + e10.len();
    lemma_read_u16_back(s, at, c.format_version);
    lemma_profile_back(s, a1, c.profile);
    lemma_read_u16_back(s, a2, c.core_index);
    lemma_read_u16_back(s, a3, c.item_index);
    lemma_read_bytes_back(s, a4, c.work_package);
    lemma_read_bytes_back(s, a5, c.authorization_trace);
    lemma_nested_back(s, a6, c.external_data);
    lemma_nested_back(s, a7, c.import_segments);
    lemma_read_u32_back(s, a8, c.export_offset);
    lemma_read_bytes_back(s, a9, pb);
    lemma_program_roundtrip(c.program);
    lemma_read_bytes_back(s, a10, wb);
    lemma_witness_roundtrip(c.state_witness);
}

/// Decoding an encoded case gives the case back.
pub proof fn lemma_case_roundtrip(c: CaseModel)
    requires
        case_encodable(c),
    ensures
        decode_case(enc_case(c)) == Ok::<CaseModel, CodecError>(c),
{
    let s = enc_case(c);
    assert(s.subrange(0, s.len() as int) =~= s);
    lemma_case_back(s, 0, c);
}

fn read_case_exec(r: &mut Reader) -> (res: Result<RefineCaseV1, CodecError>)
    requires
        old(r).wf(),
    ensures
        final(r).wf(),
        final(r).data() == old(r).data(),
        read_matches(res, read_case(old(r).data(), old(r).pos()), final(r).pos()),
{
    let format_version = r.u16()?;
    let profile = read_profile_exec(r)?;
    let core_index = r.u16()?;
    let item_index = r.u16()?;
    let work_package = r.bytes()?;
    let authorization_trace = r.bytes()?;
    let external_data = read_nested_exec(r)?;
    let import_segments = read_nested_exec(r)?;
    let export_offset = r.u32()?;
    let program_bytes = r.bytes()?;
    let program = PvmProgramV1::decode_canonical(program_bytes.as_slice())?;
    let witness_bytes = r.bytes()?;
    let state_witness = RefineStateWitnessV1::decode_canonical(witness_bytes.as_slice())?;
    Ok(
        RefineCaseV1 {
            format_version,
            profile,
            core_index,
            item_index,
            work_package,
            authorization_trace,
            external_data,
            import_segments,
            export_offset,
            program,
            state_witness,
        },
    )
}

impl RefineCaseV1 {
    /// Checks the format version, the profile, program admission and the size of every
    /// imported segment, reporting the first failure in that order.
    pub fn validate(&self) -> (r: Result<(), CodecError>)
        ensures
            r == case_validation(self@),
    {
        if self.format_version != REFINE_CASE_FORMAT_V1 {
            return Err(CodecError::InvalidValue("unsupported RefineCaseV1 version"));
        }
        self.profile.validate()?;
        self.program.validate()?;
        let ghost imports = self@.import_segments;
        let mut i: usize = 0;
        while i < self.import_segments.len()
            invariant
                0 <= i <= self.import_segments@.len(),
                imports == self@.import_segments,
                imports.len() == self.import_segments@.len(),
                self.format_version == REFINE_CASE_FORMAT_V1,
                profile_validation(self.profile) is Ok,
                program_admission(self@.program) is Ok,
                forall|a: int, b: int|
                    0 <= a < i && 0 <= b < imports[a].len() ==> (#[trigger] imports[a][b]).len()
                        <= SEGMENT_SIZE,
            decreases self.import_segments@.len() - i,
        {
            let outer = &self.import_segments[i];
            assert(imports[i as int] == bytes_list_view(outer@));
            let mut j: usize = 0;
            while j < outer.len()
                invariant
                    0 <= i < imports.len(),
                    imports[i as int] == bytes_list_view(outer@),
                    0 <= j <= outer@.len(),
                    imports == self@.import_segments,
                    self.format_version == REFINE_CASE_FORMAT_V1,
                    profile_validation(self.profile) is Ok,
                    program_admission(self@.program) is Ok,
                    forall|a: int, b: int|
                        0 <= a < i && 0 <= b < imports[a].len() ==> (#[trigger] imports[a][b]).len()
                            <= SEGMENT_SIZE,
                    forall|b: int| 0 <= b < j ==> (#[trigger] imports[i as int][b]).len() <= SEGMENT_SIZE,
                decreases outer@.len() - j,
            {
                assert(imports[i as int][j as int] == outer@[j as int]@);
                if outer[j].len() > SEGMENT_SIZE {
                    assert(!segments_fit(imports));
                    return Err(CodecError::InvalidValue("import segment exceeds segment size"));
                }
                j = j + 1;
            }
            i = i + 1;
        }
        Ok(())
    }
}

impl CanonicalCodec for RefineCaseV1 {
    open spec fn encodable(v: CaseModel) -> bool {
        case_encodable(v)
    }

    open spec fn encoding(v: CaseModel) -> Seq<u8> {
        enc_case(v)
    }

    open spec fn decoding(bytes: Seq<u8>) -> Result<CaseModel, CodecError> {
        decode_case(bytes)
    }

    fn encode_canonical(&self) -> (out: Vec<u8>) {
        let mut w = Writer::new();
        w.u16(self.format_version);
        write_profile(&mut w, &self.profile);
        w.u16(self.core_index);
        w.u16(self.item_index);
        let _r = w.bytes(self.work_package.as_slice());
        let _r = w.bytes(self.authorization_trace.as_slice());
        write_nested(&mut w, &self.external_data);
        write_nested(&mut w, &self.import_segments);
        w.u32(self.export_offset);
        let program_bytes = self.program.encode_canonical();
        let _r = w.bytes(program_bytes.as_slice());
        let witness_bytes = self.state_witness.encode_canonical();
        let _r = w.bytes(witness_bytes.as_slice());
        assert(w.bytes@ =~= enc_case(self@));
        w.bytes
    }

    fn decode_canonical(bytes: &[u8]) -> (r: Result<Self, CodecError>) {
        let mut reader = Reader::new(bytes);
        let value = read_case_exec(&mut reader)?;
        reader.finish()?;
        Ok(value)
    }
}


/// The profile is fixed: exactly the default profile (version 0, JAM 0.7.2, no gas proof, no
/// inner PVM) is admitted.
pub proof fn lemma_only_default_profile_admitted(p: SmokeProfile)
    ensures
        profile_validation(p) is Ok <==> p == SmokeProfile::V0(
            SmokeProfileV0 {
                version: 0,
                jam_semantics: JAM_SEMANTICS_VERSION_0_7_2,
                gas_proof: false,
                inner_pvm: false,
            },
        ),
{
}

/// A case is accepted exactly when it has format version 1, the default profile, an admitted
/// program and import segments that each fit in a segment; a wrong format version is reported
/// before anything else.
pub proof fn lemma_case_validation_iff(c: CaseModel)
    ensures
        case_validation(c) is Ok <==> {
            &&& c.format_version == REFINE_CASE_FORMAT_V1
            &&& profile_validation(c.profile) is Ok
            &&& crate::program::program_admissible(c.program)
            &&& segments_fit(c.import_segments)
        },
        c.format_version != REFINE_CASE_FORMAT_V1 ==> case_validation(c) == Err::<(), CodecError>(
            CodecError::InvalidValue("unsupported RefineCaseV1 version"),
        ),
{
    crate::program::lemma_program_admission_iff(c.program);
}

/// The canonical encoding of a profile, byte by byte: tag 0, the version and the JAM semantics
/// as little-endian 16-bit words, then one byte per flag, 1 when set and 0 when not.
pub proof fn lemma_profile_encoding_pinned(v: SmokeProfileV0)
    ensures
        enc_profile(SmokeProfile::V0(v)) == seq![0u8] + spec_u16_to_le_bytes(v.version)
            + spec_u16_to_le_bytes(v.jam_semantics) + seq![
            if v.gas_proof {
                1u8
            } else {
                0u8
            },
            if v.inner_pvm {
                1u8
            } else {
                0u8
            },
        ],
{
}

} // verus!
