//! The values exchanged with the OpenVM proving backend: benchmark identities, guest inputs and
//! their reference results, the M4 public values, and the backend description.
use crate::hashing::{blake2b_256, blake2b_256_digest};
use crate::codec::le32;
use crate::hex::{hex, hex_chars};
use crate::text::{chars_from, decimal, decimal_text};
use vstd::bytes::*;
use vstd::prelude::*;
use vstd::string::StringSliceAdditionalSpecFns;
use vstd::utf8::encode_utf8;

verus! {

broadcast use vstd::seq_lib::group_seq_properties;

pub const OPENVM_VERSION: &'static str = "2.0.1";

pub const OPENVM_REVISION: &'static str = "b820b25baab6c5d9b055f64e0286b6b1058e707c";

pub const OPENVM_BACKEND: &'static str = "cpu";

pub const OPENVM_PINNED_GUEST_TOOLCHAIN: &'static str = "nightly-2026-01-18";

pub const OPENVM_EMISSION_PATH: &'static str = "B: RV32IM ELF -> official OpenVM transpiler -> VmExe";

pub const ARITHMETIC_FIXED_XOR: u32 = 0xA5A5_5A5A;

pub const M4_SEMANTIC_PUBLIC_VALUES_LEN: usize = 96;

pub const M4_OPENVM_PUBLIC_VALUES_LEN: usize = 128;

pub const M4_PUBLIC_VALUES_MERKLE_CHUNK_BYTES: usize = 8;

/// The bounded benchmark programs: integration probes, not PVM semantics.
#[derive(Clone, Debug, PartialEq, Eq, Structural)]
pub enum M2Benchmark {
    Arithmetic,
    Branch,
    Memory { bytes: usize },
    M3TranslationArithmetic,
    M3TranslationBranchTrue,
    M3TranslationMemory16K,
    M4GeneratedArithmetic,
    M4GeneratedBranch,
    M4GeneratedMemory16K,
    M4NativeArithmetic,
    M4NativeBranch,
    M4NativeMemory16K,
}

pub open spec fn benchmark_name(b: M2Benchmark) -> Seq<char> {
    match b {
        M2Benchmark::Arithmetic => "arithmetic"@,
        M2Benchmark::Branch => "branch"@,
        M2Benchmark::Memory { .. } => "memory"@,
        M2Benchmark::M3TranslationArithmetic => "m3-translation-arithmetic"@,
        M2Benchmark::M3TranslationBranchTrue => "m3-translation-branch-true"@,
        M2Benchmark::M3TranslationMemory16K => "m3-translation-memory-16384"@,
        M2Benchmark::M4GeneratedArithmetic => "m4-generated-arithmetic"@,
        M2Benchmark::M4GeneratedBranch => "m4-generated-branch"@,
        M2Benchmark::M4GeneratedMemory16K => "m4-generated-memory-16384"@,
        M2Benchmark::M4NativeArithmetic => "m4-native-arithmetic"@,
        M2Benchmark::M4NativeBranch => "m4-native-branch"@,
        M2Benchmark::M4NativeMemory16K => "m4-native-memory-16384"@,
    }
}

pub open spec fn benchmark_guest_binary(b: M2Benchmark) -> Seq<char> {
    match b {
        M2Benchmark::Arithmetic => "m2-arithmetic-v1"@,
        M2Benchmark::Branch => "m2-branch-v1"@,
        M2Benchmark::Memory { .. } => "m2-memory-v1"@,
        M2Benchmark::M3TranslationArithmetic => "m3-translation-arithmetic-v1"@,
        M2Benchmark::M3TranslationBranchTrue => "m3-translation-branch-v1"@,
        M2Benchmark::M3TranslationMemory16K => "m3-translation-memory-v1"@,
        M2Benchmark::M4GeneratedArithmetic | M2Benchmark::M4GeneratedBranch
        | M2Benchmark::M4GeneratedMemory16K => "m4-generated-v1"@,
        M2Benchmark::M4NativeArithmetic => "m4-native-arithmetic-v1"@,
        M2Benchmark::M4NativeBranch => "m4-native-branch-v1"@,
        M2Benchmark::M4NativeMemory16K => "m4-native-memory-16384-v1"@,
    }
}

/// The label of a benchmark: its name, with the byte count for the memory benchmark.
pub open spec fn benchmark_label(b: M2Benchmark) -> Seq<char> {
    match b {
        M2Benchmark::Memory { bytes } => "memory-"@ + decimal(bytes as nat),
        _ => benchmark_name(b),
    }
}

impl M2Benchmark {
    pub fn name(&self) -> (r: &'static str)
        ensures
            r@ == benchmark_name(*self),
    {
        match self {
            M2Benchmark::Arithmetic => "arithmetic",
            M2Benchmark::Branch => "branch",
            M2Benchmark::Memory { .. } => "memory",
            M2Benchmark::M3TranslationArithmetic => "m3-translation-arithmetic",
            M2Benchmark::M3TranslationBranchTrue => "m3-translation-branch-true",
            M2Benchmark::M3TranslationMemory16K => "m3-translation-memory-16384",
            M2Benchmark::M4GeneratedArithmetic => "m4-generated-arithmetic",
            M2Benchmark::M4GeneratedBranch => "m4-generated-branch",
            M2Benchmark::M4GeneratedMemory16K => "m4-generated-memory-16384",
            M2Benchmark::M4NativeArithmetic => "m4-native-arithmetic",
            M2Benchmark::M4NativeBranch => "m4-native-branch",
            M2Benchmark::M4NativeMemory16K => "m4-native-memory-16384",
        }
    }

    pub fn label(&self) -> (r: String)
        ensures
            r@ == benchmark_label(*self),
    {
        match self {
            M2Benchmark::Memory { bytes } => {
                let mut out = "memory-".to_owned();
                let digits = decimal_text(*bytes as u128);
                out.append(digits.as_str());
                out
            },
            _ => self.name().to_owned(),
        }
    }

    pub fn guest_binary(&self) -> (r: &'static str)
        ensures
            r@ == benchmark_guest_binary(*self),
    {
        match self {
            M2Benchmark::Arithmetic => "m2-arithmetic-v1",
            M2Benchmark::Branch => "m2-branch-v1",
            M2Benchmark::Memory { .. } => "m2-memory-v1",
            M2Benchmark::M3TranslationArithmetic => "m3-translation-arithmetic-v1",
            M2Benchmark::M3TranslationBranchTrue => "m3-translation-branch-v1",
            M2Benchmark::M3TranslationMemory16K => "m3-translation-memory-v1",
            M2Benchmark::M4GeneratedArithmetic | M2Benchmark::M4GeneratedBranch
            | M2Benchmark::M4GeneratedMemory16K => "m4-generated-v1",
            M2Benchmark::M4NativeArithmetic => "m4-native-arithmetic-v1",
            M2Benchmark::M4NativeBranch => "m4-native-branch-v1",
            M2Benchmark::M4NativeMemory16K => "m4-native-memory-16384-v1",
        }
    }
}

/// Why a benchmark selection was refused.
#[derive(Clone, Debug, PartialEq, Eq)]
pub enum M2SelectionError {
    /// Only the `cpu` backend is supported.
    UnsupportedBackend,
    UnknownBenchmark(String),
}

/// The memory benchmarks: 1 KiB, 16 KiB and 256 KiB.
pub open spec fn memory_benchmarks() -> Seq<M2Benchmark> {
    seq![
        M2Benchmark::Memory { bytes: 1024 },
        M2Benchmark::Memory { bytes: 16384 },
        M2Benchmark::Memory { bytes: 262144 },
    ]
}

/// The benchmarks of a run on `backend` with the benchmark `selected`, or all of them.
pub fn m2_benchmarks(backend: &str, selected: Option<&str>) -> (r: Result<Vec<M2Benchmark>, M2SelectionError>)
    ensures
        backend@ != "cpu"@ ==> r matches Err(M2SelectionError::UnsupportedBackend),
        backend@ == "cpu"@ ==> match selected {
            None => r is Ok && r->Ok_0@ == seq![M2Benchmark::Arithmetic, M2Benchmark::Branch]
                + memory_benchmarks(),
            Some(name) => if name@ == "arithmetic"@ {
                r is Ok && r->Ok_0@ == seq![M2Benchmark::Arithmetic]
            } else if name@ == "branch"@ {
                r is Ok && r->Ok_0@ == seq![M2Benchmark::Branch]
            } else if name@ == "memory"@ {
                r is Ok && r->Ok_0@ == memory_benchmarks()
            } else {
                r matches Err(M2SelectionError::UnknownBenchmark(n)) && n@ == name@
            },
        },
{
    if !crate::m4_specs::same_text(backend, "cpu") {
        return Err(M2SelectionError::UnsupportedBackend);
    }
    match selected {
        None => {
            let all = vec![
                M2Benchmark::Arithmetic,
                M2Benchmark::Branch,
                M2Benchmark::Memory { bytes: 1024 },
                M2Benchmark::Memory { bytes: 16 * 1024 },
                M2Benchmark::Memory { bytes: 256 * 1024 },
            ];
            assert(all@ =~= seq![M2Benchmark::Arithmetic, M2Benchmark::Branch] + memory_benchmarks());
            Ok(all)
        },
        Some(name) => {
            if crate::m4_specs::same_text(name, "arithmetic") {
                let one = vec![M2Benchmark::Arithmetic];
                assert(one@ =~= seq![M2Benchmark::Arithmetic]);
                Ok(one)
            } else if crate::m4_specs::same_text(name, "branch") {
                let one = vec![M2Benchmark::Branch];
                assert(one@ =~= seq![M2Benchmark::Branch]);
                Ok(one)
            } else if crate::m4_specs::same_text(name, "memory") {
                let all = vec![
                    M2Benchmark::Memory { bytes: 1024 },
                    M2Benchmark::Memory { bytes: 16 * 1024 },
                    M2Benchmark::Memory { bytes: 256 * 1024 },
                ];
                assert(all@ =~= memory_benchmarks());
                Ok(all)
            } else {
                Err(M2SelectionError::UnknownBenchmark(name.to_owned()))
            }
        },
    }
}

// ---------------------------------------------------------------------------------------------
// Guest inputs and reference results
// ---------------------------------------------------------------------------------------------
/// The two words handed to a benchmark guest.
#[derive(Clone, Copy, Debug, PartialEq, Eq, Structural)]
pub struct M2Input {
    pub a: u32,
    pub b: u32,
}

/// Why a benchmark input was refused.
#[derive(Clone, Copy, Debug, PartialEq, Eq, Structural)]
pub enum M2InputError {
    /// A memory benchmark size that is zero or not a multiple of four bytes.
    InvalidMemorySize(usize),
}

/// The context that a proof of `benchmark` on `input` is bound to: the BLAKE2b-256 digest of
/// the benchmark's name followed by both input words, little-endian.
pub open spec fn context_digest(input: M2Input, benchmark: M2Benchmark) -> Seq<u8> {
    blake2b_256(encode_utf8(benchmark_name(benchmark)) + le32(input.a) + le32(
        input.b,
    ))
}

impl M2Input {
    pub fn arithmetic(a: u32, b: u32) -> (r: Self)
        ensures
            r == (M2Input { a, b }),
    {
        M2Input { a, b }
    }

    pub fn branch(a: u32, b: u32) -> (r: Self)
        ensures
            r == (M2Input { a, b }),
    {
        M2Input { a, b }
    }

    /// The memory benchmark input: the seed and a byte count that must be a non-zero multiple
    /// of four.
    pub fn memory(seed: u32, bytes: usize) -> (r: Result<Self, M2InputError>)
        ensures
            bytes % 4 != 0 || bytes == 0 ==> r == Err::<M2Input, M2InputError>(
                M2InputError::InvalidMemorySize(bytes),
            ),
            bytes % 4 == 0 && bytes != 0 ==> r == Ok::<M2Input, M2InputError>(
                M2Input { a: seed, b: bytes as u32 },
            ),
    {
        if bytes % 4 != 0 || bytes == 0 {
            return Err(M2InputError::InvalidMemorySize(bytes));
        }
        Ok(M2Input { a: seed, b: bytes as u32 })
    }

    /// The lower-case hexadecimal context digest of `benchmark` on this input.
    pub fn context_hash(self, benchmark: &M2Benchmark) -> (r: String)
        ensures
            r@ == hex_chars(context_digest(self, *benchmark)),
            r@.len() == 64,
            forall|i: int| 0 <= i < 64 ==> crate::hex::is_lower_hex_digit(#[trigger] r@[i]),
    {
        let name = benchmark.name();
        let mut bytes: Vec<u8> = Vec::new();
        let name_bytes = name.as_bytes();
        let mut i: usize = 0;
        while i < name_bytes.len()
            invariant
                0 <= i <= name_bytes@.len(),
                bytes@ == name_bytes@.take(i as int),
            decreases name_bytes@.len() - i,
        {
            bytes.push(name_bytes[i]);
            i = i + 1;
            assert(bytes@ =~= name_bytes@.take(i as int));
        }
        assert(name_bytes@.take(i as int) =~= name_bytes@);
        let mut a = u32_to_le_bytes(self.a);
        let mut b = u32_to_le_bytes(self.b);
        bytes.append(&mut a);
        bytes.append(&mut b);
        let digest = blake2b_256_digest(bytes.as_slice());
        proof {
            crate::hex::lemma_hex_chars_lower(digest@);
        }
        hex(&digest)
    }
}

/// `(a + b) * 3 ^ 0xA5A5_5A5A`, in wrapping 32-bit arithmetic.
pub open spec fn arithmetic_result(a: u32, b: u32) -> u32 {
    ((((a as int + b as int) * 3) % 0x1_0000_0000) as u32) ^ ARITHMETIC_FIXED_XOR
}

/// `(a - b) * 7` when `a > b`, else `(b - a) * 11`, in wrapping 32-bit arithmetic.
pub open spec fn branch_result(a: u32, b: u32) -> u32 {
    if a > b {
        (((a - b) * 7) % 0x1_0000_0000) as u32
    } else {
        (((b - a) * 11) % 0x1_0000_0000) as u32
    }
}

/// The arithmetic guest's output.
pub fn expected_arithmetic(a: u32, b: u32) -> (r: u32)
    ensures
        r == arithmetic_result(a, b),
{
    let sum = a.wrapping_add(b);
    proof {
        vstd::arithmetic::div_mod::lemma_mul_mod_noop_left(a as int + b as int, 3, 0x1_0000_0000);
        vstd::arithmetic::div_mod::lemma_mod_twice(a as int + b as int, 0x1_0000_0000);
        assert(sum as int == (a as int + b as int) % 0x1_0000_0000);
    }
    sum.wrapping_mul(3) ^ ARITHMETIC_FIXED_XOR
}

/// The branch guest's output.
pub fn expected_branch(a: u32, b: u32) -> (r: u32)
    ensures
        r == branch_result(a, b),
{
    if a > b {
        (a - b).wrapping_mul(7)
    } else {
        (b - a).wrapping_mul(11)
    }
}


// ---------------------------------------------------------------------------------------------
// M4 public values
// ---------------------------------------------------------------------------------------------
/// The statement that an M4 proof is expected to reveal.
#[derive(Clone, Copy, Debug, PartialEq, Eq)]
pub struct M4ExpectedStatement {
    pub program_commitment: [u8; 32],
    pub input_commitment: [u8; 32],
    pub public_output: [u8; 32],
}

/// The three 32-byte public values of an M4 guest.
#[derive(Clone, Copy, Debug, PartialEq, Eq)]
pub struct M4PublicValuesV1 {
    pub program_commitment: [u8; 32],
    pub input_commitment: [u8; 32],
    pub output: [u8; 32],
}

/// The mathematical value of `M4PublicValuesV1`.
pub struct PublicValuesModel {
    pub program_commitment: Seq<u8>,
    pub input_commitment: Seq<u8>,
    pub output: Seq<u8>,
}

impl View for M4PublicValuesV1 {
    type V = PublicValuesModel;

    open spec fn view(&self) -> PublicValuesModel {
        PublicValuesModel {
            program_commitment: self.program_commitment@,
            input_commitment: self.input_commitment@,
            output: self.output@,
        }
    }
}

/// Why public-value bytes were refused.
#[derive(Clone, Copy, Debug, PartialEq, Eq, Structural)]
pub enum M4PublicValuesError {
    InvalidLength(usize),
    InvalidOpenVmLength(usize),
    NonZeroPadding,
}

/// The semantic public values: the three commitments in order.
pub open spec fn semantic_bytes(v: PublicValuesModel) -> Seq<u8> {
    v.program_commitment + v.input_commitment + v.output
}

/// The OpenVM public values: the semantic values padded with zeros to 128 bytes.
pub open spec fn openvm_bytes(v: PublicValuesModel) -> Seq<u8> {
    semantic_bytes(v) + Seq::new(32, |i: int| 0u8)
}

pub open spec fn split_semantic(bytes: Seq<u8>) -> PublicValuesModel {
    PublicValuesModel {
        program_commitment: bytes.subrange(0, 32),
        input_commitment: bytes.subrange(32, 64),
        output: bytes.subrange(64, 96),
    }
}

pub open spec fn decode_semantic(bytes: Seq<u8>) -> Result<PublicValuesModel, M4PublicValuesError> {
    if bytes.len() != M4_SEMANTIC_PUBLIC_VALUES_LEN {
        Err(M4PublicValuesError::InvalidLength(bytes.len() as usize))
    } else {
        Ok(split_semantic(bytes))
    }
}

pub open spec fn zero_padded(bytes: Seq<u8>) -> bool {
    forall|i: int| M4_SEMANTIC_PUBLIC_VALUES_LEN <= i < bytes.len() ==> bytes[i] == 0
}

pub open spec fn decode_openvm_values(bytes: Seq<u8>) -> Result<
    PublicValuesModel,
    M4PublicValuesError,
> {
    if bytes.len() != M4_OPENVM_PUBLIC_VALUES_LEN {
        Err(M4PublicValuesError::InvalidOpenVmLength(bytes.len() as usize))
    } else if !zero_padded(bytes) {
        Err(M4PublicValuesError::NonZeroPadding)
    } else {
        Ok(split_semantic(bytes))
    }
}

pub open spec fn values_decoded<E>(r: Result<M4PublicValuesV1, E>, spec: Result<PublicValuesModel, E>) -> bool {
    match spec {
        Ok(v) => r is Ok && r->Ok_0@ == v,
        Err(e) => r == Err::<M4PublicValuesV1, E>(e),
    }
}

fn copy_at<const N: usize>(out: &mut [u8; N], at: usize, value: &[u8; 32])
    requires
        at + 32 <= old(out)@.len(),
    ensures
        final(out)@.len() == old(out)@.len(),
        forall|k: int| at <= k < at + 32 ==> final(out)@[k] == value@[k - at],
        forall|k: int|
            0 <= k < old(out)@.len() && !(at <= k < at + 32) ==> final(out)@[k] == old(out)@[k],
{
    let mut i: usize = 0;
    while i < 32
        invariant
            0 <= i <= 32,
            out@.len() == old(out)@.len(),
            at + 32 <= out@.len(),
            forall|k: int| at <= k < at + i ==> out@[k] == value@[k - at],
            forall|k: int|
                0 <= k < out@.len() && !(at <= k < at + i) ==> out@[k] == old(out)@[k],
        decreases 32 - i,
    {
        out[at + i] = value[i];
        i = i + 1;
    }
}

fn take32(bytes: &[u8], at: usize) -> (r: [u8; 32])
    requires
        at + 32 <= bytes@.len(),
    ensures
        r@ == bytes@.subrange(at as int, at + 32),
{
    let mut out = [0u8; 32];
    let n = bytes.len();
    let mut i: usize = 0;
    while i < 32
        invariant
            0 <= i <= 32,
            at + 32 <= bytes@.len(),
            n == bytes@.len(),
            forall|k: int| 0 <= k < i ==> out@[k] == bytes@[at + k],
        decreases 32 - i,
    {
        out[i] = bytes[at + i];
        i = i + 1;
    }
    assert(out@ =~= bytes@.subrange(at as int, at + 32));
    out
}

impl M4PublicValuesV1 {
    /// The 96 semantic public-value bytes.
    pub fn encode(&self) -> (r: [u8; 96])
        ensures
            r@ == semantic_bytes(self@),
    {
        let mut bytes = [0u8; 96];
        copy_at(&mut bytes, 0, &self.program_commitment);
        copy_at(&mut bytes, 32, &self.input_commitment);
        copy_at(&mut bytes, 64, &self.output);
        assert(bytes@ =~= semantic_bytes(self@));
        bytes
    }

    /// The 128 OpenVM public-value bytes: the semantic bytes, then zero padding.
    pub fn encode_openvm(&self) -> (r: [u8; 128])
        ensures
            r@ == openvm_bytes(self@),
    {
        let mut bytes = [0u8; 128];
        copy_at(&mut bytes, 0, &self.program_commitment);
        copy_at(&mut bytes, 32, &self.input_commitment);
        copy_at(&mut bytes, 64, &self.output);
        assert(bytes@ =~= openvm_bytes(self@));
        bytes
    }

    /// The values of exactly 96 semantic bytes.
    pub fn decode(bytes: &[u8]) -> (r: Result<Self, M4PublicValuesError>)
        ensures
            values_decoded(r, decode_semantic(bytes@)),
    {
        if bytes.len() != M4_SEMANTIC_PUBLIC_VALUES_LEN {
            return Err(M4PublicValuesError::InvalidLength(bytes.len()));
        }
        Ok(Self::decode_semantic_bytes(bytes))
    }

    /// The values of exactly 128 OpenVM bytes whose padding is zero.
    pub fn decode_openvm(bytes: &[u8]) -> (r: Result<Self, M4PublicValuesError>)
        ensures
            values_decoded(r, decode_openvm_values(bytes@)),
    {
        if bytes.len() != M4_OPENVM_PUBLIC_VALUES_LEN {
            return Err(M4PublicValuesError::InvalidOpenVmLength(bytes.len()));
        }
        let mut i: usize = M4_SEMANTIC_PUBLIC_VALUES_LEN;
        while i < bytes.len()
            invariant
                M4_SEMANTIC_PUBLIC_VALUES_LEN <= i <= bytes@.len(),
                bytes@.len() == M4_OPENVM_PUBLIC_VALUES_LEN,
                forall|k: int| M4_SEMANTIC_PUBLIC_VALUES_LEN <= k < i ==> bytes@[k] == 0,
            decreases bytes@.len() - i,
        {
            if bytes[i] != 0 {
                return Err(M4PublicValuesError::NonZeroPadding);
            }
            i = i + 1;
        }
        Ok(Self::decode_semantic_bytes(bytes))
    }

    /// The values in the first 96 bytes.
    pub fn decode_semantic_bytes(bytes: &[u8]) -> (r: Self)
        requires
            bytes@.len() >= M4_SEMANTIC_PUBLIC_VALUES_LEN,
        ensures
            r@ == split_semantic(bytes@),
    {
        M4PublicValuesV1 {
            program_commitment: take32(bytes, 0),
            input_commitment: take32(bytes, 32),
            output: take32(bytes, 64),
        }
    }
}

/// Both public-value encodings decode back to the values they encode.
pub proof fn lemma_public_values_roundtrip(v: PublicValuesModel)
    requires
        v.program_commitment.len() == 32,
        v.input_commitment.len() == 32,
        v.output.len() == 32,
    ensures
        decode_semantic(semantic_bytes(v)) == Ok::<PublicValuesModel, M4PublicValuesError>(v),
        decode_openvm_values(openvm_bytes(v)) == Ok::<PublicValuesModel, M4PublicValuesError>(v),
{
    let s = semantic_bytes(v);
    let o = openvm_bytes(v);
    assert(s.subrange(0, 32) =~= v.program_commitment);
    assert(s.subrange(32, 64) =~= v.input_commitment);
    assert(s.subrange(64, 96) =~= v.output);
    assert(o.subrange(0, 32) =~= v.program_commitment);
    assert(o.subrange(32, 64) =~= v.input_commitment);
    assert(o.subrange(64, 96) =~= v.output);
}

/// Decoding fails closed: bytes decode to given values only when they are exactly those values'
/// encoding, so any change to an accepted encoding decodes differently or not at all.
pub proof fn lemma_public_values_decode_exact(bytes: Seq<u8>, v: PublicValuesModel)
    requires
        v.program_commitment.len() == 32,
        v.input_commitment.len() == 32,
        v.output.len() == 32,
    ensures
        decode_semantic(bytes) == Ok::<PublicValuesModel, M4PublicValuesError>(v) <==> bytes
            == semantic_bytes(v),
        decode_openvm_values(bytes) == Ok::<PublicValuesModel, M4PublicValuesError>(v) <==> bytes
            == openvm_bytes(v),
{
    lemma_public_values_roundtrip(v);
    if decode_semantic(bytes) == Ok::<PublicValuesModel, M4PublicValuesError>(v) {
        assert(bytes =~= semantic_bytes(v));
    }
    if decode_openvm_values(bytes) == Ok::<PublicValuesModel, M4PublicValuesError>(v) {
        assert(bytes =~= openvm_bytes(v));
    }
}

/// Whether revealed public values are the expected statement, with an output that carries a
/// 32-bit word (every byte after the fourth is zero).
pub open spec fn values_match_statement(v: PublicValuesModel, e: M4ExpectedStatement) -> bool {
    &&& v.program_commitment == e.program_commitment@
    &&& v.input_commitment == e.input_commitment@
    &&& v.output == e.public_output@
    &&& forall|i: int| 4 <= i < 32 ==> v.output[i] == 0
}

pub(crate) fn same32(a: &[u8; 32], b: &[u8; 32]) -> (r: bool)
    ensures
        r == (a@ == b@),
{
    let mut i: usize = 0;
    while i < 32
        invariant
            0 <= i <= 32,
            forall|k: int| 0 <= k < i ==> a@[k] == b@[k],
        decreases 32 - i,
    {
        if a[i] != b[i] {
            return false;
        }
        i = i + 1;
    }
    assert(a@ =~= b@);
    true
}

pub fn public_values_match(values: &M4PublicValuesV1, expected: &M4ExpectedStatement) -> (r: bool)
    ensures
        r == values_match_statement(values@, *expected),
{
    if !same32(&values.program_commitment, &expected.program_commitment) || !same32(
        &values.input_commitment,
        &expected.input_commitment,
    ) || !same32(&values.output, &expected.public_output) {
        return false;
    }
    let mut i: usize = 4;
    while i < 32
        invariant
            4 <= i <= 32,
            forall|k: int| 4 <= k < i ==> values.output@[k] == 0,
        decreases 32 - i,
    {
        if values.output[i] != 0 {
            return false;
        }
        i = i + 1;
    }
    true
}

/// Why the statement of an M4 proof artifact was refused before its proof was checked.
#[derive(Clone, Copy, Debug, PartialEq, Eq, Structural)]
pub enum M4StatementError {
    UnsupportedVersion,
    ExpectedStatementMismatch,
    PublicValues(M4PublicValuesError),
    PublicValuesMismatch,
    ContextMismatch,
}

/// The public values that an expected statement asks the proof to reveal.
pub open spec fn expected_values(expected: M4ExpectedStatement) -> PublicValuesModel {
    PublicValuesModel {
        program_commitment: expected.program_commitment@,
        input_commitment: expected.input_commitment@,
        output: expected.public_output@,
    }
}

/// The first check of an M4 proof artifact: schema version 1, and the three commitments it
/// claims equal to those expected.
pub open spec fn m4_claim_check(
    schema_version: u32,
    claimed: PublicValuesModel,
    expected: M4ExpectedStatement,
) -> Result<(), M4StatementError> {
    if schema_version != 1 {
        Err(M4StatementError::UnsupportedVersion)
    } else if claimed != expected_values(expected) {
        Err(M4StatementError::ExpectedStatementMismatch)
    } else {
        Ok(())
    }
}

/// The check of the public values that a proof reveals: they decode as OpenVM public values,
/// and both the decoded values and the bytes are exactly those of the expected statement.
pub open spec fn m4_public_values_check(
    expected: M4ExpectedStatement,
    revealed: Seq<u8>,
) -> Result<(), M4StatementError> {
    match decode_openvm_values(revealed) {
        Err(e) => Err(M4StatementError::PublicValues(e)),
        Ok(v) => if v == expected_values(expected) && revealed == openvm_bytes(
            expected_values(expected),
        ) {
            Ok(())
        } else {
            Err(M4StatementError::PublicValuesMismatch)
        },
    }
}

/// The public-values check accepts exactly the OpenVM encoding of the expected statement's
/// values: a proof that reveals any other bytes is refused.
pub proof fn lemma_m4_public_values_accept_only_expected(expected: M4ExpectedStatement, revealed: Seq<u8>)
    ensures
        m4_public_values_check(expected, revealed) is Ok <==> revealed == openvm_bytes(
            expected_values(expected),
        ),
{
    lemma_public_values_decode_exact(revealed, expected_values(expected));
}

/// A proof is bound to the context of `benchmark` on `input`: the lower-case hexadecimal
/// digest of the benchmark's name and the two input words.
pub open spec fn m4_context_check(context: Seq<char>, input: M2Input, benchmark: M2Benchmark) -> Result<
    (),
    M4StatementError,
> {
    if context == hex_chars(context_digest(input, benchmark)) {
        Ok(())
    } else {
        Err(M4StatementError::ContextMismatch)
    }
}

/// The checks of an M4 proof artifact's statement that come before its proof is verified, in
/// order: the schema and the claimed commitments, the revealed public values, then the context
/// of the supplied input. (The input commitment of the supplied input, which the artifact's
/// verification also compares, is computed outside this library.)
pub open spec fn m4_statement_check(
    schema_version: u32,
    claimed: PublicValuesModel,
    expected: M4ExpectedStatement,
    revealed: Seq<u8>,
    context: Seq<char>,
    input: M2Input,
    benchmark: M2Benchmark,
) -> Result<(), M4StatementError> {
    match m4_claim_check(schema_version, claimed, expected) {
        Err(e) => Err(e),
        Ok(_) => match m4_public_values_check(expected, revealed) {
            Err(e) => Err(e),
            Ok(_) => m4_context_check(context, input, benchmark),
        },
    }
}

/// Checks that the context a proof is bound to is the context of `benchmark` on the supplied
/// input, before the proof itself is checked.
pub fn check_m4_context(context: &str, input: M2Input, benchmark: &M2Benchmark) -> (r: Result<
    (),
    M4StatementError,
>)
    ensures
        r == m4_context_check(context@, input, *benchmark),
{
    let expected = input.context_hash(benchmark);
    if crate::m4_specs::same_text(context, expected.as_str()) {
        Ok(())
    } else {
        Err(M4StatementError::ContextMismatch)
    }
}

/// Checks the schema version of an M4 proof artifact and that the commitments it claims are
/// those expected.
pub fn check_m4_claim(
    schema_version: u32,
    program_commitment: &[u8; 32],
    input_commitment: &[u8; 32],
    public_output: &[u8; 32],
    expected: &M4ExpectedStatement,
) -> (r: Result<(), M4StatementError>)
    ensures
        r == m4_claim_check(
            schema_version,
            PublicValuesModel {
                program_commitment: program_commitment@,
                input_commitment: input_commitment@,
                output: public_output@,
            },
            *expected,
        ),
{
    if schema_version != 1 {
        return Err(M4StatementError::UnsupportedVersion);
    }
    if !same32(program_commitment, &expected.program_commitment) || !same32(
        input_commitment,
        &expected.input_commitment,
    ) || !same32(public_output, &expected.public_output) {
        return Err(M4StatementError::ExpectedStatementMismatch);
    }
    Ok(())
}

/// Checks that the public values a proof reveals are exactly those of the expected statement.
pub fn check_m4_public_values(expected: &M4ExpectedStatement, revealed: &[u8]) -> (r: Result<
    (),
    M4StatementError,
>)
    ensures
        r == m4_public_values_check(*expected, revealed@),
{
    let actual = match M4PublicValuesV1::decode_openvm(revealed) {
        Ok(v) => v,
        Err(e) => return Err(M4StatementError::PublicValues(e)),
    };
    let wanted = M4PublicValuesV1 {
        program_commitment: expected.program_commitment,
        input_commitment: expected.input_commitment,
        output: expected.public_output,
    };
    if !same32(&actual.program_commitment, &wanted.program_commitment) || !same32(
        &actual.input_commitment,
        &wanted.input_commitment,
    ) || !same32(&actual.output, &wanted.output) {
        return Err(M4StatementError::PublicValuesMismatch);
    }
    let encoded = wanted.encode_openvm();
    if !crate::zkrefine_reference::same_bytes(revealed, encoded.as_slice()) {
        return Err(M4StatementError::PublicValuesMismatch);
    }
    Ok(())
}

/// Runs the statement checks of an M4 proof artifact in order; on success the artifact claims
/// and reveals exactly the expected statement and is bound to the supplied input's context.
pub fn check_m4_statement(
    schema_version: u32,
    claimed: &M4PublicValuesV1,
    expected: &M4ExpectedStatement,
    revealed: &[u8],
    context: &str,
    input: M2Input,
    benchmark: &M2Benchmark,
) -> (r: Result<(), M4StatementError>)
    ensures
        r == m4_statement_check(
            schema_version,
            claimed@,
            *expected,
            revealed@,
            context@,
            input,
            *benchmark,
        ),
        r is Ok ==> {
            &&& schema_version == 1
            &&& claimed@ == expected_values(*expected)
            &&& revealed@ == openvm_bytes(expected_values(*expected))
            &&& context@ == hex_chars(context_digest(input, *benchmark))
        },
{
    check_m4_claim(
        schema_version,
        &claimed.program_commitment,
        &claimed.input_commitment,
        &claimed.output,
        expected,
    )?;
    check_m4_public_values(expected, revealed)?;
    proof {
        lemma_m4_public_values_accept_only_expected(*expected, revealed@);
    }
    check_m4_context(context, input, benchmark)
}

// ---------------------------------------------------------------------------------------------
// Backend description
// ---------------------------------------------------------------------------------------------
/// The outcome of executing a benchmark guest.
#[derive(Clone, Debug, PartialEq, Eq)]
pub struct OpenVmExecutionResult {
    pub benchmark: M2Benchmark,
    pub public_output: Vec<u8>,
    pub elapsed_ns: u128,
    pub executable_bytes: usize,
}

/// A description of the proving backend.
#[derive(Clone, Debug, PartialEq, Eq)]
pub struct OpenVmInfo {
    pub version: String,
    pub revision: String,
    pub backend: String,
    pub security_bits: u32,
    pub emission_path: String,
    pub guest_toolchain: String,
}

/// The OpenVM proving backend.
#[derive(Clone, Copy, Debug, Default, PartialEq, Eq)]
pub struct OpenVmBackend;

impl OpenVmBackend {
    /// The backend description, with the guest toolchain that was selected.
    pub fn info(guest_toolchain: &str) -> (r: OpenVmInfo)
        ensures
            r.version@ == OPENVM_VERSION@,
            r.revision@ == OPENVM_REVISION@,
            r.backend@ == OPENVM_BACKEND@,
            r.security_bits == 100,
            r.emission_path@ == OPENVM_EMISSION_PATH@,
            r.guest_toolchain@ == guest_toolchain@,
    {
        OpenVmInfo {
            version: OPENVM_VERSION.to_owned(),
            revision: OPENVM_REVISION.to_owned(),
            backend: OPENVM_BACKEND.to_owned(),
            security_bits: 100,
            emission_path: OPENVM_EMISSION_PATH.to_owned(),
            guest_toolchain: guest_toolchain.to_owned(),
        }
    }
}


// ---------------------------------------------------------------------------------------------
// Guest toolchain selection
// ---------------------------------------------------------------------------------------------
/// Unicode `White_Space`, as `char::is_whitespace` decides it.
pub open spec fn is_whitespace(c: char) -> bool {
    let v = c as u32;
    v == 0x20 || (0x09 <= v <= 0x0d) || v == 0x85 || v == 0xa0 || v == 0x1680 || (0x2000 <= v
        <= 0x200a) || v == 0x2028 || v == 0x2029 || v == 0x202f || v == 0x205f || v == 0x3000
}

/// The index of the first line feed at or after `i`, or the length.
pub open spec fn line_end(s: Seq<char>, i: int) -> int
    decreases s.len() - i,
{
    if i >= s.len() {
        s.len() as int
    } else if s[i] == '\n' {
        i
    } else {
        line_end(s, i + 1)
    }
}

pub proof fn lemma_line_end(s: Seq<char>, i: int)
    requires
        0 <= i <= s.len(),
    ensures
        i <= line_end(s, i) <= s.len(),
        line_end(s, i) < s.len() ==> s[line_end(s, i)] == '\n',
        forall|k: int| i <= k < line_end(s, i) ==> s[k] != '\n',
    decreases s.len() - i,
{
    if i < s.len() && s[i] != '\n' {
        lemma_line_end(s, i + 1);
    }
}

/// A line without its final carriage return.
pub open spec fn strip_cr(l: Seq<char>) -> Seq<char> {
    if l.len() > 0 && l.last() == '\r' {
        l.drop_last()
    } else {
        l
    }
}

/// The lines of `s` from index `i` on, as `str::lines` yields them: split at line feeds, each
/// without a final carriage return, and no empty line after a final line feed.
pub open spec fn lines_from(s: Seq<char>, i: int) -> Seq<Seq<char>>
    decreases s.len() - i,
{
    if i < 0 || i >= s.len() {
        Seq::empty()
    } else {
        let j = line_end(s, i);
        let line = strip_cr(s.subrange(i, j));
        if j < i {
            Seq::empty()
        } else if j >= s.len() {
            seq![line]
        } else {
            seq![line] + lines_from(s, j + 1)
        }
    }
}

pub open spec fn starts_with(l: Seq<char>, p: Seq<char>) -> bool {
    p.len() <= l.len() && l.subrange(0, p.len() as int) == p
}

/// The index of the first non-whitespace character at or after `i`, or the length.
pub open spec fn first_non_ws(l: Seq<char>, i: int) -> int
    decreases l.len() - i,
{
    if i >= l.len() {
        l.len() as int
    } else if is_whitespace(l[i]) {
        first_non_ws(l, i + 1)
    } else {
        i
    }
}

/// The end of `l` before `j` without its trailing whitespace, stopping at `lo`.
pub open spec fn trimmed_end(l: Seq<char>, j: int, lo: int) -> int
    decreases j - lo,
{
    if j <= lo {
        lo
    } else if is_whitespace(l[j - 1]) {
        trimmed_end(l, j - 1, lo)
    } else {
        j
    }
}

/// `l` without leading and trailing whitespace, as `str::trim` gives it.
pub open spec fn trimmed(l: Seq<char>) -> Seq<char> {
    let a = first_non_ws(l, 0);
    l.subrange(a, trimmed_end(l, l.len() as int, a))
}

pub open spec fn any_line_starts_with(lines: Seq<Seq<char>>, p: Seq<char>) -> bool {
    exists|k: int| 0 <= k < lines.len() && starts_with(#[trigger] lines[k], p)
}

pub open spec fn any_line_is_generic_nightly(lines: Seq<Seq<char>>) -> bool {
    exists|k: int|
        0 <= k < lines.len() && (starts_with(#[trigger] lines[k], "nightly-x86_64"@) || starts_with(
            lines[k],
            "nightly-aarch64"@,
        ) || trimmed(lines[k]) == "nightly"@)
}

/// The guest toolchain chosen from the installed toolchain list: the pinned nightly when it is
/// installed, else a generic host nightly when one is installed, else the pin (to be installed).
pub open spec fn toolchain_choice(installed: Seq<char>) -> Seq<char> {
    let lines = lines_from(installed, 0);
    if any_line_starts_with(lines, OPENVM_PINNED_GUEST_TOOLCHAIN@) {
        OPENVM_PINNED_GUEST_TOOLCHAIN@
    } else if any_line_is_generic_nightly(lines) {
        "nightly"@
    } else {
        OPENVM_PINNED_GUEST_TOOLCHAIN@
    }
}

fn whitespace(c: char) -> (r: bool)
    ensures
        r == is_whitespace(c),
{
    let v = c as u32;
    v == 0x20 || (0x09 <= v && v <= 0x0d) || v == 0x85 || v == 0xa0 || v == 0x1680 || (0x2000 <= v
        && v <= 0x200a) || v == 0x2028 || v == 0x2029 || v == 0x202f || v == 0x205f || v == 0x3000
}

/// Whether `chars[start..end]` starts with `p`.
fn range_starts_with(chars: &Vec<char>, start: usize, end: usize, p: &Vec<char>) -> (r: bool)
    requires
        start <= end <= chars@.len(),
    ensures
        r == starts_with(chars@.subrange(start as int, end as int), p@),
{
    if p.len() > end - start {
        return false;
    }
    let mut k: usize = 0;
    while k < p.len()
        invariant
            start <= end <= chars@.len(),
            p@.len() <= end - start,
            0 <= k <= p@.len(),
            forall|m: int| 0 <= m < k ==> chars@[start + m] == p@[m],
        decreases p@.len() - k,
    {
        if chars[start + k] != p[k] {
            assert(chars@.subrange(start as int, end as int).subrange(0, p@.len() as int)[k as int]
                != p@[k as int]);
            return false;
        }
        k = k + 1;
    }
    assert(chars@.subrange(start as int, end as int).subrange(0, p@.len() as int) =~= p@);
    true
}

/// Whether `chars[start..end]`, trimmed, equals `word`.
fn range_trims_to(chars: &Vec<char>, start: usize, end: usize, word: &Vec<char>) -> (r: bool)
    requires
        start <= end <= chars@.len(),
    ensures
        r == (trimmed(chars@.subrange(start as int, end as int)) == word@),
{
    let ghost l = chars@.subrange(start as int, end as int);
    let mut a: usize = start;
    while a < end && whitespace(chars[a])
        invariant
            start <= a <= end <= chars@.len(),
            l == chars@.subrange(start as int, end as int),
            first_non_ws(l, 0) == first_non_ws(l, a - start),
        decreases end - a,
    {
        a = a + 1;
    }
    assert(first_non_ws(l, 0) == a - start);
    let mut b: usize = end;
    while b > a && whitespace(chars[b - 1])
        invariant
            start <= a <= b <= end <= chars@.len(),
            l == chars@.subrange(start as int, end as int),
            first_non_ws(l, 0) == a - start,
            trimmed_end(l, l.len() as int, a - start) == trimmed_end(l, b - start, a - start),
        decreases b - a,
    {
        b = b - 1;
    }
    assert(trimmed_end(l, l.len() as int, a - start) == b - start);
    assert(trimmed(l) =~= chars@.subrange(a as int, b as int));
    if b - a != word.len() {
        assert(trimmed(l).len() != word@.len());
        return false;
    }
    let mut k: usize = 0;
    while k < word.len()
        invariant
            start <= a <= b <= end <= chars@.len(),
            b - a == word@.len(),
            trimmed(chars@.subrange(start as int, end as int)) == chars@.subrange(a as int, b as int),
            0 <= k <= word@.len(),
            forall|m: int| 0 <= m < k ==> chars@[a + m] == word@[m],
        decreases word@.len() - k,
    {
        if chars[a + k] != word[k] {
            assert(chars@.subrange(a as int, b as int)[k as int] != word@[k as int]);
            return false;
        }
        k = k + 1;
    }
    assert(chars@.subrange(a as int, b as int) =~= word@);
    true
}

/// Chooses the guest toolchain from the output of `rustup toolchain list`.
pub fn select_guest_toolchain(installed: &str) -> (r: &'static str)
    ensures
        r@ == toolchain_choice(installed@),
{
    let chars = chars_from(installed);
    let pin = chars_from(OPENVM_PINNED_GUEST_TOOLCHAIN);
    let x86 = chars_from("nightly-x86_64");
    let aarch = chars_from("nightly-aarch64");
    let nightly = chars_from("nightly");
    let ghost s = chars@;
    let ghost all = lines_from(s, 0);
    let ghost mut seen: Seq<Seq<char>> = Seq::empty();
    let mut pin_found = false;
    let mut generic_found = false;
    let mut pos: usize = 0;
    while pos < chars.len()
        invariant
            s == chars@,
            s == installed@,
            all == lines_from(s, 0),
            0 <= pos <= s.len(),
            all == seen + lines_from(s, pos as int),
            pin_found == any_line_starts_with(seen, pin@),
            generic_found == any_line_is_generic_nightly(seen),
            pin@ == OPENVM_PINNED_GUEST_TOOLCHAIN@,
            x86@ == "nightly-x86_64"@,
            aarch@ == "nightly-aarch64"@,
            nightly@ == "nightly"@,
        decreases s.len() - pos,
    {
        let mut j: usize = pos;
        while j < chars.len() && chars[j] != '\n'
            invariant
                s == chars@,
                pos <= j <= s.len(),
                line_end(s, pos as int) == line_end(s, j as int),
            decreases s.len() - j,
        {
            j = j + 1;
        }
        assert(line_end(s, pos as int) == j);
        let end = if j > pos && chars[j - 1] == '\r' {
            j - 1
        } else {
            j
        };
        let ghost line = strip_cr(s.subrange(pos as int, j as int));
        assert(line =~= s.subrange(pos as int, end as int));
        proof {
            lemma_line_end(s, pos as int);
            if j < s.len() {
                assert(lines_from(s, pos as int) == seq![line] + lines_from(s, j + 1));
            } else {
                assert(lines_from(s, pos as int) =~= seq![line] + lines_from(s, j + 1));
            }
        }
        let p = range_starts_with(&chars, pos, end, &pin);
        let g = range_starts_with(&chars, pos, end, &x86) || range_starts_with(&chars, pos, end, &aarch)
            || range_trims_to(&chars, pos, end, &nightly);
        proof {
            let seen2 = seen.push(line);
            assert(seen2[seen.len() as int] == line);
            if p {
                assert(starts_with(seen2[seen.len() as int], pin@));
            }
            if g {
                assert(starts_with(seen2[seen.len() as int], "nightly-x86_64"@) || starts_with(
                    seen2[seen.len() as int],
                    "nightly-aarch64"@,
                ) || trimmed(seen2[seen.len() as int]) == "nightly"@);
            }
            assert forall|k: int| 0 <= k < seen.len() implies seen2[k] == seen[k] by {}
            assert(all =~= seen2 + lines_from(s, j + 1));
            if j >= s.len() {
                assert(lines_from(s, j + 1) =~= lines_from(s, j as int));
            }
            seen = seen2;
        }
        pin_found = pin_found || p;
        generic_found = generic_found || g;
        pos = if j < chars.len() {
            j + 1
        } else {
            j
        };
    }
    proof {
        assert(lines_from(s, pos as int) =~= Seq::<Seq<char>>::empty());
        assert(all =~= seen);
    }
    if pin_found {
        OPENVM_PINNED_GUEST_TOOLCHAIN
    } else if generic_found {
        "nightly"
    } else {
        OPENVM_PINNED_GUEST_TOOLCHAIN
    }
}

} // verus!
