//! The canonical little-endian binary codec shared by every interchange type.
//!
//! Encodings are described by spec functions producing byte sequences and decodings by spec
//! readers of the shape `(bytes, offset) -> Result<(value, next offset), CodecError>`. The
//! executable `Writer` and `Reader` are proved to follow them exactly.
use vstd::bytes::*;
use vstd::prelude::*;
use vstd::slice::slice_subrange;

verus! {

broadcast use vstd::seq_lib::group_seq_properties;

/// Errors of the canonical binary codec.
#[derive(Clone, Debug, PartialEq, Eq)]
pub enum CodecError {
    UnexpectedEof,
    LengthOverflow,
    InvalidValue(&'static str),
    TrailingBytes,
}

// ---------------------------------------------------------------------------------------------
// Encodings
// ---------------------------------------------------------------------------------------------
pub open spec fn le16(v: u16) -> Seq<u8> {
    spec_u16_to_le_bytes(v)
}

pub open spec fn le32(v: u32) -> Seq<u8> {
    spec_u32_to_le_bytes(v)
}

pub open spec fn fits_u32(n: int) -> bool {
    0 <= n <= u32::MAX
}

/// A length-prefixed byte string.
pub open spec fn enc_bytes(b: Seq<u8>) -> Seq<u8> {
    le32(b.len() as u32) + b
}

/// The concatenated encodings of the items of `xs`, in order, without a count.
pub open spec fn enc_seq<T>(f: spec_fn(T) -> Seq<u8>, xs: Seq<T>) -> Seq<u8>
    decreases xs.len(),
{
    if xs.len() == 0 {
        Seq::empty()
    } else {
        enc_seq(f, xs.drop_last()) + f(xs.last())
    }
}

/// A count-prefixed sequence of items.
pub open spec fn enc_vec<T>(f: spec_fn(T) -> Seq<u8>, xs: Seq<T>) -> Seq<u8> {
    le32(xs.len() as u32) + enc_seq(f, xs)
}

pub open spec fn enc_bytes_fn() -> spec_fn(Seq<u8>) -> Seq<u8> {
    |b: Seq<u8>| enc_bytes(b)
}

pub open spec fn le32_fn() -> spec_fn(u32) -> Seq<u8> {
    |v: u32| le32(v)
}

// ---------------------------------------------------------------------------------------------
// Readers
// ---------------------------------------------------------------------------------------------
pub type ReadResult<T> = Result<(T, int), CodecError>;

pub open spec fn read_fixed(s: Seq<u8>, at: int, n: int) -> ReadResult<Seq<u8>> {
    if 0 <= at && 0 <= n && at + n <= s.len() {
        Ok((s.subrange(at, at + n), at + n))
    } else {
        Err(CodecError::UnexpectedEof)
    }
}

pub open spec fn read_u8(s: Seq<u8>, at: int) -> ReadResult<u8> {
    if 0 <= at && at + 1 <= s.len() {
        Ok((s[at], at + 1))
    } else {
        Err(CodecError::UnexpectedEof)
    }
}

pub open spec fn read_u16(s: Seq<u8>, at: int) -> ReadResult<u16> {
    if 0 <= at && at + 2 <= s.len() {
        Ok((spec_u16_from_le_bytes(s.subrange(at, at + 2)), at + 2))
    } else {
        Err(CodecError::UnexpectedEof)
    }
}

pub open spec fn read_u32(s: Seq<u8>, at: int) -> ReadResult<u32> {
    if 0 <= at && at + 4 <= s.len() {
        Ok((spec_u32_from_le_bytes(s.subrange(at, at + 4)), at + 4))
    } else {
        Err(CodecError::UnexpectedEof)
    }
}

pub open spec fn read_bytes(s: Seq<u8>, at: int) -> ReadResult<Seq<u8>> {
    match read_u32(s, at) {
        Ok((n, a)) => read_fixed(s, a, n as int),
        Err(e) => Err(e),
    }
}

/// Reads `n` items with `p`, one after the other.
pub open spec fn read_seq<T>(
    p: spec_fn(Seq<u8>, int) -> ReadResult<T>,
    s: Seq<u8>,
    at: int,
    n: nat,
) -> ReadResult<Seq<T>>
    decreases n,
{
    if n == 0 {
        Ok((Seq::empty(), at))
    } else {
        match read_seq(p, s, at, (n - 1) as nat) {
            Ok((xs, a)) => match p(s, a) {
                Ok((x, b)) => Ok((xs.push(x), b)),
                Err(e) => Err(e),
            },
            Err(e) => Err(e),
        }
    }
}

/// Reads a count, then that many items with `p`.
pub open spec fn read_vec<T>(
    p: spec_fn(Seq<u8>, int) -> ReadResult<T>,
    s: Seq<u8>,
    at: int,
) -> ReadResult<Seq<T>> {
    match read_u32(s, at) {
        Ok((n, a)) => read_seq(p, s, a, n as nat),
        Err(e) => Err(e),
    }
}

pub open spec fn read_bytes_fn() -> spec_fn(Seq<u8>, int) -> ReadResult<Seq<u8>> {
    |s: Seq<u8>, at: int| read_bytes(s, at)
}

pub open spec fn read_u32_fn() -> spec_fn(Seq<u8>, int) -> ReadResult<u32> {
    |s: Seq<u8>, at: int| read_u32(s, at)
}

/// Completes a top-level decode: the value must span the whole input.
pub open spec fn finish_read<T>(r: ReadResult<T>, s: Seq<u8>) -> Result<T, CodecError> {
    match r {
        Ok((v, end)) => if end == s.len() {
            Ok(v)
        } else {
            Err(CodecError::TrailingBytes)
        },
        Err(e) => Err(e),
    }
}

/// An executable read `res` agrees with the spec read `spec`, leaving the cursor at `pos`.
pub open spec fn read_matches<T: View>(res: Result<T, CodecError>, spec: ReadResult<T::V>, pos: int) -> bool {
    match spec {
        Ok((v, a)) => res is Ok && res->Ok_0@ == v && pos == a,
        Err(e) => res is Err && res->Err_0 == e,
    }
}

/// An executable top-level decode `res` agrees with the spec decode `spec`.
pub open spec fn decode_matches<T: View>(res: Result<T, CodecError>, spec: Result<T::V, CodecError>) -> bool {
    match spec {
        Ok(v) => res is Ok && res->Ok_0@ == v,
        Err(e) => res is Err && res->Err_0 == e,
    }
}

/// Types with a canonical binary interchange encoding.
pub trait CanonicalCodec: Sized + View {
    /// The values whose every length fits the 32-bit length prefixes.
    spec fn encodable(v: Self::V) -> bool;

    /// The canonical encoding of a value.
    spec fn encoding(v: Self::V) -> Seq<u8>;

    /// The outcome of decoding `bytes`.
    spec fn decoding(bytes: Seq<u8>) -> Result<Self::V, CodecError>;

    fn encode_canonical(&self) -> (out: Vec<u8>)
        requires
            Self::encodable(self@),
        ensures
            out@ == Self::encoding(self@),
    ;

    fn decode_canonical(bytes: &[u8]) -> (r: Result<Self, CodecError>)
        ensures
            decode_matches(r, Self::decoding(bytes@)),
    ;
}

/// `e` stands in `s` at offset `at`.
pub open spec fn at_is(s: Seq<u8>, at: int, e: Seq<u8>) -> bool {
    &&& 0 <= at
    &&& at + e.len() <= s.len()
    &&& s.subrange(at, at + e.len()) == e
}

/// `p` reads back every encoding of `f` wherever it stands.
pub open spec fn reads_back<T>(
    f: spec_fn(T) -> Seq<u8>,
    p: spec_fn(Seq<u8>, int) -> ReadResult<T>,
    x: T,
) -> bool {
    forall|s: Seq<u8>, at: int| #[trigger] at_is(s, at, f(x)) ==> p(s, at) == Ok::<(T, int), CodecError>((x, at + f(x).len()))
}

// ---------------------------------------------------------------------------------------------
// Lemmas
// ---------------------------------------------------------------------------------------------
pub proof fn lemma_at_is_sub(s: Seq<u8>, at: int, e: Seq<u8>, i: int, j: int)
    requires
        at_is(s, at, e),
        0 <= i <= j <= e.len(),
    ensures
        at_is(s, at + i, e.subrange(i, j)),
{
    assert(s.subrange(at + i, at + j) =~= e.subrange(i, j)) by {
        assert forall|k: int| 0 <= k < j - i implies s.subrange(at + i, at + j)[k] == e.subrange(i, j)[k] by {
            assert(s.subrange(at, at + e.len())[i + k] == e[i + k]);
        }
    }
}

pub proof fn lemma_at_is_concat(s: Seq<u8>, at: int, a: Seq<u8>, b: Seq<u8>)
    requires
        at_is(s, at, a + b),
    ensures
        at_is(s, at, a),
        at_is(s, at + a.len(), b),
{
    lemma_at_is_sub(s, at, a + b, 0, a.len() as int);
    lemma_at_is_sub(s, at, a + b, a.len() as int, (a.len() + b.len()) as int);
    assert((a + b).subrange(0, a.len() as int) =~= a);
    assert((a + b).subrange(a.len() as int, (a.len() + b.len()) as int) =~= b);
}

pub proof fn lemma_le16(v: u16)
    ensures
        le16(v).len() == 2,
        spec_u16_from_le_bytes(le16(v)) == v,
{
    lemma_auto_spec_u16_to_from_le_bytes();
    assert(spec_u16_to_le_bytes(v).len() == 2);
}

pub proof fn lemma_le32(v: u32)
    ensures
        le32(v).len() == 4,
        spec_u32_from_le_bytes(le32(v)) == v,
{
    lemma_auto_spec_u32_to_from_le_bytes();
    assert(spec_u32_to_le_bytes(v).len() == 4);
}

pub proof fn lemma_read_u16_back(s: Seq<u8>, at: int, v: u16)
    requires
        at_is(s, at, le16(v)),
    ensures
        read_u16(s, at) == Ok::<(u16, int), CodecError>((v, at + 2)),
{
    lemma_le16(v);
}

pub proof fn lemma_read_u32_back(s: Seq<u8>, at: int, v: u32)
    requires
        at_is(s, at, le32(v)),
    ensures
        read_u32(s, at) == Ok::<(u32, int), CodecError>((v, at + 4)),
{
    lemma_le32(v);
}

pub proof fn lemma_read_bytes_back(s: Seq<u8>, at: int, b: Seq<u8>)
    requires
        fits_u32(b.len() as int),
        at_is(s, at, enc_bytes(b)),
    ensures
        read_bytes(s, at) == Ok::<(Seq<u8>, int), CodecError>((b, at + enc_bytes(b).len())),
{
    lemma_le32(b.len() as u32);
    lemma_at_is_concat(s, at, le32(b.len() as u32), b);
    lemma_read_u32_back(s, at, b.len() as u32);
}

pub proof fn lemma_enc_seq_push<T>(f: spec_fn(T) -> Seq<u8>, xs: Seq<T>, x: T)
    ensures
        enc_seq(f, xs.push(x)) == enc_seq(f, xs) + f(x),
{
    assert(xs.push(x).drop_last() =~= xs);
}

/// Reading `n` items is a failure from the first item that fails onwards.
pub proof fn lemma_read_seq_err<T>(
    p: spec_fn(Seq<u8>, int) -> ReadResult<T>,
    s: Seq<u8>,
    at: int,
    i: nat,
    n: nat,
)
    requires
        i <= n,
        read_seq(p, s, at, i) is Err,
    ensures
        read_seq(p, s, at, n) == read_seq(p, s, at, i),
    decreases n,
{
    if n > i {
        lemma_read_seq_err(p, s, at, i, (n - 1) as nat);
    }
}

/// A sequence whose items each read back reads back as a whole.
pub proof fn lemma_read_seq_back<T>(
    f: spec_fn(T) -> Seq<u8>,
    p: spec_fn(Seq<u8>, int) -> ReadResult<T>,
    xs: Seq<T>,
    s: Seq<u8>,
    at: int,
)
    requires
        forall|i: int| 0 <= i < xs.len() ==> #[trigger] reads_back(f, p, xs[i]),
        at_is(s, at, enc_seq(f, xs)),
    ensures
        read_seq(p, s, at, xs.len()) == Ok::<(Seq<T>, int), CodecError>((xs, at + enc_seq(f, xs).len())),
    decreases xs.len(),
{
    if xs.len() > 0 {
        let init = xs.drop_last();
        let x = xs.last();
        assert(enc_seq(f, xs) == enc_seq(f, init) + f(x));
        lemma_at_is_concat(s, at, enc_seq(f, init), f(x));
        assert forall|i: int| 0 <= i < init.len() implies #[trigger] reads_back(f, p, init[i]) by {
            assert(init[i] == xs[i]);
        }
        lemma_read_seq_back(f, p, init, s, at);
        assert(reads_back(f, p, xs[xs.len() - 1]));
        let a = at + enc_seq(f, init).len();
        assert(at_is(s, a, f(x)));
        assert(init.push(x) =~= xs);
    }
}

/// A counted sequence whose items each read back reads back as a whole.
pub proof fn lemma_read_vec_back<T>(
    f: spec_fn(T) -> Seq<u8>,
    p: spec_fn(Seq<u8>, int) -> ReadResult<T>,
    xs: Seq<T>,
    s: Seq<u8>,
    at: int,
)
    requires
        fits_u32(xs.len() as int),
        forall|i: int| 0 <= i < xs.len() ==> #[trigger] reads_back(f, p, xs[i]),
        at_is(s, at, enc_vec(f, xs)),
    ensures
        read_vec(p, s, at) == Ok::<(Seq<T>, int), CodecError>((xs, at + enc_vec(f, xs).len())),
{
    lemma_at_is_concat(s, at, le32(xs.len() as u32), enc_seq(f, xs));
    lemma_read_u32_back(s, at, xs.len() as u32);
    lemma_le32(xs.len() as u32);
    lemma_read_seq_back(f, p, xs, s, at + 4);
}

/// Every length-prefixed byte string reads back.
pub proof fn lemma_bytes_reads_back(b: Seq<u8>)
    requires
        fits_u32(b.len() as int),
    ensures
        reads_back(enc_bytes_fn(), read_bytes_fn(), b),
{
    assert forall|s: Seq<u8>, at: int| #[trigger] at_is(s, at, enc_bytes_fn()(b)) implies read_bytes_fn()(s, at)
        == Ok::<(Seq<u8>, int), CodecError>((b, at + enc_bytes_fn()(b).len())) by {
        lemma_read_bytes_back(s, at, b);
    }
}

/// Every word reads back.
pub proof fn lemma_u32_reads_back(v: u32)
    ensures
        reads_back(le32_fn(), read_u32_fn(), v),
{
    assert forall|s: Seq<u8>, at: int| #[trigger] at_is(s, at, le32_fn()(v)) implies read_u32_fn()(s, at)
        == Ok::<(u32, int), CodecError>((v, at + le32_fn()(v).len())) by {
        lemma_le32(v);
        lemma_read_u32_back(s, at, v);
    }
}

/// Whatever `p` accepts satisfies `ok`, and `f` encodes it to as many bytes as `p` read.
pub open spec fn reads_sized<T>(
    f: spec_fn(T) -> Seq<u8>,
    p: spec_fn(Seq<u8>, int) -> ReadResult<T>,
    ok: spec_fn(T) -> bool,
) -> bool {
    forall|s: Seq<u8>, at: int|
        #![trigger p(s, at)]
        p(s, at) is Ok ==> ok(p(s, at)->Ok_0.0) && f(p(s, at)->Ok_0.0).len() == p(s, at)->Ok_0.1 - at
}

/// Every item read by a sized reader is sized, and so is the whole run.
pub proof fn lemma_read_seq_sized<T>(
    f: spec_fn(T) -> Seq<u8>,
    p: spec_fn(Seq<u8>, int) -> ReadResult<T>,
    ok: spec_fn(T) -> bool,
    s: Seq<u8>,
    at: int,
    n: nat,
)
    requires
        reads_sized(f, p, ok),
        read_seq(p, s, at, n) is Ok,
    ensures
        read_seq(p, s, at, n)->Ok_0.0.len() == n,
        forall|k: int| 0 <= k < n ==> ok(#[trigger] read_seq(p, s, at, n)->Ok_0.0[k]),
        enc_seq(f, read_seq(p, s, at, n)->Ok_0.0).len() == read_seq(p, s, at, n)->Ok_0.1 - at,
    decreases n,
{
    if n > 0 {
        let m = (n - 1) as nat;
        lemma_read_seq_sized(f, p, ok, s, at, m);
        let xs = read_seq(p, s, at, m)->Ok_0.0;
        let a = read_seq(p, s, at, m)->Ok_0.1;
        assert(p(s, a) is Ok);
        let x = p(s, a)->Ok_0.0;
        lemma_enc_seq_push(f, xs, x);
        assert forall|k: int| 0 <= k < n implies ok(#[trigger] xs.push(x)[k]) by {
            if k < m {
                assert(xs.push(x)[k] == xs[k]);
            }
        }
    }
}

/// A counted run read by a sized reader has a count that fits a word, and is sized.
pub proof fn lemma_read_vec_sized<T>(
    f: spec_fn(T) -> Seq<u8>,
    p: spec_fn(Seq<u8>, int) -> ReadResult<T>,
    ok: spec_fn(T) -> bool,
    s: Seq<u8>,
    at: int,
)
    requires
        reads_sized(f, p, ok),
        read_vec(p, s, at) is Ok,
    ensures
        fits_u32(read_vec(p, s, at)->Ok_0.0.len() as int),
        forall|k: int|
            0 <= k < read_vec(p, s, at)->Ok_0.0.len() ==> ok(#[trigger] read_vec(p, s, at)->Ok_0.0[k]),
        enc_vec(f, read_vec(p, s, at)->Ok_0.0).len() == read_vec(p, s, at)->Ok_0.1 - at,
{
    let n = read_u32(s, at)->Ok_0.0;
    lemma_read_seq_sized(f, p, ok, s, at + 4, n as nat);
    lemma_le32(n);
}

/// A length-prefixed byte string that reads has a length that fits a word.
pub proof fn lemma_read_bytes_sized(s: Seq<u8>, at: int)
    requires
        read_bytes(s, at) is Ok,
    ensures
        fits_u32(read_bytes(s, at)->Ok_0.0.len() as int),
        enc_bytes(read_bytes(s, at)->Ok_0.0).len() == read_bytes(s, at)->Ok_0.1 - at,
{
    let n = read_u32(s, at)->Ok_0.0;
    lemma_le32(n);
}

pub open spec fn fits_u32_fn() -> spec_fn(Seq<u8>) -> bool {
    |b: Seq<u8>| fits_u32(b.len() as int)
}

pub open spec fn any_u32_fn() -> spec_fn(u32) -> bool {
    |v: u32| true
}

/// Byte strings and words are read sized.
pub proof fn lemma_bytes_and_words_sized()
    ensures
        reads_sized(enc_bytes_fn(), read_bytes_fn(), fits_u32_fn()),
        reads_sized(le32_fn(), read_u32_fn(), any_u32_fn()),
{
    assert forall|s: Seq<u8>, at: int| #[trigger] read_bytes_fn()(s, at) is Ok implies fits_u32_fn()(
        read_bytes_fn()(s, at)->Ok_0.0,
    ) && enc_bytes_fn()(read_bytes_fn()(s, at)->Ok_0.0).len() == read_bytes_fn()(s, at)->Ok_0.1
        - at by {
        lemma_read_bytes_sized(s, at);
    }
    assert forall|s: Seq<u8>, at: int| #[trigger] read_u32_fn()(s, at) is Ok implies any_u32_fn()(
        read_u32_fn()(s, at)->Ok_0.0,
    ) && le32_fn()(read_u32_fn()(s, at)->Ok_0.0).len() == read_u32_fn()(s, at)->Ok_0.1 - at by {
        lemma_le32(read_u32_fn()(s, at)->Ok_0.0);
    }
}

/// Where the unread bytes are a written word followed by `t`, the word is read back and the
/// unread bytes become `t`.
pub proof fn lemma_read_u32_written(s: Seq<u8>, at: int, v: u32, t: Seq<u8>)
    requires
        0 <= at <= s.len(),
        s.subrange(at, s.len() as int) == le32(v) + t,
    ensures
        read_u32(s, at) == Ok::<(u32, int), CodecError>((v, at + 4)),
        s.subrange(at + 4, s.len() as int) == t,
{
    lemma_le32(v);
    let rest = s.subrange(at, s.len() as int);
    assert(s.subrange(at, at + 4) =~= rest.subrange(0, 4));
    assert(rest.subrange(0, 4) =~= le32(v));
    lemma_read_u32_back(s, at, v);
    assert(s.subrange(at + 4, s.len() as int) =~= rest.subrange(4, rest.len() as int));
    assert(rest.subrange(4, rest.len() as int) =~= t);
}

/// Where the unread bytes are a written half-word followed by `t`, the half-word is read back
/// and the unread bytes become `t`.
pub proof fn lemma_read_u16_written(s: Seq<u8>, at: int, v: u16, t: Seq<u8>)
    requires
        0 <= at <= s.len(),
        s.subrange(at, s.len() as int) == le16(v) + t,
    ensures
        read_u16(s, at) == Ok::<(u16, int), CodecError>((v, at + 2)),
        s.subrange(at + 2, s.len() as int) == t,
{
    lemma_le16(v);
    let rest = s.subrange(at, s.len() as int);
    assert(s.subrange(at, at + 2) =~= rest.subrange(0, 2));
    assert(rest.subrange(0, 2) =~= le16(v));
    lemma_read_u16_back(s, at, v);
    assert(s.subrange(at + 2, s.len() as int) =~= rest.subrange(2, rest.len() as int));
    assert(rest.subrange(2, rest.len() as int) =~= t);
}

/// Two pieces that stand one after the other stand together.
pub proof fn lemma_at_is_join(s: Seq<u8>, at: int, a: Seq<u8>, b: Seq<u8>)
    requires
        at_is(s, at, a),
        at_is(s, at + a.len(), b),
    ensures
        at_is(s, at, a + b),
{
    let n = a.len() + b.len();
    assert forall|k: int| 0 <= k < n implies s.subrange(at, at + n)[k] == (a + b)[k] by {
        if k < a.len() {
            assert(s.subrange(at, at + a.len())[k] == a[k]);
        } else {
            assert(s.subrange(at + a.len(), at + a.len() + b.len())[k - a.len()] == b[k - a.len()]);
        }
    }
    assert(s.subrange(at, at + n) =~= a + b);
}

/// Whatever `p` accepts is exactly what `f` encodes it to, standing where `p` read it.
pub open spec fn reads_exact<T>(f: spec_fn(T) -> Seq<u8>, p: spec_fn(Seq<u8>, int) -> ReadResult<T>) -> bool {
    forall|s: Seq<u8>, at: int|
        #![trigger p(s, at)]
        p(s, at) is Ok ==> at_is(s, at, f(p(s, at)->Ok_0.0)) && p(s, at)->Ok_0.1 == at + f(
            p(s, at)->Ok_0.0,
        ).len()
}

pub proof fn lemma_read_u8_exact(s: Seq<u8>, at: int)
    requires
        read_u8(s, at) is Ok,
    ensures
        at_is(s, at, seq![s[at]]),
{
    assert(s.subrange(at, at + 1) =~= seq![s[at]]);
}

pub proof fn lemma_read_u16_exact(s: Seq<u8>, at: int)
    requires
        read_u16(s, at) is Ok,
    ensures
        at_is(s, at, le16(read_u16(s, at)->Ok_0.0)),
{
    lemma_auto_spec_u16_to_from_le_bytes();
    assert(le16(read_u16(s, at)->Ok_0.0) == s.subrange(at, at + 2));
}

pub proof fn lemma_read_u32_exact(s: Seq<u8>, at: int)
    requires
        read_u32(s, at) is Ok,
    ensures
        at_is(s, at, le32(read_u32(s, at)->Ok_0.0)),
        le32(read_u32(s, at)->Ok_0.0).len() == 4,
{
    lemma_auto_spec_u32_to_from_le_bytes();
    assert(le32(read_u32(s, at)->Ok_0.0) == s.subrange(at, at + 4));
}

pub proof fn lemma_read_bytes_exact(s: Seq<u8>, at: int)
    requires
        read_bytes(s, at) is Ok,
    ensures
        at_is(s, at, enc_bytes(read_bytes(s, at)->Ok_0.0)),
        read_bytes(s, at)->Ok_0.1 == at + enc_bytes(read_bytes(s, at)->Ok_0.0).len(),
{
    lemma_read_u32_exact(s, at);
    let n = read_u32(s, at)->Ok_0.0;
    let b = read_bytes(s, at)->Ok_0.0;
    assert(b.len() == n);
    lemma_at_is_join(s, at, le32(n), b);
}

/// A run read by an exact reader is exactly the encoding of what it read.
pub proof fn lemma_read_seq_exact<T>(
    f: spec_fn(T) -> Seq<u8>,
    p: spec_fn(Seq<u8>, int) -> ReadResult<T>,
    s: Seq<u8>,
    at: int,
    n: nat,
)
    requires
        reads_exact(f, p),
        0 <= at <= s.len(),
        read_seq(p, s, at, n) is Ok,
    ensures
        read_seq(p, s, at, n)->Ok_0.0.len() == n,
        at_is(s, at, enc_seq(f, read_seq(p, s, at, n)->Ok_0.0)),
        read_seq(p, s, at, n)->Ok_0.1 == at + enc_seq(f, read_seq(p, s, at, n)->Ok_0.0).len(),
    decreases n,
{
    if n == 0 {
        assert(s.subrange(at, at) =~= Seq::<u8>::empty());
    } else {
        let m = (n - 1) as nat;
        lemma_read_seq_exact(f, p, s, at, m);
        let xs = read_seq(p, s, at, m)->Ok_0.0;
        let a = read_seq(p, s, at, m)->Ok_0.1;
        assert(p(s, a) is Ok);
        let x = p(s, a)->Ok_0.0;
        lemma_enc_seq_push(f, xs, x);
        lemma_at_is_join(s, at, enc_seq(f, xs), f(x));
    }
}

/// A counted run read by an exact reader is exactly the encoding of what it read.
pub proof fn lemma_read_vec_exact<T>(
    f: spec_fn(T) -> Seq<u8>,
    p: spec_fn(Seq<u8>, int) -> ReadResult<T>,
    s: Seq<u8>,
    at: int,
)
    requires
        reads_exact(f, p),
        read_vec(p, s, at) is Ok,
    ensures
        at_is(s, at, enc_vec(f, read_vec(p, s, at)->Ok_0.0)),
        read_vec(p, s, at)->Ok_0.1 == at + enc_vec(f, read_vec(p, s, at)->Ok_0.0).len(),
{
    lemma_read_u32_exact(s, at);
    let n = read_u32(s, at)->Ok_0.0;
    lemma_read_seq_exact(f, p, s, at + 4, n as nat);
    let xs = read_vec(p, s, at)->Ok_0.0;
    assert(xs.len() as u32 == n);
    lemma_at_is_join(s, at, le32(n), enc_seq(f, xs));
}

/// Byte strings and words are read exactly.
pub proof fn lemma_bytes_and_words_exact()
    ensures
        reads_exact(enc_bytes_fn(), read_bytes_fn()),
        reads_exact(le32_fn(), read_u32_fn()),
{
    assert forall|s: Seq<u8>, at: int| #[trigger] read_bytes_fn()(s, at) is Ok implies at_is(
        s,
        at,
        enc_bytes_fn()(read_bytes_fn()(s, at)->Ok_0.0),
    ) && read_bytes_fn()(s, at)->Ok_0.1 == at + enc_bytes_fn()(read_bytes_fn()(s, at)->Ok_0.0).len() by {
        lemma_read_bytes_exact(s, at);
    }
    assert forall|s: Seq<u8>, at: int| #[trigger] read_u32_fn()(s, at) is Ok implies at_is(
        s,
        at,
        le32_fn()(read_u32_fn()(s, at)->Ok_0.0),
    ) && read_u32_fn()(s, at)->Ok_0.1 == at + le32_fn()(read_u32_fn()(s, at)->Ok_0.0).len() by {
        lemma_read_u32_exact(s, at);
    }
}

/// A top-level decode that reads exactly gives back the whole input when re-encoded.
pub proof fn lemma_exact_whole(s: Seq<u8>, e: Seq<u8>)
    requires
        at_is(s, 0, e),
        e.len() == s.len(),
    ensures
        e == s,
{
    assert(s.subrange(0, s.len() as int) =~= s);
}

// ---------------------------------------------------------------------------------------------
// Writer
// ---------------------------------------------------------------------------------------------
/// An append-only buffer for canonical encodings.
pub struct Writer {
    pub bytes: Vec<u8>,
}

impl Writer {
    pub fn new() -> (w: Self)
        ensures
            w.bytes@ == Seq::<u8>::empty(),
    {
        Writer { bytes: Vec::new() }
    }

    pub fn u8(&mut self, value: u8)
        ensures
            final(self).bytes@ == old(self).bytes@.push(value),
    {
        self.bytes.push(value);
    }

    pub fn u16(&mut self, value: u16)
        ensures
            final(self).bytes@ == old(self).bytes@ + le16(value),
    {
        let b = u16_to_le_bytes(value);
        self.bytes.push(b[0]);
        self.bytes.push(b[1]);
        assert(self.bytes@ =~= old(self).bytes@ + le16(value));
    }

    pub fn u32(&mut self, value: u32)
        ensures
            final(self).bytes@ == old(self).bytes@ + le32(value),
    {
        let b = u32_to_le_bytes(value);
        self.bytes.push(b[0]);
        self.bytes.push(b[1]);
        self.bytes.push(b[2]);
        self.bytes.push(b[3]);
        assert(self.bytes@ =~= old(self).bytes@ + le32(value));
    }

    pub fn fixed(&mut self, value: &[u8])
        ensures
            final(self).bytes@ == old(self).bytes@ + value@,
    {
        let mut i: usize = 0;
        while i < value.len()
            invariant
                0 <= i <= value@.len(),
                self.bytes@ == old(self).bytes@ + value@.subrange(0, i as int),
            decreases value@.len() - i,
        {
            self.bytes.push(value[i]);
            i = i + 1;
            assert(self.bytes@ =~= old(self).bytes@ + value@.subrange(0, i as int));
        }
        assert(value@.subrange(0, value@.len() as int) =~= value@);
    }

    /// Writes a length-prefixed byte string; fails when the length does not fit in 32 bits.
    pub fn bytes(&mut self, value: &[u8]) -> (r: Result<(), CodecError>)
        ensures
            fits_u32(value@.len() as int) ==> r is Ok && final(self).bytes@ == old(self).bytes@
                + enc_bytes(value@),
            !fits_u32(value@.len() as int) ==> r == Err::<(), CodecError>(CodecError::LengthOverflow)
                && final(self).bytes@ == old(self).bytes@,
    {
        if value.len() > 0xFFFF_FFFFusize {
            return Err(CodecError::LengthOverflow);
        }
        let len = value.len() as u32;
        self.u32(len);
        self.fixed(value);
        assert(self.bytes@ =~= old(self).bytes@ + enc_bytes(value@));
        Ok(())
    }

    /// Writes an item count; fails when it does not fit in 32 bits.
    pub fn count(&mut self, count: usize) -> (r: Result<(), CodecError>)
        ensures
            fits_u32(count as int) ==> r is Ok && final(self).bytes@ == old(self).bytes@ + le32(
                count as u32,
            ),
            !fits_u32(count as int) ==> r == Err::<(), CodecError>(CodecError::LengthOverflow)
                && final(self).bytes@ == old(self).bytes@,
    {
        if count > 0xFFFF_FFFFusize {
            return Err(CodecError::LengthOverflow);
        }
        self.u32(count as u32);
        Ok(())
    }
}

// ---------------------------------------------------------------------------------------------
// Reader
// ---------------------------------------------------------------------------------------------
/// A cursor over a canonical encoding.
pub struct Reader<'a> {
    bytes: &'a [u8],
    offset: usize,
}

/// `decode`, called on the reader `before`, returned `x` and left the reader as `after`, as
/// `read` says it reads at that position (an item is compared by its deep view).
pub open spec fn decodes_as<'a, T: DeepView>(
    read: spec_fn(Seq<u8>, int) -> ReadResult<T::V>,
    before: Reader<'a>,
    x: Result<T, CodecError>,
    after: Reader<'a>,
) -> bool {
    &&& after.wf()
    &&& after.data() == before.data()
    &&& match read(before.data(), before.pos()) {
        Ok((v, a)) => x is Ok && x->Ok_0.deep_view() == v && after.pos() == a,
        Err(e) => x == Err::<T, CodecError>(e),
    }
}

impl<'a> Reader<'a> {
    /// The whole input.
    pub closed spec fn data(&self) -> Seq<u8> {
        self.bytes@
    }

    /// The position of the next byte to be read.
    pub closed spec fn pos(&self) -> int {
        self.offset as int
    }

    pub closed spec fn wf(&self) -> bool {
        self.offset <= self.bytes@.len()
    }

    /// A well-formed reader's position lies within its input.
    pub proof fn lemma_pos_within(&self)
        requires
            self.wf(),
        ensures
            0 <= self.pos() <= self.data().len(),
    {
    }

    /// The bytes not yet read.
    pub open spec fn unread(&self) -> Seq<u8> {
        self.data().subrange(self.pos(), self.data().len() as int)
    }

    /// A reader whose unread bytes are a written word followed by `t` reads that word and is
    /// left with `t` unread.
    pub proof fn lemma_reads_written_u32(&self, v: u32, t: Seq<u8>)
        requires
            self.wf(),
            self.unread() == le32(v) + t,
        ensures
            read_u32(self.data(), self.pos()) == Ok::<(u32, int), CodecError>((v, self.pos() + 4)),
            self.data().subrange(self.pos() + 4, self.data().len() as int) == t,
    {
        lemma_read_u32_written(self.data(), self.pos(), v, t);
    }

    /// A reader whose unread bytes are a written half-word followed by `t` reads that
    /// half-word and is left with `t` unread.
    pub proof fn lemma_reads_written_u16(&self, v: u16, t: Seq<u8>)
        requires
            self.wf(),
            self.unread() == le16(v) + t,
        ensures
            read_u16(self.data(), self.pos()) == Ok::<(u16, int), CodecError>((v, self.pos() + 2)),
            self.data().subrange(self.pos() + 2, self.data().len() as int) == t,
    {
        lemma_read_u16_written(self.data(), self.pos(), v, t);
    }

    pub fn new(bytes: &'a [u8]) -> (r: Self)
        ensures
            r.data() == bytes@,
            r.pos() == 0,
            r.wf(),
    {
        Reader { bytes, offset: 0 }
    }

    /// Consumes `len` bytes.
    fn take(&mut self, len: usize) -> (r: Result<&'a [u8], CodecError>)
        requires
            old(self).wf(),
        ensures
            final(self).wf(),
            final(self).data() == old(self).data(),
            match read_fixed(old(self).data(), old(self).pos(), len as int) {
                Ok((v, a)) => r is Ok && r->Ok_0@ == v && final(self).pos() == a,
                Err(e) => r == Err::<&'a [u8], CodecError>(e) && final(self).pos() == old(self).pos(),
            },
    {
        if len > self.bytes.len() - self.offset {
            return Err(CodecError::UnexpectedEof);
        }
        let end = self.offset + len;
        let value = slice_subrange(self.bytes, self.offset, end);
        self.offset = end;
        Ok(value)
    }

    pub fn u8(&mut self) -> (r: Result<u8, CodecError>)
        requires
            old(self).wf(),
        ensures
            final(self).wf(),
            final(self).data() == old(self).data(),
            match read_u8(old(self).data(), old(self).pos()) {
                Ok((v, a)) => r == Ok::<u8, CodecError>(v) && final(self).pos() == a,
                Err(e) => r == Err::<u8, CodecError>(e) && final(self).pos() == old(self).pos(),
            },
    {
        let b = self.take(1)?;
        Ok(b[0])
    }

    pub fn u16(&mut self) -> (r: Result<u16, CodecError>)
        requires
            old(self).wf(),
        ensures
            final(self).wf(),
            final(self).data() == old(self).data(),
            match read_u16(old(self).data(), old(self).pos()) {
                Ok((v, a)) => r == Ok::<u16, CodecError>(v) && final(self).pos() == a,
                Err(e) => r == Err::<u16, CodecError>(e) && final(self).pos() == old(self).pos(),
            },
    {
        let b = self.take(2)?;
        Ok(u16_from_le_bytes(b))
    }

    pub fn u32(&mut self) -> (r: Result<u32, CodecError>)
        requires
            old(self).wf(),
        ensures
            final(self).wf(),
            final(self).data() == old(self).data(),
            match read_u32(old(self).data(), old(self).pos()) {
                Ok((v, a)) => r == Ok::<u32, CodecError>(v) && final(self).pos() == a,
                Err(e) => r == Err::<u32, CodecError>(e) && final(self).pos() == old(self).pos(),
            },
    {
        let b = self.take(4)?;
        Ok(u32_from_le_bytes(b))
    }

    /// Reads a fixed-width value of `N` bytes.
    pub fn fixed<const N: usize>(&mut self) -> (r: Result<[u8; N], CodecError>)
        requires
            old(self).wf(),
        ensures
            final(self).wf(),
            final(self).data() == old(self).data(),
            match read_fixed(old(self).data(), old(self).pos(), N as int) {
                Ok((v, a)) => r is Ok && r->Ok_0@ == v && final(self).pos() == a,
                Err(e) => r == Err::<[u8; N], CodecError>(e) && final(self).pos() == old(self).pos(),
            },
    {
        let b = self.take(N)?;
        let mut out = [0u8; N];
        let mut i: usize = 0;
        while i < N
            invariant
                0 <= i <= N,
                b@.len() == N,
                out@.len() == N,
                forall|k: int| 0 <= k < i ==> out@[k] == b@[k],
            decreases N - i,
        {
            out[i] = b[i];
            i = i + 1;
        }
        assert(out@ =~= b@);
        Ok(out)
    }

    /// Reads a length-prefixed byte string.
    pub fn bytes(&mut self) -> (r: Result<Vec<u8>, CodecError>)
        requires
            old(self).wf(),
        ensures
            final(self).wf(),
            final(self).data() == old(self).data(),
            match read_bytes(old(self).data(), old(self).pos()) {
                Ok((v, a)) => r is Ok && r->Ok_0@ == v && final(self).pos() == a,
                Err(e) => r is Err && r->Err_0 == e && final(self).pos() == if read_u32(
                    old(self).data(),
                    old(self).pos(),
                ) is Ok {
                    old(self).pos() + 4
                } else {
                    old(self).pos()
                },
            },
    {
        let len = self.u32()?;
        let b = self.take(len as usize)?;
        let mut out: Vec<u8> = Vec::new();
        let mut i: usize = 0;
        while i < b.len()
            invariant
                0 <= i <= b@.len(),
                out@ == b@.subrange(0, i as int),
            decreases b@.len() - i,
        {
            out.push(b[i]);
            i = i + 1;
            assert(out@ =~= b@.subrange(0, i as int));
        }
        assert(b@.subrange(0, b@.len() as int) =~= b@);
        Ok(out)
    }

    /// Reads a count-prefixed sequence, each item with `decode`, stopping at the first error.
    /// `read` is what `decode` does, stated over the input and the position: every call of
    /// `decode` on a well-formed reader leaves it well-formed over the same input and returns
    /// what `read` gives at its position.
    pub fn vec<T: DeepView, F: Fn(&mut Reader<'a>) -> Result<T, CodecError>>(
        &mut self,
        decode: F,
        Ghost(read): Ghost<spec_fn(Seq<u8>, int) -> ReadResult<T::V>>,
    ) -> (r: Result<Vec<T>, CodecError>)
        requires
            old(self).wf(),
            forall|rd: &mut Reader<'a>| rd.wf() ==> #[trigger] call_requires(decode, (rd,)),
            forall|rd: &mut Reader<'a>, x: Result<T, CodecError>|
                rd.wf() && #[trigger] call_ensures(decode, (rd,), x) ==> decodes_as(
                    read,
                    *rd,
                    x,
                    *final(rd),
                ),
        ensures
            final(self).wf(),
            final(self).data() == old(self).data(),
            match read_vec(read, old(self).data(), old(self).pos()) {
                Ok((v, a)) => r is Ok && r->Ok_0.deep_view() == v && final(self).pos() == a,
                Err(e) => r is Err && r->Err_0 == e,
            },
    {
        let n = self.u32()?;
        let ghost s = self.data();
        let ghost start = self.pos();
        let mut out: Vec<T> = Vec::new();
        assert(out.deep_view() =~= Seq::<T::V>::empty());
        let mut i: u32 = 0;
        while i < n
            invariant
                self.wf(),
                self.data() == s,
                s == old(self).data(),
                read_u32(old(self).data(), old(self).pos()) == Ok::<(u32, int), CodecError>((n, start)),
                0 <= i <= n,
                read_seq(read, s, start, i as nat) == Ok::<(Seq<T::V>, int), CodecError>(
                    (out.deep_view(), self.pos()),
                ),
                forall|rd: &mut Reader<'a>| rd.wf() ==> #[trigger] call_requires(decode, (rd,)),
                forall|rd: &mut Reader<'a>, x: Result<T, CodecError>|
                    rd.wf() && #[trigger] call_ensures(decode, (rd,), x) ==> decodes_as(
                        read,
                        *rd,
                        x,
                        *final(rd),
                    ),
            decreases n - i,
        {
            let v = decode(self);
            let ghost before = out.deep_view();
            match v {
                Ok(v) => {
                    let ghost item = v.deep_view();
                    out.push(v);
                    assert(out.deep_view() =~= before.push(item));
                },
                Err(e) => {
                    proof {
                        lemma_read_seq_err(read, s, start, (i + 1) as nat, n as nat);
                    }
                    return Err(e);
                },
            }
            i = i + 1;
        }
        Ok(out)
    }

    /// Succeeds only when the whole input has been consumed.
    pub fn finish(self) -> (r: Result<(), CodecError>)
        ensures
            r is Ok <==> self.pos() == self.data().len(),
            r is Err ==> r == Err::<(), CodecError>(CodecError::TrailingBytes),
    {
        if self.offset == self.bytes.len() {
            Ok(())
        } else {
            Err(CodecError::TrailingBytes)
        }
    }
}

/// The fixed-width words are little-endian, and a byte string is its 32-bit length, then its
/// bytes.
pub proof fn lemma_words_little_endian(v16: u16, v32: u32, b: Seq<u8>)
    ensures
        le16(v16) == spec_u16_to_le_bytes(v16),
        le32(v32) == spec_u32_to_le_bytes(v32),
        enc_bytes(b) == spec_u32_to_le_bytes(b.len() as u32) + b,
        le32(v32).len() == 4,
{
    lemma_le32(v32);
}

} // verus!
