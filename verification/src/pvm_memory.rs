//! The sparse, page-permissioned memory of the reference PVM machine.
//!
//! Pages of `PVM_PAGE_SIZE` bytes are mapped explicitly, readable once mapped and writable only
//! when mapped writable. The first page is protected: no access below `PVM_PROTECTED_BYTES`
//! succeeds. An access covers one to eight consecutive bytes and faults at the first byte whose
//! page does not permit it; a write that faults part-way keeps the bytes written before the
//! fault.
use crate::translation::TranslationError;
use std::collections::BTreeMap;
use vstd::bytes::*;
use vstd::prelude::*;
use vstd::slice::slice_subrange;

verus! {

broadcast use vstd::seq_lib::group_seq_properties;

pub const PVM_PAGE_SIZE: u32 = 4096;

pub const PVM_PROTECTED_BYTES: u32 = PVM_PAGE_SIZE;

pub const M3_MEMORY_BYTES: usize = 16384;

/// The mathematical value of a memory: the writability of each mapped page, and the bytes that
/// were ever written (every other byte of a mapped page reads as zero).
pub struct MemoryModel {
    pub pages: Map<u32, bool>,
    pub bytes: Map<u32, u8>,
}

pub open spec fn page_of(a: int) -> int {
    a / PVM_PAGE_SIZE as int
}

pub open spec fn mapped(m: MemoryModel, a: int) -> bool {
    m.pages.contains_key(page_of(a) as u32)
}

pub open spec fn writable(m: MemoryModel, a: int) -> bool {
    mapped(m, a) && m.pages[page_of(a) as u32]
}

/// Every stored byte lies in a mapped page, so a page mapped for the first time reads zero.
pub open spec fn memory_wf(m: MemoryModel) -> bool {
    forall|a: u32| #[trigger] m.bytes.contains_key(a) ==> mapped(m, a as int)
}

pub open spec fn byte_at(m: MemoryModel, a: int) -> u8 {
    if m.bytes.contains_key(a as u32) {
        m.bytes[a as u32]
    } else {
        0
    }
}

/// The admissible access ranges: one to eight bytes, within the address space, above the
/// protected page.
pub open spec fn range_check(address: u32, width: int) -> Result<(), TranslationError> {
    if width == 0 || width > 8 || address + width - 1 > u32::MAX || address
        < PVM_PROTECTED_BYTES {
        Err(TranslationError::MemoryFault { address })
    } else {
        Ok(())
    }
}

/// The least `k < n` with `!ok(k)`, or `n` when there is none.
pub open spec fn first_miss(ok: spec_fn(int) -> bool, n: nat) -> nat
    decreases n,
{
    if n == 0 {
        0
    } else {
        let k = first_miss(ok, (n - 1) as nat);
        if k < n - 1 {
            k
        } else if ok(n - 1) {
            n
        } else {
            (n - 1) as nat
        }
    }
}

pub open spec fn mapped_from(m: MemoryModel, address: u32) -> spec_fn(int) -> bool {
    |j: int| mapped(m, address + j)
}

pub open spec fn writable_from(m: MemoryModel, address: u32) -> spec_fn(int) -> bool {
    |j: int| writable(m, address + j)
}

/// The outcome of reading `width` bytes at `address`.
pub open spec fn read_bytes_result(m: MemoryModel, address: u32, width: int) -> Result<
    Seq<u8>,
    TranslationError,
> {
    match range_check(address, width) {
        Err(e) => Err(e),
        Ok(_) => {
            let k = first_miss(mapped_from(m, address), width as nat);
            if k < width {
                Err(TranslationError::MemoryFault { address: (address + k) as u32 })
            } else {
                Ok(Seq::new(width as nat, |j: int| byte_at(m, address + j)))
            }
        },
    }
}

/// The little-endian value of at most eight bytes.
pub open spec fn le_value(s: Seq<u8>) -> u64 {
    spec_u64_from_le_bytes(s + Seq::new((8 - s.len()) as nat, |j: int| 0u8))
}

/// The outcome of reading a `width`-byte little-endian value at `address`.
pub open spec fn read_result(m: MemoryModel, address: u32, width: int) -> Result<
    u64,
    TranslationError,
> {
    match read_bytes_result(m, address, width) {
        Ok(s) => Ok(le_value(s)),
        Err(e) => Err(e),
    }
}

/// `bytes` with `data` stored from `address` on.
pub open spec fn stored(bytes: Map<u32, u8>, address: u32, data: Seq<u8>) -> Map<u32, u8> {
    Map::new(
        |a: u32| bytes.contains_key(a) || (address <= a < address + data.len()),
        |a: u32|
            if address <= a < address + data.len() {
                data[a - address]
            } else {
                bytes[a]
            },
    )
}

/// The outcome of writing `data` at `address`.
pub open spec fn write_bytes_result(m: MemoryModel, address: u32, data: Seq<u8>) -> Result<
    (),
    TranslationError,
> {
    match range_check(address, data.len() as int) {
        Err(e) => Err(e),
        Ok(_) => {
            let k = first_miss(writable_from(m, address), data.len());
            if k < data.len() {
                Err(TranslationError::MemoryFault { address: (address + k) as u32 })
            } else {
                Ok(())
            }
        },
    }
}

/// The memory after writing `data` at `address`: every byte before the first one that faults
/// is stored.
pub open spec fn after_write_bytes(m: MemoryModel, address: u32, data: Seq<u8>) -> MemoryModel {
    match range_check(address, data.len() as int) {
        Err(_) => m,
        Ok(_) => {
            let k = first_miss(writable_from(m, address), data.len());
            MemoryModel { pages: m.pages, bytes: stored(m.bytes, address, data.take(k as int)) }
        },
    }
}

/// The low `width` bytes of `value`, little-endian.
pub open spec fn le_prefix(value: u64, width: int) -> Seq<u8> {
    spec_u64_to_le_bytes(value).take(width)
}

/// The address at which mapping `page` is checked: the page's first byte, saturated.
pub open spec fn page_address(page: u32) -> u32 {
    if page * PVM_PAGE_SIZE > u32::MAX {
        u32::MAX
    } else {
        (page * PVM_PAGE_SIZE) as u32
    }
}

pub open spec fn map_page_result(page: u32) -> Result<(), TranslationError> {
    if page_address(page) < PVM_PROTECTED_BYTES {
        Err(TranslationError::MemoryFault { address: page_address(page) })
    } else {
        Ok(())
    }
}

pub proof fn lemma_first_miss(ok: spec_fn(int) -> bool, n: nat)
    ensures
        first_miss(ok, n) <= n,
        forall|j: int| 0 <= j < first_miss(ok, n) ==> #[trigger] ok(j),
        first_miss(ok, n) < n ==> !ok(first_miss(ok, n) as int),
    decreases n,
{
    if n > 0 {
        lemma_first_miss(ok, (n - 1) as nat);
    }
}

pub proof fn lemma_first_miss_stable(ok: spec_fn(int) -> bool, m: nat, n: nat)
    requires
        m <= n,
        first_miss(ok, m) < m,
    ensures
        first_miss(ok, n) == first_miss(ok, m),
    decreases n,
{
    if n > m {
        lemma_first_miss_stable(ok, m, (n - 1) as nat);
    }
}

pub proof fn lemma_first_miss_all(ok: spec_fn(int) -> bool, n: nat)
    requires
        forall|j: int| 0 <= j < n ==> #[trigger] ok(j),
    ensures
        first_miss(ok, n) == n,
    decreases n,
{
    if n > 0 {
        lemma_first_miss_all(ok, (n - 1) as nat);
    }
}

/// The little-endian value of at most eight bytes.
pub fn le_u64(bytes: &[u8]) -> (v: u64)
    requires
        bytes@.len() <= 8,
    ensures
        v == le_value(bytes@),
{
    let ghost s = bytes@;
    let mut padded: Vec<u8> = Vec::new();
    let mut i: usize = 0;
    while i < bytes.len()
        invariant
            0 <= i <= s.len(),
            s == bytes@,
            padded@ == s.take(i as int),
        decreases s.len() - i,
    {
        padded.push(bytes[i]);
        i = i + 1;
        assert(padded@ =~= s.take(i as int));
    }
    assert(s.take(s.len() as int) =~= s);
    while padded.len() < 8
        invariant
            s.len() <= 8,
            s.len() <= padded@.len() <= 8,
            padded@ == s + Seq::new((padded@.len() - s.len()) as nat, |j: int| 0u8),
        decreases 8 - padded@.len(),
    {
        padded.push(0);
        assert(padded@ =~= s + Seq::new((padded@.len() - s.len()) as nat, |j: int| 0u8));
    }
    u64_from_le_bytes(padded.as_slice())
}

/// The reference PVM memory.
#[derive(Debug, PartialEq, Eq)]
pub struct PvmMemoryV0 {
    bytes: BTreeMap<u32, u8>,
    writable_pages: BTreeMap<u32, bool>,
}

impl View for PvmMemoryV0 {
    type V = MemoryModel;

    closed spec fn view(&self) -> MemoryModel {
        MemoryModel { pages: self.writable_pages@, bytes: self.bytes@ }
    }
}

impl PvmMemoryV0 {
    #[verifier::type_invariant]
    spec fn bytes_in_mapped_pages(self) -> bool {
        memory_wf(self@)
    }
}

impl Clone for PvmMemoryV0 {
    fn clone(&self) -> (r: Self)
        ensures
            r@ == self@,
    {
        proof {
            use_type_invariant(self);
        }
        PvmMemoryV0 { bytes: self.bytes.clone(), writable_pages: self.writable_pages.clone() }
    }
}

impl Default for PvmMemoryV0 {
    fn default() -> (r: Self)
        ensures
            memory_wf(r@),
            r@.pages == Map::<u32, bool>::empty(),
            r@.bytes == Map::<u32, u8>::empty(),
    {
        PvmMemoryV0 { bytes: BTreeMap::new(), writable_pages: BTreeMap::new() }
    }
}

impl PvmMemoryV0 {
    /// A memory with no page mapped.
    pub fn new() -> (r: Self)
        ensures
            memory_wf(r@),
            r@.pages == Map::<u32, bool>::empty(),
            r@.bytes == Map::<u32, u8>::empty(),
    {
        PvmMemoryV0 { bytes: BTreeMap::new(), writable_pages: BTreeMap::new() }
    }

    /// Maps `page` (zero-filled the first time it is mapped) with the given writability.
    pub fn map_zeroed_page(&mut self, page: u32, writable: bool) -> (r: Result<(), TranslationError>)
        ensures
            r == map_page_result(page),
            r is Ok ==> final(self)@ == (MemoryModel {
                pages: old(self)@.pages.insert(page, writable),
                bytes: old(self)@.bytes,
            }),
            r is Err ==> final(self)@ == old(self)@,
            memory_wf(final(self)@),
            r is Ok && !old(self)@.pages.contains_key(page) ==> forall|a: u32|
                page_of(a as int) == page ==> byte_at(final(self)@, a as int) == 0,
    {
        proof {
            use_type_invariant(&*self);
        }
        let address = if page > u32::MAX / PVM_PAGE_SIZE {
            u32::MAX
        } else {
            page * PVM_PAGE_SIZE
        };
        if address < PVM_PROTECTED_BYTES {
            return Err(TranslationError::MemoryFault { address });
        }
        let mut taken = PvmMemoryV0::new();
        std::mem::swap(self, &mut taken);
        proof {
            use_type_invariant(&taken);
        }
        let PvmMemoryV0 { bytes, mut writable_pages } = taken;
        let ghost before = MemoryModel { pages: writable_pages@, bytes: bytes@ };
        writable_pages.insert(page, writable);
        proof {
            assert forall|a: u32| #[trigger] bytes@.contains_key(a) implies writable_pages@.contains_key(
                page_of(a as int) as u32,
            ) by {
                assert(mapped(before, a as int));
            }
            assert forall|a: u32| page_of(a as int) == page && !before.pages.contains_key(page)
                implies !bytes@.contains_key(a) by {
                if bytes@.contains_key(a) {
                    assert(mapped(before, a as int));
                }
            }
        }
        *self = PvmMemoryV0 { bytes, writable_pages };
        Ok(())
    }

    fn check_range(&self, address: u32, width: usize) -> (r: Result<(), TranslationError>)
        ensures
            r == range_check(address, width as int),
    {
        if width == 0 || width > 8 {
            return Err(TranslationError::MemoryFault { address });
        }
        let last = (width - 1) as u32;
        if address > u32::MAX - last {
            return Err(TranslationError::MemoryFault { address });
        }
        if address < PVM_PROTECTED_BYTES {
            return Err(TranslationError::MemoryFault { address });
        }
        Ok(())
    }

    /// Reads `width` bytes at `address`.
    pub fn read_bytes(&self, address: u32, width: usize) -> (r: Result<Vec<u8>, TranslationError>)
        ensures
            match read_bytes_result(self@, address, width as int) {
                Ok(s) => r is Ok && r->Ok_0@ == s,
                Err(e) => r == Err::<Vec<u8>, TranslationError>(e),
            },
    {
        let checked = self.check_range(address, width);
        if let Err(e) = checked {
            return Err(e);
        }
        let ghost m = self@;
        let mut output: Vec<u8> = Vec::new();
        let mut offset: usize = 0;
        while offset < width
            invariant
                1 <= width <= 8,
                address + width - 1 <= u32::MAX,
                range_check(address, width as int) is Ok,
                m == self@,
                0 <= offset <= width,
                first_miss(mapped_from(m, address), offset as nat) == offset,
                output@ == Seq::new(offset as nat, |j: int| byte_at(m, address + j)),
            decreases width - offset,
        {
            let at = address + offset as u32;
            let page = at / PVM_PAGE_SIZE;
            if !self.writable_pages.contains_key(&page) {
                proof {
                    assert(!mapped_from(m, address)(offset as int));
                    assert(first_miss(mapped_from(m, address), (offset + 1) as nat) == offset);
                    lemma_first_miss_stable(
                        mapped_from(m, address),
                        (offset + 1) as nat,
                        width as nat,
                    );
                }
                return Err(TranslationError::MemoryFault { address: at });
            }
            let value: u8 = match self.bytes.get(&at) {
                Some(v) => *v,
                None => 0,
            };
            output.push(value);
            proof {
                assert(mapped_from(m, address)(offset as int));
                assert(output@ =~= Seq::new((offset + 1) as nat, |j: int| byte_at(m, address + j)));
            }
            offset = offset + 1;
        }
        Ok(output)
    }

    /// Reads a `width`-byte little-endian value at `address`.
    pub fn read(&self, address: u32, width: usize) -> (r: Result<u64, TranslationError>)
        ensures
            r == read_result(self@, address, width as int),
    {
        let bytes = match self.read_bytes(address, width) {
            Ok(b) => b,
            Err(e) => return Err(e),
        };
        Ok(le_u64(bytes.as_slice()))
    }

    /// Writes `bytes` at `address`.
    pub fn write_bytes(&mut self, address: u32, bytes: &[u8]) -> (r: Result<(), TranslationError>)
        ensures
            r == write_bytes_result(old(self)@, address, bytes@),
            final(self)@ == after_write_bytes(old(self)@, address, bytes@),
            memory_wf(final(self)@),
    {
        proof {
            use_type_invariant(&*self);
        }
        let checked = self.check_range(address, bytes.len());
        if let Err(e) = checked {
            return Err(e);
        }
        let ghost m = self@;
        let mut taken = PvmMemoryV0::new();
        std::mem::swap(self, &mut taken);
        proof {
            use_type_invariant(&taken);
        }
        let PvmMemoryV0 { bytes: mut stored_bytes, writable_pages } = taken;
        let mut offset: usize = 0;
        while offset < bytes.len()
            invariant
                1 <= bytes@.len() <= 8,
                address + bytes@.len() - 1 <= u32::MAX,
                range_check(address, bytes@.len() as int) is Ok,
                m == old(self)@,
                writable_pages@ == m.pages,
                0 <= offset <= bytes@.len(),
                first_miss(writable_from(m, address), offset as nat) == offset,
                stored_bytes@ == stored(m.bytes, address, bytes@.take(offset as int)),
                memory_wf(m),
                forall|a: u32| #[trigger] stored_bytes@.contains_key(a) ==> writable_pages@.contains_key(
                    page_of(a as int) as u32,
                ),
            decreases bytes@.len() - offset,
        {
            let at = address + offset as u32;
            let page = at / PVM_PAGE_SIZE;
            let permitted = match writable_pages.get(&page) {
                Some(w) => *w,
                None => false,
            };
            if !permitted {
                proof {
                    assert(!writable_from(m, address)(offset as int));
                    assert(first_miss(writable_from(m, address), (offset + 1) as nat) == offset);
                    lemma_first_miss_stable(
                        writable_from(m, address),
                        (offset + 1) as nat,
                        bytes@.len(),
                    );
                }
                *self = PvmMemoryV0 { bytes: stored_bytes, writable_pages };
                return Err(TranslationError::MemoryFault { address: at });
            }
            let ghost prev = stored_bytes@;
            stored_bytes.insert(at, bytes[offset]);
            proof {
                assert(writable_from(m, address)(offset as int));
                assert(writable_pages@.contains_key(page_of(at as int) as u32));
                assert forall|a: u32| #[trigger] stored_bytes@.contains_key(a) implies writable_pages@.contains_key(
                    page_of(a as int) as u32,
                ) by {
                    if a != at {
                        assert(prev.contains_key(a));
                    }
                }
                assert(stored_bytes@ =~= stored(m.bytes, address, bytes@.take(offset + 1)));
            }
            offset = offset + 1;
        }
        proof {
            assert(bytes@.take(offset as int) =~= bytes@.take(
                first_miss(writable_from(m, address), bytes@.len()) as int,
            ));
        }
        *self = PvmMemoryV0 { bytes: stored_bytes, writable_pages };
        Ok(())
    }

    /// Writes the low `width` bytes of `value`, little-endian, at `address`.
    pub fn write(&mut self, address: u32, width: usize, value: u64) -> (r: Result<
        (),
        TranslationError,
    >)
        requires
            width <= 8,
        ensures
            r == write_bytes_result(old(self)@, address, le_prefix(value, width as int)),
            final(self)@ == after_write_bytes(old(self)@, address, le_prefix(value, width as int)),
            memory_wf(final(self)@),
    {
        let bytes = u64_to_le_bytes(value);
        let prefix = slice_subrange(bytes.as_slice(), 0, width);
        assert(prefix@ =~= le_prefix(value, width as int));
        self.write_bytes(address, prefix)
    }
}


/// `256` to the power `w`.
pub open spec fn pow256(w: nat) -> nat
    decreases w,
{
    if w == 0 {
        1
    } else {
        256 * pow256((w - 1) as nat)
    }
}

/// The value of the low `width` bytes of `value`, read back little-endian, is `value` modulo
/// `256` to the power `width`.
pub proof fn lemma_le_value_of_prefix(v: u64, w: int)
    requires
        1 <= w <= 8,
    ensures
        le_value(le_prefix(v, w)) as int == v as int % pow256(w as nat) as int,
{
    let s = le_prefix(v, w) + Seq::new((8 - w) as nat, |j: int| 0u8);
    let x = spec_u64_from_le_bytes(s);
    lemma_auto_spec_u64_to_from_le_bytes();
    spec_u64_to_le_bytes_to_open(x);
    spec_u64_to_le_bytes_to_open(v);
    assert(spec_u64_to_le_bytes(v).len() == 8);
    assert(le_prefix(v, w).len() == w);
    assert(s.len() == 8);
    assert(spec_u64_to_le_bytes(x) == s);
    let bx = spec_u64_to_le_bytes_open(x);
    let bv = spec_u64_to_le_bytes_open(v);
    assert forall|k: int| 0 <= k < 8 implies #[trigger] bx[k] == (if k < w { bv[k] } else { 0u8 }) by {
        assert(bx[k] == s[k]);
    }
    assert((x & 0xffu64) < 256 && ((x >> 8u64) & 0xffu64) < 256 && ((x >> 16u64) & 0xffu64) < 256 && ((x >> 24u64) & 0xffu64) < 256 && ((x >> 32u64) & 0xffu64) < 256 && ((x >> 40u64) & 0xffu64) < 256 && ((x >> 48u64) & 0xffu64) < 256 && ((x >> 56u64) & 0xffu64) < 256 && (v & 0xffu64) < 256 && ((v >> 8u64) & 0xffu64) < 256 && ((v >> 16u64) & 0xffu64) < 256 && ((v >> 24u64) & 0xffu64) < 256 && ((v >> 32u64) & 0xffu64) < 256 && ((v >> 40u64) & 0xffu64) < 256 && ((v >> 48u64) & 0xffu64) < 256 && ((v >> 56u64) & 0xffu64) < 256) by (bit_vector);
    assert(bx[0] == (x & 0xffu64) as u8);
    assert(bv[0] == (v & 0xffu64) as u8);
    assert(bx[1] == ((x >> 8u64) & 0xffu64) as u8);
    assert(bv[1] == ((v >> 8u64) & 0xffu64) as u8);
    assert(bx[2] == ((x >> 16u64) & 0xffu64) as u8);
    assert(bv[2] == ((v >> 16u64) & 0xffu64) as u8);
    assert(bx[3] == ((x >> 24u64) & 0xffu64) as u8);
    assert(bv[3] == ((v >> 24u64) & 0xffu64) as u8);
    assert(bx[4] == ((x >> 32u64) & 0xffu64) as u8);
    assert(bv[4] == ((v >> 32u64) & 0xffu64) as u8);
    assert(bx[5] == ((x >> 40u64) & 0xffu64) as u8);
    assert(bv[5] == ((v >> 40u64) & 0xffu64) as u8);
    assert(bx[6] == ((x >> 48u64) & 0xffu64) as u8);
    assert(bv[6] == ((v >> 48u64) & 0xffu64) as u8);
    assert(bx[7] == ((x >> 56u64) & 0xffu64) as u8);
    assert(bv[7] == ((v >> 56u64) & 0xffu64) as u8);

    reveal_with_fuel(pow256, 9);
        if w == 1 {
            assert(pow256(1) == 0x100);
            assert(x as int == v as int % 0x100) by (bit_vector)
                requires
                    (x & 0xffu64) == (v & 0xffu64),
                    ((x >> 8u64) & 0xffu64) == 0u64,
                    ((x >> 16u64) & 0xffu64) == 0u64,
                    ((x >> 24u64) & 0xffu64) == 0u64,
                    ((x >> 32u64) & 0xffu64) == 0u64,
                    ((x >> 40u64) & 0xffu64) == 0u64,
                    ((x >> 48u64) & 0xffu64) == 0u64,
                    ((x >> 56u64) & 0xffu64) == 0u64,
            ;
        }
        if w == 2 {
            assert(pow256(2) == 0x10000);
            assert(x as int == v as int % 0x10000) by (bit_vector)
                requires
                    (x & 0xffu64) == (v & 0xffu64),
                    ((x >> 8u64) & 0xffu64) == ((v >> 8u64) & 0xffu64),
                    ((x >> 16u64) & 0xffu64) == 0u64,
                    ((x >> 24u64) & 0xffu64) == 0u64,
                    ((x >> 32u64) & 0xffu64) == 0u64,
                    ((x >> 40u64) & 0xffu64) == 0u64,
                    ((x >> 48u64) & 0xffu64) == 0u64,
                    ((x >> 56u64) & 0xffu64) == 0u64,
            ;
        }
        if w == 3 {
            assert(pow256(3) == 0x1000000);
            assert(x as int == v as int % 0x1000000) by (bit_vector)
                requires
                    (x & 0xffu64) == (v & 0xffu64),
                    ((x >> 8u64) & 0xffu64) == ((v >> 8u64) & 0xffu64),
                    ((x >> 16u64) & 0xffu64) == ((v >> 16u64) & 0xffu64),
                    ((x >> 24u64) & 0xffu64) == 0u64,
                    ((x >> 32u64) & 0xffu64) == 0u64,
                    ((x >> 40u64) & 0xffu64) == 0u64,
                    ((x >> 48u64) & 0xffu64) == 0u64,
                    ((x >> 56u64) & 0xffu64) == 0u64,
            ;
        }
        if w == 4 {
            assert(pow256(4) == 0x100000000);
            assert(x as int == v as int % 0x100000000) by (bit_vector)
                requires
                    (x & 0xffu64) == (v & 0xffu64),
                    ((x >> 8u64) & 0xffu64) == ((v >> 8u64) & 0xffu64),
                    ((x >> 16u64) & 0xffu64) == ((v >> 16u64) & 0xffu64),
                    ((x >> 24u64) & 0xffu64) == ((v >> 24u64) & 0xffu64),
                    ((x >> 32u64) & 0xffu64) == 0u64,
                    ((x >> 40u64) & 0xffu64) == 0u64,
                    ((x >> 48u64) & 0xffu64) == 0u64,
                    ((x >> 56u64) & 0xffu64) == 0u64,
            ;
        }
        if w == 5 {
            assert(pow256(5) == 0x10000000000);
            assert(x as int == v as int % 0x10000000000) by (bit_vector)
                requires
                    (x & 0xffu64) == (v & 0xffu64),
                    ((x >> 8u64) & 0xffu64) == ((v >> 8u64) & 0xffu64),
                    ((x >> 16u64) & 0xffu64) == ((v >> 16u64) & 0xffu64),
                    ((x >> 24u64) & 0xffu64) == ((v >> 24u64) & 0xffu64),
                    ((x >> 32u64) & 0xffu64) == ((v >> 32u64) & 0xffu64),
                    ((x >> 40u64) & 0xffu64) == 0u64,
                    ((x >> 48u64) & 0xffu64) == 0u64,
                    ((x >> 56u64) & 0xffu64) == 0u64,
            ;
        }
        if w == 6 {
            assert(pow256(6) == 0x1000000000000);
            assert(x as int == v as int % 0x1000000000000) by (bit_vector)
                requires
                    (x & 0xffu64) == (v & 0xffu64),
                    ((x >> 8u64) & 0xffu64) == ((v >> 8u64) & 0xffu64),
                    ((x >> 16u64) & 0xffu64) == ((v >> 16u64) & 0xffu64),
                    ((x >> 24u64) & 0xffu64) == ((v >> 24u64) & 0xffu64),
                    ((x >> 32u64) & 0xffu64) == ((v >> 32u64) & 0xffu64),
                    ((x >> 40u64) & 0xffu64) == ((v >> 40u64) & 0xffu64),
                    ((x >> 48u64) & 0xffu64) == 0u64,
                    ((x >> 56u64) & 0xffu64) == 0u64,
            ;
        }
        if w == 7 {
            assert(pow256(7) == 0x100000000000000);
            assert(x as int == v as int % 0x100000000000000) by (bit_vector)
                requires
                    (x & 0xffu64) == (v & 0xffu64),
                    ((x >> 8u64) & 0xffu64) == ((v >> 8u64) & 0xffu64),
                    ((x >> 16u64) & 0xffu64) == ((v >> 16u64) & 0xffu64),
                    ((x >> 24u64) & 0xffu64) == ((v >> 24u64) & 0xffu64),
                    ((x >> 32u64) & 0xffu64) == ((v >> 32u64) & 0xffu64),
                    ((x >> 40u64) & 0xffu64) == ((v >> 40u64) & 0xffu64),
                    ((x >> 48u64) & 0xffu64) == ((v >> 48u64) & 0xffu64),
                    ((x >> 56u64) & 0xffu64) == 0u64,
            ;
        }
        if w == 8 {
            assert(pow256(8) == 0x10000000000000000);
            assert(x == v) by (bit_vector)
                requires
                    (x & 0xffu64) == (v & 0xffu64),
                    ((x >> 8u64) & 0xffu64) == ((v >> 8u64) & 0xffu64),
                    ((x >> 16u64) & 0xffu64) == ((v >> 16u64) & 0xffu64),
                    ((x >> 24u64) & 0xffu64) == ((v >> 24u64) & 0xffu64),
                    ((x >> 32u64) & 0xffu64) == ((v >> 32u64) & 0xffu64),
                    ((x >> 40u64) & 0xffu64) == ((v >> 40u64) & 0xffu64),
                    ((x >> 48u64) & 0xffu64) == ((v >> 48u64) & 0xffu64),
                    ((x >> 56u64) & 0xffu64) == ((v >> 56u64) & 0xffu64),
            ;
        }
}

/// A successful write is read back exactly: reading the written range returns the bytes written.
pub proof fn lemma_read_back_written_bytes(m: MemoryModel, address: u32, data: Seq<u8>)
    requires
        write_bytes_result(m, address, data) is Ok,
    ensures
        read_bytes_result(after_write_bytes(m, address, data), address, data.len() as int)
            == Ok::<Seq<u8>, TranslationError>(data),
{
    let ok = writable_from(m, address);
    lemma_first_miss(ok, data.len());
    let m2 = after_write_bytes(m, address, data);
    assert(data.take(data.len() as int) =~= data);
    assert forall|j: int| 0 <= j < data.len() implies #[trigger] mapped_from(m2, address)(j) by {
        assert(ok(j));
    }
    lemma_first_miss_all(mapped_from(m2, address), data.len());
    assert(Seq::new(data.len(), |j: int| byte_at(m2, address + j)) =~= data);
}

/// A write changes neither the page map nor any byte outside the written range.
pub proof fn lemma_write_frame(m: MemoryModel, address: u32, data: Seq<u8>, a: u32)
    requires
        !(address <= a < address + data.len()),
    ensures
        after_write_bytes(m, address, data).pages == m.pages,
        byte_at(after_write_bytes(m, address, data), a as int) == byte_at(m, a as int),
{
}

/// A successful write of a `width`-byte value is read back as that value modulo `256` to the
/// power `width`.
pub proof fn lemma_read_back_written_value(m: MemoryModel, address: u32, width: int, value: u64)
    requires
        1 <= width <= 8,
        write_bytes_result(m, address, le_prefix(value, width)) is Ok,
    ensures
        read_result(after_write_bytes(m, address, le_prefix(value, width)), address, width)
            matches Ok(v) && v as int == value as int % pow256(width as nat) as int,
{
    lemma_auto_spec_u64_to_from_le_bytes();
    assert(spec_u64_to_le_bytes(value).len() == 8);
    assert(le_prefix(value, width).len() == width);
    lemma_read_back_written_bytes(m, address, le_prefix(value, width));
    lemma_le_value_of_prefix(value, width);
}

} // verus!
