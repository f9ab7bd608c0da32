//! The FETCH/EXPORT reference program as PVM code bytes, and its JAM program blob.
use crate::program::{InstructionModel, PvmInstructionV1, RegisterOperandsV1};
use vstd::bytes::*;
use vstd::prelude::*;

verus! {

broadcast use vstd::seq_lib::group_seq_properties;

/// The byte length of one segment.
pub const ADAPTER_SEGMENT_SIZE: u64 = 4104;

/// The memory offset that FETCH writes to and EXPORT reads from.
pub const ADAPTER_BUFFER: u64 = 0x20000;

/// The word that the program xors into the fetched segment.
pub const ADAPTER_XOR_MASK: u32 = 0xA5A5_A5A5;

// ---------------------------------------------------------------------------------------------
// Natural-number encoding
// ---------------------------------------------------------------------------------------------
/// Whether the bits of `x` above its low `l` bytes fit in the `7 - l` free bits of a prefix.
pub open spec fn fits_prefix(x: u64, l: int) -> bool {
    (x >> (8 * l) as u64) < (1u64 << (7 - l) as u64)
}

/// The least `l` from `from` to 7 whose prefix fits, or 8.
pub open spec fn prefix_length(x: u64, from: int) -> int
    decreases 8 - from,
{
    if from >= 8 {
        8
    } else if fits_prefix(x, from) {
        from
    } else {
        prefix_length(x, from + 1)
    }
}

/// The prefix byte with `l` leading one bits.
pub open spec fn prefix_byte(l: int) -> u8 {
    ((0xFFu16 << (8 - l) as u16) as u8)
}

/// The variable-length natural-number encoding: a value below 128 as one byte, otherwise a
/// prefix byte whose leading ones count the little-endian bytes that follow and whose
/// remaining bits carry the value's high bits, or `0xFF` and all eight bytes.
pub open spec fn natural_encoding(x: u64) -> Seq<u8> {
    if x < 0x80 {
        seq![x as u8]
    } else {
        let l = prefix_length(x, 1);
        if l <= 7 {
            seq![prefix_byte(l) | ((x >> (8 * l) as u64) as u8)] + spec_u64_to_le_bytes(x).take(l)
        } else {
            seq![0xFFu8] + spec_u64_to_le_bytes(x)
        }
    }
}

/// Appends the natural-number encoding of `value`.
pub fn fnencode(value: usize, out: &mut Vec<u8>)
    ensures
        final(out)@ == old(out)@ + natural_encoding(value as u64),
{
    if value == 0 {
        out.push(0);
    } else if value < 0x80 {
        out.push(value as u8);
    } else {
        let v = value as u64;
        let bytes = u64_to_le_bytes(v);
        let mut length: usize = 1;
        while length <= 7
            invariant
                1 <= length <= 8,
                v == value as u64,
                v >= 0x80,
                bytes@ == spec_u64_to_le_bytes(v),
                bytes@.len() == 8,
                prefix_length(v, 1) == prefix_length(v, length as int),
                out@ == old(out)@,
            decreases 8 - length,
        {
            let high_bits = v >> (8 * length as u64);
            if high_bits < (1u64 << (7 - length as u64)) {
                let prefix = (0xFFu16 << (8 - length as u16)) as u8;
                out.push(prefix | high_bits as u8);
                let mut i: usize = 0;
                while i < length
                    invariant
                        0 <= i <= length <= 7,
                        bytes@.len() == 8,
                        v == value as u64,
                        v >= 0x80,
                        bytes@ == spec_u64_to_le_bytes(v),
                        prefix_length(v, 1) == length,
                        prefix == prefix_byte(length as int),
                        high_bits == v >> (8 * length) as u64,
                        out@ == old(out)@ + seq![prefix | high_bits as u8] + bytes@.take(i as int),
                    decreases length - i,
                {
                    out.push(bytes[i]);
                    i = i + 1;
                    assert(out@ =~= old(out)@ + seq![prefix | high_bits as u8] + bytes@.take(i as int));
                }
                assert(natural_encoding(v) == seq![prefix | high_bits as u8] + bytes@.take(length as int));
                assert(out@ =~= old(out)@ + natural_encoding(v));
                return;
            }
            length = length + 1;
        }
        out.push(0xFF);
        let mut i: usize = 0;
        while i < 8
            invariant
                0 <= i <= 8,
                bytes@.len() == 8,
                v == value as u64,
                prefix_length(v, 1) == 8,
                v >= 0x80,
                bytes@ == spec_u64_to_le_bytes(v),
                out@ == old(out)@ + seq![0xFFu8] + bytes@.take(i as int),
            decreases 8 - i,
        {
            out.push(bytes[i]);
            i = i + 1;
            assert(out@ =~= old(out)@ + seq![0xFFu8] + bytes@.take(i as int));
        }
        assert(bytes@.take(8) =~= bytes@);
    }
}

// ---------------------------------------------------------------------------------------------
// The reference program
// ---------------------------------------------------------------------------------------------
/// `LOAD_IMM_64 reg, value`, encoded.
pub open spec fn load_encoding(reg: u8, value: u64) -> Seq<u8> {
    seq![20u8, reg] + spec_u64_to_le_bytes(value)
}

pub open spec fn regs(rd: u8, ra: u8, rb: u8) -> RegisterOperandsV1 {
    RegisterOperandsV1 { rd, ra, rb }
}

/// Opcode, operands, immediate and encoding of each instruction of the reference program:
/// load the FETCH arguments, FETCH, load the fetched word, xor it with the mask, store it back,
/// load the EXPORT arguments, EXPORT, and jump from EXPORT's reply to the halt address.
pub open spec fn adapter_entries() -> Seq<(u8, RegisterOperandsV1, Seq<u8>, Seq<u8>)> {
    seq![
        (20u8, regs(0, 7, 0), spec_u64_to_le_bytes(ADAPTER_BUFFER), load_encoding(7, ADAPTER_BUFFER)),
        (20u8, regs(0, 8, 0), spec_u64_to_le_bytes(0), load_encoding(8, 0)),
        (20u8, regs(0, 9, 0), spec_u64_to_le_bytes(ADAPTER_SEGMENT_SIZE), load_encoding(9, ADAPTER_SEGMENT_SIZE)),
        (20u8, regs(0, 10, 0), spec_u64_to_le_bytes(6), load_encoding(10, 6)),
        (20u8, regs(0, 11, 0), spec_u64_to_le_bytes(0), load_encoding(11, 0)),
        (20u8, regs(0, 12, 0), spec_u64_to_le_bytes(0), load_encoding(12, 0)),
        (10u8, regs(0, 0, 0), spec_u32_to_le_bytes(1), seq![10u8] + spec_u32_to_le_bytes(1)),
        (56u8, regs(0, 1, 0), spec_u32_to_le_bytes(ADAPTER_BUFFER as u32), seq![56u8, 1] + spec_u32_to_le_bytes(ADAPTER_BUFFER as u32)),
        (20u8, regs(0, 2, 0), spec_u64_to_le_bytes(ADAPTER_XOR_MASK as u64), load_encoding(2, ADAPTER_XOR_MASK as u64)),
        (211u8, regs(1, 1, 2), Seq::empty(), seq![211u8, 0x21, 1]),
        (61u8, regs(0, 1, 0), spec_u32_to_le_bytes(ADAPTER_BUFFER as u32), seq![61u8, 1] + spec_u32_to_le_bytes(ADAPTER_BUFFER as u32)),
        (20u8, regs(0, 7, 0), spec_u64_to_le_bytes(ADAPTER_BUFFER), load_encoding(7, ADAPTER_BUFFER)),
        (20u8, regs(0, 8, 0), spec_u64_to_le_bytes(ADAPTER_SEGMENT_SIZE), load_encoding(8, ADAPTER_SEGMENT_SIZE)),
        (10u8, regs(0, 0, 0), spec_u32_to_le_bytes(7), seq![10u8] + spec_u32_to_le_bytes(7)),
        (50u8, regs(0, 7, 0), spec_u32_to_le_bytes(0xFFFE_FFFF), seq![50u8, 7] + spec_u32_to_le_bytes(0xFFFE_FFFF)),
    ]
}

/// The code of the first `k` entries.
pub open spec fn code_prefix(k: int) -> Seq<u8>
    decreases k,
{
    if k <= 0 {
        Seq::empty()
    } else {
        code_prefix(k - 1) + adapter_entries()[k - 1].3
    }
}

/// Instruction `k` of the reference program, at the offset of its encoding in the code.
pub open spec fn adapter_instruction(k: int) -> InstructionModel {
    let e = adapter_entries()[k];
    InstructionModel {
        pc: code_prefix(k).len() as u32,
        opcode: e.0,
        registers: e.1,
        immediate: e.2,
        pc_delta: 0,
    }
}

fn push_instruction(
    code: &mut Vec<u8>,
    instructions: &mut Vec<PvmInstructionV1>,
    opcode: u8,
    registers: RegisterOperandsV1,
    immediate: Vec<u8>,
    encoded: Vec<u8>,
)
    requires
        old(code)@.len() + encoded@.len() <= u32::MAX,
    ensures
        final(code)@ == old(code)@ + encoded@,
        final(instructions)@.len() == old(instructions)@.len() + 1,
        forall|k: int| 0 <= k < old(instructions)@.len() ==> final(instructions)@[k] == old(instructions)@[k],
        final(instructions)@[old(instructions)@.len() as int]@ == (InstructionModel {
            pc: old(code)@.len() as u32,
            opcode,
            registers,
            immediate: immediate@,
            pc_delta: 0,
        }),
{
    let pc = code.len() as u32;
    let mut encoded = encoded;
    code.append(&mut encoded);
    instructions.push(PvmInstructionV1 { pc, opcode, registers, immediate, pc_delta: 0 });
}

fn load(reg: u8, value: u64) -> (r: Vec<u8>)
    ensures
        r@ == load_encoding(reg, value),
{
    let mut bytes = vec![20u8, reg];
    let mut tail = u64_to_le_bytes(value);
    bytes.append(&mut tail);
    bytes
}

fn with_prefix(prefix: Vec<u8>, mut tail: Vec<u8>) -> (r: Vec<u8>)
    ensures
        r@ == prefix@ + tail@,
{
    let mut bytes = prefix;
    bytes.append(&mut tail);
    bytes
}

/// The code of the reference program and its instructions, each at the offset of its
/// encoding.
pub fn instruction_bytes() -> (r: (Vec<u8>, Vec<PvmInstructionV1>))
    ensures
        r.0@ == code_prefix(15),
        r.1@.len() == 15,
        forall|k: int| 0 <= k < 15 ==> (#[trigger] r.1@[k])@ == adapter_instruction(k),
{
    let mut code: Vec<u8> = Vec::new();
    let mut instructions: Vec<PvmInstructionV1> = Vec::new();
    let ghost es = adapter_entries();
    proof {
        lemma_auto_spec_u64_to_from_le_bytes();
        lemma_auto_spec_u32_to_from_le_bytes();
        reveal_with_fuel(code_prefix, 2);
    }
    assert(code@ =~= code_prefix(0));
    push_instruction(&mut code, &mut instructions, 20, RegisterOperandsV1 { rd: 0, ra: 7, rb: 0 }, u64_to_le_bytes(ADAPTER_BUFFER), load(7, ADAPTER_BUFFER));
    assert(code@ =~= code_prefix(1));
    push_instruction(&mut code, &mut instructions, 20, RegisterOperandsV1 { rd: 0, ra: 8, rb: 0 }, u64_to_le_bytes(0), load(8, 0));
    assert(code@ =~= code_prefix(2));
    push_instruction(&mut code, &mut instructions, 20, RegisterOperandsV1 { rd: 0, ra: 9, rb: 0 }, u64_to_le_bytes(ADAPTER_SEGMENT_SIZE), load(9, ADAPTER_SEGMENT_SIZE));
    assert(code@ =~= code_prefix(3));
    push_instruction(&mut code, &mut instructions, 20, RegisterOperandsV1 { rd: 0, ra: 10, rb: 0 }, u64_to_le_bytes(6), load(10, 6));
    assert(code@ =~= code_prefix(4));
    push_instruction(&mut code, &mut instructions, 20, RegisterOperandsV1 { rd: 0, ra: 11, rb: 0 }, u64_to_le_bytes(0), load(11, 0));
    assert(code@ =~= code_prefix(5));
    push_instruction(&mut code, &mut instructions, 20, RegisterOperandsV1 { rd: 0, ra: 12, rb: 0 }, u64_to_le_bytes(0), load(12, 0));
    assert(code@ =~= code_prefix(6));
    push_instruction(&mut code, &mut instructions, 10, RegisterOperandsV1 { rd: 0, ra: 0, rb: 0 }, u32_to_le_bytes(1), with_prefix(vec![10u8], u32_to_le_bytes(1)));
    assert(code@ =~= code_prefix(7));
    push_instruction(&mut code, &mut instructions, 56, RegisterOperandsV1 { rd: 0, ra: 1, rb: 0 }, u32_to_le_bytes(ADAPTER_BUFFER as u32), with_prefix(vec![56u8, 1], u32_to_le_bytes(ADAPTER_BUFFER as u32)));
    assert(code@ =~= code_prefix(8));
    push_instruction(&mut code, &mut instructions, 20, RegisterOperandsV1 { rd: 0, ra: 2, rb: 0 }, u64_to_le_bytes(ADAPTER_XOR_MASK as u64), load(2, ADAPTER_XOR_MASK as u64));
    assert(code@ =~= code_prefix(9));
    push_instruction(&mut code, &mut instructions, 211, RegisterOperandsV1 { rd: 1, ra: 1, rb: 2 }, Vec::new(), vec![211u8, 0x21, 1]);
    assert(code@ =~= code_prefix(10));
    push_instruction(&mut code, &mut instructions, 61, RegisterOperandsV1 { rd: 0, ra: 1, rb: 0 }, u32_to_le_bytes(ADAPTER_BUFFER as u32), with_prefix(vec![61u8, 1], u32_to_le_bytes(ADAPTER_BUFFER as u32)));
    assert(code@ =~= code_prefix(11));
    push_instruction(&mut code, &mut instructions, 20, RegisterOperandsV1 { rd: 0, ra: 7, rb: 0 }, u64_to_le_bytes(ADAPTER_BUFFER), load(7, ADAPTER_BUFFER));
    assert(code@ =~= code_prefix(12));
    push_instruction(&mut code, &mut instructions, 20, RegisterOperandsV1 { rd: 0, ra: 8, rb: 0 }, u64_to_le_bytes(ADAPTER_SEGMENT_SIZE), load(8, ADAPTER_SEGMENT_SIZE));
    assert(code@ =~= code_prefix(13));
    push_instruction(&mut code, &mut instructions, 10, RegisterOperandsV1 { rd: 0, ra: 0, rb: 0 }, u32_to_le_bytes(7), with_prefix(vec![10u8], u32_to_le_bytes(7)));
    assert(code@ =~= code_prefix(14));
    push_instruction(&mut code, &mut instructions, 50, RegisterOperandsV1 { rd: 0, ra: 7, rb: 0 }, u32_to_le_bytes(0xFFFE_FFFF), with_prefix(vec![50u8, 7], u32_to_le_bytes(0xFFFE_FFFF)));
    assert(code@ =~= code_prefix(15));
    (code, instructions)
}


// ---------------------------------------------------------------------------------------------
// The program blob
// ---------------------------------------------------------------------------------------------
/// The offsets of the reference program's instructions.
pub open spec fn adapter_pcs() -> Seq<int> {
    Seq::new(15, |k: int| code_prefix(k).len() as int)
}

pub proof fn lemma_code_prefix_lengths()
    ensures
        code_prefix(15).len() == 121,
        forall|k: int| 0 <= k < 15 ==> 0 <= #[trigger] code_prefix(k).len() <= 115,
{
    lemma_auto_spec_u64_to_from_le_bytes();
    lemma_auto_spec_u32_to_from_le_bytes();
    reveal_with_fuel(code_prefix, 2);
    assert(code_prefix(0).len() == 0);
    assert(code_prefix(1).len() == 10);
    assert(code_prefix(2).len() == 20);
    assert(code_prefix(3).len() == 30);
    assert(code_prefix(4).len() == 40);
    assert(code_prefix(5).len() == 50);
    assert(code_prefix(6).len() == 60);
    assert(code_prefix(7).len() == 65);
    assert(code_prefix(8).len() == 71);
    assert(code_prefix(9).len() == 81);
    assert(code_prefix(10).len() == 84);
    assert(code_prefix(11).len() == 90);
    assert(code_prefix(12).len() == 100);
    assert(code_prefix(13).len() == 110);
    assert(code_prefix(14).len() == 115);
    assert(code_prefix(15).len() == 121);
}

/// `v` with bit `pc % 8` of byte `pc / 8` set.
pub open spec fn set_bit(v: Seq<u8>, pc: int) -> Seq<u8> {
    v.update(pc / 8, v[pc / 8] | (1u8 << (pc % 8) as u8))
}

/// An `n`-byte bitmap with the bit of every offset in `pcs` set.
pub open spec fn valid_mask(pcs: Seq<int>, n: nat) -> Seq<u8>
    decreases pcs.len(),
{
    if pcs.len() == 0 {
        Seq::new(n, |i: int| 0u8)
    } else {
        set_bit(valid_mask(pcs.drop_last(), n), pcs.last())
    }
}

/// The code blob: no jump table, one-byte offsets, the code, and the bitmap of instruction
/// starts.
pub open spec fn c_blob_of(code: Seq<u8>) -> Seq<u8> {
    natural_encoding(0) + seq![1u8] + natural_encoding(code.len() as u64) + code + valid_mask(
        adapter_pcs(),
        ((code.len() + 7) / 8) as nat,
    )
}

/// The program blob: empty metadata, then a guest image with no read-only or read-write data,
/// two stack pages, and the code blob.
pub open spec fn program_blob(code: Seq<u8>) -> Seq<u8> {
    let c = c_blob_of(code);
    natural_encoding(0) + (seq![0u8, 0, 0, 0, 0, 0] + spec_u16_to_le_bytes(2) + seq![0u8, 0, 0]
        + spec_u32_to_le_bytes(c.len() as u32) + c)
}

/// The program blob of `code`, marking the instruction starts of the reference program.
pub fn code_blob(code: &[u8]) -> (r: Vec<u8>)
    requires
        code@.len() >= 113,
    ensures
        r@ == program_blob(code@),
{
    let mut c_blob: Vec<u8> = Vec::new();
    fnencode(0, &mut c_blob);
    c_blob.push(1);
    fnencode(code.len(), &mut c_blob);
    c_blob.extend_from_slice(code);
    let n = code.len() / 8 + if code.len() % 8 != 0 {
        1
    } else {
        0
    };
    assert(n == (code@.len() + 7) / 8);
    let mut valid: Vec<u8> = vec![0u8; n];
    let (_, instructions) = instruction_bytes();
    proof {
        lemma_code_prefix_lengths();
        assert(valid@ =~= valid_mask(adapter_pcs().take(0), n as nat));
    }
    let mut k: usize = 0;
    while k < instructions.len()
        invariant
            instructions@.len() == 15,
            forall|m: int| 0 <= m < 15 ==> (#[trigger] instructions@[m])@ == adapter_instruction(m),
            forall|m: int| 0 <= m < 15 ==> 0 <= #[trigger] code_prefix(m).len() <= 115,
            n == (code@.len() + 7) / 8,
            n >= 15,
            0 <= k <= 15,
            valid@ == valid_mask(adapter_pcs().take(k as int), n as nat),
            valid@.len() == n,
        decreases 15 - k,
    {
        let pc = instructions[k].pc as usize;
        assert(instructions@[k as int]@ == adapter_instruction(k as int));
        assert(pc == code_prefix(k as int).len());
        let byte = valid[pc / 8] | (1u8 << ((pc % 8) as u8));
        valid.set(pc / 8, byte);
        proof {
            assert(adapter_pcs().take(k + 1).drop_last() =~= adapter_pcs().take(k as int));
            assert(adapter_pcs().take(k + 1).last() == pc);
        }
        k = k + 1;
    }
    assert(adapter_pcs().take(15) =~= adapter_pcs());
    c_blob.extend_from_slice(valid.as_slice());
    let mut image: Vec<u8> = vec![0u8, 0, 0, 0, 0, 0];
    let mut stack = u16_to_le_bytes(2);
    image.append(&mut stack);
    image.push(0);
    image.push(0);
    image.push(0);
    let mut length = u32_to_le_bytes(c_blob.len() as u32);
    image.append(&mut length);
    let ghost c = c_blob@;
    image.append(&mut c_blob);
    let mut outer: Vec<u8> = Vec::new();
    fnencode(0, &mut outer);
    outer.append(&mut image);
    assert(c =~= c_blob_of(code@));
    assert(outer@ =~= program_blob(code@));
    outer
}

} // verus!
