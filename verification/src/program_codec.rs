//! The canonical encoding of `PvmProgramV1`, with its read-back laws.
use crate::codec::{
    at_is, enc_bytes, enc_bytes_fn, enc_seq, enc_vec, finish_read, fits_u32, le16, le32, le32_fn,
    lemma_at_is_concat, lemma_bytes_reads_back, lemma_enc_seq_push, lemma_le16, lemma_le32,
    lemma_read_bytes_back, lemma_read_u16_back, lemma_read_u32_back,
    lemma_read_vec_back, lemma_u32_reads_back, read_bytes, read_fixed, read_matches, reads_sized, lemma_read_vec_sized, reads_exact, lemma_read_vec_exact, lemma_read_bytes_exact,
    lemma_read_u32_exact, lemma_read_u16_exact, lemma_read_u8_exact, lemma_at_is_join,
    lemma_bytes_and_words_exact, lemma_exact_whole, lemma_read_bytes_sized, lemma_bytes_and_words_sized, any_u32_fn,
    read_u16, read_u32, read_u32_fn, read_u8, read_vec, reads_back, CanonicalCodec, CodecError,
    ReadResult, Reader, Writer, decode_matches, decodes_as,
};
use crate::program::{
    BlockModel, InstructionModel, ProgramModel, PvmBlockV1, PvmInstructionV1, PvmProgramV1,
    PvmTerminatorV1, RegisterOperandsV1, total_instructions,
};
use vstd::bytes::*;
use vstd::prelude::*;

verus! {

broadcast use vstd::seq_lib::group_seq_properties;

// ---------------------------------------------------------------------------------------------
// Encodings
// ---------------------------------------------------------------------------------------------
pub open spec fn enc_instruction(i: InstructionModel) -> Seq<u8> {
    le32(i.pc) + seq![i.opcode, i.registers.rd, i.registers.ra, i.registers.rb, i.pc_delta]
        + enc_bytes(i.immediate)
}

pub open spec fn enc_instruction_fn() -> spec_fn(InstructionModel) -> Seq<u8> {
    |i: InstructionModel| enc_instruction(i)
}

pub open spec fn enc_option_u32(o: Option<u32>) -> Seq<u8> {
    match o {
        Some(v) => seq![1u8] + le32(v),
        None => seq![0u8],
    }
}

pub open spec fn enc_terminator(t: PvmTerminatorV1) -> Seq<u8> {
    match t {
        PvmTerminatorV1::Fallthrough { next_pc, next } => seq![0u8] + le32(next_pc) + enc_option_u32(
            next,
        ),
        PvmTerminatorV1::BrEqz { true_pc, false_pc, true_block, false_block } => seq![1u8] + le32(
            true_pc,
        ) + enc_option_u32(false_pc) + enc_option_u32(true_block) + enc_option_u32(false_block),
        PvmTerminatorV1::Jump { target_pc, target } => seq![2u8] + le32(target_pc) + enc_option_u32(
            target,
        ),
        PvmTerminatorV1::DJump => seq![3u8],
        PvmTerminatorV1::Halt => seq![4u8],
        PvmTerminatorV1::Trap(pc) => seq![5u8] + le32(pc),
    }
}

pub open spec fn enc_block(b: BlockModel) -> Seq<u8> {
    le32(b.entry_pc) + enc_vec(enc_instruction_fn(), b.instructions) + enc_terminator(b.terminator)
}

pub open spec fn enc_block_fn() -> spec_fn(BlockModel) -> Seq<u8> {
    |b: BlockModel| enc_block(b)
}

pub open spec fn enc_program(p: ProgramModel) -> Seq<u8> {
    le16(p.format_version) + p.code_hash + enc_bytes(p.o_blob) + enc_bytes(p.w_blob) + le16(
        p.z_pages,
    ) + le32(p.s_bytes) + enc_vec(enc_block_fn(), p.blocks) + enc_vec(le32_fn(), p.jump_table)
        + enc_bytes(p.c_blob)
}

pub open spec fn instruction_encodable(i: InstructionModel) -> bool {
    fits_u32(i.immediate.len() as int)
}

pub open spec fn block_encodable(b: BlockModel) -> bool {
    &&& fits_u32(b.instructions.len() as int)
    &&& forall|k: int| 0 <= k < b.instructions.len() ==> instruction_encodable(#[trigger] b.instructions[k])
}

pub open spec fn program_encodable(p: ProgramModel) -> bool {
    &&& p.code_hash.len() == 32
    &&& fits_u32(p.o_blob.len() as int)
    &&& fits_u32(p.w_blob.len() as int)
    &&& fits_u32(p.blocks.len() as int)
    &&& fits_u32(p.jump_table.len() as int)
    &&& fits_u32(p.c_blob.len() as int)
    &&& forall|k: int| 0 <= k < p.blocks.len() ==> block_encodable(#[trigger] p.blocks[k])
}

// ---------------------------------------------------------------------------------------------
// Readers
// ---------------------------------------------------------------------------------------------
pub open spec fn read_instruction(s: Seq<u8>, at: int) -> ReadResult<InstructionModel> {
    match read_u32(s, at) {
        Err(e) => Err(e),
        Ok((pc, a)) => match read_fixed(s, a, 5) {
            Err(e) => Err(e),
            Ok((h, b)) => match read_bytes(s, b) {
                Err(e) => Err(e),
                Ok((imm, c)) => Ok(
                    (
                        InstructionModel {
                            pc,
                            opcode: h[0],
                            registers: RegisterOperandsV1 { rd: h[1], ra: h[2], rb: h[3] },
                            immediate: imm,
                            pc_delta: h[4],
                        },
                        c,
                    ),
                ),
            },
        },
    }
}

pub open spec fn read_instruction_fn() -> spec_fn(Seq<u8>, int) -> ReadResult<InstructionModel> {
    |s: Seq<u8>, at: int| read_instruction(s, at)
}

pub open spec fn read_option_u32(s: Seq<u8>, at: int) -> ReadResult<Option<u32>> {
    match read_u8(s, at) {
        Err(e) => Err(e),
        Ok((t, a)) => if t == 0 {
            Ok((None, a))
        } else if t == 1 {
            match read_u32(s, a) {
                Ok((v, b)) => Ok((Some(v), b)),
                Err(e) => Err(e),
            }
        } else {
            Err(CodecError::InvalidValue("optional u32 tag"))
        },
    }
}

pub open spec fn read_terminator(s: Seq<u8>, at: int) -> ReadResult<PvmTerminatorV1> {
    match read_u8(s, at) {
        Err(e) => Err(e),
        Ok((t, a)) => if t == 0 {
            match read_u32(s, a) {
                Err(e) => Err(e),
                Ok((next_pc, b)) => match read_option_u32(s, b) {
                    Err(e) => Err(e),
                    Ok((next, c)) => Ok((PvmTerminatorV1::Fallthrough { next_pc, next }, c)),
                },
            }
        } else if t == 1 {
            match read_u32(s, a) {
                Err(e) => Err(e),
                Ok((true_pc, b)) => match read_option_u32(s, b) {
                    Err(e) => Err(e),
                    Ok((false_pc, c)) => match read_option_u32(s, c) {
                        Err(e) => Err(e),
                        Ok((true_block, d)) => match read_option_u32(s, d) {
                            Err(e) => Err(e),
                            Ok((false_block, f)) => Ok(
                                (
                                    PvmTerminatorV1::BrEqz {
                                        true_pc,
                                        false_pc,
                                        true_block,
                                        false_block,
                                    },
                                    f,
                                ),
                            ),
                        },
                    },
                },
            }
        } else if t == 2 {
            match read_u32(s, a) {
                Err(e) => Err(e),
                Ok((target_pc, b)) => match read_option_u32(s, b) {
                    Err(e) => Err(e),
                    Ok((target, c)) => Ok((PvmTerminatorV1::Jump { target_pc, target }, c)),
                },
            }
        } else if t == 3 {
            Ok((PvmTerminatorV1::DJump, a))
        } else if t == 4 {
            Ok((PvmTerminatorV1::Halt, a))
        } else if t == 5 {
            match read_u32(s, a) {
                Err(e) => Err(e),
                Ok((pc, b)) => Ok((PvmTerminatorV1::Trap(pc), b)),
            }
        } else {
            Err(CodecError::InvalidValue("PVM terminator tag"))
        },
    }
}

pub open spec fn read_block(s: Seq<u8>, at: int) -> ReadResult<BlockModel> {
    match read_u32(s, at) {
        Err(e) => Err(e),
        Ok((entry_pc, a)) => match read_vec(read_instruction_fn(), s, a) {
            Err(e) => Err(e),
            Ok((instructions, b)) => match read_terminator(s, b) {
                Err(e) => Err(e),
                Ok((terminator, c)) => Ok((BlockModel { entry_pc, instructions, terminator }, c)),
            },
        },
    }
}

pub open spec fn read_block_fn() -> spec_fn(Seq<u8>, int) -> ReadResult<BlockModel> {
    |s: Seq<u8>, at: int| read_block(s, at)
}

pub open spec fn read_program(s: Seq<u8>, at: int) -> ReadResult<ProgramModel> {
    match read_u16(s, at) {
        Err(e) => Err(e),
        Ok((format_version, a1)) => match read_fixed(s, a1, 32) {
            Err(e) => Err(e),
            Ok((code_hash, a2)) => match read_bytes(s, a2) {
                Err(e) => Err(e),
                Ok((o_blob, a3)) => match read_bytes(s, a3) {
                    Err(e) => Err(e),
                    Ok((w_blob, a4)) => match read_u16(s, a4) {
                        Err(e) => Err(e),
                        Ok((z_pages, a5)) => match read_u32(s, a5) {
                            Err(e) => Err(e),
                            Ok((s_bytes, a6)) => match read_vec(read_block_fn(), s, a6) {
                                Err(e) => Err(e),
                                Ok((blocks, a7)) => match read_vec(read_u32_fn(), s, a7) {
                                    Err(e) => Err(e),
                                    Ok((jump_table, a8)) => match read_bytes(s, a8) {
                                        Err(e) => Err(e),
                                        Ok((c_blob, a9)) => Ok(
                                            (
                                                ProgramModel {
                                                    format_version,
                                                    code_hash,
                                                    o_blob,
                                                    w_blob,
                                                    z_pages,
                                                    s_bytes,
                                                    blocks,
                                                    jump_table,
                                                    c_blob,
                                                },
                                                a9,
                                            ),
                                        ),
                                    },
                                },
                            },
                        },
                    },
                },
            },
        },
    }
}

/// The outcome of `PvmProgramV1::decode_canonical`.
pub open spec fn decode_program(s: Seq<u8>) -> Result<ProgramModel, CodecError> {
    finish_read(read_program(s, 0), s)
}

// ---------------------------------------------------------------------------------------------
// Read-back lemmas
// ---------------------------------------------------------------------------------------------
pub proof fn lemma_option_back(s: Seq<u8>, at: int, o: Option<u32>)
    requires
        at_is(s, at, enc_option_u32(o)),
    ensures
        read_option_u32(s, at) == Ok::<(Option<u32>, int), CodecError>(
            (o, at + enc_option_u32(o).len()),
        ),
{
    match o {
        Some(v) => {
            lemma_at_is_concat(s, at, seq![1u8], le32(v));
            assert(s[at] == seq![1u8][0]) by {
                assert(s.subrange(at, at + 1)[0] == s[at]);
            }
            lemma_read_u32_back(s, at + 1, v);
            lemma_le32(v);
        },
        None => {
            assert(s.subrange(at, at + 1)[0] == s[at]);
        },
    }
}

pub proof fn lemma_tag_back(s: Seq<u8>, at: int, t: u8, rest: Seq<u8>)
    requires
        at_is(s, at, seq![t] + rest),
    ensures
        read_u8(s, at) == Ok::<(u8, int), CodecError>((t, at + 1)),
        at_is(s, at + 1, rest),
{
    lemma_at_is_concat(s, at, seq![t], rest);
    assert(s.subrange(at, at + 1)[0] == s[at]);
}

pub proof fn lemma_terminator_back(s: Seq<u8>, at: int, t: PvmTerminatorV1)
    requires
        at_is(s, at, enc_terminator(t)),
    ensures
        read_terminator(s, at) == Ok::<(PvmTerminatorV1, int), CodecError>(
            (t, at + enc_terminator(t).len()),
        ),
{
    match t {
        PvmTerminatorV1::Fallthrough { next_pc, next } => {
            assert(enc_terminator(t) =~= seq![0u8] + (le32(next_pc) + enc_option_u32(next)));
            lemma_tag_back(s, at, 0u8, le32(next_pc) + enc_option_u32(next));
            lemma_at_is_concat(s, at + 1, le32(next_pc), enc_option_u32(next));
            lemma_read_u32_back(s, at + 1, next_pc);
            lemma_le32(next_pc);
            lemma_option_back(s, at + 5, next);
        },
        PvmTerminatorV1::BrEqz { true_pc, false_pc, true_block, false_block } => {
            let r = le32(true_pc) + enc_option_u32(false_pc) + enc_option_u32(true_block)
                + enc_option_u32(false_block);
            assert(enc_terminator(t) =~= seq![1u8] + r);
            lemma_tag_back(s, at, 1u8, r);
            lemma_at_is_concat(
                s,
                at + 1,
                le32(true_pc) + enc_option_u32(false_pc) + enc_option_u32(true_block),
                enc_option_u32(false_block),
            );
            lemma_at_is_concat(
                s,
                at + 1,
                le32(true_pc) + enc_option_u32(false_pc),
                enc_option_u32(true_block),
            );
            lemma_at_is_concat(s, at + 1, le32(true_pc), enc_option_u32(false_pc));
            lemma_read_u32_back(s, at + 1, true_pc);
            lemma_le32(true_pc);
            lemma_option_back(s, at + 5, false_pc);
            let c = at + 5 + enc_option_u32(false_pc).len();
            lemma_option_back(s, c, true_block);
            let d = c + enc_option_u32(true_block).len();
            lemma_option_back(s, d, false_block);
        },
        PvmTerminatorV1::Jump { target_pc, target } => {
            assert(enc_terminator(t) =~= seq![2u8] + (le32(target_pc) + enc_option_u32(target)));
            lemma_tag_back(s, at, 2u8, le32(target_pc) + enc_option_u32(target));
            lemma_at_is_concat(s, at + 1, le32(target_pc), enc_option_u32(target));
            lemma_read_u32_back(s, at + 1, target_pc);
            lemma_le32(target_pc);
            lemma_option_back(s, at + 5, target);
        },
        PvmTerminatorV1::DJump => {
            assert(s.subrange(at, at + 1)[0] == s[at]);
        },
        PvmTerminatorV1::Halt => {
            assert(s.subrange(at, at + 1)[0] == s[at]);
        },
        PvmTerminatorV1::Trap(pc) => {
            assert(enc_terminator(t) =~= seq![5u8] + le32(pc));
            lemma_tag_back(s, at, 5u8, le32(pc));
            lemma_read_u32_back(s, at + 1, pc);
            lemma_le32(pc);
        },
    }
}

pub proof fn lemma_instruction_back(s: Seq<u8>, at: int, i: InstructionModel)
    requires
        instruction_encodable(i),
        at_is(s, at, enc_instruction(i)),
    ensures
        read_instruction(s, at) == Ok::<(InstructionModel, int), CodecError>(
            (i, at + enc_instruction(i).len()),
        ),
{
    let h = seq![i.opcode, i.registers.rd, i.registers.ra, i.registers.rb, i.pc_delta];
    lemma_at_is_concat(s, at, le32(i.pc) + h, enc_bytes(i.immediate));
    lemma_at_is_concat(s, at, le32(i.pc), h);
    lemma_read_u32_back(s, at, i.pc);
    lemma_le32(i.pc);
    lemma_read_bytes_back(s, at + 9, i.immediate);
}

pub proof fn lemma_instruction_reads_back(i: InstructionModel)
    requires
        instruction_encodable(i),
    ensures
        reads_back(enc_instruction_fn(), read_instruction_fn(), i),
{
    assert forall|s: Seq<u8>, at: int| #[trigger] at_is(s, at, enc_instruction_fn()(i)) implies read_instruction_fn()(
        s,
        at,
    ) == Ok::<(InstructionModel, int), CodecError>((i, at + enc_instruction_fn()(i).len())) by {
        lemma_instruction_back(s, at, i);
    }
}

pub proof fn lemma_block_back(s: Seq<u8>, at: int, b: BlockModel)
    requires
        block_encodable(b),
        at_is(s, at, enc_block(b)),
    ensures
        read_block(s, at) == Ok::<(BlockModel, int), CodecError>((b, at + enc_block(b).len())),
{
    let v = enc_vec(enc_instruction_fn(), b.instructions);
    lemma_at_is_concat(s, at, le32(b.entry_pc) + v, enc_terminator(b.terminator));
    lemma_at_is_concat(s, at, le32(b.entry_pc), v);
    lemma_read_u32_back(s, at, b.entry_pc);
    lemma_le32(b.entry_pc);
    assert forall|k: int| 0 <= k < b.instructions.len() implies #[trigger] reads_back(
        enc_instruction_fn(),
        read_instruction_fn(),
        b.instructions[k],
    ) by {
        lemma_instruction_reads_back(b.instructions[k]);
    }
    lemma_read_vec_back(enc_instruction_fn(), read_instruction_fn(), b.instructions, s, at + 4);
    lemma_terminator_back(s, at + 4 + v.len(), b.terminator);
}

pub proof fn lemma_block_reads_back(b: BlockModel)
    requires
        block_encodable(b),
    ensures
        reads_back(enc_block_fn(), read_block_fn(), b),
{
    assert forall|s: Seq<u8>, at: int| #[trigger] at_is(s, at, enc_block_fn()(b)) implies read_block_fn()(s, at)
        == Ok::<(BlockModel, int), CodecError>((b, at + enc_block_fn()(b).len())) by {
        lemma_block_back(s, at, b);
    }
}

pub proof fn lemma_program_back(s: Seq<u8>, at: int, p: ProgramModel)
    requires
        program_encodable(p),
        at_is(s, at, enc_program(p)),
    ensures
        read_program(s, at) == Ok::<(ProgramModel, int), CodecError>((p, at + enc_program(p).len())),
{
    let e1 = le16(p.format_version);
    let e2 = p.code_hash;
    let e3 = enc_bytes(p.o_blob);
    let e4 = enc_bytes(p.w_blob);
    let e5 = le16(p.z_pages);
    let e6 = le32(p.s_bytes);
    let e7 = enc_vec(enc_block_fn(), p.blocks);
    let e8 = enc_vec(le32_fn(), p.jump_table);
    let e9 = enc_bytes(p.c_blob);
    lemma_at_is_concat(s, at, e1 + e2 + e3 + e4 + e5 + e6 + e7 + e8, e9);
    lemma_at_is_concat(s, at, e1 + e2 + e3 + e4 + e5 + e6 + e7, e8);
    lemma_at_is_concat(s, at, e1 + e2 + e3 + e4 + e5 + e6, e7);
    lemma_at_is_concat(s, at, e1 + e2 + e3 + e4 + e5, e6);
    lemma_at_is_concat(s, at, e1 + e2 + e3 + e4, e5);
    lemma_at_is_concat(s, at, e1 + e2 + e3, e4);
    lemma_at_is_concat(s, at, e1 + e2, e3);
    lemma_at_is_concat(s, at, e1, e2);
    lemma_le16(p.format_version);
    lemma_le16(p.z_pages);
    lemma_le32(p.s_bytes);
    let a1 = at + 2;
    let a2 = a1 + 32;
    let a3 = a2 + e3.len();
    let a4 = a3 + e4.len();
    let a5 = a4 + 2;
    let a6 = a5 + 4;
    let a7 = a6 + e7.len();
    let a8 = a7 + e8.len();
    lemma_read_u16_back(s, at, p.format_version);
    lemma_read_bytes_back(s, a2, p.o_blob);
    lemma_read_bytes_back(s, a3, p.w_blob);
    lemma_read_u16_back(s, a4, p.z_pages);
    lemma_read_u32_back(s, a5, p.s_bytes);
    assert forall|k: int| 0 <= k < p.blocks.len() implies #[trigger] reads_back(
        enc_block_fn(),
        read_block_fn(),
        p.blocks[k],
    ) by {
        lemma_block_reads_back(p.blocks[k]);
    }
    lemma_read_vec_back(enc_block_fn(), read_block_fn(), p.blocks, s, a6);
    assert forall|k: int| 0 <= k < p.jump_table.len() implies #[trigger] reads_back(
        le32_fn(),
        read_u32_fn(),
        p.jump_table[k],
    ) by {
        lemma_u32_reads_back(p.jump_table[k]);
    }
    lemma_read_vec_back(le32_fn(), read_u32_fn(), p.jump_table, s, a7);
    lemma_read_bytes_back(s, a8, p.c_blob);
}

/// Decoding an encoded program gives the program back.
pub proof fn lemma_program_roundtrip(p: ProgramModel)
    requires
        program_encodable(p),
    ensures
        decode_program(enc_program(p)) == Ok::<ProgramModel, CodecError>(p),
{
    let s = enc_program(p);
    assert(s.subrange(0, s.len() as int) =~= s);
    lemma_program_back(s, 0, p);
}

// ---------------------------------------------------------------------------------------------
// Decoded values encode again
// ---------------------------------------------------------------------------------------------
pub open spec fn instruction_encodable_fn() -> spec_fn(InstructionModel) -> bool {
    |i: InstructionModel| instruction_encodable(i)
}

pub open spec fn block_encodable_fn() -> spec_fn(BlockModel) -> bool {
    |b: BlockModel| block_encodable(b)
}

pub proof fn lemma_read_instruction_sized(s: Seq<u8>, at: int)
    requires
        read_instruction(s, at) is Ok,
    ensures
        instruction_encodable(read_instruction(s, at)->Ok_0.0),
        enc_instruction(read_instruction(s, at)->Ok_0.0).len() == read_instruction(s, at)->Ok_0.1 - at,
{
    lemma_le32(read_u32(s, at)->Ok_0.0);
    lemma_read_bytes_sized(s, at + 9);
}

pub proof fn lemma_instructions_sized()
    ensures
        reads_sized(enc_instruction_fn(), read_instruction_fn(), instruction_encodable_fn()),
{
    assert forall|s: Seq<u8>, at: int| #[trigger] read_instruction_fn()(s, at) is Ok implies instruction_encodable_fn()(
        read_instruction_fn()(s, at)->Ok_0.0,
    ) && enc_instruction_fn()(read_instruction_fn()(s, at)->Ok_0.0).len() == read_instruction_fn()(
        s,
        at,
    )->Ok_0.1 - at by {
        lemma_read_instruction_sized(s, at);
    }
}

pub proof fn lemma_read_option_sized(s: Seq<u8>, at: int)
    requires
        read_option_u32(s, at) is Ok,
    ensures
        enc_option_u32(read_option_u32(s, at)->Ok_0.0).len() == read_option_u32(s, at)->Ok_0.1 - at,
{
    if s[at] == 1 {
        lemma_le32(read_u32(s, at + 1)->Ok_0.0);
    }
}

pub proof fn lemma_read_terminator_sized(s: Seq<u8>, at: int)
    requires
        read_terminator(s, at) is Ok,
    ensures
        enc_terminator(read_terminator(s, at)->Ok_0.0).len() == read_terminator(s, at)->Ok_0.1 - at,
{
    let t = s[at];
    if t == 0 || t == 2 {
        lemma_le32(read_u32(s, at + 1)->Ok_0.0);
        lemma_read_option_sized(s, at + 5);
    } else if t == 1 {
        lemma_le32(read_u32(s, at + 1)->Ok_0.0);
        let b = at + 5;
        lemma_read_option_sized(s, b);
        let c = read_option_u32(s, b)->Ok_0.1;
        lemma_read_option_sized(s, c);
        let d = read_option_u32(s, c)->Ok_0.1;
        lemma_read_option_sized(s, d);
    } else if t == 5 {
        lemma_le32(read_u32(s, at + 1)->Ok_0.0);
    }
}

pub proof fn lemma_read_block_sized(s: Seq<u8>, at: int)
    requires
        read_block(s, at) is Ok,
    ensures
        block_encodable(read_block(s, at)->Ok_0.0),
        enc_block(read_block(s, at)->Ok_0.0).len() == read_block(s, at)->Ok_0.1 - at,
{
    lemma_le32(read_u32(s, at)->Ok_0.0);
    lemma_instructions_sized();
    lemma_read_vec_sized(enc_instruction_fn(), read_instruction_fn(), instruction_encodable_fn(), s, at + 4);
    let xs = read_vec(read_instruction_fn(), s, at + 4)->Ok_0.0;
    let b = read_vec(read_instruction_fn(), s, at + 4)->Ok_0.1;
    lemma_read_terminator_sized(s, b);
    assert forall|k: int| 0 <= k < xs.len() implies instruction_encodable(#[trigger] xs[k]) by {
        assert(instruction_encodable_fn()(xs[k]));
    }
}

pub proof fn lemma_blocks_sized()
    ensures
        reads_sized(enc_block_fn(), read_block_fn(), block_encodable_fn()),
{
    assert forall|s: Seq<u8>, at: int| #[trigger] read_block_fn()(s, at) is Ok implies block_encodable_fn()(
        read_block_fn()(s, at)->Ok_0.0,
    ) && enc_block_fn()(read_block_fn()(s, at)->Ok_0.0).len() == read_block_fn()(s, at)->Ok_0.1
        - at by {
        lemma_read_block_sized(s, at);
    }
}

pub proof fn lemma_read_program_sized(s: Seq<u8>, at: int)
    requires
        read_program(s, at) is Ok,
    ensures
        program_encodable(read_program(s, at)->Ok_0.0),
        enc_program(read_program(s, at)->Ok_0.0).len() == read_program(s, at)->Ok_0.1 - at,
{
    let p = read_program(s, at)->Ok_0.0;
    lemma_le16(p.format_version);
    lemma_le16(p.z_pages);
    lemma_le32(p.s_bytes);
    let a2 = at + 34;
    lemma_read_bytes_sized(s, a2);
    let a3 = read_bytes(s, a2)->Ok_0.1;
    lemma_read_bytes_sized(s, a3);
    let a4 = read_bytes(s, a3)->Ok_0.1;
    let a6 = a4 + 6;
    lemma_blocks_sized();
    lemma_read_vec_sized(enc_block_fn(), read_block_fn(), block_encodable_fn(), s, a6);
    let a7 = read_vec(read_block_fn(), s, a6)->Ok_0.1;
    lemma_bytes_and_words_sized();
    lemma_read_vec_sized(le32_fn(), read_u32_fn(), any_u32_fn(), s, a7);
    let a8 = read_vec(read_u32_fn(), s, a7)->Ok_0.1;
    lemma_read_bytes_sized(s, a8);
    assert forall|k: int| 0 <= k < p.blocks.len() implies block_encodable(#[trigger] p.blocks[k]) by {
        assert(block_encodable_fn()(p.blocks[k]));
    }
}

/// Whatever the program decoder accepts encodes again, to exactly the bytes' length.
pub proof fn lemma_decoded_program_encodable(s: Seq<u8>)
    requires
        decode_program(s) is Ok,
    ensures
        program_encodable(decode_program(s)->Ok_0),
        enc_program(decode_program(s)->Ok_0).len() == s.len(),
{
    lemma_read_program_sized(s, 0);
}

pub proof fn lemma_read_instruction_exact(s: Seq<u8>, at: int)
    requires
        read_instruction(s, at) is Ok,
    ensures
        at_is(s, at, enc_instruction(read_instruction(s, at)->Ok_0.0)),
        read_instruction(s, at)->Ok_0.1 == at + enc_instruction(read_instruction(s, at)->Ok_0.0).len(),
{
    let i = read_instruction(s, at)->Ok_0.0;
    lemma_read_u32_exact(s, at);
    let h = s.subrange(at + 4, at + 9);
    let head = seq![i.opcode, i.registers.rd, i.registers.ra, i.registers.rb, i.pc_delta];
    assert(h =~= head);
    lemma_read_bytes_exact(s, at + 9);
    lemma_at_is_join(s, at, le32(i.pc), head);
    lemma_at_is_join(s, at, le32(i.pc) + head, enc_bytes(i.immediate));
}

pub proof fn lemma_instructions_exact()
    ensures
        reads_exact(enc_instruction_fn(), read_instruction_fn()),
{
    assert forall|s: Seq<u8>, at: int| #[trigger] read_instruction_fn()(s, at) is Ok implies at_is(
        s,
        at,
        enc_instruction_fn()(read_instruction_fn()(s, at)->Ok_0.0),
    ) && read_instruction_fn()(s, at)->Ok_0.1 == at + enc_instruction_fn()(
        read_instruction_fn()(s, at)->Ok_0.0,
    ).len() by {
        lemma_read_instruction_exact(s, at);
    }
}

pub proof fn lemma_read_option_exact(s: Seq<u8>, at: int)
    requires
        read_option_u32(s, at) is Ok,
    ensures
        at_is(s, at, enc_option_u32(read_option_u32(s, at)->Ok_0.0)),
        read_option_u32(s, at)->Ok_0.1 == at + enc_option_u32(read_option_u32(s, at)->Ok_0.0).len(),
{
    lemma_read_u8_exact(s, at);
    if s[at] == 1 {
        lemma_read_u32_exact(s, at + 1);
        lemma_at_is_join(s, at, seq![1u8], le32(read_u32(s, at + 1)->Ok_0.0));
    }
}

pub proof fn lemma_read_terminator_exact(s: Seq<u8>, at: int)
    requires
        read_terminator(s, at) is Ok,
    ensures
        at_is(s, at, enc_terminator(read_terminator(s, at)->Ok_0.0)),
        read_terminator(s, at)->Ok_0.1 == at + enc_terminator(read_terminator(s, at)->Ok_0.0).len(),
{
    let t = s[at];
    lemma_read_u8_exact(s, at);
    if t == 0 || t == 1 || t == 2 || t == 5 {
        lemma_read_u32_exact(s, at + 1);
        let w = le32(read_u32(s, at + 1)->Ok_0.0);
        lemma_at_is_join(s, at, seq![t], w);
        if t != 5 {
            lemma_read_option_exact(s, at + 5);
            let o1 = enc_option_u32(read_option_u32(s, at + 5)->Ok_0.0);
            lemma_at_is_join(s, at, seq![t] + w, o1);
            if t == 1 {
                let c = read_option_u32(s, at + 5)->Ok_0.1;
                lemma_read_option_exact(s, c);
                let o2 = enc_option_u32(read_option_u32(s, c)->Ok_0.0);
                lemma_at_is_join(s, at, seq![t] + w + o1, o2);
                let d = read_option_u32(s, c)->Ok_0.1;
                lemma_read_option_exact(s, d);
                let o3 = enc_option_u32(read_option_u32(s, d)->Ok_0.0);
                lemma_at_is_join(s, at, seq![t] + w + o1 + o2, o3);
            }
        }
    }
}

pub proof fn lemma_read_block_exact(s: Seq<u8>, at: int)
    requires
        read_block(s, at) is Ok,
    ensures
        at_is(s, at, enc_block(read_block(s, at)->Ok_0.0)),
        read_block(s, at)->Ok_0.1 == at + enc_block(read_block(s, at)->Ok_0.0).len(),
{
    let b = read_block(s, at)->Ok_0.0;
    lemma_read_u32_exact(s, at);
    lemma_instructions_exact();
    lemma_read_vec_exact(enc_instruction_fn(), read_instruction_fn(), s, at + 4);
    let c = read_vec(read_instruction_fn(), s, at + 4)->Ok_0.1;
    lemma_read_terminator_exact(s, c);
    let e1 = le32(b.entry_pc);
    let e2 = enc_vec(enc_instruction_fn(), b.instructions);
    lemma_at_is_join(s, at, e1, e2);
    lemma_at_is_join(s, at, e1 + e2, enc_terminator(b.terminator));
}

pub proof fn lemma_blocks_exact()
    ensures
        reads_exact(enc_block_fn(), read_block_fn()),
{
    assert forall|s: Seq<u8>, at: int| #[trigger] read_block_fn()(s, at) is Ok implies at_is(
        s,
        at,
        enc_block_fn()(read_block_fn()(s, at)->Ok_0.0),
    ) && read_block_fn()(s, at)->Ok_0.1 == at + enc_block_fn()(read_block_fn()(s, at)->Ok_0.0).len() by {
        lemma_read_block_exact(s, at);
    }
}

pub proof fn lemma_read_program_exact(s: Seq<u8>, at: int)
    requires
        read_program(s, at) is Ok,
    ensures
        at_is(s, at, enc_program(read_program(s, at)->Ok_0.0)),
        read_program(s, at)->Ok_0.1 == at + enc_program(read_program(s, at)->Ok_0.0).len(),
{
    let p = read_program(s, at)->Ok_0.0;
    let e1 = le16(p.format_version);
    let e2 = p.code_hash;
    let e3 = enc_bytes(p.o_blob);
    let e4 = enc_bytes(p.w_blob);
    let e5 = le16(p.z_pages);
    let e6 = le32(p.s_bytes);
    let e7 = enc_vec(enc_block_fn(), p.blocks);
    let e8 = enc_vec(le32_fn(), p.jump_table);
    let e9 = enc_bytes(p.c_blob);
    lemma_read_u16_exact(s, at);
    lemma_le16(p.format_version);
    let a1 = at + 2;
    let a2 = a1 + 32;
    lemma_read_bytes_exact(s, a2);
    let a3 = read_bytes(s, a2)->Ok_0.1;
    lemma_read_bytes_exact(s, a3);
    let a4 = read_bytes(s, a3)->Ok_0.1;
    lemma_read_u16_exact(s, a4);
    lemma_le16(p.z_pages);
    lemma_read_u32_exact(s, a4 + 2);
    let a6 = a4 + 6;
    lemma_blocks_exact();
    lemma_read_vec_exact(enc_block_fn(), read_block_fn(), s, a6);
    let a7 = read_vec(read_block_fn(), s, a6)->Ok_0.1;
    lemma_bytes_and_words_exact();
    lemma_read_vec_exact(le32_fn(), read_u32_fn(), s, a7);
    let a8 = read_vec(read_u32_fn(), s, a7)->Ok_0.1;
    lemma_read_bytes_exact(s, a8);
    lemma_at_is_join(s, at, e1, e2);
    lemma_at_is_join(s, at, e1 + e2, e3);
    lemma_at_is_join(s, at, e1 + e2 + e3, e4);
    lemma_at_is_join(s, at, e1 + e2 + e3 + e4, e5);
    lemma_at_is_join(s, at, e1 + e2 + e3 + e4 + e5, e6);
    lemma_at_is_join(s, at, e1 + e2 + e3 + e4 + e5 + e6, e7);
    lemma_at_is_join(s, at, e1 + e2 + e3 + e4 + e5 + e6 + e7, e8);
    lemma_at_is_join(s, at, e1 + e2 + e3 + e4 + e5 + e6 + e7 + e8, e9);
}

/// The program decoder accepts only canonical bytes: whatever it decodes encodes back to
/// exactly the bytes it was decoded from.
pub proof fn lemma_program_decode_canonical(s: Seq<u8>)
    requires
        decode_program(s) is Ok,
    ensures
        enc_program(decode_program(s)->Ok_0) == s,
{
    lemma_read_program_exact(s, 0);
    lemma_exact_whole(s, enc_program(decode_program(s)->Ok_0));
}

pub proof fn lemma_instructions_within(xs: Seq<InstructionModel>)
    ensures
        xs.len() <= enc_seq(enc_instruction_fn(), xs).len(),
    decreases xs.len(),
{
    if xs.len() > 0 {
        lemma_instructions_within(xs.drop_last());
        lemma_le32(xs.last().pc);
    }
}

pub proof fn lemma_blocks_within(bs: Seq<BlockModel>)
    ensures
        total_instructions(bs) <= enc_seq(enc_block_fn(), bs).len(),
    decreases bs.len(),
{
    if bs.len() > 0 {
        lemma_blocks_within(bs.drop_last());
        let b = bs.last();
        lemma_instructions_within(b.instructions);
        lemma_le32(b.entry_pc);
        lemma_le32(b.instructions.len() as u32);
    }
}

/// A program holds no more instructions than its encoding has bytes.
pub proof fn lemma_program_instructions_within(p: ProgramModel)
    ensures
        total_instructions(p.blocks) <= enc_program(p).len(),
{
    lemma_blocks_within(p.blocks);
    lemma_le32(p.blocks.len() as u32);
}

// ---------------------------------------------------------------------------------------------
// Executable encoding
// ---------------------------------------------------------------------------------------------
fn write_option_u32(w: &mut Writer, value: Option<u32>)
    ensures
        final(w).bytes@ == old(w).bytes@ + enc_option_u32(value),
{
    match value {
        Some(v) => {
            w.u8(1);
            w.u32(v);
        },
        None => w.u8(0),
    }
    assert(w.bytes@ =~= old(w).bytes@ + enc_option_u32(value));
}

fn write_terminator(w: &mut Writer, value: &PvmTerminatorV1)
    ensures
        final(w).bytes@ == old(w).bytes@ + enc_terminator(*value),
{
    match value {
        PvmTerminatorV1::Fallthrough { next_pc, next } => {
            w.u8(0);
            w.u32(*next_pc);
            write_option_u32(w, *next);
        },
        PvmTerminatorV1::BrEqz { true_pc, false_pc, true_block, false_block } => {
            w.u8(1);
            w.u32(*true_pc);
            write_option_u32(w, *false_pc);
            write_option_u32(w, *true_block);
            write_option_u32(w, *false_block);
        },
        PvmTerminatorV1::Jump { target_pc, target } => {
            w.u8(2);
            w.u32(*target_pc);
            write_option_u32(w, *target);
        },
        PvmTerminatorV1::DJump => w.u8(3),
        PvmTerminatorV1::Halt => w.u8(4),
        PvmTerminatorV1::Trap(pc) => {
            w.u8(5);
            w.u32(*pc);
        },
    }
    assert(w.bytes@ =~= old(w).bytes@ + enc_terminator(*value));
}

fn write_instruction(w: &mut Writer, instruction: &PvmInstructionV1)
    requires
        instruction_encodable(instruction@),
    ensures
        final(w).bytes@ == old(w).bytes@ + enc_instruction(instruction@),
{
    w.u32(instruction.pc);
    w.u8(instruction.opcode);
    w.u8(instruction.registers.rd);
    w.u8(instruction.registers.ra);
    w.u8(instruction.registers.rb);
    w.u8(instruction.pc_delta);
    let _r = w.bytes(instruction.immediate.as_slice());
    assert(w.bytes@ =~= old(w).bytes@ + enc_instruction(instruction@));
}

fn write_block(w: &mut Writer, block: &PvmBlockV1)
    requires
        block_encodable(block@),
    ensures
        final(w).bytes@ == old(w).bytes@ + enc_block(block@),
{
    let ghost xs = block@.instructions;
    w.u32(block.entry_pc);
    let _r = w.count(block.instructions.len());
    let ghost start = w.bytes@;
    let mut i: usize = 0;
    while i < block.instructions.len()
        invariant
            0 <= i <= block.instructions@.len(),
            xs == block@.instructions,
            xs.len() == block.instructions@.len(),
            block_encodable(block@),
            w.bytes@ == start + enc_seq(enc_instruction_fn(), xs.take(i as int)),
        decreases block.instructions@.len() - i,
    {
        assert(xs[i as int] == block.instructions@[i as int]@);
        assert(instruction_encodable(xs[i as int]));
        write_instruction(w, &block.instructions[i]);
        proof {
            assert(xs.take(i + 1) =~= xs.take(i as int).push(xs[i as int]));
            lemma_enc_seq_push(enc_instruction_fn(), xs.take(i as int), xs[i as int]);
        }
        i = i + 1;
        assert(w.bytes@ =~= start + enc_seq(enc_instruction_fn(), xs.take(i as int)));
    }
    assert(xs.take(i as int) =~= xs);
    write_terminator(w, &block.terminator);
    assert(w.bytes@ =~= old(w).bytes@ + enc_block(block@));
}

// ---------------------------------------------------------------------------------------------
// Executable decoding
// ---------------------------------------------------------------------------------------------
fn read_option_u32_exec(r: &mut Reader) -> (res: Result<Option<u32>, CodecError>)
    requires
        old(r).wf(),
    ensures
        final(r).wf(),
        final(r).data() == old(r).data(),
        match read_option_u32(old(r).data(), old(r).pos()) {
            Ok((v, a)) => res == Ok::<Option<u32>, CodecError>(v) && final(r).pos() == a,
            Err(e) => res == Err::<Option<u32>, CodecError>(e),
        },
{
    let t = r.u8()?;
    if t == 0 {
        Ok(None)
    } else if t == 1 {
        let v = r.u32()?;
        Ok(Some(v))
    } else {
        Err(CodecError::InvalidValue("optional u32 tag"))
    }
}

fn read_terminator_exec(r: &mut Reader) -> (res: Result<PvmTerminatorV1, CodecError>)
    requires
        old(r).wf(),
    ensures
        final(r).wf(),
        final(r).data() == old(r).data(),
        match read_terminator(old(r).data(), old(r).pos()) {
            Ok((v, a)) => res == Ok::<PvmTerminatorV1, CodecError>(v) && final(r).pos() == a,
            Err(e) => res == Err::<PvmTerminatorV1, CodecError>(e),
        },
{
    let t = r.u8()?;
    if t == 0 {
        let next_pc = r.u32()?;
        let next = read_option_u32_exec(r)?;
        Ok(PvmTerminatorV1::Fallthrough { next_pc, next })
    } else if t == 1 {
        let true_pc = r.u32()?;
        let false_pc = read_option_u32_exec(r)?;
        let true_block = read_option_u32_exec(r)?;
        let false_block = read_option_u32_exec(r)?;
        Ok(PvmTerminatorV1::BrEqz { true_pc, false_pc, true_block, false_block })
    } else if t == 2 {
        let target_pc = r.u32()?;
        let target = read_option_u32_exec(r)?;
        Ok(PvmTerminatorV1::Jump { target_pc, target })
    } else if t == 3 {
        Ok(PvmTerminatorV1::DJump)
    } else if t == 4 {
        Ok(PvmTerminatorV1::Halt)
    } else if t == 5 {
        let pc = r.u32()?;
        Ok(PvmTerminatorV1::Trap(pc))
    } else {
        Err(CodecError::InvalidValue("PVM terminator tag"))
    }
}

fn read_instruction_exec(r: &mut Reader) -> (res: Result<PvmInstructionV1, CodecError>)
    requires
        old(r).wf(),
    ensures
        final(r).wf(),
        final(r).data() == old(r).data(),
        read_matches(res, read_instruction(old(r).data(), old(r).pos()), final(r).pos()),
        decodes_as(read_instruction_fn(), *old(r), res, *final(r)),
{
    let ghost s = r.data();
    let ghost at = r.pos();
    let pc = r.u32()?;
    let opcode = r.u8()?;
    let rd = r.u8()?;
    let ra = r.u8()?;
    let rb = r.u8()?;
    let pc_delta = r.u8()?;
    let immediate = r.bytes()?;
    let v = PvmInstructionV1 {
        pc,
        opcode,
        registers: RegisterOperandsV1 { rd, ra, rb },
        immediate,
        pc_delta,
    };
    proof {
        let h = s.subrange(at + 4, at + 9);
        assert(h[0] == opcode && h[1] == rd && h[2] == ra && h[3] == rb && h[4] == pc_delta);
    }
    Ok(v)
}

fn read_block_exec(r: &mut Reader) -> (res: Result<PvmBlockV1, CodecError>)
    requires
        old(r).wf(),
    ensures
        final(r).wf(),
        final(r).data() == old(r).data(),
        read_matches(res, read_block(old(r).data(), old(r).pos()), final(r).pos()),
        decodes_as(read_block_fn(), *old(r), res, *final(r)),
{
    let entry_pc = r.u32()?;
    let instructions = r.vec(read_instruction_exec, Ghost(read_instruction_fn()))?;
    assert(instructions@.map_values(|x: PvmInstructionV1| x@) =~= instructions.deep_view());
    let terminator = read_terminator_exec(r)?;
    Ok(PvmBlockV1 { entry_pc, instructions, terminator })
}

fn read_program_exec(r: &mut Reader) -> (res: Result<PvmProgramV1, CodecError>)
    requires
        old(r).wf(),
    ensures
        final(r).wf(),
        final(r).data() == old(r).data(),
        read_matches(res, read_program(old(r).data(), old(r).pos()), final(r).pos()),
{
    let format_version = r.u16()?;
    let code_hash = r.fixed()?;
    let o_blob = r.bytes()?;
    let w_blob = r.bytes()?;
    let z_pages = r.u16()?;
    let s_bytes = r.u32()?;
    let blocks = r.vec(read_block_exec, Ghost(read_block_fn()))?;
    assert(blocks@.map_values(|x: PvmBlockV1| x@) =~= blocks.deep_view());
    let jump_table = r.vec(read_jump_target, Ghost(read_u32_fn()))?;
    assert(jump_table.deep_view() =~= jump_table@);
    let c_blob = r.bytes()?;
    Ok(
        PvmProgramV1 {
            format_version,
            code_hash,
            o_blob,
            w_blob,
            z_pages,
            s_bytes,
            blocks,
            jump_table,
            c_blob,
        },
    )
}

/// One jump-table entry.
fn read_jump_target(r: &mut Reader) -> (x: Result<u32, CodecError>)
    requires
        old(r).wf(),
    ensures
        decodes_as(read_u32_fn(), *old(r), x, *final(r)),
{
    let x = r.u32();
    assert(x is Ok ==> x->Ok_0.deep_view() == x->Ok_0);
    x
}

impl CanonicalCodec for PvmProgramV1 {
    open spec fn encodable(v: ProgramModel) -> bool {
        program_encodable(v)
    }

    open spec fn encoding(v: ProgramModel) -> Seq<u8> {
        enc_program(v)
    }

    open spec fn decoding(bytes: Seq<u8>) -> Result<ProgramModel, CodecError> {
        decode_program(bytes)
    }

    fn encode_canonical(&self) -> (out: Vec<u8>) {
        let ghost p = self@;
        let mut w = Writer::new();
        w.u16(self.format_version);
        w.fixed(self.code_hash.as_slice());
        let _r = w.bytes(self.o_blob.as_slice());
        let _r = w.bytes(self.w_blob.as_slice());
        w.u16(self.z_pages);
        w.u32(self.s_bytes);
        let _r = w.count(self.blocks.len());
        let ghost start = w.bytes@;
        let mut i: usize = 0;
        while i < self.blocks.len()
            invariant
                0 <= i <= self.blocks@.len(),
                p == self@,
                p.blocks.len() == self.blocks@.len(),
                program_encodable(p),
                w.bytes@ == start + enc_seq(enc_block_fn(), p.blocks.take(i as int)),
            decreases self.blocks@.len() - i,
        {
            assert(p.blocks[i as int] == self.blocks@[i as int]@);
            assert(block_encodable(p.blocks[i as int]));
            write_block(&mut w, &self.blocks[i]);
            proof {
                assert(p.blocks.take(i + 1) =~= p.blocks.take(i as int).push(p.blocks[i as int]));
                lemma_enc_seq_push(enc_block_fn(), p.blocks.take(i as int), p.blocks[i as int]);
            }
            i = i + 1;
            assert(w.bytes@ =~= start + enc_seq(enc_block_fn(), p.blocks.take(i as int)));
        }
        assert(p.blocks.take(i as int) =~= p.blocks);
        let _r = w.count(self.jump_table.len());
        let ghost start2 = w.bytes@;
        let mut j: usize = 0;
        while j < self.jump_table.len()
            invariant
                0 <= j <= self.jump_table@.len(),
                p == self@,
                w.bytes@ == start2 + enc_seq(le32_fn(), p.jump_table.take(j as int)),
            decreases self.jump_table@.len() - j,
        {
            w.u32(self.jump_table[j]);
            proof {
                assert(p.jump_table.take(j + 1) =~= p.jump_table.take(j as int).push(
                    p.jump_table[j as int],
                ));
                lemma_enc_seq_push(le32_fn(), p.jump_table.take(j as int), p.jump_table[j as int]);
            }
            j = j + 1;
            assert(w.bytes@ =~= start2 + enc_seq(le32_fn(), p.jump_table.take(j as int)));
        }
        assert(p.jump_table.take(j as int) =~= p.jump_table);
        let _r = w.bytes(self.c_blob.as_slice());
        assert(w.bytes@ =~= enc_program(p));
        w.bytes
    }

    fn decode_canonical(bytes: &[u8]) -> (r: Result<Self, CodecError>) {
        let mut reader = Reader::new(bytes);
        let value = read_program_exec(&mut reader)?;
        reader.finish()?;
        Ok(value)
    }
}

/// The canonical encoding of instructions, optional words and terminators, byte by byte: an
/// instruction is its pc, then opcode, `rd`, `ra`, `rb` and pc delta, then its immediate as a
/// length-prefixed string; an optional word is 0, or 1 and the word; a terminator is its tag
/// (fallthrough 0, conditional branch 1, jump 2, dynamic jump 3, halt 4, trap 5) and its fields
/// in order.
pub proof fn lemma_program_encoding_pinned(
    i: InstructionModel,
    v: u32,
    pc: u32,
    a: Option<u32>,
    b: Option<u32>,
    c: Option<u32>,
)
    ensures
        enc_instruction(i) == spec_u32_to_le_bytes(i.pc) + seq![
            i.opcode,
            i.registers.rd,
            i.registers.ra,
            i.registers.rb,
            i.pc_delta,
        ] + spec_u32_to_le_bytes(i.immediate.len() as u32) + i.immediate,
        enc_option_u32(None) == seq![0u8],
        enc_option_u32(Some(v)) == seq![1u8] + spec_u32_to_le_bytes(v),
        enc_terminator(PvmTerminatorV1::Fallthrough { next_pc: pc, next: a }) == seq![0u8]
            + spec_u32_to_le_bytes(pc) + enc_option_u32(a),
        enc_terminator(PvmTerminatorV1::BrEqz { true_pc: pc, false_pc: a, true_block: b, false_block: c })
            == seq![1u8] + spec_u32_to_le_bytes(pc) + enc_option_u32(a) + enc_option_u32(b)
            + enc_option_u32(c),
        enc_terminator(PvmTerminatorV1::Jump { target_pc: pc, target: a }) == seq![2u8]
            + spec_u32_to_le_bytes(pc) + enc_option_u32(a),
        enc_terminator(PvmTerminatorV1::DJump) == seq![3u8],
        enc_terminator(PvmTerminatorV1::Halt) == seq![4u8],
        enc_terminator(PvmTerminatorV1::Trap(pc)) == seq![5u8] + spec_u32_to_le_bytes(pc),
{
}

} // verus!
