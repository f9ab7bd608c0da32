//! Stable PVM opcode numbers of the instructions that the M3 workloads use.
use vstd::prelude::*;

verus! {

pub const TRAP: u8 = 0;

pub const LOAD_IMM_64: u8 = 20;

pub const STORE_IMM_U32: u8 = 32;

pub const JUMP: u8 = 40;

pub const LOAD_U32: u8 = 56;

pub const STORE_U32: u8 = 61;

pub const MOVE_REG: u8 = 100;

pub const BRANCH_EQ: u8 = 170;

pub const BRANCH_NE: u8 = 171;

pub const BRANCH_LT_U: u8 = 172;

pub const BRANCH_LT_S: u8 = 173;

pub const BRANCH_GE_U: u8 = 174;

pub const BRANCH_GE_S: u8 = 175;

pub const ADD_32: u8 = 190;

pub const SUB_32: u8 = 191;

pub const MUL_32: u8 = 192;

pub const ADD_64: u8 = 200;

pub const SUB_64: u8 = 201;

pub const MUL_64: u8 = 202;

pub const XOR: u8 = 211;

} // verus!
