pub mod case;
pub mod codec;
pub mod commitment;
pub mod cost_workload;
pub mod hashing;
pub mod hex;
pub mod jam_blob;
pub mod m4_render;
pub mod m4_reports;
pub mod m4_specs;
pub mod m5;
pub mod native_pvm;
pub mod opcode;
pub mod openvm_values;
pub mod program;
pub mod program_codec;
pub mod pvm_gas;
pub mod pvm_machine;
pub mod pvm_memory;
pub mod refine_result;
pub mod state_witness;
pub mod text;
pub mod translation;
pub mod zkrefine;
pub mod zkrefine_fixture;
pub mod zkrefine_reference;
