//! The verified core of an SGI Indy emulator: its MIPS R4000 processor and the
//! devices and tools around it.
pub mod access_laws;
pub mod alu;
pub mod alu_laws;
mod bits;
pub mod breakpoints;
pub mod bus;
pub mod bytes;
pub mod cmd_bp;
pub mod cmd_info;
pub mod cmd_memory;
pub mod cmd_proc;
pub mod cmd_run;
pub mod command;
pub mod command_laws;
pub mod commands;
pub mod cop0;
pub mod convert_laws;
pub mod cpu_core;
pub mod cpu_laws;
pub mod debug_loop;
pub mod debugger_laws;
pub mod digest;
pub mod digest_laws;
pub mod exec;
pub mod executor_tools;
pub mod exp;
pub mod expr_parse;
pub mod float_laws;
pub mod flow_laws;
pub mod fpu;
pub mod fpu_laws;
pub mod fpu_round;
pub mod frame;
pub mod fusion_laws;
pub mod gdb;
pub mod idle;
pub mod idle_report;
pub mod inline_steps;
pub mod instr;
pub mod integer;
pub mod isa;
pub mod jit;
pub mod loadstore;
pub mod lockstep;
pub mod machine;
pub mod memory;
pub mod memory_laws;
pub mod monitor;
pub mod parse;
pub mod ram;
pub mod regs_text;
pub mod rex3_simd;
pub mod saved_state;
pub mod saved_state_laws;
pub mod setup;
pub mod snapshot;
pub mod soft_tlb;
pub mod status;
pub mod symbols;
pub mod symbols_load;
pub mod system_laws;
pub mod text;
pub mod thread_affinity;
pub mod tlb_laws;
pub mod toml_tree;
pub mod tools;
pub mod trace;
pub mod traceback;
pub mod ultra64;
pub mod ultra64_cmd;
pub mod unaligned_laws;
pub mod undo;
pub mod undo_laws;
pub mod unwind;
pub mod unwind_laws;
pub mod words;
