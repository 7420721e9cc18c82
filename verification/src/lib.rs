//! The decisions of the Solidity compiler driver.
//!
//! The driver turns a command line and the compiler's answers into files, messages and an exit
//! code. This library decides what a command line means, what is done in which order, what is said
//! and written, and how a run ends, also where a step fails. The program around it reads the
//! command line and starts the task that it names, tries the steps and performs the effects that it
//! is told to, and hands back the compiler's answers and how each step turned out.
pub mod bundle;
pub mod compilation;
pub mod complete_laws;
pub mod docs;
pub mod file_laws;
pub mod frame_laws;
pub mod imports;
pub mod input_laws;
pub mod intermediates;
pub mod json;
pub mod names;
pub mod outcome_laws;
pub mod output;
pub mod outside;
pub mod process_file;
pub mod protocol;
pub mod run_laws;
pub mod settings;
pub mod stage_laws;
pub mod step_laws;
pub mod string_map;
pub mod text;
pub mod trace_laws;
