//! Description of a machine's hardware: a CPU brand-string parser, a memory-size
//! normaliser, and the profile record that is built from their results.

pub mod cpu;
pub mod decimal;
pub mod memory;
pub mod profile;
pub mod prompt;
