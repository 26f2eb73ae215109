//! Emission of machine code.

pub mod machine;
pub mod x86_64;
