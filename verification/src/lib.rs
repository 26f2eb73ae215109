//! The semantic half of the Nyx compiler: name resolution, type checking, layout,
//! diagnostics, editor analysis and assembly emission.

use vstd::prelude::*;

pub mod analysis;
pub mod arena;
pub mod ast;
pub mod codegen;
pub mod diagnostic;
pub mod hir;
pub mod hover_laws;
pub mod mir;
pub mod module;
pub mod regalloc;
pub mod source_map;
pub mod text;
pub mod trail_laws;
pub mod value_laws;

verus! {

} // verus!
