//! Monomorphisation of a parsed module.
//!
//! Generic items are set aside as templates. Every use of a template, written with its arguments
//! or inferred from the values at hand, gets a concrete copy of it under a name of its own, and
//! is made to refer to that copy. Templates that are not used leave no trace.

pub mod shape;
pub mod form;
pub mod templates;
pub mod subst;
pub mod copies;
pub mod copy_laws;
pub mod infer;
pub mod collect;
pub mod use_laws;
pub mod fill_laws;
pub mod expand;
