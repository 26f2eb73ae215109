//! The high-level IR: a tree-structured, fully resolved and typed form of a program.

pub mod types;
pub mod infer;
pub mod symbols;
pub mod tree;
pub mod error;
pub mod messages;
pub mod table;
pub mod arrays;
pub mod diagnostics;
pub mod scope;
pub mod scope_laws;
pub mod mangle;
pub mod type_resolver;
pub mod display;
pub mod body;
pub mod typing;
pub mod annotation_laws;
pub mod binding_laws;
pub mod declaration_laws;
pub mod mirror_laws;
pub mod program_laws;
pub mod tree_laws;
pub mod typing_laws;
pub mod expr;
pub mod stmt;
pub mod inference_laws;
pub mod splice;
pub mod function;
pub mod declarations;
pub mod structs;
pub mod docs;
pub mod collector;
pub mod topo;
pub mod constants;
pub mod constant_laws;
pub mod interfaces;
pub mod growth;
pub mod body_growth;
pub mod program_growth;
pub mod mono_laws;
pub mod interface_laws;
pub mod mono;
pub mod monomorph;
pub mod layout;
pub mod layout_laws;
pub mod program;
