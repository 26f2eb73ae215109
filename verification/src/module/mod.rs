//! Programs of several files: path resolution, the search for files, the graph of imports, and the
//! functions that a program needs.

pub mod error;
pub mod paths;
pub mod resolver;
pub mod graph;
pub mod import_laws;
pub mod sources;
pub mod demand;
pub mod demand_laws;
pub mod loader;
pub mod growth;
