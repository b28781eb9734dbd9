//! The analysis of impls in a Cairo compiler, and the formatting of Cairo files.

pub mod candidates;
pub mod closures;
pub mod collections;
pub mod context;
pub mod db;
pub mod declaration;
pub mod definition;
pub mod definition_diagnostics;
pub mod deref;
pub mod deref_diagnostics;
pub mod diagnostics;
pub mod facts;
pub mod formatter;
pub mod functions;
pub mod ids;
pub mod implization;
pub mod impls;
pub mod interner;
pub mod item_constants;
pub mod item_impls;
pub mod item_types;
pub mod model;
pub mod parser;
pub mod queries;
pub mod selectors;
pub mod self_inference;
pub mod signatures;
pub mod substitution;
pub mod syntax;
pub mod text;
