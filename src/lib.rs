//! Turns a declarative description of a C/C++ source tree into a grouped,
//! colorable file dependency graph.
//!
//! The library holds the configuration language, variable expansion, path
//! display mapping and the graph construction engine. Reading files, walking
//! globs, running the build tool and rendering the graph happen around it.
use vstd::prelude::*;

pub mod text;
pub mod path_mapper;
pub mod expand;
pub mod lexer;
pub mod config;
pub mod grammar;
pub mod parser;
pub mod configfile;
pub mod graph;
pub mod laws;
pub mod discovery;
pub mod sources;
pub mod pipeline;
pub mod dependency_graph;

verus! {

} // verus!
