//! A generator of the glue between Rust and C++: it reads `.zng` interface
//! files and writes the Rust and C++ sides of the bindings they describe.

pub mod text;
pub mod paths;
pub mod holding;
pub mod outside;
pub mod rust_types;
pub mod def;
pub mod template_types;
pub mod merge;
pub mod token;
pub mod lexical;
pub mod wording;
pub mod peg;
pub mod grammar;
pub mod depth;
pub mod scope;
pub mod lower;
pub mod cfg;
pub mod conditional;
pub mod deciding;
pub mod report;
pub mod work;
pub mod type_item;
pub mod items;
pub mod reading;
pub mod declaring;
pub mod finish;
pub mod parse;
pub mod growth;
pub mod cpp;
pub mod into_cpp;
pub mod mangle;
pub mod coro;
pub mod cpp_file;
pub mod rust_templates;
pub mod rust_file;
pub mod cpp_templates;
pub mod filling;
pub mod header;
pub mod panics;
pub mod forms;
pub mod halves;
pub mod shims;
pub mod linking;
pub mod naming;
pub mod asserting;
pub mod implementing;
pub mod generator;
pub mod render;
pub mod builder;
