//! Simple virtual machine for shape evaluation.
pub mod arithmetic;
pub mod bulk;
pub mod choice;
pub mod data;
pub mod domain;
pub mod enclosure;
pub mod function;
pub mod meaning;
pub mod ops;
pub mod reuse;
pub mod state;
pub mod trace;
pub mod tracing;
