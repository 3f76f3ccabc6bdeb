//! The byte-level tokenizer: a field over the bytes, bonds between neighbours, and clusters.

pub mod buffer_laws;
pub mod field;
pub mod hamiltonian;
pub mod hamiltonian_laws;
pub mod measure;
pub mod model;
pub mod segmenter;
pub mod segmenter_laws;
pub mod solver;
