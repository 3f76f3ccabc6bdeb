//! The scaled models: a recurrent one with a state of constant size, and a transformer beside it.

pub mod args;
pub mod bench;
pub mod buffer_laws;
pub mod classic;
pub mod config;
pub mod generator;
pub mod nn;
pub mod sizes;
pub mod srx;
