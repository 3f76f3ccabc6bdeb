//! The classical decoder-only transformer.

pub mod attention;
pub mod buffer_laws;
pub mod cache;
pub mod checkpoint;
pub mod compute;
pub mod config;
pub mod config_laws;
pub mod dataset;
pub mod dataset_laws;
pub mod encode_laws;
pub mod generate;
pub mod mlp;
pub mod model;
pub mod model_laws;
pub mod normal;
pub mod rng;
pub mod schedule;
pub mod seeding;
pub mod seeding_laws;
pub mod telemetry;
pub mod telemetry_laws;
pub mod tokenizer;
pub mod tokenizer_laws;
pub mod train;
pub mod weights_file;
