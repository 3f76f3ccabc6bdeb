//! Training corpora over the controlled vocabulary.

pub mod base;
pub mod base_laws;
pub mod build_laws;
pub mod chinchilla;
pub mod chinchilla_laws;
pub mod chinchilla_volume;
pub mod drill_laws;
pub mod drills;
pub mod filling;
pub mod integrity;
pub mod pool_volume;
pub mod remainder;
pub mod sentence_laws;
pub mod sentences;
pub mod unified;
pub mod unified_laws;
pub mod words;
