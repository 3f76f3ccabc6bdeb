//! Verified core of a family of micro language models: vocabulary and tokenizer, training
//! corpora, model geometry, weight files, caches, decoding loops and benchmark bookkeeping.

pub mod classic;
pub mod corpus;
pub mod float_bits;
pub mod qreno;
pub mod scaled;
pub mod scan;
pub mod text;
pub mod trials;
pub mod xorshift;
