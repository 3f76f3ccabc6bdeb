//! Trials of trained models: control suites, budgets, checkpoints and the cost of long contexts.

pub mod budget;
pub mod checkpoints;
pub mod documents;
pub mod suite;
pub mod suite_laws;
pub mod wall;
