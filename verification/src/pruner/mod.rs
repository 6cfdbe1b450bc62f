//! Pruning of a conversation before it is sent to the model.
pub mod config;
pub mod cutoff;
pub mod directive;
pub mod duplicates;
pub mod failures;
pub mod heavy;
pub mod images;
pub mod placeholder;
pub mod prompt;
