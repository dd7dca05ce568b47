//! Deterministic, bounded structural queries over digital-logic waveform dumps,
//! with a structured and a human-readable rendering of each result.

pub mod error;
pub mod decoder;
pub mod text;
pub mod order;
pub mod scan;
pub mod kinds;
pub mod metadata;
pub mod walk;
pub mod listing;
pub mod waveform;
pub mod shape;
pub mod cli;
pub mod engine;
pub mod schema_contract;
pub mod output;
