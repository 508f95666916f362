//! Host persistence scanner core: a declarative rule matcher over normalized
//! autostart artifacts, a bounded risk-scoring report builder, and a
//! snapshot/diff engine that tracks artifact sets over time by a derived
//! identity key.
pub mod rule;
pub mod strops;
pub mod engine;
pub mod matcher;
pub mod report;
pub mod snapshot;
pub mod paths;
