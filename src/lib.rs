//! Correlates raw disk device nodes with driver instances and kernel
//! statistics records, and derives the values of one report row per disk.

pub mod text;
pub mod device;
pub mod instance_map;
pub mod stats;
pub mod report;
