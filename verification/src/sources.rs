//! Per-platform font catalogs.

pub mod core_text;
