//! Per-process resource exporter with kernel-side network accounting.
//!
//! The library holds the decisions of the exporter: the accounting rule of the
//! TCP return probes over their two fixed-capacity tables, the life cycle of the
//! loaded kernel program, the choice of one authoritative process among the
//! processes that match a registered rule, the registry of monitored targets and
//! its reconciliation on every scrape, and the set of exported series.
//!
//! `probe` is a verified model of the kernel-resident program: the prebuilt
//! image that the exporter loads at run time implements the same accounting
//! rule over the same two tables, and is not compiled from this crate.
pub mod probe;
pub mod resolver;
pub mod stats;
pub mod loader;
pub mod registry;
pub mod reconcile;
pub mod metrics;
pub mod cli;
