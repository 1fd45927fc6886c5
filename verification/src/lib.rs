//! A small network traffic observer: packets are decoded into flow events,
//! aggregated into per-flow byte counters, and periodically rendered as a
//! fixed-width text report with a pausable, resumable, and exitable lifecycle.
pub mod aggregator;
pub mod analyzer;
pub mod decode;
pub mod flow_table;
pub mod packet;
pub mod report;
