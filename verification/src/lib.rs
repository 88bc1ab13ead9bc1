//! A metric aggregation engine: a store of labelled, unit-tagged measurements
//! with bounded per-metric history, an automatic derivation rule engine that
//! synthesizes rates of change and moving averages from that history, and the
//! decision logic of the single-writer ingestion loop around it.
//!
//! Real numbers are carried as fixed-point values in millionths (micros), so
//! that every arithmetic step of the derivation engine is exact and verified.

pub mod metric;

pub mod strutil;

pub mod ring;

pub mod rules;

pub mod aggregator;

pub mod message;

pub mod wire;

pub mod ingest;
