//! Telemetry engine of a live memory-usage monitor for one Linux host.

pub mod analyzer;
pub mod collector;
pub mod controls;
pub mod engine;
pub mod flat;
pub mod grouping;
pub mod os_utils;
pub mod pass;
pub mod reader;
pub mod rows;
pub mod sample;
pub mod sysreq;
pub mod text;
pub mod view;
