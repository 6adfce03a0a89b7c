//! Core of a command-line client for an issue tracker's REST API.
//!
//! The pieces with real decisions live here, each with a verified contract:
//! the field catalog and resolver that let a user address fields by
//! identifier or display name, the pagination aggregator that turns a
//! cursor-based list API into a bounded result set, the value normalizer
//! that turns any JSON-shaped field value into one display string, the
//! rich-text flattener, and the output formatting. Argument handling, config
//! loading and the HTTP transport sit outside, in the surrounding program,
//! and hand this library plain values.
pub mod adf;
pub mod catalog;
pub mod config;
pub mod fields;
pub mod formatter;
pub mod json;
pub mod jsontext;
pub mod paging;
pub mod records;
pub mod resolve;
pub mod table;
pub mod text;
