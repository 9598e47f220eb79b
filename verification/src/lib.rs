//! Parser for VisualSonics Vevo LAB ultrasound CSV exports.
//!
//! A Vevo LAB export packs several heterogeneous tables into one flat CSV
//! file. This crate tokenizes each line, drives a section state machine that
//! recognizes series, protocol, measurement and calculation boundaries, and
//! builds typed measurement and calculation rows tagged with the series id
//! and protocol name that were in force when the line was read.

pub mod line;
pub mod machine;
pub mod number;
pub mod row;
pub mod table;
pub mod text;
