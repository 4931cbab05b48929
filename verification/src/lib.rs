//! Converts the transaction table of a bank-statement text into double-entry
//! bookkeeping postings in a plain-text ledger format.
//!
//! The pipeline locates the table between its two markers, extracts
//! fixed-shape rows, groups consecutive rows that share a date and title into
//! one transaction, classifies each title into a narration and a comment,
//! derives a signed posting per row, and renders the ledger lines with fixed
//! column alignment.
pub mod classify;
pub mod config;
pub mod grouping;
pub mod locate;
pub mod model;
pub mod pipeline;
pub mod posting;
pub mod render;
pub mod reparse;
pub mod row;
pub mod text;
pub mod tokens;
