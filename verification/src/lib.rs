//! A personal-finance ledger library.
//!
//! The library keeps an in-memory collection of ledger records (amount,
//! income/expense direction, optional category, calendar date), computes
//! aggregates over it (balance, per-direction totals, per-category totals,
//! balance over time), maintains a densely sequential record-id space
//! through a renumbering protocol, and drives the text-entry state machine
//! that turns four raw input buffers into a validated record mutation.
//!
//! Monetary amounts are held as integer cents; calendar dates as plain
//! year, month and day fields. Persistent storage and terminal rendering
//! are outside collaborators: the library only prepares the plain values
//! they consume and decodes the plain values they produce.

pub mod amount;
pub mod app;
pub mod chart;
pub mod date;
pub mod input;
pub mod manager;
pub mod record;
pub mod sequencer;
pub mod text;
