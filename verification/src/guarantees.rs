//! What holds of every run: theorems over all rules, stores, fetches and
//! events.

pub mod diffing;
pub mod scheduling;
pub mod tracking;
