//! Watches a listing for newcomers: decides which records are eligible,
//! remembers every record it has accepted, and reports each new one once.

pub mod age;
pub mod diff;
pub mod eligibility;
pub mod extract;
pub mod guarantees;
pub mod notify;
pub mod record;
pub mod scheduler;
pub mod settings;
pub mod store;
pub mod text;
pub mod tracker;
