//! A keyed audit-log store: ordered audit entries are recorded under a
//! two-part key (a log file name and a date), the first writer to a log file
//! name becomes its sole owner, and the full history of any key can be read
//! back by anyone.

pub mod audit_log;
mod bytes;
pub mod laws;
pub mod log_store;
pub mod owner_registry;
pub mod pallet;
