//! Giveaway records as the submission layer sees them: no remaining-time
//! field, since a record reaching submission has already passed the time
//! ceiling.

pub mod entry;

pub use crate::account::URL;
