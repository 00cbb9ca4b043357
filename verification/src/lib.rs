//! Time-bucketed aggregation of movie financials by production company.
//!
//! Raw rows are validated into [`data::Movie`] records, fanned out into one
//! summary per production company, and folded into a year → month → company
//! index whose colliding entries are merged.

pub mod config;
pub mod data;
pub mod date;
pub mod id_set;
pub mod parsing;
pub mod query;
pub mod text_set;
