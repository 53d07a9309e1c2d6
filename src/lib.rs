//! A minimal voting program: candidate and voter records, and the single
//! vote that each registered voter may cast.

pub mod address;
pub mod ledger;
pub mod program;
