//! The data of each type of record.

pub mod a;
pub mod aaaa;
