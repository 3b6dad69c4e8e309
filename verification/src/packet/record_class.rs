//! The class of a record, as questions and records hold it.

pub use crate::records::record_class::RecordClass;
