//! The types, the classes and the data of resource records.

pub mod rdata;
pub mod record_class;
pub mod record_data;
pub mod record_type;
