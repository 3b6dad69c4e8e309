//! The message and its parts, with the readers and writers they are built on.

pub mod bin_reader;
pub mod fqdn;
pub mod headers;
pub mod message;
pub mod name_laws;
pub mod question;
pub mod record;
pub mod record_class;
pub mod round_trip;
pub mod seder;
pub mod text_laws;
