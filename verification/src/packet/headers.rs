//! The fixed twelve bytes that start a message.

pub mod header;
pub mod header_flags;
