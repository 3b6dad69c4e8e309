//! A codec for the DNS wire format: a byte buffer is decoded into a validated
//! message and a message is encoded back into bytes, with name compression.

pub mod packet;
pub mod parser;
pub mod records;
