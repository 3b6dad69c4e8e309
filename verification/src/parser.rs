//! A reader that owns the bytes it reads.

pub mod decoder;
