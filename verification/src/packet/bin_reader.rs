//! The byte reader of [`crate::packet::seder::deserializer`], under the name
//! that packet code calls it by.

use vstd::prelude::*;
use crate::packet::seder::deserializer::{Deserialize, DeserializeError, DeserializeResult};

verus! {

/// A bounds-checked reader over a borrowed byte buffer.
pub type BinReader<'a> = Deserialize<'a>;

/// Why a read from a [`BinReader`] failed.
pub type BinReaderError = DeserializeError;

pub type BinReaderResult<T> = DeserializeResult<T>;

} // verus!
