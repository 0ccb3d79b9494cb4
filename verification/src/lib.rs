//! A bidirectional, type-driven converter between a statically-shaped data
//! model (the kinds a derive-based serialization framework presents) and a
//! dynamically-typed value graph of an embedded host runtime (null, booleans,
//! integers, strings, byte buffers, ordered sequences, key-ordered mappings).
//!
//! The host runtime's objects themselves are opaque to verification, so this
//! library works on [`value::Value`], a faithful stand-in that holds as plain
//! data exactly what the conversion logic reads and writes; adapters outside
//! the library translate between host objects and [`value::Value`].
use vstd::prelude::*;

pub mod de;
pub mod error;
pub mod laws;
pub mod ser;
pub mod typed;
pub mod value;

pub use de::{from_py, Deserializer};
pub use error::Error;
pub use ser::{to_py, Serializer};

verus! {

/// Wrapper for a typed value recovered from a dynamic one, used as an
/// argument adapter at the host boundary.
pub struct FromPyDeserialize<T>(pub T);

impl<T> FromPyDeserialize<T> {
    /// Takes the recovered value out of the wrapper.
    pub fn unwrap(self) -> (r: T)
        ensures
            r == self.0,
    {
        self.0
    }
}

} // verus!
