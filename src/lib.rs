//! Decoder for Apple's binary property list format, version `00`.
//!
//! The envelope (header, offset table, trailer), the per-object wire format
//! and the object-tree walker are verified; the walker reports each decoded
//! object as a stream of [`Event`]s in document order.

pub mod de;
pub mod document;
pub mod envelope;
pub mod error;
pub mod event;
pub mod laws;
pub mod object;
pub mod pseudo;
pub mod text;
pub mod utils;

pub use de::{Deserializer, ObjectDeserializer};
pub use error::Error;
pub use event::Event;
pub use pseudo::{Uid, UidFromBytes};
