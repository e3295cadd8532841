//! A binary wire codec for a Minecraft-style game protocol.
//!
//! Typed values are written to and read from a compact byte stream:
//! fixed-width integers in network byte order, variable-width integers,
//! length-prefixed strings and byte buffers, and aggregates that are nothing
//! but their fields laid end to end. The stream carries no tags and no counts;
//! a reader knows what to expect from the shape it is given.
//!
//! - [`wire`] states the format as mathematics, and [`laws`] proves what the
//!   format promises: what is written reads back, and what is cut short is
//!   refused.
//! - [`ser`] and [`de`] are the serializer and the deserializer, proved
//!   against [`wire`].
//! - [`varint`] and [`text`] hold the variable-width integers and the strings.
//! - [`value`] holds the values and shapes that the codec works on.
//! - [`status`] holds the packets of the status phase and their handlers.
//! - [`bytes_specs`] holds what is assumed, without proof, of the buffers that
//!   the `bytes` crate provides.
pub mod bytes_specs;
pub mod de;
pub mod error;
pub mod laws;
pub mod ser;
pub mod status;
pub mod text;
pub mod value;
pub mod varint;
pub mod wire;

pub use de::{deserialize, Deserializer};
pub use error::Error;
pub use ser::{serialize, Serializer};
pub use value::{Shape, Unsupported, Value};
pub use varint::Var;
