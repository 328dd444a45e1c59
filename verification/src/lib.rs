//! Encoder for vector-tile path-command geometry.
//!
//! Geometry is packed as a stream of unsigned 32-bit words: command words
//! (move, line, close) carrying a repeat count, followed by zigzag-encoded
//! coordinate deltas.  [`GeomEncoder`] builds the stream point by point;
//! [`GeomData`] is the finished, immutable result.

pub mod codec;
pub mod encoder;
pub mod error;

pub use codec::Command;
pub use codec::CommandInt;
pub use codec::ParamInt;
pub use encoder::GeomData;
pub use encoder::GeomEncoder;
pub use encoder::GeomType;
pub use error::Error;
