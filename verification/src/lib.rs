//! Resolution of map glyph ranges: a request names fonts in priority order and
//! a range of code points; the glyphs found for each font are merged so that
//! the first font listed wins, and the result is written in the protobuf glyph
//! format.

pub mod glyph;
pub mod message;
pub mod convert;
pub mod combine;
pub mod wire;
pub mod text;
pub mod error;
pub mod range;
pub mod fonts;
pub mod response;
pub mod resolve;
