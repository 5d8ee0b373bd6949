//! Decoder for the GP0 command stream of a legacy console GPU.
//!
//! The stream is a sequence of 32-bit words. Each command starts with a header
//! word whose top bits name the command and is followed by a number of
//! parameter words that the header determines. One pass over the stream yields
//! fill-rectangle records, opaque and semi-transparent triangles, and the
//! rendering-attribute snapshots that the triangles refer to, each group also
//! available as a fixed-stride little-endian byte buffer.
//!
//! [`decode_commands`] gives the four lists as records, and
//! [`build_gp0_command_lists`] gives them packed. What either returns is
//! stated over [`decoder::decode_spec`], the meaning of a stream; [`laws`] and
//! [`streams`] hold what is proved of that meaning.

pub mod attributes;
pub mod decoder;
pub mod error;
pub mod geometry;
pub mod header;
pub mod laws;
pub mod lists;
pub mod packing;
pub mod reader;
pub mod streams;

pub use decoder::{decode_commands, DecodedCommands};
pub use error::{DecodeError, DecodeErrorKind};
pub use lists::{build_gp0_command_lists, GP0CommandLists};
pub use packing::u8_vec;
