//! Conversion between configuration value trees and application data,
//! driven through an explicit encode/decode protocol.
//!
//! An [`Encoder`] builds a table from protocol calls; a [`Decoder`] takes a
//! value apart and keeps, as its leftover, whatever was not claimed.

pub mod decoder;
pub mod diagnostics;
pub mod encoder;
pub mod laws;
pub mod value;

pub use decoder::{decode, DecodeError, DecodeErrorKind, Decodable, Decoder};
pub use encoder::{encode, Encodable, Encoder, EncoderState, Error};
pub use value::{Table, Value};
