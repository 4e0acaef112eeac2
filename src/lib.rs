//! Decoder for encrypted Signal backup files.
//!
//! The library covers key derivation, the rolling decrypt/authenticate
//! state, the protobuf record layer, the two length framings and the
//! dispatch of decoded records to an output sink.
pub mod args;
pub mod bytes;
pub mod primitives;
pub mod statement_filter;
pub mod keys;
pub mod message;
pub mod decrypter;
pub mod wire;
pub mod backups;
pub mod frame;
pub mod input;
pub mod output;
pub mod output_none;
pub mod pipeline;
