//! Reading and writing SEG-Y seismic data: the byte encodings, the binary
//! file header, the trace header table, trace header values, samples and the
//! traces of a whole file.
pub mod bytes;
pub mod common;
pub mod error;
pub mod reader;
pub mod roundtrip;
pub mod standard;
pub mod traces;
pub mod trc_hdr_names;
pub mod utils;
pub mod writer;
