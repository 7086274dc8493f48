//! A single-file compressor: a fixed-Huffman DEFLATE encoder whose output is
//! packaged as a one-entry archive in the standard PK local/central/end
//! record layout.
pub mod bits;
pub mod crc;
pub mod encoder;
pub mod header;
pub mod huffman;
pub mod lz;
pub mod reader;
pub mod time;

pub use encoder::encode;
pub use time::time_data;
