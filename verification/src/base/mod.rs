//! Shared building blocks: byte buffers, number codecs and ordered maps.
pub mod buffers;
pub mod codec;
pub mod lsn;
pub mod metric_desc;
pub mod ordered_map;
pub mod paths;
pub mod random;
pub mod text;
