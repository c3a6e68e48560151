//! Decoder for a chunked ring-tone/melody container format: a fixed
//! header, an optional content-info chunk, an optional metadata block,
//! and any number of MIDI and PCM track blocks, all located by linear
//! signature scanning over an in-memory byte buffer.

pub mod blocks;
pub mod decode;
pub mod fields;
pub mod laws;
pub mod scan;

pub use blocks::ContentInfoBlock;
pub use blocks::MmfFileInfo;
pub use blocks::MmfParseResult;
pub use blocks::OptionalDataBlock;
pub use blocks::TrackBlock;
pub use blocks::TrackType;
pub use decode::parse;
