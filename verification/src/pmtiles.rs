//! A minimal, fail-closed reader for PMTiles v3 archives.
//!
//! The archive is a file this process did not write, so every span, count and
//! index that comes out of it is checked before use. A tile that is not in the
//! archive is absent, a broken archive is an error, and neither ever becomes
//! some other tile's bytes.

pub mod archive;
pub mod directory;
pub mod error;
pub mod header;
pub mod metadata;
pub mod tile;

pub use archive::{accept_page, decompress, Archive, LookupStep, OpenPlan, Tile, MAX_LEAF_DEPTH};
pub use directory::{find, parse_directory, varint, Entry};
pub use error::ArchiveError;
pub use header::{
    i32_at, u64_at, u8_at, Bounds, Compression, Header, TileType, HEADER_LEN, MAX_DIRECTORY_BYTES,
    MAX_METADATA_BYTES, MAX_TILE_BYTES,
};
pub use metadata::{to_plain_text, ArchiveMetadata};
pub use tile::{TileCoord, MAX_ZOOM};
