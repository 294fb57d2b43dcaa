//! The fixed-size archive header and the spans it declares.

use vstd::prelude::*;

use super::directory::Entry;
use super::error::ArchiveError;
use super::tile::{TileCoord, MAX_ZOOM};

verus! {

/// Size of the header at offset 0.
pub const HEADER_LEN: usize = 127;

/// The spec version this reader speaks.
pub const SPEC_VERSION: u8 = 3;

/// Ceiling on a single directory page, compressed and decompressed (8 MiB).
pub const MAX_DIRECTORY_BYTES: usize = 8_388_608;

/// Ceiling on the JSON metadata blob (4 MiB).
pub const MAX_METADATA_BYTES: usize = 4_194_304;

/// Ceiling on one tile body (16 MiB).
pub const MAX_TILE_BYTES: usize = 16_777_216;

/// Compression of a byte range inside the archive.
#[derive(Debug, Clone, Copy, PartialEq, Eq, Structural)]
pub enum Compression {
    /// Stored as is.
    Plain,
    Gzip,
    Brotli,
    Zstd,
}

impl Compression {
    pub open spec fn code(self) -> u8 {
        match self {
            Compression::Plain => 1,
            Compression::Gzip => 2,
            Compression::Brotli => 3,
            Compression::Zstd => 4,
        }
    }

    /// The compression with the given code. Code `0` is "unknown": an archive
    /// that will not say how it is encoded is not one to guess at.
    pub fn from_code(code: u8) -> (found: Option<Self>)
        ensures
            match found {
                Some(c) => c.code() == code,
                None => code == 0 || code > 4,
            },
    {
        match code {
            1 => Some(Compression::Plain),
            2 => Some(Compression::Gzip),
            3 => Some(Compression::Brotli),
            4 => Some(Compression::Zstd),
            _ => None,
        }
    }

    pub open spec fn spec_label(self) -> &'static str {
        match self {
            Compression::Plain => "none",
            Compression::Gzip => "gzip",
            Compression::Brotli => "brotli",
            Compression::Zstd => "zstd",
        }
    }

    pub fn label(self) -> (label: &'static str)
        ensures
            label == self.spec_label(),
    {
        match self {
            Compression::Plain => "none",
            Compression::Gzip => "gzip",
            Compression::Brotli => "brotli",
            Compression::Zstd => "zstd",
        }
    }

    /// The HTTP `Content-Encoding` for tile bodies stored with this compression,
    /// or `None` when the bytes are already plain. Bodies are passed through as
    /// stored; the browser inflates them.
    pub fn content_encoding(self) -> (encoding: Option<&'static str>)
        ensures
            encoding == (match self {
                Compression::Plain => None,
                Compression::Gzip => Some("gzip"),
                Compression::Brotli => Some("br"),
                Compression::Zstd => Some("zstd"),
            }),
    {
        match self {
            Compression::Plain => None,
            Compression::Gzip => Some("gzip"),
            Compression::Brotli => Some("br"),
            Compression::Zstd => Some("zstd"),
        }
    }
}

/// What the tiles in an archive are.
#[derive(Debug, Clone, Copy, PartialEq, Eq, Structural)]
pub enum TileType {
    Mvt,
    Png,
    Jpeg,
    Webp,
    Avif,
}

impl TileType {
    pub open spec fn code(self) -> u8 {
        match self {
            TileType::Mvt => 1,
            TileType::Png => 2,
            TileType::Jpeg => 3,
            TileType::Webp => 4,
            TileType::Avif => 5,
        }
    }

    pub fn from_code(code: u8) -> (found: Option<Self>)
        ensures
            match found {
                Some(t) => t.code() == code,
                None => code == 0 || code > 5,
            },
    {
        match code {
            1 => Some(TileType::Mvt),
            2 => Some(TileType::Png),
            3 => Some(TileType::Jpeg),
            4 => Some(TileType::Webp),
            5 => Some(TileType::Avif),
            _ => None,
        }
    }

    /// The `Content-Type` served for a tile body. All five are inert image or
    /// protobuf types.
    pub fn content_type(self) -> (mime: &'static str)
        ensures
            mime == (match self {
                TileType::Mvt => "application/vnd.mapbox-vector-tile",
                TileType::Png => "image/png",
                TileType::Jpeg => "image/jpeg",
                TileType::Webp => "image/webp",
                TileType::Avif => "image/avif",
            }),
    {
        match self {
            TileType::Mvt => "application/vnd.mapbox-vector-tile",
            TileType::Png => "image/png",
            TileType::Jpeg => "image/jpeg",
            TileType::Webp => "image/webp",
            TileType::Avif => "image/avif",
        }
    }
}

/// Geographic coverage in ten-millionths of a degree, the fixed-point form in
/// which the archive stores coordinates.
#[derive(Debug, Clone, Copy, PartialEq, Eq, Structural)]
pub struct Bounds {
    pub min_lon: i32,
    pub min_lat: i32,
    pub max_lon: i32,
    pub max_lat: i32,
}

/// One hundred and eighty degrees.
pub const MAX_LON: i32 = 1_800_000_000;

/// Ninety degrees.
pub const MAX_LAT: i32 = 900_000_000;

impl Bounds {
    /// A box on the globe: both corners in range, and in order.
    pub open spec fn is_box(self) -> bool {
        &&& -MAX_LON <= self.min_lon <= self.max_lon <= MAX_LON
        &&& -MAX_LAT <= self.min_lat <= self.max_lat <= MAX_LAT
    }
}

/// The parsed header. Offsets and lengths are in bytes of the file.
#[derive(Debug, Clone, Copy, PartialEq, Eq, Structural)]
pub struct Header {
    pub root_dir_offset: u64,
    pub root_dir_len: u64,
    pub metadata_offset: u64,
    pub metadata_len: u64,
    pub leaf_dirs_offset: u64,
    pub leaf_dirs_len: u64,
    pub tile_data_offset: u64,
    pub tile_data_len: u64,
    pub internal_compression: Compression,
    pub tile_compression: Compression,
    pub tile_type: TileType,
    pub min_zoom: u8,
    pub max_zoom: u8,
    pub bounds: Bounds,
    pub center_zoom: u8,
    pub center_lon: i32,
    pub center_lat: i32,
}

// ---------------------------------------------------------------------------
// Little-endian fields
// ---------------------------------------------------------------------------

/// The unsigned number in the `n` bytes from `at` on, lowest byte first.
pub open spec fn le_value(bytes: Seq<u8>, at: int, n: nat) -> nat
    decreases n,
{
    if n == 0 {
        0
    } else {
        bytes[at] as nat + 256 * le_value(bytes, at + 1, (n - 1) as nat)
    }
}

/// A 32-bit pattern read as two's complement.
pub open spec fn as_signed(raw: nat) -> int {
    if raw >= 0x8000_0000 {
        raw - 0x1_0000_0000
    } else {
        raw as int
    }
}

pub fn u64_at(bytes: &[u8], at: usize) -> (r: Result<u64, ArchiveError>)
    requires
        at + 8 <= usize::MAX,
    ensures
        match r {
            Ok(v) => at + 8 <= bytes@.len() && v == le_value(bytes@, at as int, 8),
            Err(e) => at + 8 > bytes@.len() && e == ArchiveError::Truncated("header"),
        },
{
    if at + 8 > bytes.len() {
        return Err(ArchiveError::Truncated("header"));
    }
    proof {
        reveal_with_fuel(le_value, 9);
    }
    let low: u64 = bytes[at] as u64 + 256 * (bytes[at + 1] as u64) + 0x1_0000 * (bytes[at
        + 2] as u64) + 0x100_0000 * (bytes[at + 3] as u64);
    let high: u64 = bytes[at + 4] as u64 + 256 * (bytes[at + 5] as u64) + 0x1_0000 * (bytes[at
        + 6] as u64) + 0x100_0000 * (bytes[at + 7] as u64);
    Ok(low + 0x1_0000_0000 * high)
}

pub fn i32_at(bytes: &[u8], at: usize) -> (r: Result<i32, ArchiveError>)
    requires
        at + 4 <= usize::MAX,
    ensures
        match r {
            Ok(v) => at + 4 <= bytes@.len() && v == as_signed(le_value(bytes@, at as int, 4)),
            Err(e) => at + 4 > bytes@.len() && e == ArchiveError::Truncated("header"),
        },
{
    if at + 4 > bytes.len() {
        return Err(ArchiveError::Truncated("header"));
    }
    proof {
        reveal_with_fuel(le_value, 5);
    }
    let raw: i64 = bytes[at] as i64 + 256 * (bytes[at + 1] as i64) + 0x1_0000 * (bytes[at
        + 2] as i64) + 0x100_0000 * (bytes[at + 3] as i64);
    if raw >= 0x8000_0000 {
        Ok((raw - 0x1_0000_0000) as i32)
    } else {
        Ok(raw as i32)
    }
}

pub fn u8_at(bytes: &[u8], at: usize) -> (r: Result<u8, ArchiveError>)
    ensures
        match r {
            Ok(v) => at < bytes@.len() && v == bytes@[at as int],
            Err(e) => at >= bytes@.len() && e == ArchiveError::Truncated("header"),
        },
{
    if at >= bytes.len() {
        return Err(ArchiveError::Truncated("header"));
    }
    Ok(bytes[at])
}

// ---------------------------------------------------------------------------
// Header rules
// ---------------------------------------------------------------------------

/// The seven bytes `PMTiles` at the start of the file.
pub open spec fn has_magic(bytes: Seq<u8>) -> bool {
    &&& bytes.len() >= 7
    &&& bytes[0] == 0x50
    &&& bytes[1] == 0x4d
    &&& bytes[2] == 0x54
    &&& bytes[3] == 0x69
    &&& bytes[4] == 0x6c
    &&& bytes[5] == 0x65
    &&& bytes[6] == 0x73
}

/// The compression with a given code, where there is one.
pub open spec fn compression_of(code: u8) -> Option<Compression> {
    if code == 1 {
        Some(Compression::Plain)
    } else if code == 2 {
        Some(Compression::Gzip)
    } else if code == 3 {
        Some(Compression::Brotli)
    } else if code == 4 {
        Some(Compression::Zstd)
    } else {
        None
    }
}

/// The tile type with a given code, where there is one.
pub open spec fn tile_type_of(code: u8) -> Option<TileType> {
    if code == 1 {
        Some(TileType::Mvt)
    } else if code == 2 {
        Some(TileType::Png)
    } else if code == 3 {
        Some(TileType::Jpeg)
    } else if code == 4 {
        Some(TileType::Webp)
    } else if code == 5 {
        Some(TileType::Avif)
    } else {
        None
    }
}

/// The coverage box at its place in the header.
pub open spec fn bounds_field(bytes: Seq<u8>) -> Bounds {
    Bounds {
        min_lon: as_signed(le_value(bytes, 102, 4)) as i32,
        min_lat: as_signed(le_value(bytes, 106, 4)) as i32,
        max_lon: as_signed(le_value(bytes, 110, 4)) as i32,
        max_lat: as_signed(le_value(bytes, 114, 4)) as i32,
    }
}

/// The first rule that a header breaks.
pub open spec fn header_fault(bytes: Seq<u8>) -> Option<ArchiveError> {
    if bytes.len() < HEADER_LEN {
        Some(ArchiveError::Truncated("header"))
    } else if !has_magic(bytes) {
        Some(ArchiveError::NotPmTiles)
    } else if bytes[7] != SPEC_VERSION {
        Some(ArchiveError::UnsupportedVersion(bytes[7]))
    } else if compression_of(bytes[97]) is None {
        Some(ArchiveError::UnsupportedCompression { what: "directories", kind: "unknown" })
    } else if bytes[97] > 2 {
        // Directories are decoded here, so only what can be inflated will do.
        Some(
            ArchiveError::UnsupportedCompression {
                what: "directories",
                kind: compression_of(bytes[97])->0.spec_label(),
            },
        )
    } else if compression_of(bytes[98]) is None {
        Some(ArchiveError::UnsupportedCompression { what: "tiles", kind: "unknown" })
    } else if tile_type_of(bytes[99]) is None {
        Some(ArchiveError::UnsupportedTileType(bytes[99]))
    } else if bytes[100] > bytes[101] {
        Some(ArchiveError::InvalidHeader("min zoom exceeds max zoom"))
    } else if bytes[101] > MAX_ZOOM {
        Some(ArchiveError::InvalidHeader("max zoom exceeds 26"))
    } else if !bounds_field(bytes).is_box() {
        Some(ArchiveError::InvalidHeader("bounds are not a valid box"))
    } else {
        None
    }
}

/// The header fields, each at its place in the bytes.
pub open spec fn header_fields(bytes: Seq<u8>) -> Header {
    Header {
        root_dir_offset: le_value(bytes, 8, 8) as u64,
        root_dir_len: le_value(bytes, 16, 8) as u64,
        metadata_offset: le_value(bytes, 24, 8) as u64,
        metadata_len: le_value(bytes, 32, 8) as u64,
        leaf_dirs_offset: le_value(bytes, 40, 8) as u64,
        leaf_dirs_len: le_value(bytes, 48, 8) as u64,
        tile_data_offset: le_value(bytes, 56, 8) as u64,
        tile_data_len: le_value(bytes, 64, 8) as u64,
        internal_compression: compression_of(bytes[97])->0,
        tile_compression: compression_of(bytes[98])->0,
        tile_type: tile_type_of(bytes[99])->0,
        min_zoom: bytes[100],
        max_zoom: bytes[101],
        bounds: bounds_field(bytes),
        center_zoom: bytes[118],
        center_lon: as_signed(le_value(bytes, 119, 4)) as i32,
        center_lat: as_signed(le_value(bytes, 123, 4)) as i32,
    }
}

/// What every parsed header satisfies.
pub open spec fn header_ok(h: Header) -> bool {
    &&& h.internal_compression == Compression::Plain || h.internal_compression == Compression::Gzip
    &&& h.min_zoom <= h.max_zoom <= MAX_ZOOM
    &&& h.bounds.is_box()
}

/// A byte span that ends inside a region of `len` bytes.
pub open spec fn fits(offset: u64, length: u64, len: u64) -> bool {
    offset + length <= len
}

/// The first span that does not lie inside a file of `file_len` bytes, or that
/// is over its ceiling.
pub open spec fn span_fault(h: Header, file_len: u64) -> Option<ArchiveError> {
    if !fits(h.root_dir_offset, h.root_dir_len, file_len) {
        Some(ArchiveError::Truncated("root directory"))
    } else if !fits(h.metadata_offset, h.metadata_len, file_len) {
        Some(ArchiveError::Truncated("metadata"))
    } else if !fits(h.leaf_dirs_offset, h.leaf_dirs_len, file_len) {
        Some(ArchiveError::Truncated("leaf directories"))
    } else if !fits(h.tile_data_offset, h.tile_data_len, file_len) {
        Some(ArchiveError::Truncated("tile data"))
    } else if h.root_dir_len > MAX_DIRECTORY_BYTES {
        Some(ArchiveError::Oversize { what: "root directory", limit: MAX_DIRECTORY_BYTES })
    } else if h.metadata_len > MAX_METADATA_BYTES {
        Some(ArchiveError::Oversize { what: "metadata", limit: MAX_METADATA_BYTES })
    } else {
        None
    }
}

/// Where an entry's bytes lie in the file, given the region its offset counts
/// from, or why the entry cannot be followed.
pub open spec fn entry_span(
    entry: Entry,
    region_offset: u64,
    region_len: u64,
    limit: usize,
    what: &'static str,
    span_overflows: &'static str,
    outside: &'static str,
    offset_overflows: &'static str,
) -> Result<(u64, usize), ArchiveError> {
    if entry.offset + entry.length > u64::MAX {
        Err(ArchiveError::MalformedDirectory(span_overflows))
    } else if entry.offset + entry.length > region_len {
        Err(ArchiveError::MalformedDirectory(outside))
    } else if entry.length > limit {
        Err(ArchiveError::Oversize { what, limit })
    } else if region_offset + entry.offset > u64::MAX {
        Err(ArchiveError::MalformedDirectory(offset_overflows))
    } else {
        Ok(((region_offset + entry.offset) as u64, entry.length as usize))
    }
}

/// Where the leaf directory that an entry points to lies in the file.
pub open spec fn leaf_span_spec(h: Header, entry: Entry) -> Result<(u64, usize), ArchiveError> {
    entry_span(
        entry,
        h.leaf_dirs_offset,
        h.leaf_dirs_len,
        MAX_DIRECTORY_BYTES,
        "leaf directory",
        "leaf span overflows",
        "leaf entry points outside the leaf-directory region",
        "leaf offset overflows",
    )
}

/// Where the tile body that an entry points to lies in the file.
pub open spec fn tile_span_spec(h: Header, entry: Entry) -> Result<(u64, usize), ArchiveError> {
    entry_span(
        entry,
        h.tile_data_offset,
        h.tile_data_len,
        MAX_TILE_BYTES,
        "tile",
        "tile span overflows",
        "tile entry points outside the tile-data region",
        "tile offset overflows",
    )
}

fn span_end(offset: u64, length: u64) -> (end: Option<u64>)
    ensures
        end == (if offset + length > u64::MAX {
            None
        } else {
            Some((offset + length) as u64)
        }),
{
    offset.checked_add(length)
}

fn span_fits(offset: u64, length: u64, len: u64) -> (ok: bool)
    ensures
        ok == fits(offset, length, len),
{
    match span_end(offset, length) {
        Some(end) => end <= len,
        None => false,
    }
}

impl Header {
    /// Parse the fixed-size header, reporting the first rule it breaks.
    pub fn parse(bytes: &[u8]) -> (r: Result<Self, ArchiveError>)
        ensures
            match header_fault(bytes@) {
                Some(e) => r == Err::<Self, ArchiveError>(e),
                None => r == Ok::<Self, ArchiveError>(header_fields(bytes@)) && header_ok(
                    header_fields(bytes@),
                ),
            },
    {
        if bytes.len() < HEADER_LEN {
            return Err(ArchiveError::Truncated("header"));
        }
        if !(bytes[0] == 0x50 && bytes[1] == 0x4d && bytes[2] == 0x54 && bytes[3] == 0x69
            && bytes[4] == 0x6c && bytes[5] == 0x65 && bytes[6] == 0x73) {
            return Err(ArchiveError::NotPmTiles);
        }
        let version: u8 = u8_at(bytes, 7)?;
        if version != SPEC_VERSION {
            return Err(ArchiveError::UnsupportedVersion(version));
        }
        let internal_compression = match Compression::from_code(u8_at(bytes, 97)?) {
            Some(c) => c,
            None => {
                return Err(
                    ArchiveError::UnsupportedCompression { what: "directories", kind: "unknown" },
                );
            },
        };
        match internal_compression {
            Compression::Plain | Compression::Gzip => {},
            other => {
                return Err(
                    ArchiveError::UnsupportedCompression {
                        what: "directories",
                        kind: other.label(),
                    },
                );
            },
        }
        let tile_compression = match Compression::from_code(u8_at(bytes, 98)?) {
            Some(c) => c,
            None => {
                return Err(
                    ArchiveError::UnsupportedCompression { what: "tiles", kind: "unknown" },
                );
            },
        };
        let tile_type_code: u8 = u8_at(bytes, 99)?;
        let tile_type = match TileType::from_code(tile_type_code) {
            Some(t) => t,
            None => {
                return Err(ArchiveError::UnsupportedTileType(tile_type_code));
            },
        };
        let min_zoom: u8 = u8_at(bytes, 100)?;
        let max_zoom: u8 = u8_at(bytes, 101)?;
        if min_zoom > max_zoom {
            return Err(ArchiveError::InvalidHeader("min zoom exceeds max zoom"));
        }
        if max_zoom > MAX_ZOOM {
            return Err(ArchiveError::InvalidHeader("max zoom exceeds 26"));
        }
        let bounds = Bounds {
            min_lon: i32_at(bytes, 102)?,
            min_lat: i32_at(bytes, 106)?,
            max_lon: i32_at(bytes, 110)?,
            max_lat: i32_at(bytes, 114)?,
        };
        if bounds.min_lon < -MAX_LON || bounds.max_lon > MAX_LON || bounds.min_lat < -MAX_LAT
            || bounds.max_lat > MAX_LAT || bounds.min_lon > bounds.max_lon || bounds.min_lat
            > bounds.max_lat {
            return Err(ArchiveError::InvalidHeader("bounds are not a valid box"));
        }
        Ok(
            Header {
                root_dir_offset: u64_at(bytes, 8)?,
                root_dir_len: u64_at(bytes, 16)?,
                metadata_offset: u64_at(bytes, 24)?,
                metadata_len: u64_at(bytes, 32)?,
                leaf_dirs_offset: u64_at(bytes, 40)?,
                leaf_dirs_len: u64_at(bytes, 48)?,
                tile_data_offset: u64_at(bytes, 56)?,
                tile_data_len: u64_at(bytes, 64)?,
                internal_compression,
                tile_compression,
                tile_type,
                min_zoom,
                max_zoom,
                bounds,
                center_zoom: u8_at(bytes, 118)?,
                center_lon: i32_at(bytes, 119)?,
                center_lat: i32_at(bytes, 123)?,
            },
        )
    }

    /// Every span the header declares must lie inside the file that actually
    /// exists. This is where a truncated download stops being usable.
    pub fn validate_spans(&self, file_len: u64) -> (r: Result<(), ArchiveError>)
        ensures
            match span_fault(*self, file_len) {
                Some(e) => r == Err::<(), ArchiveError>(e),
                None => r is Ok,
            },
    {
        if !span_fits(self.root_dir_offset, self.root_dir_len, file_len) {
            return Err(ArchiveError::Truncated("root directory"));
        }
        if !span_fits(self.metadata_offset, self.metadata_len, file_len) {
            return Err(ArchiveError::Truncated("metadata"));
        }
        if !span_fits(self.leaf_dirs_offset, self.leaf_dirs_len, file_len) {
            return Err(ArchiveError::Truncated("leaf directories"));
        }
        if !span_fits(self.tile_data_offset, self.tile_data_len, file_len) {
            return Err(ArchiveError::Truncated("tile data"));
        }
        if self.root_dir_len > MAX_DIRECTORY_BYTES as u64 {
            return Err(
                ArchiveError::Oversize { what: "root directory", limit: MAX_DIRECTORY_BYTES },
            );
        }
        if self.metadata_len > MAX_METADATA_BYTES as u64 {
            return Err(ArchiveError::Oversize { what: "metadata", limit: MAX_METADATA_BYTES });
        }
        Ok(())
    }

    /// Absolute file span of a leaf directory named by a directory entry, or an
    /// error if the entry points outside the declared leaf-directory region.
    pub fn leaf_span(&self, entry: Entry) -> (r: Result<(u64, usize), ArchiveError>)
        ensures
            r == leaf_span_spec(*self, entry),
    {
        let len: u64 = entry.length as u64;
        let end: u64 = match span_end(entry.offset, len) {
            Some(end) => end,
            None => {
                return Err(ArchiveError::MalformedDirectory("leaf span overflows"));
            },
        };
        if end > self.leaf_dirs_len {
            return Err(
                ArchiveError::MalformedDirectory(
                    "leaf entry points outside the leaf-directory region",
                ),
            );
        }
        if len > MAX_DIRECTORY_BYTES as u64 {
            return Err(
                ArchiveError::Oversize { what: "leaf directory", limit: MAX_DIRECTORY_BYTES },
            );
        }
        match span_end(self.leaf_dirs_offset, entry.offset) {
            Some(offset) => Ok((offset, entry.length as usize)),
            None => Err(ArchiveError::MalformedDirectory("leaf offset overflows")),
        }
    }

    /// Absolute file span of a tile body named by a directory entry, with the
    /// same containment rule as [`Self::leaf_span`].
    pub fn tile_span(&self, entry: Entry) -> (r: Result<(u64, usize), ArchiveError>)
        ensures
            r == tile_span_spec(*self, entry),
    {
        let len: u64 = entry.length as u64;
        let end: u64 = match span_end(entry.offset, len) {
            Some(end) => end,
            None => {
                return Err(ArchiveError::MalformedDirectory("tile span overflows"));
            },
        };
        if end > self.tile_data_len {
            return Err(
                ArchiveError::MalformedDirectory("tile entry points outside the tile-data region"),
            );
        }
        if len > MAX_TILE_BYTES as u64 {
            return Err(ArchiveError::Oversize { what: "tile", limit: MAX_TILE_BYTES });
        }
        match span_end(self.tile_data_offset, entry.offset) {
            Some(offset) => Ok((offset, entry.length as usize)),
            None => Err(ArchiveError::MalformedDirectory("tile offset overflows")),
        }
    }

    /// Is this coordinate inside the declared coverage? `overlaps` says whether
    /// the tile's footprint meets the coverage box. A `false` here is a refusal,
    /// not a miss.
    pub fn covers(&self, coord: TileCoord, overlaps: bool) -> (covered: bool)
        ensures
            covered == is_covered(*self, coord.spec_z(), overlaps),
            covered == (self.min_zoom <= coord.spec_z() <= self.max_zoom && overlaps),
    {
        coord.z() >= self.min_zoom && coord.z() <= self.max_zoom && overlaps
    }
}

/// A span that an entry resolves to stays inside the region it is counted from,
/// and so inside the file, once the header's spans were found to.
pub proof fn law_entry_spans_stay_in_file(h: Header, file_len: u64, entry: Entry)
    requires
        span_fault(h, file_len) is None,
    ensures
        leaf_span_spec(h, entry) matches Ok((offset, len)) ==> h.leaf_dirs_offset <= offset
            && offset + len <= h.leaf_dirs_offset + h.leaf_dirs_len && offset + len <= file_len
            && len <= MAX_DIRECTORY_BYTES,
        tile_span_spec(h, entry) matches Ok((offset, len)) ==> h.tile_data_offset <= offset
            && offset + len <= h.tile_data_offset + h.tile_data_len && offset + len <= file_len
            && len <= MAX_TILE_BYTES,
{
}

// ---------------------------------------------------------------------------
// Headers as they are written
// ---------------------------------------------------------------------------

/// A number in `n` bytes, lowest byte first.
pub open spec fn field(v: nat, n: nat) -> Seq<u8>
    decreases n,
{
    if n == 0 {
        seq![]
    } else {
        seq![(v % 256) as u8] + field(v / 256, (n - 1) as nat)
    }
}

/// A signed number in four bytes, as two's complement.
pub open spec fn signed_field(v: i32) -> Seq<u8> {
    field(
        if v < 0 {
            (v + 0x1_0000_0000) as nat
        } else {
            v as nat
        },
        4,
    )
}

/// The offsets and lengths of a header, one behind the other.
pub open spec fn span_fields(h: Header) -> Seq<u8> {
    field(h.root_dir_offset as nat, 8) + field(h.root_dir_len as nat, 8) + field(
        h.metadata_offset as nat,
        8,
    ) + field(h.metadata_len as nat, 8) + field(h.leaf_dirs_offset as nat, 8) + field(
        h.leaf_dirs_len as nat,
        8,
    ) + field(h.tile_data_offset as nat, 8) + field(h.tile_data_len as nat, 8)
}

/// What a header says of the tiles, one field behind the other.
pub open spec fn kind_fields(h: Header) -> Seq<u8> {
    seq![
        match h.internal_compression {
            Compression::Plain => 1u8,
            Compression::Gzip => 2u8,
            Compression::Brotli => 3u8,
            Compression::Zstd => 4u8,
        },
        match h.tile_compression {
            Compression::Plain => 1u8,
            Compression::Gzip => 2u8,
            Compression::Brotli => 3u8,
            Compression::Zstd => 4u8,
        },
        match h.tile_type {
            TileType::Mvt => 1u8,
            TileType::Png => 2u8,
            TileType::Jpeg => 3u8,
            TileType::Webp => 4u8,
            TileType::Avif => 5u8,
        },
        h.min_zoom,
        h.max_zoom,
    ]
}

/// Where the map lies, one field behind the other.
pub open spec fn place_fields(h: Header) -> Seq<u8> {
    signed_field(h.bounds.min_lon) + signed_field(h.bounds.min_lat) + signed_field(
        h.bounds.max_lon,
    ) + signed_field(h.bounds.max_lat) + seq![h.center_zoom] + signed_field(h.center_lon)
        + signed_field(h.center_lat)
}

/// A header as a writer puts it down: the magic number and the version, the
/// spans, three counts and a flag that readers pass over, what the tiles are,
/// and where they lie.
pub open spec fn header_bytes(h: Header, passed_over: Seq<u8>) -> Seq<u8> {
    seq![0x50u8, 0x4d, 0x54, 0x69, 0x6c, 0x65, 0x73, 3] + span_fields(h) + passed_over
        + kind_fields(h) + place_fields(h)
}

/// The largest number of `n` bytes, and one.
pub open spec fn room(n: nat) -> nat
    decreases n,
{
    if n == 0 {
        1
    } else {
        256 * room((n - 1) as nat)
    }
}

pub proof fn lemma_field_read(bytes: Seq<u8>, at: int, v: nat, n: nat)
    requires
        v < room(n),
        0 <= at,
        at + n <= bytes.len(),
        bytes.subrange(at, at + n) == field(v, n),
    ensures
        le_value(bytes, at, n) == v,
    decreases n,
{
    if n > 0 {
        let rest = (n - 1) as nat;
        let written = field(v, n);
        assert(written.len() == n) by {
            assert(bytes.subrange(at, at + n).len() == n);
        }
        assert(bytes[at] == bytes.subrange(at, at + n)[0]);
        assert(written[0] == (v % 256) as u8);
        assert(bytes.subrange(at + 1, at + 1 + rest) =~= bytes.subrange(at, at + n).skip(1));
        assert(written.skip(1) =~= field(v / 256, rest));
        lemma_field_read(bytes, at + 1, v / 256, rest);
    }
}

proof fn lemma_field_len(v: nat, n: nat)
    ensures
        field(v, n).len() == n,
    decreases n,
{
    if n > 0 {
        lemma_field_len(v / 256, (n - 1) as nat);
    }
}

pub proof fn lemma_rooms()
    ensures
        room(8) == 0x1_0000_0000_0000_0000,
        room(4) == 0x1_0000_0000,
{
    reveal_with_fuel(room, 9);
}

proof fn lemma_signed_read(bytes: Seq<u8>, at: int, v: i32)
    requires
        0 <= at,
        at + 4 <= bytes.len(),
        bytes.subrange(at, at + 4) == signed_field(v),
    ensures
        as_signed(le_value(bytes, at, 4)) == v,
{
    lemma_rooms();
    let raw: nat = if v < 0 {
        (v + 0x1_0000_0000) as nat
    } else {
        v as nat
    };
    lemma_field_read(bytes, at, raw, 4);
}

/// The places of the spans of a written header.
proof fn lemma_spans_read(h: Header, behind: Seq<u8>)
    ensures
        ({
            let bytes = seq![0x50u8, 0x4d, 0x54, 0x69, 0x6c, 0x65, 0x73, 3] + span_fields(h)
                + behind;
            &&& span_fields(h).len() == 64
            &&& le_value(bytes, 8, 8) == h.root_dir_offset
            &&& le_value(bytes, 16, 8) == h.root_dir_len
            &&& le_value(bytes, 24, 8) == h.metadata_offset
            &&& le_value(bytes, 32, 8) == h.metadata_len
            &&& le_value(bytes, 40, 8) == h.leaf_dirs_offset
            &&& le_value(bytes, 48, 8) == h.leaf_dirs_len
            &&& le_value(bytes, 56, 8) == h.tile_data_offset
            &&& le_value(bytes, 64, 8) == h.tile_data_len
        }),
{
    let bytes = seq![0x50u8, 0x4d, 0x54, 0x69, 0x6c, 0x65, 0x73, 3] + span_fields(h) + behind;
    let values: Seq<u64> = seq![
        h.root_dir_offset,
        h.root_dir_len,
        h.metadata_offset,
        h.metadata_len,
        h.leaf_dirs_offset,
        h.leaf_dirs_len,
        h.tile_data_offset,
        h.tile_data_len,
    ];
    assert forall|k: int| 0 <= k < 8 implies field(#[trigger] values[k] as nat, 8).len() == 8 by {
        lemma_field_len(values[k] as nat, 8);
    }
    lemma_field_len(values[0] as nat, 8);
    lemma_field_len(values[1] as nat, 8);
    lemma_field_len(values[2] as nat, 8);
    lemma_field_len(values[3] as nat, 8);
    lemma_field_len(values[4] as nat, 8);
    lemma_field_len(values[5] as nat, 8);
    lemma_field_len(values[6] as nat, 8);
    lemma_field_len(values[7] as nat, 8);
    lemma_rooms();
    assert(bytes.subrange(8, 16) =~= field(values[0] as nat, 8));
    assert(bytes.subrange(16, 24) =~= field(values[1] as nat, 8));
    assert(bytes.subrange(24, 32) =~= field(values[2] as nat, 8));
    assert(bytes.subrange(32, 40) =~= field(values[3] as nat, 8));
    assert(bytes.subrange(40, 48) =~= field(values[4] as nat, 8));
    assert(bytes.subrange(48, 56) =~= field(values[5] as nat, 8));
    assert(bytes.subrange(56, 64) =~= field(values[6] as nat, 8));
    assert(bytes.subrange(64, 72) =~= field(values[7] as nat, 8));
    lemma_field_read(bytes, 8, values[0] as nat, 8);
    lemma_field_read(bytes, 16, values[1] as nat, 8);
    lemma_field_read(bytes, 24, values[2] as nat, 8);
    lemma_field_read(bytes, 32, values[3] as nat, 8);
    lemma_field_read(bytes, 40, values[4] as nat, 8);
    lemma_field_read(bytes, 48, values[5] as nat, 8);
    lemma_field_read(bytes, 56, values[6] as nat, 8);
    lemma_field_read(bytes, 64, values[7] as nat, 8);
}

/// The places of the coverage and the centre of a written header.
proof fn lemma_places_read(before: Seq<u8>, h: Header)
    requires
        before.len() == 102,
    ensures
        ({
            let bytes = before + place_fields(h);
            &&& bytes.len() == 127
            &&& as_signed(le_value(bytes, 102, 4)) == h.bounds.min_lon
            &&& as_signed(le_value(bytes, 106, 4)) == h.bounds.min_lat
            &&& as_signed(le_value(bytes, 110, 4)) == h.bounds.max_lon
            &&& as_signed(le_value(bytes, 114, 4)) == h.bounds.max_lat
            &&& bytes[118] == h.center_zoom
            &&& as_signed(le_value(bytes, 119, 4)) == h.center_lon
            &&& as_signed(le_value(bytes, 123, 4)) == h.center_lat
        }),
{
    let bytes = before + place_fields(h);
    assert forall|v: i32| (#[trigger] signed_field(v)).len() == 4 by {
        lemma_field_len(
            if v < 0 {
                (v + 0x1_0000_0000) as nat
            } else {
                v as nat
            },
            4,
        );
    }
    assert(bytes.subrange(102, 106) =~= signed_field(h.bounds.min_lon));
    assert(bytes.subrange(106, 110) =~= signed_field(h.bounds.min_lat));
    assert(bytes.subrange(110, 114) =~= signed_field(h.bounds.max_lon));
    assert(bytes.subrange(114, 118) =~= signed_field(h.bounds.max_lat));
    assert(bytes.subrange(119, 123) =~= signed_field(h.center_lon));
    assert(bytes.subrange(123, 127) =~= signed_field(h.center_lat));
    lemma_signed_read(bytes, 102, h.bounds.min_lon);
    lemma_signed_read(bytes, 106, h.bounds.min_lat);
    lemma_signed_read(bytes, 110, h.bounds.max_lon);
    lemma_signed_read(bytes, 114, h.bounds.max_lat);
    lemma_signed_read(bytes, 119, h.center_lon);
    lemma_signed_read(bytes, 123, h.center_lat);
}

/// Reading a header undoes writing it: a header that can be served is accepted,
/// whatever the fields hold that readers pass over, and every field comes back
/// as it was put down. It can be served where its directories can be inflated,
/// its zoom levels are in order and at most 26, and its coverage is a box on the
/// globe; any other is refused.
pub proof fn law_headers_are_read_as_written(h: Header, passed_over: Seq<u8>)
    requires
        passed_over.len() == 25,
    ensures
        header_fields(header_bytes(h, passed_over)) == h,
        header_fault(header_bytes(h, passed_over)) is None <==> {
            &&& h.internal_compression is Plain || h.internal_compression is Gzip
            &&& h.min_zoom <= h.max_zoom <= 26
            &&& -1_800_000_000 <= h.bounds.min_lon <= h.bounds.max_lon <= 1_800_000_000
            &&& -900_000_000 <= h.bounds.min_lat <= h.bounds.max_lat <= 900_000_000
        },
{
    let bytes = header_bytes(h, passed_over);
    let behind = passed_over + kind_fields(h) + place_fields(h);
    lemma_spans_read(h, behind);
    assert(bytes =~= seq![0x50u8, 0x4d, 0x54, 0x69, 0x6c, 0x65, 0x73, 3] + span_fields(h) + behind);
    let before = seq![0x50u8, 0x4d, 0x54, 0x69, 0x6c, 0x65, 0x73, 3] + span_fields(h) + passed_over
        + kind_fields(h);
    assert(before.len() == 102);
    lemma_places_read(before, h);
    assert(before[97] == kind_fields(h)[0]);
    assert(before[98] == kind_fields(h)[1]);
    assert(before[99] == kind_fields(h)[2]);
    assert(before[100] == kind_fields(h)[3]);
    assert(before[101] == kind_fields(h)[4]);
    assert(bytes =~= before + place_fields(h));
    assert(header_fields(bytes).bounds == h.bounds);
    assert(header_fields(bytes) == h);
}

/// What the file must hold for a header's spans to be accepted: each of the four
/// regions whole, and the root directory and the metadata small enough to read
/// at once.
pub proof fn law_spans_lie_in_the_file(h: Header, file_len: u64)
    ensures
        span_fault(h, file_len) is None <==> {
            &&& h.root_dir_offset + h.root_dir_len <= file_len
            &&& h.metadata_offset + h.metadata_len <= file_len
            &&& h.leaf_dirs_offset + h.leaf_dirs_len <= file_len
            &&& h.tile_data_offset + h.tile_data_len <= file_len
            &&& h.root_dir_len <= 8_388_608
            &&& h.metadata_len <= 4_194_304
        },
{
}

/// An entry that fits the region it points into is followed, and leads to the
/// bytes that lie its own offset behind the region's start.
pub proof fn law_entries_lead_into_their_region(h: Header, file_len: u64, entry: Entry)
    requires
        span_fault(h, file_len) is None,
    ensures
        leaf_span_spec(h, entry) is Ok <==> entry.offset + entry.length <= h.leaf_dirs_len
            && entry.length <= 8_388_608,
        leaf_span_spec(h, entry) matches Ok((offset, len)) ==> offset - h.leaf_dirs_offset
            == entry.offset && len == entry.length,
        tile_span_spec(h, entry) is Ok <==> entry.offset + entry.length <= h.tile_data_len
            && entry.length <= 16_777_216,
        tile_span_spec(h, entry) matches Ok((offset, len)) ==> offset - h.tile_data_offset
            == entry.offset && len == entry.length,
{
}

/// Whether a level and a footprint lie in the coverage that a header declares.
pub open spec fn is_covered(h: Header, z: nat, overlaps: bool) -> bool {
    h.min_zoom <= z <= h.max_zoom && overlaps
}

/// A tile is covered exactly between the two levels, both of them included, and
/// where its footprint meets the coverage.
pub proof fn law_coverage_includes_its_bounds(h: Header, z: nat, overlaps: bool)
    ensures
        h.min_zoom <= h.max_zoom ==> is_covered(h, h.min_zoom as nat, true) && is_covered(
            h,
            h.max_zoom as nat,
            true,
        ),
        z < h.min_zoom || z > h.max_zoom ==> !is_covered(h, z, overlaps),
        h.min_zoom < z < h.max_zoom ==> is_covered(h, z, overlaps) == overlaps,
        !is_covered(h, z, false),
{
}

/// A compression says how its bytes are encoded under the name that HTTP has for
/// it, and is named in a refusal by its own.
pub proof fn law_compressions_have_their_names(a: Compression, b: Compression)
    ensures
        a.spec_label()@ == b.spec_label()@ ==> a == b,
        Compression::Plain.spec_label()@ == "none"@,
        Compression::Gzip.spec_label()@ == "gzip"@,
        Compression::Brotli.spec_label()@ == "brotli"@,
        Compression::Zstd.spec_label()@ == "zstd"@,
{
    reveal_strlit("none");
    reveal_strlit("gzip");
    reveal_strlit("brotli");
    reveal_strlit("zstd");
    assert("none"@[0] == 'n' && "none"@.len() == 4);
    assert("gzip"@[0] == 'g' && "gzip"@.len() == 4);
    assert("brotli"@[0] == 'b');
    assert("zstd"@[0] == 'z' && "zstd"@.len() == 4);
}

} // verus!
