//! Opening an archive and walking its directories, one read at a time.
//!
//! The reads themselves are the caller's. Each function here says which span of
//! the file is wanted next, or takes the bytes of the last one.

use vstd::prelude::*;

use super::directory::{find, parse_directory, Entry};
use super::error::ArchiveError;
use super::header::{
    Compression, Header, HEADER_LEN, MAX_DIRECTORY_BYTES, MAX_METADATA_BYTES,
};
use super::metadata::ArchiveMetadata;
use super::tile::TileCoord;
use crate::digest;

verus! {

/// Leaf-directory hops per lookup. A cycle in a corrupt archive ends here.
pub const MAX_LEAF_DEPTH: usize = 4;

// ---------------------------------------------------------------------------
// Decompression
// ---------------------------------------------------------------------------

/// What a gzip stream decodes to when no more than `cap` bytes of it are read,
/// where it decodes.
pub uninterp spec fn gunzipped(bytes: Seq<u8>, cap: u64) -> Option<Seq<u8>>;

/// `flate2::read::GzDecoder` read to its end through `Read::take(cap)`: the
/// decoded bytes, never more than `cap` of them, or `None` where the stream is
/// not gzip. Which bytes a stream decodes to is not stated.
#[verifier::external_body]
fn gunzip(bytes: &[u8], cap: u64) -> (r: Option<Vec<u8>>)
    ensures
        match r {
            Some(out) => gunzipped(bytes@, cap) == Some(out@) && out@.len() <= cap,
            None => gunzipped(bytes@, cap) is None,
        },
{
    let mut out = Vec::new();
    let stream = flate2::read::GzDecoder::new(bytes);
    match std::io::Read::read_to_end(&mut std::io::Read::take(stream, cap), &mut out) {
        Ok(_) => Some(out),
        Err(_) => None,
    }
}

/// A page of at most `limit` bytes.
pub open spec fn within(page: Seq<u8>, limit: usize, what: &'static str) -> Result<
    Seq<u8>,
    ArchiveError,
> {
    if page.len() > limit {
        Err(ArchiveError::Oversize { what, limit })
    } else {
        Ok(page)
    }
}

/// What an inflated page is worth, given what the inflater made of it.
pub open spec fn inflated(decoded: Option<Seq<u8>>, limit: usize, what: &'static str) -> Result<
    Seq<u8>,
    ArchiveError,
> {
    match decoded {
        Some(page) => within(page, limit, what),
        None => Err(ArchiveError::MalformedDirectory("gzip page did not decode")),
    }
}

/// How much of a gzip stream is read for a page of at most `limit` bytes: one
/// byte more, so that a page that fills the limit differs from one cut short.
pub open spec fn read_cap(limit: usize) -> u64 {
    if limit == usize::MAX {
        usize::MAX as u64
    } else {
        (limit + 1) as u64
    }
}

/// The plain bytes of a stored page.
pub open spec fn page_spec(
    compression: Compression,
    bytes: Seq<u8>,
    limit: usize,
    what: &'static str,
) -> Result<Seq<u8>, ArchiveError> {
    match compression {
        Compression::Plain => within(bytes, limit, what),
        Compression::Gzip => inflated(gunzipped(bytes, read_cap(limit)), limit, what),
        other => Err(ArchiveError::UnsupportedCompression { what, kind: other.spec_label() }),
    }
}

/// Whether an executable result is the one a specification names.
pub open spec fn yields<T>(r: Result<Vec<T>, ArchiveError>, s: Result<Seq<T>, ArchiveError>) -> bool {
    match (r, s) {
        (Ok(v), Ok(w)) => v@ == w,
        (Err(e), Err(f)) => e == f,
        _ => false,
    }
}

/// Accept what the inflater made of a page, unless it is over the limit.
pub fn accept_page(decoded: Option<Vec<u8>>, limit: usize, what: &'static str) -> (r: Result<
    Vec<u8>,
    ArchiveError,
>)
    ensures
        yields(
            r,
            inflated(
                match decoded {
                    Some(v) => Some(v@),
                    None => None,
                },
                limit,
                what,
            ),
        ),
{
    match decoded {
        Some(page) => if page.len() > limit {
            Err(ArchiveError::Oversize { what, limit })
        } else {
            Ok(page)
        },
        None => Err(ArchiveError::MalformedDirectory("gzip page did not decode")),
    }
}

fn copy_of(bytes: &[u8]) -> (v: Vec<u8>)
    ensures
        v@ == bytes@,
{
    let mut v: Vec<u8> = Vec::new();
    let mut i: usize = 0;
    while i < bytes.len()
        invariant
            i <= bytes@.len(),
            v@ == bytes@.take(i as int),
        decreases bytes@.len() - i,
    {
        v.push(bytes[i]);
        i = i + 1;
    }
    assert(bytes@.take(bytes@.len() as int) =~= bytes@);
    v
}

/// Decompress a directory or metadata page, refusing anything that expands past
/// `limit`.
pub fn decompress(
    compression: Compression,
    bytes: &[u8],
    limit: usize,
    what: &'static str,
) -> (r: Result<Vec<u8>, ArchiveError>)
    ensures
        yields(r, page_spec(compression, bytes@, limit, what)),
        r matches Ok(page) ==> page@.len() <= limit,
{
    match compression {
        Compression::Plain => {
            if bytes.len() > limit {
                return Err(ArchiveError::Oversize { what, limit });
            }
            Ok(copy_of(bytes))
        },
        Compression::Gzip => {
            let cap: u64 = limit.saturating_add(1) as u64;
            accept_page(gunzip(bytes, cap), limit, what)
        },
        other => Err(ArchiveError::UnsupportedCompression { what, kind: other.label() }),
    }
}

/// The entries of a stored directory page.
pub open spec fn stored_directory(
    compression: Compression,
    raw: Seq<u8>,
    what: &'static str,
) -> Result<Seq<Entry>, ArchiveError> {
    match page_spec(compression, raw, MAX_DIRECTORY_BYTES, what) {
        Ok(page) => super::directory::directory_spec(page),
        Err(e) => Err(e),
    }
}

fn read_directory(compression: Compression, raw: &[u8], what: &'static str) -> (r: Result<
    Vec<Entry>,
    ArchiveError,
>)
    ensures
        yields(r, stored_directory(compression, raw@, what)),
        r matches Ok(entries) ==> super::directory::sorted(entries@),
{
    match decompress(compression, raw, MAX_DIRECTORY_BYTES, what) {
        Ok(page) => parse_directory(page.as_slice()),
        Err(e) => Err(e),
    }
}

// ---------------------------------------------------------------------------
// Opening
// ---------------------------------------------------------------------------

/// A header that was accepted for a file of a known length, while the rest of
/// the archive is still to be read.
pub struct OpenPlan {
    pub header: Header,
    pub file_len: u64,
    pub fingerprint: String,
}

/// Identity of an archive, for cache validators: sixteen hexadecimal digits of
/// a digest over the header and the file length, so that swapping the file
/// changes every validator.
pub open spec fn fingerprint_of(head: Seq<u8>, file_len: u64) -> Seq<char> {
    digest::hex_of(digest::sha256_of(head + digest::le_bytes_of(file_len as nat, 8)).take(8))
}

/// Why a file with this header and length is not an archive.
pub open spec fn plan_fault(head: Seq<u8>, file_len: u64) -> Option<ArchiveError> {
    if file_len < HEADER_LEN {
        Some(ArchiveError::Truncated("header"))
    } else {
        match super::header::header_fault(head) {
            Some(e) => Some(e),
            None => super::header::span_fault(super::header::header_fields(head), file_len),
        }
    }
}

impl OpenPlan {
    /// The header's own rules, and every span it declares inside the file.
    pub open spec fn wf(self) -> bool {
        &&& super::header::header_ok(self.header)
        &&& super::header::span_fault(self.header, self.file_len) is None
    }

    /// Validate the first bytes of a file of `file_len` bytes.
    pub fn begin(file_len: u64, head: &[u8]) -> (r: Result<OpenPlan, ArchiveError>)
        ensures
            match (r, plan_fault(head@, file_len)) {
                (Ok(plan), None) => plan.wf() && plan.header == super::header::header_fields(head@)
                    && plan.file_len == file_len && plan.fingerprint@ == fingerprint_of(
                    head@,
                    file_len,
                ),
                (Err(e), Some(f)) => e == f,
                _ => false,
            },
    {
        if file_len < HEADER_LEN as u64 {
            return Err(ArchiveError::Truncated("header"));
        }
        let header = match Header::parse(head) {
            Ok(h) => h,
            Err(e) => {
                return Err(e);
            },
        };
        match header.validate_spans(file_len) {
            Ok(()) => {},
            Err(e) => {
                return Err(e);
            },
        }
        let mut identity = copy_of(head);
        digest::push_le_bytes(&mut identity, file_len);
        let mut id = digest::sha256(identity.as_slice());
        id.truncate(8);
        let fingerprint = digest::hex_encode(id.as_slice());
        assert(id@ =~= digest::sha256_of(identity@).take(8));
        Ok(OpenPlan { header, file_len, fingerprint })
    }

    /// Where the root directory lies.
    pub fn root_span(&self) -> (span: (u64, usize))
        requires
            self.wf(),
        ensures
            span.0 == self.header.root_dir_offset,
            span.1 == self.header.root_dir_len,
            span.0 + span.1 <= self.file_len,
            span.1 <= MAX_DIRECTORY_BYTES,
    {
        (self.header.root_dir_offset, self.header.root_dir_len as usize)
    }

    /// Where the metadata lies, if there is any.
    pub fn metadata_span(&self) -> (span: Option<(u64, usize)>)
        requires
            self.wf(),
        ensures
            match span {
                None => self.header.metadata_len == 0,
                Some((offset, len)) => offset == self.header.metadata_offset && len
                    == self.header.metadata_len && len > 0 && offset + len <= self.file_len && len
                    <= MAX_METADATA_BYTES,
            },
    {
        if self.header.metadata_len == 0 {
            None
        } else {
            Some((self.header.metadata_offset, self.header.metadata_len as usize))
        }
    }

    /// Decode the root directory from its stored bytes.
    pub fn read_root(&self, raw: &[u8]) -> (r: Result<Vec<Entry>, ArchiveError>)
        ensures
            yields(r, stored_directory(self.header.internal_compression, raw@, "root directory")),
            r matches Ok(entries) ==> super::directory::sorted(entries@),
    {
        read_directory(self.header.internal_compression, raw, "root directory")
    }

    /// Decode the metadata from its stored bytes. Metadata is informational: a
    /// page that does not decode counts as none at all.
    pub fn read_metadata(&self, raw: Option<&[u8]>) -> (m: ArchiveMetadata)
        ensures
            match raw {
                None => m.name is None && m.attribution is None,
                Some(bytes) => match page_spec(
                    self.header.internal_compression,
                    bytes@,
                    MAX_METADATA_BYTES,
                    "metadata",
                ) {
                    Ok(document) => m.describes(document),
                    Err(_) => m.name is None && m.attribution is None,
                },
            },
    {
        match raw {
            None => ArchiveMetadata::default(),
            Some(bytes) => match decompress(
                self.header.internal_compression,
                bytes,
                MAX_METADATA_BYTES,
                "metadata",
            ) {
                Ok(document) => ArchiveMetadata::parse(document.as_slice()),
                Err(_) => ArchiveMetadata::default(),
            },
        }
    }

    /// The opened archive.
    pub fn finish(self, root: Vec<Entry>, metadata: ArchiveMetadata) -> (archive: Archive)
        requires
            self.wf(),
            super::directory::sorted(root@),
        ensures
            archive.wf(),
            archive.header == self.header,
            archive.file_len == self.file_len,
            archive.fingerprint == self.fingerprint,
            archive.root == root,
            archive.metadata == metadata,
    {
        Archive {
            header: self.header,
            file_len: self.file_len,
            root,
            metadata,
            fingerprint: self.fingerprint,
        }
    }
}

/// An opened archive: header, root directory and metadata resident, everything
/// else read on demand.
pub struct Archive {
    pub header: Header,
    pub file_len: u64,
    pub root: Vec<Entry>,
    pub metadata: ArchiveMetadata,
    pub fingerprint: String,
}

// ---------------------------------------------------------------------------
// Lookup
// ---------------------------------------------------------------------------

/// What a lookup wants next.
#[derive(Debug, Clone, Copy, PartialEq, Eq, Structural)]
pub enum LookupStep {
    /// The archive holds no such tile.
    Absent,
    /// The search goes on in the leaf directory at this span of the file.
    Leaf { offset: u64, len: usize },
    /// The tile's body is this span of the file; `entry` is what names it.
    Body { offset: u64, len: usize, entry: Entry },
}

/// Whether the entry's run of tiles has `tile_id` in it.
pub open spec fn in_run(entry: Entry, tile_id: u64) -> bool {
    entry.tile_id <= tile_id < entry.tile_id + entry.run_length
}

/// The step that follows from one directory page.
pub open spec fn step_in(h: Header, entries: Seq<Entry>, tile_id: u64) -> Result<
    LookupStep,
    ArchiveError,
> {
    match super::directory::covering(entries, tile_id) {
        None => Ok(LookupStep::Absent),
        Some(entry) => if entry.run_length == 0 {
            match super::header::leaf_span_spec(h, entry) {
                Ok((offset, len)) => Ok(LookupStep::Leaf { offset, len }),
                Err(e) => Err(e),
            }
        } else if entry.tile_id + entry.run_length > u64::MAX {
            Err(ArchiveError::MalformedDirectory("run length overflows"))
        } else if !in_run(entry, tile_id) {
            Ok(LookupStep::Absent)
        } else {
            match super::header::tile_span_spec(h, entry) {
                Ok((offset, len)) => Ok(LookupStep::Body { offset, len, entry }),
                Err(e) => Err(e),
            }
        },
    }
}

/// The step that follows from the stored bytes of the leaf directory reached
/// after `hops` others.
pub open spec fn step_after_leaf(h: Header, raw: Seq<u8>, hops: nat, tile_id: u64) -> Result<
    LookupStep,
    ArchiveError,
> {
    match stored_directory(h.internal_compression, raw, "leaf directory") {
        Err(e) => Err(e),
        Ok(entries) => if hops + 1 >= MAX_LEAF_DEPTH {
            Err(ArchiveError::LeafDepthExceeded)
        } else {
            step_in(h, entries, tile_id)
        },
    }
}

/// What a whole lookup comes to in a file with these bytes, from a step reached
/// after `hops` leaf directories: the entry that names the tile and the span of
/// its body, or nothing.
pub open spec fn resolve(
    h: Header,
    file: Seq<u8>,
    step: Result<LookupStep, ArchiveError>,
    hops: nat,
    tile_id: u64,
) -> Result<Option<(Entry, u64, usize)>, ArchiveError>
    decreases MAX_LEAF_DEPTH - hops,
{
    match step {
        Err(e) => Err(e),
        Ok(LookupStep::Absent) => Ok(None),
        Ok(LookupStep::Body { offset, len, entry }) => Ok(Some((entry, offset, len))),
        Ok(LookupStep::Leaf { offset, len }) => if hops >= MAX_LEAF_DEPTH {
            Err(ArchiveError::LeafDepthExceeded)
        } else {
            resolve(
                h,
                file,
                step_after_leaf(h, file.subrange(offset as int, offset + len), hops, tile_id),
                hops + 1,
                tile_id,
            )
        },
    }
}

fn search(header: &Header, entries: &[Entry], tile_id: u64) -> (r: Result<
    LookupStep,
    ArchiveError,
>)
    requires
        super::directory::sorted(entries@),
    ensures
        r == step_in(*header, entries@, tile_id),
{
    let entry = match find(entries, tile_id) {
        Some(entry) => entry,
        None => {
            return Ok(LookupStep::Absent);
        },
    };
    proof {
        super::directory::law_covering_is_nearest(entries@, tile_id);
    }
    if entry.run_length == 0 {
        return match header.leaf_span(entry) {
            Ok((offset, len)) => Ok(LookupStep::Leaf { offset, len }),
            Err(e) => Err(e),
        };
    }
    let run_end: u64 = match entry.tile_id.checked_add(entry.run_length as u64) {
        Some(end) => end,
        None => {
            return Err(ArchiveError::MalformedDirectory("run length overflows"));
        },
    };
    if tile_id >= run_end {
        return Ok(LookupStep::Absent);
    }
    match header.tile_span(entry) {
        Ok((offset, len)) => Ok(LookupStep::Body { offset, len, entry }),
        Err(e) => Err(e),
    }
}

impl Archive {
    /// The header's own rules, its spans inside the file, and a sorted root.
    pub open spec fn wf(self) -> bool {
        &&& super::header::header_ok(self.header)
        &&& super::header::span_fault(self.header, self.file_len) is None
        &&& super::directory::sorted(self.root@)
    }

    pub fn header(&self) -> (h: &Header)
        ensures
            *h == self.header,
    {
        &self.header
    }

    pub fn metadata(&self) -> (m: &ArchiveMetadata)
        ensures
            *m == self.metadata,
    {
        &self.metadata
    }

    /// Stable per-archive identity used as the prefix of cache validators.
    pub fn fingerprint(&self) -> (f: &str)
        ensures
            f@ == self.fingerprint@,
    {
        self.fingerprint.as_str()
    }

    /// Is this coordinate inside the archive's declared coverage?
    pub fn covers(&self, coord: TileCoord, overlaps: bool) -> (covered: bool)
        ensures
            covered == super::header::is_covered(self.header, coord.spec_z(), overlaps),
            covered == (self.header.min_zoom <= coord.spec_z() <= self.header.max_zoom && overlaps),
    {
        self.header.covers(coord, overlaps)
    }

    /// The first step of a lookup.
    pub fn lookup(&self, coord: TileCoord) -> (r: Result<LookupStep, ArchiveError>)
        requires
            self.wf(),
        ensures
            r == step_in(
                self.header,
                self.root@,
                super::tile::tile_number(coord.spec_z(), coord.spec_x(), coord.spec_y()) as u64,
            ),
    {
        search(&self.header, self.root.as_slice(), coord.tile_id())
    }

    /// The step that follows from the stored bytes of the leaf directory that
    /// the last step named, when `hops` leaf directories were read before it.
    pub fn descend(&self, coord: TileCoord, hops: usize, raw: &[u8]) -> (r: Result<
        LookupStep,
        ArchiveError,
    >)
        ensures
            r == step_after_leaf(
                self.header,
                raw@,
                hops as nat,
                super::tile::tile_number(coord.spec_z(), coord.spec_x(), coord.spec_y()) as u64,
            ),
    {
        let entries = match read_directory(
            self.header.internal_compression,
            raw,
            "leaf directory",
        ) {
            Ok(entries) => entries,
            Err(e) => {
                return Err(e);
            },
        };
        if hops >= MAX_LEAF_DEPTH - 1 {
            return Err(ArchiveError::LeafDepthExceeded);
        }
        search(&self.header, entries.as_slice(), coord.tile_id())
    }
}

/// One tile body exactly as stored, plus the address it came from.
#[derive(Debug)]
pub struct Tile {
    pub bytes: Vec<u8>,
    pub offset: u64,
    pub length: u32,
}

impl Tile {
    /// The tile whose body was read from the span that a lookup ended in.
    pub fn stored(entry: Entry, bytes: Vec<u8>) -> (tile: Tile)
        ensures
            tile.bytes == bytes,
            tile.offset == entry.offset,
            tile.length == entry.length,
    {
        Tile { bytes, offset: entry.offset, length: entry.length }
    }
}

/// A span that is the body of a tile in the run of `entry`.
pub open spec fn is_body(h: Header, file_len: u64, tile_id: u64, entry: Entry, offset: u64, len: usize) -> bool {
    &&& in_run(entry, tile_id)
    &&& len == entry.length
    &&& offset == h.tile_data_offset + entry.offset
    &&& offset + len <= h.tile_data_offset + h.tile_data_len
    &&& offset + len <= file_len
    &&& len <= super::header::MAX_TILE_BYTES
}

/// A step that names a body names one of the wanted tile.
spec fn faithful(h: Header, file_len: u64, tile_id: u64, step: Result<LookupStep, ArchiveError>) -> bool {
    step matches Ok(LookupStep::Body { offset, len, entry }) ==> is_body(
        h,
        file_len,
        tile_id,
        entry,
        offset,
        len,
    )
}

proof fn lemma_resolve_is_faithful(
    h: Header,
    file: Seq<u8>,
    file_len: u64,
    step: Result<LookupStep, ArchiveError>,
    hops: nat,
    tile_id: u64,
)
    requires
        super::header::span_fault(h, file_len) is None,
        faithful(h, file_len, tile_id, step),
    ensures
        resolve(h, file, step, hops, tile_id) matches Ok(Some((entry, offset, len))) ==> is_body(
            h,
            file_len,
            tile_id,
            entry,
            offset,
            len,
        ),
    decreases MAX_LEAF_DEPTH - hops,
{
    match step {
        Ok(LookupStep::Leaf { offset, len }) => {
            if hops < MAX_LEAF_DEPTH {
                let next = step_after_leaf(
                    h,
                    file.subrange(offset as int, offset + len),
                    hops,
                    tile_id,
                );
                assert(faithful(h, file_len, tile_id, next));
                lemma_resolve_is_faithful(h, file, file_len, next, hops + 1, tile_id);
            }
        },
        _ => {},
    }
}

/// A lookup never ends in another tile's bytes: whatever the file holds, the
/// entry it ends in has the wanted id in its run, and the body it names lies in
/// the tile-data region and in the file, under the ceiling for one tile.
pub proof fn law_lookup_is_faithful(archive: Archive, file: Seq<u8>, tile_id: u64)
    requires
        archive.wf(),
    ensures
        resolve(
            archive.header,
            file,
            step_in(archive.header, archive.root@, tile_id),
            0,
            tile_id,
        ) matches Ok(Some((entry, offset, len))) ==> is_body(
            archive.header,
            archive.file_len,
            tile_id,
            entry,
            offset,
            len,
        ),
{
    lemma_resolve_is_faithful(
        archive.header,
        file,
        archive.file_len,
        step_in(archive.header, archive.root@, tile_id),
        0,
        tile_id,
    );
}

/// A directory page leads where its last entry at or below the wanted id says:
/// to the leaf directory that the entry points to, to the body that all tiles of
/// the entry's run share, or nowhere, where the run ends before the wanted id.
pub proof fn law_a_page_leads_to_its_nearest_entry(
    h: Header,
    file_len: u64,
    entries: Seq<Entry>,
    i: int,
    tile_id: u64,
)
    requires
        super::header::span_fault(h, file_len) is None,
        0 <= i < entries.len(),
        entries[i].tile_id <= tile_id,
        forall|k: int| 0 <= k < i ==> #[trigger] entries[k].tile_id <= tile_id,
        forall|k: int| i < k < entries.len() ==> #[trigger] entries[k].tile_id > tile_id,
        entries[i].tile_id + entries[i].run_length <= u64::MAX,
    ensures
        entries[i].run_length == 0 && entries[i].offset + entries[i].length <= h.leaf_dirs_len
            && entries[i].length <= 8_388_608 ==> step_in(h, entries, tile_id) == Ok::<
            LookupStep,
            ArchiveError,
        >(
            LookupStep::Leaf {
                offset: (h.leaf_dirs_offset + entries[i].offset) as u64,
                len: entries[i].length as usize,
            },
        ),
        entries[i].run_length > 0 && tile_id - entries[i].tile_id < entries[i].run_length
            && entries[i].offset + entries[i].length <= h.tile_data_len && entries[i].length
            <= 16_777_216 ==> step_in(h, entries, tile_id) == Ok::<LookupStep, ArchiveError>(
            LookupStep::Body {
                offset: (h.tile_data_offset + entries[i].offset) as u64,
                len: entries[i].length as usize,
                entry: entries[i],
            },
        ),
        entries[i].run_length > 0 && tile_id - entries[i].tile_id >= entries[i].run_length
            ==> step_in(h, entries, tile_id) == Ok::<LookupStep, ArchiveError>(LookupStep::Absent),
{
    super::directory::lemma_covering_at(entries, tile_id, i + 1);
}

/// A page whose entries all stand above the wanted id has nothing for it.
pub proof fn law_a_page_above_the_tile_has_nothing(h: Header, entries: Seq<Entry>, tile_id: u64)
    requires
        forall|k: int| 0 <= k < entries.len() ==> #[trigger] entries[k].tile_id > tile_id,
    ensures
        step_in(h, entries, tile_id) == Ok::<LookupStep, ArchiveError>(LookupStep::Absent),
{
    super::directory::lemma_covering_at(entries, tile_id, 0);
}

/// A leaf directory is searched as the root is, while fewer than four were read;
/// the fourth is refused.
pub proof fn law_leaves_are_searched_as_the_root_is(
    h: Header,
    page: Seq<u8>,
    entries: Seq<Entry>,
    hops: nat,
    tile_id: u64,
)
    requires
        h.internal_compression is Plain,
        page.len() <= 8_388_608,
        super::directory::directory_spec(page) == Ok::<Seq<Entry>, ArchiveError>(entries),
    ensures
        hops < 3 ==> step_after_leaf(h, page, hops, tile_id) == step_in(h, entries, tile_id),
        hops >= 3 ==> step_after_leaf(h, page, hops, tile_id) == Err::<LookupStep, ArchiveError>(
            ArchiveError::LeafDepthExceeded,
        ),
{
}

/// A page that was not compressed is served as it is stored, up to the limit and
/// no further. One that was is what the inflater made of it, under the same
/// limit; the inflater is asked for one byte more than the limit allows, so that
/// no page is cut to fit. What cannot be inflated here is refused.
pub proof fn law_pages_keep_to_their_limit(
    compression: Compression,
    bytes: Seq<u8>,
    limit: usize,
    what: &'static str,
)
    ensures
        compression is Plain ==> (page_spec(compression, bytes, limit, what) is Ok <==> bytes.len()
            <= limit),
        compression is Plain ==> (page_spec(compression, bytes, limit, what) matches Ok(page)
            ==> page == bytes),
        compression is Gzip && limit < usize::MAX ==> (page_spec(
            compression,
            bytes,
            limit,
            what,
        ) is Ok <==> (gunzipped(bytes, (limit + 1) as u64) matches Some(page) && page.len()
            <= limit)),
        compression is Gzip && limit < usize::MAX ==> (page_spec(
            compression,
            bytes,
            limit,
            what,
        ) matches Ok(page) ==> gunzipped(bytes, (limit + 1) as u64) == Some(page)),
        compression is Brotli || compression is Zstd ==> page_spec(
            compression,
            bytes,
            limit,
            what,
        ) is Err,
{
}

/// An entry that stands for a single tile is never the answer to two different
/// coordinates.
pub proof fn law_single_entry_names_one_tile(
    entry: Entry,
    z1: nat,
    x1: nat,
    y1: nat,
    z2: nat,
    x2: nat,
    y2: nat,
)
    requires
        entry.run_length == 1,
        super::tile::addressable(z1, x1, y1),
        super::tile::addressable(z2, x2, y2),
        in_run(entry, super::tile::tile_number(z1, x1, y1) as u64),
        in_run(entry, super::tile::tile_number(z2, x2, y2) as u64),
    ensures
        z1 == z2,
        x1 == x2,
        y1 == y2,
{
    super::tile::lemma_tile_number_fits(z1, x1, y1);
    super::tile::lemma_tile_number_fits(z2, x2, y2);
    super::tile::law_tile_numbers_distinct(z1, x1, y1, z2, x2, y2);
}

/// A file is opened as an archive exactly where it is long enough for a header,
/// its header is accepted and every span it declares lies in it.
pub proof fn law_a_file_is_opened_where_its_header_fits(head: Seq<u8>, file_len: u64)
    ensures
        plan_fault(head, file_len) is None <==> {
            &&& file_len >= 127
            &&& super::header::header_fault(head) is None
            &&& super::header::span_fault(super::header::header_fields(head), file_len) is None
        },
        file_len < 127 ==> plan_fault(head, file_len) == Some(ArchiveError::Truncated("header")),
{
}

/// The fingerprint of an archive is the first eight bytes of the digest over the
/// header and the length of the file, the length in eight bytes, lowest first.
pub proof fn law_the_fingerprint_is_of_header_and_length(head: Seq<u8>, file_len: u64)
    ensures
        fingerprint_of(head, file_len) == digest::hex_of(
            digest::sha256_of(head + super::header::field(file_len as nat, 8)).take(8),
        ),
{
    digest::law_bytes_stand_lowest_first(file_len as nat, 8);
}

} // verus!
