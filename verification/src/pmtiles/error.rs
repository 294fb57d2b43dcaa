//! What can go wrong reading an archive.

use vstd::prelude::*;

use crate::text;

verus! {

/// Everything that can go wrong reading an archive. Deliberately coarse at the
/// boundary: the HTTP layer maps all of these to "the map is unavailable" and
/// never echoes offsets or paths to a client.
#[derive(Debug)]
pub enum ArchiveError {
    /// The file could not be read; the text is the operating system's.
    Io(String),
    /// The first bytes are not the PMTiles magic.
    NotPmTiles,
    /// The spec version is not the one this reader speaks.
    UnsupportedVersion(u8),
    /// The named part extends past the end of the file.
    Truncated(&'static str),
    /// The named part is compressed in a way this reader does not decode.
    UnsupportedCompression { what: &'static str, kind: &'static str },
    /// The tile type is one this reader does not serve.
    UnsupportedTileType(u8),
    /// A header field contradicts another or leaves its range.
    InvalidHeader(&'static str),
    /// A directory page does not decode.
    MalformedDirectory(&'static str),
    /// The named part is larger than its ceiling.
    Oversize { what: &'static str, limit: usize },
    /// Leaf directories nest deeper than the reader follows.
    LeafDepthExceeded,
}

/// What an operator is told of an error.
pub open spec fn message_of(error: ArchiveError) -> Seq<char> {
    match error {
        ArchiveError::Io(why) => "i/o error reading the archive: "@ + why@,
        ArchiveError::NotPmTiles => "not a PMTiles archive (bad magic)"@,
        ArchiveError::UnsupportedVersion(v) => "PMTiles spec version "@ + text::decimal(v as nat)
            + " is not supported (this reader speaks v3)"@,
        ArchiveError::Truncated(what) => "archive is truncated: "@ + what@
            + " extends past the end of the file"@,
        ArchiveError::UnsupportedCompression { what, kind } => "archive uses "@ + kind@
            + " compression for "@ + what@
            + "; supported: none, gzip (re-cut the archive with `pmtiles convert`)"@,
        ArchiveError::UnsupportedTileType(t) => "archive declares tile type "@ + text::decimal(
            t as nat,
        ) + ", which this reader does not serve"@,
        ArchiveError::InvalidHeader(why) => "archive header is invalid: "@ + why@,
        ArchiveError::MalformedDirectory(why) => "archive directory is malformed: "@ + why@,
        ArchiveError::Oversize { what, limit } => "archive "@ + what@ + " is larger than the "@
            + text::decimal(limit as nat) + " byte ceiling"@,
        ArchiveError::LeafDepthExceeded => "archive nests leaf directories more than 4 deep"@,
    }
}

impl ArchiveError {
    /// The text for the operator whose start failed. No client ever reads it.
    pub fn message(&self) -> (s: String)
        ensures
            s@ == message_of(*self),
    {
        match self {
            ArchiveError::Io(why) => text::concat2("i/o error reading the archive: ", why.as_str()),
            ArchiveError::NotPmTiles => "not a PMTiles archive (bad magic)".to_owned(),
            ArchiveError::UnsupportedVersion(v) => {
                let shown = text::decimal_of(*v as u64);
                text::concat3(
                    "PMTiles spec version ",
                    shown.as_str(),
                    " is not supported (this reader speaks v3)",
                )
            },
            ArchiveError::Truncated(what) => text::concat3(
                "archive is truncated: ",
                what,
                " extends past the end of the file",
            ),
            ArchiveError::UnsupportedCompression { what, kind } => {
                let head = text::concat3("archive uses ", kind, " compression for ");
                text::concat3(
                    head.as_str(),
                    what,
                    "; supported: none, gzip (re-cut the archive with `pmtiles convert`)",
                )
            },
            ArchiveError::UnsupportedTileType(t) => {
                let shown = text::decimal_of(*t as u64);
                text::concat3(
                    "archive declares tile type ",
                    shown.as_str(),
                    ", which this reader does not serve",
                )
            },
            ArchiveError::InvalidHeader(why) => text::concat2("archive header is invalid: ", why),
            ArchiveError::MalformedDirectory(why) => text::concat2(
                "archive directory is malformed: ",
                why,
            ),
            ArchiveError::Oversize { what, limit } => {
                let head = text::concat3("archive ", what, " is larger than the ");
                let ceiling = text::decimal_of(*limit as u64);
                text::concat3(head.as_str(), ceiling.as_str(), " byte ceiling")
            },
            ArchiveError::LeafDepthExceeded => {
                "archive nests leaf directories more than 4 deep".to_owned()
            },
        }
    }
}

/// What is wrong with an archive is told with its particulars.
pub proof fn law_archive_faults_are_told_with_their_particulars(
    why: String,
    what: &'static str,
    kind: &'static str,
    n: u8,
    limit: usize,
)
    ensures
        text::has_part(message_of(ArchiveError::Io(why)), why@),
        text::has_part(message_of(ArchiveError::UnsupportedVersion(n)), text::decimal(n as nat)),
        text::has_part(message_of(ArchiveError::Truncated(what)), what@),
        text::has_part(message_of(ArchiveError::UnsupportedCompression { what, kind }), kind@),
        text::has_part(message_of(ArchiveError::UnsupportedTileType(n)), text::decimal(n as nat)),
        text::has_part(message_of(ArchiveError::InvalidHeader(what)), what@),
        text::has_part(message_of(ArchiveError::MalformedDirectory(what)), what@),
        text::has_part(message_of(ArchiveError::Oversize { what, limit }), what@),
{
    let e: Seq<char> = seq![];
    text::law_parts_stand_between_others(e, why@, "i/o error reading the archive: "@, e);
    assert(message_of(ArchiveError::Io(why)) =~= "i/o error reading the archive: "@ + why@ + e);
    text::law_parts_stand_between_others(
        e,
        text::decimal(n as nat),
        "PMTiles spec version "@,
        " is not supported (this reader speaks v3)"@,
    );
    text::law_parts_stand_between_others(
        e,
        what@,
        "archive is truncated: "@,
        " extends past the end of the file"@,
    );
    text::law_parts_stand_between_others(
        e,
        kind@,
        "archive uses "@,
        " compression for "@ + what@
            + "; supported: none, gzip (re-cut the archive with `pmtiles convert`)"@,
    );
    assert(message_of(ArchiveError::UnsupportedCompression { what, kind }) =~= "archive uses "@ + kind@
        + (" compression for "@ + what@
        + "; supported: none, gzip (re-cut the archive with `pmtiles convert`)"@));
    text::law_parts_stand_between_others(
        e,
        text::decimal(n as nat),
        "archive declares tile type "@,
        ", which this reader does not serve"@,
    );
    text::law_parts_stand_between_others(e, what@, "archive header is invalid: "@, e);
    assert(message_of(ArchiveError::InvalidHeader(what)) =~= "archive header is invalid: "@ + what@ + e);
    text::law_parts_stand_between_others(e, what@, "archive directory is malformed: "@, e);
    assert(message_of(ArchiveError::MalformedDirectory(what)) =~= "archive directory is malformed: "@
        + what@ + e);
    text::law_parts_stand_between_others(
        e,
        what@,
        "archive "@,
        " is larger than the "@ + text::decimal(limit as nat) + " byte ceiling"@,
    );
    assert(message_of(ArchiveError::Oversize { what, limit }) =~= "archive "@ + what@ + (
    " is larger than the "@ + text::decimal(limit as nat) + " byte ceiling"@));
}

} // verus!
