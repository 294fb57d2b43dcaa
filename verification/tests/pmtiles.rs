use std::collections::BTreeSet;
use std::io::Write;

use jarvisd::maps::{admit_tile, get_tile, not_modified, tile_etag, MapApi, TileGate};
use jarvisd::pmtiles::{
    accept_page, decompress, find, parse_directory, to_plain_text, varint, Archive, ArchiveError,
    ArchiveMetadata, Compression, Entry, Header, LookupStep, OpenPlan, Tile, TileCoord, TileType,
    HEADER_LEN,
};

#[test]
fn tile_ids_match_the_spec_hilbert_ordering() {
    // Zoom 0 is id 0, then each zoom starts at (4^z - 1)/3 and walks the curve.
    assert_eq!(TileCoord::new(0, 0, 0).unwrap().tile_id(), 0);
    assert_eq!(TileCoord::new(1, 0, 0).unwrap().tile_id(), 1);
    assert_eq!(TileCoord::new(1, 0, 1).unwrap().tile_id(), 2);
    assert_eq!(TileCoord::new(1, 1, 1).unwrap().tile_id(), 3);
    assert_eq!(TileCoord::new(1, 1, 0).unwrap().tile_id(), 4);
    assert_eq!(TileCoord::new(2, 0, 0).unwrap().tile_id(), 5);
    // Zoom 2 holds 16 tiles, so ids 5..=20 and no more.
    assert_eq!(TileCoord::new(2, 3, 0).unwrap().tile_id(), 20);
}

#[test]
fn every_tile_at_a_zoom_gets_a_distinct_id_in_range() {
    for z in 0..=5u8 {
        let side = 1u32 << z;
        let base = ((1u64 << (2 * u32::from(z))) - 1) / 3;
        let mut seen = BTreeSet::new();
        for x in 0..side {
            for y in 0..side {
                let id = TileCoord::new(z, x, y).unwrap().tile_id();
                assert!(id >= base, "z{z} {x}/{y} landed below its zoom band");
                assert!(
                    id < base + u64::from(side) * u64::from(side),
                    "z{z} {x}/{y} landed above its zoom band"
                );
                assert!(seen.insert(id), "z{z} {x}/{y} collided with another tile");
            }
        }
    }
}

#[test]
fn tiles_with_consecutive_ids_lie_side_by_side() {
    for z in 1..=5u8 {
        let side = 1u32 << z;
        let mut walk: Vec<(u64, u32, u32)> = Vec::new();
        for x in 0..side {
            for y in 0..side {
                walk.push((TileCoord::new(z, x, y).unwrap().tile_id(), x, y));
            }
        }
        walk.sort();
        for pair in walk.windows(2) {
            let apart = pair[0].1.abs_diff(pair[1].1) + pair[0].2.abs_diff(pair[1].2);
            assert_eq!((pair[1].0 - pair[0].0, apart), (1, 1));
        }
    }
}

#[test]
fn coordinates_outside_the_grid_are_rejected() {
    assert!(TileCoord::new(0, 1, 0).is_none());
    assert!(TileCoord::new(1, 2, 0).is_none());
    assert!(TileCoord::new(1, 0, 2).is_none());
    assert!(TileCoord::new(27, 0, 0).is_none());
    assert!(TileCoord::new(255, 0, 0).is_none());
    // The largest addressable coordinate is fine and does not overflow.
    assert!(TileCoord::new(26, (1u32 << 26) - 1, (1u32 << 26) - 1).is_some());
    assert!(TileCoord::new(26, 1u32 << 26, 0).is_none());
}

#[test]
fn header_rejects_hostile_and_truncated_bytes() {
    assert!(matches!(Header::parse(b"not-pmtiles"), Err(ArchiveError::Truncated("header"))));
    let mut head = vec![0u8; HEADER_LEN];
    assert!(matches!(Header::parse(&head), Err(ArchiveError::NotPmTiles)));
    head[..7].copy_from_slice(b"PMTiles");
    head[7] = 2;
    assert!(matches!(Header::parse(&head), Err(ArchiveError::UnsupportedVersion(2))));
}

#[test]
fn varints_cannot_overflow_or_run_off_the_page() {
    assert_eq!(varint(&[0x00], 0).unwrap(), (0, 1));
    assert_eq!(varint(&[0x96, 0x01], 0).unwrap(), (150, 2));
    // Continuation bits forever: must error, not spin or wrap.
    let runaway = vec![0xffu8; 32];
    assert!(matches!(varint(&runaway, 0), Err(ArchiveError::MalformedDirectory(_))));
    // Truncated mid-varint.
    assert!(matches!(varint(&[0x80], 0), Err(ArchiveError::MalformedDirectory(_))));
}

#[test]
fn a_varint_holds_sixty_four_bits_and_no_more() {
    let mut bytes = [0xffu8; 10];
    bytes[9] = 0x01;
    assert_eq!(varint(&bytes, 0).unwrap(), (u64::MAX, 10));
    // Two to the sixty-fourth.
    let mut past = [0x80u8; 10];
    past[9] = 0x02;
    assert!(matches!(
        varint(&past, 0),
        Err(ArchiveError::MalformedDirectory("varint overflows 64 bits"))
    ));
}

#[test]
fn directory_parse_rejects_nonsense() {
    // Claims 4 entries, supplies none.
    assert!(matches!(parse_directory(&[0x04]), Err(ArchiveError::MalformedDirectory(_))));
    // Implausible entry count (varint for 2^40).
    let mut huge = Vec::new();
    let mut value: u64 = 1 << 40;
    while value >= 0x80 {
        huge.push((value as u8 & 0x7f) | 0x80);
        value >>= 7;
    }
    huge.push(value as u8);
    assert!(matches!(parse_directory(&huge), Err(ArchiveError::MalformedDirectory(_))));
    // Empty directory is legal and empty.
    assert_eq!(parse_directory(&[0x00]).unwrap(), Vec::new());
}

#[test]
fn attribution_is_reduced_to_plain_text() {
    let raw = "<a href=\"https://example.test\">Protomaps</a> \u{00a9} \
               <a href=\"https://www.openstreetmap.org\"> OpenStreetMap</a>";
    assert_eq!(to_plain_text(raw).as_deref(), Some("Protomaps \u{00a9} OpenStreetMap"));
    assert_eq!(to_plain_text("<b></b>   "), None);
    assert_eq!(to_plain_text("plain"), Some("plain".to_owned()));
    // A script tag reduces to its text, and the tag itself never survives.
    let script = to_plain_text("<script>alert(1)</script>").unwrap();
    assert!(!script.contains('<'), "markup must not survive: {script}");
}

#[test]
fn find_returns_the_covering_entry_or_nothing() {
    let entries = vec![
        Entry { tile_id: 10, offset: 0, length: 1, run_length: 1 },
        Entry { tile_id: 20, offset: 1, length: 1, run_length: 1 },
    ];
    assert_eq!(find(&entries, 9), None);
    assert_eq!(find(&entries, 10).map(|e| e.tile_id), Some(10));
    assert_eq!(find(&entries, 15).map(|e| e.tile_id), Some(10));
    assert_eq!(find(&entries, 99).map(|e| e.tile_id), Some(20));
    assert_eq!(find(&[], 1), None);
}

// --- an archive, end to end ----------------------------------------------

fn gzip(bytes: &[u8]) -> Vec<u8> {
    let mut encoder = flate2::write::GzEncoder::new(Vec::new(), flate2::Compression::default());
    encoder.write_all(bytes).unwrap();
    encoder.finish().unwrap()
}

/// A directory of entries, written column by column.
fn directory(entries: &[Entry]) -> Vec<u8> {
    let mut out = vec![entries.len() as u8];
    let mut last = 0;
    for e in entries {
        out.push((e.tile_id - last) as u8);
        last = e.tile_id;
    }
    for e in entries {
        out.push(e.run_length as u8);
    }
    for e in entries {
        out.push(e.length as u8);
    }
    for e in entries {
        out.push(e.offset as u8 + 1);
    }
    out
}

/// A file with one root directory, metadata and tile bodies.
fn archive_bytes(root: &[u8], metadata: &[u8], tiles: &[u8], internal: u8) -> Vec<u8> {
    let mut head = vec![0u8; HEADER_LEN];
    head[..7].copy_from_slice(b"PMTiles");
    head[7] = 3;
    let mut put = |at: usize, v: u64| head[at..at + 8].copy_from_slice(&v.to_le_bytes());
    let root_at = HEADER_LEN as u64;
    let meta_at = root_at + root.len() as u64;
    let tiles_at = meta_at + metadata.len() as u64;
    put(8, root_at);
    put(16, root.len() as u64);
    put(24, meta_at);
    put(32, metadata.len() as u64);
    put(40, tiles_at);
    put(48, 0);
    put(56, tiles_at);
    put(64, tiles.len() as u64);
    head[97] = internal;
    head[98] = 2;
    head[99] = 1;
    head[100] = 0;
    head[101] = 2;
    let mut coord = |at: usize, v: i32| head[at..at + 4].copy_from_slice(&v.to_le_bytes());
    coord(102, -1_800_000_000);
    coord(106, -850_000_000);
    coord(110, 1_800_000_000);
    coord(114, 850_000_000);
    head[118] = 1;
    let mut file = head;
    file.extend_from_slice(root);
    file.extend_from_slice(metadata);
    file.extend_from_slice(tiles);
    file
}

fn open(file: &[u8]) -> Archive {
    let plan = OpenPlan::begin(file.len() as u64, &file[..HEADER_LEN]).unwrap();
    let (at, len) = plan.root_span();
    let root = plan.read_root(&file[at as usize..at as usize + len]).unwrap();
    let metadata = match plan.metadata_span() {
        Some((at, len)) => plan.read_metadata(Some(&file[at as usize..at as usize + len])),
        None => plan.read_metadata(None),
    };
    plan.finish(root, metadata)
}

#[test]
fn a_stored_tile_is_found_and_a_missing_one_is_absent() {
    let entries = [
        Entry { tile_id: 0, offset: 0, length: 3, run_length: 1 },
        Entry { tile_id: 2, offset: 3, length: 2, run_length: 1 },
    ];
    let root = gzip(&directory(&entries));
    let metadata = gzip(br#"{"name":"Region","attribution":"<b>OpenStreetMap</b>","x":1}"#);
    let file = archive_bytes(&root, &metadata, b"abcde", 2);
    let archive = open(&file);
    assert_eq!(archive.metadata().name.as_deref(), Some("Region"));
    assert_eq!(archive.metadata().attribution.as_deref(), Some("OpenStreetMap"));
    assert_eq!(archive.header().tile_type, TileType::Mvt);

    match archive.lookup(TileCoord::new(0, 0, 0).unwrap()).unwrap() {
        LookupStep::Body { offset, len, entry } => {
            let body = &file[offset as usize..offset as usize + len];
            assert_eq!(body, b"abc");
            let tile = Tile::stored(entry, body.to_vec());
            assert_eq!(tile.bytes, b"abc");
        }
        _ => panic!("expected a tile"),
    }
    match archive.lookup(TileCoord::new(1, 0, 1).unwrap()).unwrap() {
        LookupStep::Body { offset, len, .. } => {
            assert_eq!(&file[offset as usize..offset as usize + len], b"de");
        }
        _ => panic!("expected a tile"),
    }
    // Between two entries there is nothing to serve.
    assert!(matches!(
        archive.lookup(TileCoord::new(1, 0, 0).unwrap()).unwrap(),
        LookupStep::Absent
    ));
}

#[test]
fn pages_are_bounded_after_decompression() {
    let plain = vec![7u8; 1000];
    let packed = gzip(&plain);
    assert_eq!(decompress(Compression::Gzip, &packed, 1000, "page").unwrap(), plain);
    assert!(matches!(
        decompress(Compression::Gzip, &packed, 999, "page"),
        Err(ArchiveError::Oversize { what: "page", limit: 999 })
    ));
    assert_eq!(decompress(Compression::Plain, &plain, 1000, "page").unwrap(), plain);
    assert!(decompress(Compression::Brotli, &packed, 1000, "page").is_err());
    assert!(decompress(Compression::Zstd, &packed, 1000, "page").is_err());
    assert!(decompress(Compression::Gzip, b"not gzip", 1000, "page").is_err());
    assert!(accept_page(None, 10, "page").is_err());
    assert_eq!(accept_page(Some(vec![1]), 1, "page").unwrap(), vec![1]);
}

#[test]
fn damaged_archives_do_not_open() {
    let root = gzip(&directory(&[Entry { tile_id: 0, offset: 0, length: 1, run_length: 1 }]));
    let file = archive_bytes(&root, b"", b"a", 2);
    assert!(OpenPlan::begin(file.len() as u64, &file[..HEADER_LEN]).is_ok());
    // A file cut short does not hold the spans that its header names.
    assert!(OpenPlan::begin(HEADER_LEN as u64, &file[..HEADER_LEN]).is_err());
    // An unknown tile type is refused.
    let mut bad = file.clone();
    bad[99] = 9;
    assert!(matches!(
        OpenPlan::begin(bad.len() as u64, &bad[..HEADER_LEN]),
        Err(ArchiveError::UnsupportedTileType(9))
    ));
    // Zooms that cross are refused.
    let mut crossed = file.clone();
    crossed[100] = 5;
    assert!(matches!(
        OpenPlan::begin(crossed.len() as u64, &crossed[..HEADER_LEN]),
        Err(ArchiveError::InvalidHeader(_))
    ));
}

#[test]
fn metadata_that_is_not_an_object_is_no_metadata() {
    let m = ArchiveMetadata::parse(b"[1,2]");
    assert!(m.name.is_none() && m.attribution.is_none());
    let m = ArchiveMetadata::parse(b"{\"name\": 4, \"attribution\": \"  \"}");
    assert!(m.name.is_none() && m.attribution.is_none());
    let m = ArchiveMetadata::parse("{\"name\": \"a\u{202e}b\"}".as_bytes());
    assert_eq!(m.name.as_deref(), Some("a b"));
}

#[test]
fn errors_name_what_is_wrong_with_an_archive() {
    let gzip_only = ArchiveError::UnsupportedCompression { what: "metadata", kind: "brotli" };
    assert_eq!(
        gzip_only.message(),
        "archive uses brotli compression for metadata; supported: none, gzip \
         (re-cut the archive with `pmtiles convert`)"
    );
    assert_eq!(
        ArchiveError::UnsupportedVersion(2).message(),
        "PMTiles spec version 2 is not supported (this reader speaks v3)"
    );
    assert_eq!(
        ArchiveError::Oversize { what: "tile", limit: 16 }.message(),
        "archive tile is larger than the 16 byte ceiling"
    );
    assert_eq!(
        ArchiveError::Truncated("header").message(),
        "archive is truncated: header extends past the end of the file"
    );
    assert_eq!(ArchiveError::NotPmTiles.message(), "not a PMTiles archive (bad magic)");
    assert_eq!(
        ArchiveError::LeafDepthExceeded.message(),
        "archive nests leaf directories more than 4 deep"
    );
}

#[test]
fn a_leaf_directory_leads_on_to_the_tile() {
    // The root names one leaf directory for everything from tile 0 on.
    let leaf = gzip(&directory(&[Entry { tile_id: 2, offset: 0, length: 3, run_length: 1 }]));
    let pointer = Entry { tile_id: 0, offset: 0, length: leaf.len() as u32, run_length: 0 };
    let root = gzip(&directory(&[pointer]));
    let mut file = archive_bytes(&root, b"", b"", 2);
    let leaf_at = file.len() as u64;
    let tiles_at = leaf_at + leaf.len() as u64;
    file[40..48].copy_from_slice(&leaf_at.to_le_bytes());
    file[48..56].copy_from_slice(&(leaf.len() as u64).to_le_bytes());
    file[56..64].copy_from_slice(&tiles_at.to_le_bytes());
    file[64..72].copy_from_slice(&3u64.to_le_bytes());
    file.extend_from_slice(&leaf);
    file.extend_from_slice(b"xyz");
    let archive = open(&file);
    let wanted = TileCoord::new(1, 0, 1).unwrap();
    let page = match archive.lookup(wanted).unwrap() {
        LookupStep::Leaf { offset, len } => {
            assert_eq!((offset, len), (leaf_at, leaf.len()));
            &file[offset as usize..offset as usize + len]
        }
        other => panic!("expected a leaf, got {other:?}"),
    };
    match archive.descend(wanted, 0, page).unwrap() {
        LookupStep::Body { offset, len, .. } => {
            assert_eq!(&file[offset as usize..offset as usize + len], b"xyz");
        }
        other => panic!("expected a tile, got {other:?}"),
    }
    let absent = TileCoord::new(1, 0, 0).unwrap();
    assert_eq!(archive.descend(absent, 0, page).unwrap(), LookupStep::Absent);
    assert!(matches!(archive.descend(wanted, 3, page), Err(ArchiveError::LeafDepthExceeded)));
}

#[test]
fn a_map_serves_what_it_covers_and_revalidates_by_archive() {
    let root = gzip(&directory(&[Entry { tile_id: 0, offset: 0, length: 3, run_length: 1 }]));
    let file = archive_bytes(&root, b"", b"abc", 2);
    let archive = open(&file);
    let coord = TileCoord::new(0, 0, 0).unwrap();
    let etag = match admit_tile(&archive, coord, true, None) {
        TileGate::Lookup { etag } => etag,
        _ => panic!("the tile is covered"),
    };
    assert_eq!(etag, tile_etag(archive.fingerprint(), coord));
    assert!(matches!(
        admit_tile(&archive, coord, true, Some(&etag)),
        TileGate::NotModified { .. }
    ));
    assert!(matches!(admit_tile(&archive, coord, false, None), TileGate::Refuse { .. }));
    let deep = TileCoord::new(3, 0, 0).unwrap();
    assert!(matches!(admit_tile(&archive, deep, true, None), TileGate::Refuse { .. }));

    let entry = Entry { tile_id: 0, offset: 0, length: 3, run_length: 1 };
    let tile = Tile::stored(entry, b"abc".to_vec());
    let reply = get_tile(archive.header(), &etag, Ok(Some(tile))).ok().expect("served");
    assert_eq!((reply.status, reply.body.as_deref()), (200, Some(&b"abc"[..])));
    let header = |name: &str| {
        reply.headers.iter().find(|h| h.name == name).map(|h| h.value.as_str())
    };
    assert_eq!(header("content-type"), Some("application/vnd.mapbox-vector-tile"));
    assert_eq!(header("content-encoding"), Some("gzip"));
    let empty = get_tile(archive.header(), &etag, Ok(None)).ok().expect("an empty square");
    assert_eq!((empty.status, empty.body), (204, None));
    let unreadable = get_tile(archive.header(), &etag, Err(ArchiveError::Io("x".to_owned())));
    assert_eq!(unreadable.err().expect("refused").title, "the map archive is unreadable");
    let broken = get_tile(archive.header(), &etag, Err(ArchiveError::NotPmTiles));
    assert_eq!(broken.err().expect("refused").title, "the map archive is not usable");
    assert_eq!(not_modified(&etag).status, 304);

    let api = MapApi::new(archive, Some("Acme".to_owned()));
    let coverage = api.coverage();
    assert_eq!((coverage.min_zoom, coverage.max_zoom), (0, 2));
    assert!(coverage.attribution.contains("OpenStreetMap"));
}
