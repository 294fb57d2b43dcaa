//! Local map serving: coverage, attribution, and one tile body exactly as stored.

use vstd::prelude::*;

use crate::http;
use crate::http::Header;
use crate::pmtiles::{Archive, ArchiveError, Bounds, Tile, TileCoord, TileType};
use crate::pmtiles;
use crate::problem;
use crate::problem::{ErrorCode, ProblemDetails};
use crate::text;

verus! {

/// The tile URL template handed to the client. Server-relative: no map request
/// ever leaves the machine.
pub const TILE_URL_TEMPLATE: &'static str = "/api/v1/map/tiles/{z}/{x}/{y}";

/// The attribution every locally served map carries when the archive says
/// nothing usable.
pub const DEFAULT_ATTRIBUTION: &'static str = "\u{00a9} OpenStreetMap contributors";

/// What must appear in whatever attribution is served.
pub const REQUIRED_ATTRIBUTION_SUBJECT: &'static str = "OpenStreetMap";

// ---------------------------------------------------------------------------
// Attribution
// ---------------------------------------------------------------------------

/// The attribution that is asked for: the operator's where it says anything,
/// else the archive's, else the default.
pub open spec fn chosen_attribution(operator: Option<Seq<char>>, archive: Option<Seq<char>>) -> Seq<char> {
    if operator matches Some(o) && !text::is_blank(o) {
        text::trimmed(operator->0)
    } else if archive matches Some(a) && a.len() > 0 {
        archive->0
    } else {
        DEFAULT_ATTRIBUTION@
    }
}

/// The attribution that is served. Where the chosen one does not name the
/// required subject, the default is appended: it cannot be configured away.
pub open spec fn served_attribution(operator: Option<Seq<char>>, archive: Option<Seq<char>>) -> Seq<char> {
    let chosen = chosen_attribution(operator, archive);
    if text::has_part(chosen, REQUIRED_ATTRIBUTION_SUBJECT@) {
        chosen
    } else {
        chosen + " \u{2014} "@ + DEFAULT_ATTRIBUTION@
    }
}

pub fn attribution(operator: &Option<String>, archive: &Option<String>) -> (s: String)
    ensures
        s@ == served_attribution(text::opt_view(*operator), text::opt_view(*archive)),
{
    let mut chosen: Option<String> = None;
    if let Some(o) = operator {
        let said = text::trim(o.as_str());
        if !said.is_empty() {
            chosen = Some(said.to_owned());
        }
    }
    if chosen.is_none() {
        if let Some(a) = archive {
            if !a.as_str().is_empty() {
                chosen = Some(a.clone());
            }
        }
    }
    let chosen = match chosen {
        Some(c) => c,
        None => DEFAULT_ATTRIBUTION.to_owned(),
    };
    if text::contains(chosen.as_str(), REQUIRED_ATTRIBUTION_SUBJECT) {
        chosen
    } else {
        text::concat3(chosen.as_str(), " \u{2014} ", DEFAULT_ATTRIBUTION)
    }
}

/// Whatever the operator configures and the archive declares, what is served
/// names OpenStreetMap.
pub proof fn law_attribution_is_never_hidden(operator: Option<Seq<char>>, archive: Option<Seq<char>>)
    ensures
        text::has_part(served_attribution(operator, archive), REQUIRED_ATTRIBUTION_SUBJECT@),
{
    let chosen = chosen_attribution(operator, archive);
    let subject = REQUIRED_ATTRIBUTION_SUBJECT@;
    if !text::has_part(chosen, subject) {
        reveal_strlit("\u{00a9} OpenStreetMap contributors");
        reveal_strlit("OpenStreetMap");
        let whole = chosen + " \u{2014} "@ + DEFAULT_ATTRIBUTION@;
        let at = (chosen.len() + " \u{2014} "@.len() + 2) as int;
        assert(whole.subrange(at, at + subject.len()) =~= subject);
        assert(text::occurs_at(whole, subject, at));
    }
}

// ---------------------------------------------------------------------------
// Coverage
// ---------------------------------------------------------------------------

/// What the client is told before it requests any tile. Coordinates are in
/// ten-millionths of a degree.
pub struct MapCoverage {
    pub bounds: Bounds,
    pub min_zoom: u8,
    pub max_zoom: u8,
    pub center_lon: i32,
    pub center_lat: i32,
    pub center_zoom: u8,
    pub tile_url_template: &'static str,
    pub tile_format: TileType,
    pub attribution: String,
    pub name: Option<String>,
}

/// An opened archive and the attribution it is served with.
pub struct MapApi {
    pub archive: Archive,
    pub attribution: String,
}

impl MapApi {
    pub fn new(archive: Archive, override_attribution: Option<String>) -> (api: Self)
        ensures
            api.archive == archive,
            api.attribution@ == served_attribution(
                text::opt_view(override_attribution),
                text::opt_view(archive.metadata.attribution),
            ),
    {
        let attribution = attribution(&override_attribution, &archive.metadata.attribution);
        MapApi { archive, attribution }
    }

    pub fn coverage(&self) -> (c: MapCoverage)
        ensures
            c.bounds == self.archive.header.bounds,
            c.min_zoom == self.archive.header.min_zoom,
            c.max_zoom == self.archive.header.max_zoom,
            c.center_lon == self.archive.header.center_lon,
            c.center_lat == self.archive.header.center_lat,
            c.center_zoom == self.archive.header.center_zoom,
            c.tile_url_template == TILE_URL_TEMPLATE,
            c.tile_format == self.archive.header.tile_type,
            c.attribution@ == self.attribution@,
            c.name == self.archive.metadata.name,
    {
        MapCoverage {
            bounds: self.archive.header.bounds,
            min_zoom: self.archive.header.min_zoom,
            max_zoom: self.archive.header.max_zoom,
            center_lon: self.archive.header.center_lon,
            center_lat: self.archive.header.center_lat,
            center_zoom: self.archive.header.center_zoom,
            tile_url_template: TILE_URL_TEMPLATE,
            tile_format: self.archive.header.tile_type,
            attribution: self.attribution.clone(),
            name: text::copy_opt(&self.archive.metadata.name),
        }
    }
}

// ---------------------------------------------------------------------------
// Tiles
// ---------------------------------------------------------------------------

/// A path segment as a number no larger than `max`.
pub open spec fn segment(s: Seq<char>, max: nat) -> Option<nat> {
    match text::plain_number(s) {
        Some(n) => if n <= max {
            Some(n)
        } else {
            None
        },
        None => None,
    }
}

/// The tile that three path segments name: plain unsigned decimals, in range for
/// the grid of the zoom.
pub open spec fn tile_named(z: Seq<char>, x: Seq<char>, y: Seq<char>) -> Option<(nat, nat, nat)> {
    match (segment(z, u8::MAX as nat), segment(x, u32::MAX as nat), segment(y, u32::MAX as nat)) {
        (Some(a), Some(b), Some(c)) => if pmtiles::tile::addressable(a, b, c) {
            Some((a, b, c))
        } else {
            None
        },
        _ => None,
    }
}

pub open spec fn bad_coordinate_view() -> problem::ProblemView {
    problem::problem_of(
        400,
        ErrorCode::ValidationFailed,
        "tile coordinates must be z/x/y with 0 <= x,y < 2^z and z <= 26"@,
        None,
    )
}

/// Parse the path of a tile request. A sign, white space, an escape or a number
/// out of range fails here and never becomes arithmetic.
pub fn tile_path(z: &str, x: &str, y: &str) -> (r: Result<TileCoord, ProblemDetails>)
    ensures
        match tile_named(z@, x@, y@) {
            Some((a, b, c)) => r matches Ok(coord) && coord.spec_z() == a && coord.spec_x() == b
                && coord.spec_y() == c,
            None => r matches Err(e) && e@ == bad_coordinate_view(),
        },
{
    let a = text::parse_number(z, 0xff);
    let b = text::parse_number(x, 0xffff_ffff);
    let c = text::parse_number(y, 0xffff_ffff);
    match (a, b, c) {
        (Some(a), Some(b), Some(c)) => match TileCoord::new(a as u8, b as u32, c as u32) {
            Some(coord) => Ok(coord),
            None => Err(bad_coordinate()),
        },
        _ => Err(bad_coordinate()),
    }
}

fn bad_coordinate() -> (p: ProblemDetails)
    ensures
        p@ == bad_coordinate_view(),
{
    problem::bad_request("tile coordinates must be z/x/y with 0 <= x,y < 2^z and z <= 26")
}

/// A strong validator over which archive, and where the tile sits in it.
pub open spec fn etag_of(fingerprint: Seq<char>, tile_id: nat, z: nat) -> Seq<char> {
    "\""@ + fingerprint + "-"@ + text::decimal(tile_id) + "-"@ + text::decimal(z) + "\""@
}

pub open spec fn coord_id(coord: TileCoord) -> nat {
    pmtiles::tile::tile_number(coord.spec_z(), coord.spec_x(), coord.spec_y())
}

pub fn tile_etag(fingerprint: &str, coord: TileCoord) -> (s: String)
    ensures
        s@ == etag_of(fingerprint@, coord_id(coord), coord.spec_z()),
{
    let id = text::decimal_of(coord.tile_id());
    let z = text::decimal_of(coord.z() as u64);
    let head = text::concat3("\"", fingerprint, "-");
    let mid = text::concat3(head.as_str(), id.as_str(), "-");
    text::concat3(mid.as_str(), z.as_str(), "\"")
}

proof fn lemma_no_dash(n: nat)
    ensures
        forall|i: int| 0 <= i < text::decimal(n).len() ==> text::decimal(n)[i] != '-',
{
    text::law_decimal_round_trip(n);
    assert forall|i: int| 0 <= i < text::decimal(n).len() implies text::decimal(n)[i] != '-' by {
        assert(text::is_digit(text::decimal(n)[i]));
    }
}

/// Two validators with fingerprints of one length agree only where the archive,
/// the tile and the zoom do: a cached tile of another region never revalidates.
pub proof fn law_etags_distinguish_tiles(
    f1: Seq<char>,
    id1: nat,
    z1: nat,
    f2: Seq<char>,
    id2: nat,
    z2: nat,
)
    requires
        f1.len() == f2.len(),
        etag_of(f1, id1, z1) == etag_of(f2, id2, z2),
    ensures
        f1 == f2,
        id1 == id2,
        z1 == z2,
{
    reveal_strlit("\"");
    reveal_strlit("-");
    let e1 = etag_of(f1, id1, z1);
    let e2 = etag_of(f2, id2, z2);
    let n = f1.len() as int;
    assert(f1 =~= e1.subrange(1, 1 + n));
    assert(f2 =~= e2.subrange(1, 1 + n));
    let r1 = text::decimal(id1) + "-"@ + text::decimal(z1) + "\""@;
    let r2 = text::decimal(id2) + "-"@ + text::decimal(z2) + "\""@;
    assert(r1 =~= e1.skip(n + 2));
    assert(r2 =~= e2.skip(n + 2));
    assert(r1 == r2);
    lemma_no_dash(id1);
    lemma_no_dash(id2);
    let k1 = text::decimal(id1).len() as int;
    let k2 = text::decimal(id2).len() as int;
    assert(r1[k1] == '-');
    assert(r2[k2] == '-');
    if k1 < k2 {
        assert(r2[k1] == text::decimal(id2)[k1]);
    }
    if k2 < k1 {
        assert(r1[k2] == text::decimal(id1)[k2]);
    }
    assert(text::decimal(id1) =~= r1.take(k1));
    assert(text::decimal(id2) =~= r2.take(k2));
    assert(text::decimal(z1) =~= r1.subrange(k1 + 1, r1.len() - 1));
    assert(text::decimal(z2) =~= r2.subrange(k2 + 1, r2.len() - 1));
    text::law_decimal_injective(id1, id2);
    text::law_decimal_injective(z1, z2);
}

/// What is done with a tile request whose path is in order.
pub enum TileGate {
    /// Outside the coverage: refused before the archive is touched.
    Refuse { problem: ProblemDetails },
    /// The client's copy is current.
    NotModified { etag: String },
    /// The tile is to be looked up.
    Lookup { etag: String },
}

/// Decide a tile request before the archive is touched. `overlaps` says whether
/// the tile's footprint meets the archive's coverage box.
pub fn admit_tile(
    archive: &Archive,
    coord: TileCoord,
    overlaps: bool,
    if_none_match: Option<&str>,
) -> (g: TileGate)
    ensures
        gates_tile(*archive, coord, overlaps, if_none_match, g),
        ({
            let etag = etag_of(archive.fingerprint@, coord_id(coord), coord.spec_z());
            if !(archive.header.min_zoom <= coord.spec_z() <= archive.header.max_zoom && overlaps) {
                g matches TileGate::Refuse { problem } && problem@ == problem::problem_of(
                    404,
                    ErrorCode::ResourceNotFound,
                    "that tile is outside the locally served map region"@,
                    None,
                )
            } else if if_none_match matches Some(h) && http::names_tag(h@, etag) {
                g matches TileGate::NotModified { etag: e } && e@ == etag
            } else {
                g matches TileGate::Lookup { etag: e } && e@ == etag
            }
        }),
{
    if !archive.covers(coord, overlaps) {
        return TileGate::Refuse {
            problem: problem::not_found("that tile is outside the locally served map region"),
        };
    }
    let etag = tile_etag(archive.fingerprint(), coord);
    if let Some(header) = if_none_match {
        if http::matches_tag(header, etag.as_str()) {
            return TileGate::NotModified { etag };
        }
    }
    TileGate::Lookup { etag }
}

/// A day of freshness and a validator, deliberately not `immutable`: the URL of
/// a tile names whatever archive is configured today.
pub const CACHE_CONTROL: &'static str = "private, max-age=86400";

pub fn cache_control() -> (s: &'static str)
    ensures
        s == CACHE_CONTROL,
{
    CACHE_CONTROL
}

/// An answered tile request.
pub struct TileReply {
    pub status: u16,
    pub headers: Vec<Header>,
    pub body: Option<Vec<u8>>,
}

/// The headers of a served tile.
pub open spec fn tile_headers(h: pmtiles::Header, etag: Seq<char>) -> Seq<(Seq<char>, Seq<char>)> {
    let mime = match h.tile_type {
        TileType::Mvt => "application/vnd.mapbox-vector-tile"@,
        TileType::Png => "image/png"@,
        TileType::Jpeg => "image/jpeg"@,
        TileType::Webp => "image/webp"@,
        TileType::Avif => "image/avif"@,
    };
    let typed = seq![("content-type"@, mime)];
    let encoded = match h.tile_compression {
        pmtiles::Compression::Plain => typed,
        pmtiles::Compression::Gzip => typed.push(("content-encoding"@, "gzip"@)),
        pmtiles::Compression::Brotli => typed.push(("content-encoding"@, "br"@)),
        pmtiles::Compression::Zstd => typed.push(("content-encoding"@, "zstd"@)),
    };
    encoded.push(("x-content-type-options"@, "nosniff"@)).push(("etag"@, etag)).push(
        ("cache-control"@, CACHE_CONTROL@),
    )
}

/// What a failed lookup is answered with: no bytes, and no internals.
pub open spec fn lookup_problem_view(e: ArchiveError) -> problem::ProblemView {
    problem::problem_of(
        503,
        ErrorCode::ProviderUnavailable,
        if e is Io {
            "the map archive is unreadable"@
        } else {
            "the map archive is not usable"@
        },
        None,
    )
}

/// Answer a looked-up tile. A tile that is covered but not stored is an empty
/// square; bodies are forwarded exactly as stored.
pub fn get_tile(
    h: &pmtiles::Header,
    etag: &str,
    looked_up: Result<Option<Tile>, ArchiveError>,
) -> (r: Result<TileReply, ProblemDetails>)
    ensures
        serves_tile(*h, etag@, looked_up, r),
        match looked_up {
            Ok(Some(tile)) => r matches Ok(reply) && reply.status == 200 && reply.body == Some(
                tile.bytes,
            ) && http::headers_of(reply.headers@) == tile_headers(*h, etag@),
            Ok(None) => r matches Ok(reply) && reply.status == 204 && reply.body is None
                && http::headers_of(reply.headers@) == seq![
                ("etag"@, etag@),
                ("cache-control"@, CACHE_CONTROL@),
            ],
            Err(e) => r matches Err(p) && p@ == lookup_problem_view(e),
        },
{
    match looked_up {
        Ok(Some(tile)) => {
            let mut headers = http::no_headers();
            http::put(&mut headers, "content-type", h.tile_type.content_type());
            assert(http::headers_of(headers@) =~= seq![
                ("content-type"@, http::headers_of(headers@)[0].1),
            ]);
            if let Some(encoding) = h.tile_compression.content_encoding() {
                http::put(&mut headers, "content-encoding", encoding);
            }
            http::put(&mut headers, "x-content-type-options", "nosniff");
            http::put(&mut headers, "etag", etag);
            http::put(&mut headers, "cache-control", cache_control());
            assert(http::headers_of(headers@) =~= tile_headers(*h, etag@));
            Ok(TileReply { status: 200, headers, body: Some(tile.bytes) })
        },
        Ok(None) => {
            let mut headers = http::no_headers();
            http::put(&mut headers, "etag", etag);
            http::put(&mut headers, "cache-control", cache_control());
            assert(http::headers_of(headers@) =~= seq![
                ("etag"@, etag@),
                ("cache-control"@, CACHE_CONTROL@),
            ]);
            Ok(TileReply { status: 204, headers, body: None })
        },
        Err(e) => match e {
            ArchiveError::Io(_) => Err(problem::unavailable("the map archive is unreadable")),
            _ => Err(problem::unavailable("the map archive is not usable")),
        },
    }
}

/// The answer to a client whose copy is current.
pub fn not_modified(etag: &str) -> (reply: TileReply)
    ensures
        reply.status == 304,
        reply.body is None,
        http::headers_of(reply.headers@) == seq![("etag"@, etag@)],
{
    let mut headers = http::no_headers();
    http::put(&mut headers, "etag", etag);
    assert(http::headers_of(headers@) =~= seq![("etag"@, etag@)]);
    TileReply { status: 304, headers, body: None }
}

/// A tile is named by its three numbers in decimal, and by nothing that is not
/// a tile: no level is over 26, and neither coordinate reaches past its level.
pub proof fn law_tiles_are_named_by_their_numbers(
    z: nat,
    x: nat,
    y: nat,
    zs: Seq<char>,
    xs: Seq<char>,
    ys: Seq<char>,
)
    ensures
        z <= 26 && x < vstd::arithmetic::power2::pow2(z) && y < vstd::arithmetic::power2::pow2(z)
            ==> tile_named(text::decimal(z), text::decimal(x), text::decimal(y)) == Some((z, x, y)),
        tile_named(zs, xs, ys) matches Some((a, b, c)) ==> {
            &&& text::plain_number(zs) == Some(a)
            &&& text::plain_number(xs) == Some(b)
            &&& text::plain_number(ys) == Some(c)
            &&& a <= 26
            &&& b < vstd::arithmetic::power2::pow2(a)
            &&& c < vstd::arithmetic::power2::pow2(a)
        },
{
    text::law_decimal_round_trip(z);
    text::law_decimal_round_trip(x);
    text::law_decimal_round_trip(y);
    if z <= 26 {
        if z < 26 {
            vstd::arithmetic::power2::lemma_pow2_strictly_increases(z, 26);
        }
        vstd::arithmetic::power2::lemma2_to64();
        assert(vstd::arithmetic::power2::pow2(26) == 0x400_0000);
    }
}

/// The operator's own words come first, then the archive's, then the plain
/// credit; and where the words chosen do not name the map's makers, the credit
/// is added behind them.
pub proof fn law_the_nearest_attribution_is_served(
    operator: Option<Seq<char>>,
    archive: Option<Seq<char>>,
)
    ensures
        operator matches Some(o) && !text::is_blank(o) ==> text::trimmed(operator->0).is_prefix_of(
            served_attribution(operator, archive),
        ),
        (operator is None || text::is_blank(operator->0)) && (archive matches Some(a) && a.len() > 0)
            ==> archive->0.is_prefix_of(served_attribution(operator, archive)),
        (operator is None || text::is_blank(operator->0)) && (archive is None || archive->0.len()
            == 0) ==> served_attribution(operator, archive) == "\u{00a9} OpenStreetMap contributors"@,
        text::has_part(chosen_attribution(operator, archive), "OpenStreetMap"@)
            ==> served_attribution(operator, archive) == chosen_attribution(operator, archive),
{
    let chosen = chosen_attribution(operator, archive);
    if (operator is None || text::is_blank(operator->0)) && (archive is None || archive->0.len()
        == 0) {
        reveal_strlit("\u{00a9} OpenStreetMap contributors");
        reveal_strlit("OpenStreetMap");
        reveal_strlit("\u{00a9} ");
        reveal_strlit(" contributors");
        assert(chosen =~= "\u{00a9} "@ + "OpenStreetMap"@ + " contributors"@);
        text::law_parts_stand_between_others(
            seq![],
            "OpenStreetMap"@,
            "\u{00a9} "@,
            " contributors"@,
        );
    }
    if !text::has_part(chosen, "OpenStreetMap"@) {
        assert(served_attribution(operator, archive).take(chosen.len() as int) =~= chosen);
        assert(chosen.is_prefix_of(served_attribution(operator, archive)));
    }
}

/// A served tile carries its type, its validator and how long it may be kept,
/// says that its type is not to be guessed, and says how it is compressed
/// exactly where it is.
pub proof fn law_tiles_carry_their_headers(h: pmtiles::Header, etag: Seq<char>)
    ensures
        tile_headers(h, etag).contains(("etag"@, etag)),
        tile_headers(h, etag).contains(("cache-control"@, "private, max-age=86400"@)),
        tile_headers(h, etag).contains(("x-content-type-options"@, "nosniff"@)),
        tile_headers(h, etag).contains(
            (
                "content-type"@,
                match h.tile_type {
                    TileType::Mvt => "application/vnd.mapbox-vector-tile"@,
                    TileType::Png => "image/png"@,
                    TileType::Jpeg => "image/jpeg"@,
                    TileType::Webp => "image/webp"@,
                    TileType::Avif => "image/avif"@,
                },
            ),
        ),
        h.tile_compression is Gzip ==> tile_headers(h, etag).contains(("content-encoding"@, "gzip"@)),
        h.tile_compression is Brotli ==> tile_headers(h, etag).contains(
            ("content-encoding"@, "br"@),
        ),
        h.tile_compression is Zstd ==> tile_headers(h, etag).contains(("content-encoding"@, "zstd"@)),
        tile_headers(h, etag).len() == (if h.tile_compression is Plain {
            4nat
        } else {
            5nat
        }),
{
    let all = tile_headers(h, etag);
    assert(all.last() == ("cache-control"@, "private, max-age=86400"@));
    assert(all[all.len() - 2] == ("etag"@, etag));
    assert(all[all.len() - 3] == ("x-content-type-options"@, "nosniff"@));
    assert(all[0].0 == "content-type"@);
    if h.tile_compression !is Plain {
        assert(all[1].0 == "content-encoding"@);
    }
}

/// A tile that cannot be named is the caller's fault; an archive that cannot be
/// read or used is not.
pub proof fn law_map_faults_are_told_apart(e: ArchiveError)
    ensures
        bad_coordinate_view().status == 400,
        lookup_problem_view(e).status == 503,
        lookup_problem_view(e).title == "the map archive is unreadable"@ <==> e is Io,
{
    reveal_strlit("the map archive is unreadable");
    reveal_strlit("the map archive is not usable");
    assert("the map archive is unreadable"@[19] == 'u');
    assert("the map archive is not usable"@[19] == 'n');
}

/// What a request for a tile is answered with.
pub open spec fn serves_tile(
    h: pmtiles::Header,
    etag: Seq<char>,
    looked_up: Result<Option<Tile>, ArchiveError>,
    r: Result<TileReply, ProblemDetails>,
) -> bool {
    match looked_up {
        Ok(Some(tile)) => r matches Ok(reply) && reply.status == 200 && reply.body == Some(tile.bytes)
            && http::headers_of(reply.headers@) == tile_headers(h, etag),
        Ok(None) => r matches Ok(reply) && reply.status == 204 && reply.body is None
            && http::headers_of(reply.headers@) == seq![
            ("etag"@, etag),
            ("cache-control"@, CACHE_CONTROL@),
        ],
        Err(e) => r matches Err(p) && p@ == lookup_problem_view(e),
    }
}

/// A tile that is in the archive is served with its own bytes; one that is not is
/// an empty answer and no fault; and an archive that cannot be read is one.
pub proof fn law_a_tile_is_served_with_its_bytes(
    h: pmtiles::Header,
    etag: Seq<char>,
    looked_up: Result<Option<Tile>, ArchiveError>,
    r: Result<TileReply, ProblemDetails>,
)
    requires
        serves_tile(h, etag, looked_up, r),
    ensures
        r is Ok <==> looked_up is Ok,
        r matches Ok(reply) ==> {
            &&& reply.body is Some <==> looked_up->Ok_0 is Some
            &&& reply.body matches Some(bytes) ==> bytes == looked_up->Ok_0->0.bytes
            &&& reply.status == (if looked_up->Ok_0 is Some {
                200u16
            } else {
                204u16
            })
        },
        r matches Err(p) ==> p.status == 503,
{
}

/// The codes that a client of the map branches on.
pub proof fn law_map_problems_have_their_codes(e: ArchiveError)
    ensures
        bad_coordinate_view().status == 400 && bad_coordinate_view().code is ValidationFailed,
        lookup_problem_view(e).status == 503 && lookup_problem_view(e).code is ProviderUnavailable,
{
}

/// A validator is written as the archive's fingerprint, the tile's number and its
/// level, in that order, with dashes between them and quotes round them.
pub proof fn law_validators_are_read_in_order(fingerprint: Seq<char>, tile_id: nat, z: nat)
    requires
        !fingerprint.contains('-'),
    ensures
        ({
            let tag = etag_of(fingerprint, tile_id, z);
            let inner = tag.subrange(1, tag.len() - 1);
            &&& tag[0] == '"' && tag.last() == '"'
            &&& text::halves(inner, '-') == Some(
                (fingerprint, text::decimal(tile_id) + seq!['-'] + text::decimal(z)),
            )
        }),
{
    reveal_strlit("\"");
    reveal_strlit("-");
    let tag = etag_of(fingerprint, tile_id, z);
    let rest = text::decimal(tile_id) + seq!['-'] + text::decimal(z);
    assert("\""@ =~= seq!['"']);
    assert("-"@ =~= seq!['-']);
    assert(tag =~= seq!['"'] + (fingerprint + seq!['-'] + rest) + seq!['"']);
    assert(tag.subrange(1, tag.len() - 1) =~= fingerprint + seq!['-'] + rest);
    text::lemma_halves_at_first(fingerprint, '-', rest);
}

/// What a request for a tile meets before the archive is touched.
pub open spec fn gates_tile(
    archive: Archive,
    coord: TileCoord,
    overlaps: bool,
    if_none_match: Option<&str>,
    g: TileGate,
) -> bool {
    let etag = etag_of(archive.fingerprint@, coord_id(coord), coord.spec_z());
    if !pmtiles::header::is_covered(archive.header, coord.spec_z(), overlaps) {
        g matches TileGate::Refuse { problem } && problem@.status == 404
            && problem@.code is ResourceNotFound
    } else if if_none_match matches Some(h) && http::names_tag(h@, etag) {
        g matches TileGate::NotModified { etag: e } && e@ == etag
    } else {
        g matches TileGate::Lookup { etag: e } && e@ == etag
    }
}

/// A tile outside the coverage is refused, whatever the client holds. One inside
/// it is looked up, unless the client names its validator, which is the archive's
/// and the tile's own.
pub proof fn law_a_tile_is_looked_up_where_it_is_covered(
    archive: Archive,
    coord: TileCoord,
    overlaps: bool,
    if_none_match: Option<&str>,
    g: TileGate,
)
    requires
        gates_tile(archive, coord, overlaps, if_none_match, g),
    ensures
        g is Refuse <==> !(overlaps && archive.header.min_zoom <= coord.spec_z()
            <= archive.header.max_zoom),
        g is NotModified ==> if_none_match is Some,
        g matches TileGate::Lookup { etag } ==> (if_none_match is Some ==> !http::names_tag(
            if_none_match->0@,
            etag@,
        )),
        g matches TileGate::NotModified { etag } ==> http::names_tag(if_none_match->0@, etag@),
        g matches TileGate::Lookup { etag } ==> etag@ == etag_of(
            archive.fingerprint@,
            pmtiles::tile::tile_number(coord.spec_z(), coord.spec_x(), coord.spec_y()),
            coord.spec_z(),
        ),
{
}

/// Where the words chosen do not name the map's makers, the plain credit stands
/// behind them, after a dash.
pub proof fn law_the_credit_is_added_behind_a_dash(
    operator: Option<Seq<char>>,
    archive: Option<Seq<char>>,
)
    ensures
        !text::has_part(chosen_attribution(operator, archive), "OpenStreetMap"@)
            ==> served_attribution(operator, archive) == chosen_attribution(operator, archive)
            + " \u{2014} \u{00a9} OpenStreetMap contributors"@,
{
    reveal_strlit(" \u{2014} \u{00a9} OpenStreetMap contributors");
    reveal_strlit(" \u{2014} ");
    reveal_strlit("\u{00a9} OpenStreetMap contributors");
    let chosen = chosen_attribution(operator, archive);
    assert(chosen + " \u{2014} "@ + "\u{00a9} OpenStreetMap contributors"@ =~= chosen
        + " \u{2014} \u{00a9} OpenStreetMap contributors"@);
}

/// The map tells a client where its tiles are, and for how long to keep them.
pub proof fn law_the_map_says_where_its_tiles_are()
    ensures
        TILE_URL_TEMPLATE@ == "/api/v1/map/tiles/{z}/{x}/{y}"@,
        CACHE_CONTROL@ == "private, max-age=86400"@,
{
}

} // verus!
