//! Cards: what a thread consulted, what it showed, and what is playing.
//!
//! The projection is the last place before the screen, so attribution is
//! enforced here. Each item is labelled with the host of its own address, and an
//! item without an honest label is dropped. No card has a field for the text of
//! a page.

use vstd::prelude::*;

use crate::lists::ItemList;
use crate::text;

verus! {

/// The one card that answers "what is playing". Asking twice updates it.
pub const NOW_PLAYING_CARD_ID: &'static str = "now-playing";

/// What an image without a description is called.
pub const PLAIN_ALT: &'static str = "Image from the web";

/// A page that a thread consulted. `domain` is the label of its host, where its
/// address has an honest one.
#[derive(Debug)]
pub struct SourceRef {
    pub title: String,
    pub url: String,
    pub domain: Option<String>,
}

/// An image that a thread showed, with the page it came from and the labels of
/// both hosts.
#[derive(Debug)]
pub struct ImageRef {
    pub alt: String,
    pub url: String,
    pub domain: Option<String>,
    pub source_url: String,
    pub source_domain: Option<String>,
}

/// The track that a player published.
#[derive(Debug)]
pub struct NowPlaying {
    pub title: Option<String>,
    pub artist: Option<String>,
    pub album: Option<String>,
    pub art_url: Option<String>,
    pub source_app: String,
}

#[derive(Debug)]
pub struct SourceItemDto {
    pub title: String,
    pub url: String,
    pub domain: String,
}

#[derive(Debug)]
pub struct SourcedImageDto {
    pub url: String,
    pub source_url: String,
    pub source_domain: String,
    pub alt: String,
}

#[derive(Debug)]
#[allow(inconsistent_fields)]
pub enum HudCardDto {
    Sources { id: String, title: String, items: Vec<SourceItemDto> },
    Gallery { id: String, title: String, images: Vec<SourcedImageDto> },
    List { id: String, list_id: String, list: ItemList },
    NowPlaying {
        id: String,
        title: Option<String>,
        artist: Option<String>,
        album: Option<String>,
        art_url: Option<String>,
        source_app: String,
    },
}

/// What an item of a sources card says.
#[verifier::ext_equal]
pub struct SourceItemView {
    pub title: Seq<char>,
    pub url: Seq<char>,
    pub domain: Seq<char>,
}

/// What a tile of a gallery says.
#[verifier::ext_equal]
pub struct SourcedImageView {
    pub url: Seq<char>,
    pub source_url: Seq<char>,
    pub source_domain: Seq<char>,
    pub alt: Seq<char>,
}

impl View for SourceItemDto {
    type V = SourceItemView;

    open spec fn view(&self) -> SourceItemView {
        SourceItemView { title: self.title@, url: self.url@, domain: self.domain@ }
    }
}

impl View for SourcedImageDto {
    type V = SourcedImageView;

    open spec fn view(&self) -> SourcedImageView {
        SourcedImageView {
            url: self.url@,
            source_url: self.source_url@,
            source_domain: self.source_domain@,
            alt: self.alt@,
        }
    }
}

pub open spec fn items_of(v: Seq<SourceItemDto>) -> Seq<SourceItemView> {
    v.map_values(|i: SourceItemDto| i@)
}

pub open spec fn tiles_of(v: Seq<SourcedImageDto>) -> Seq<SourcedImageView> {
    v.map_values(|i: SourcedImageDto| i@)
}

/// A text without its margins, or another where nothing is left.
pub open spec fn or_else(s: Seq<char>, other: Seq<char>) -> Seq<char> {
    if text::trimmed(s).len() == 0 {
        other
    } else {
        text::trimmed(s)
    }
}

fn trimmed_or(s: &str, other: &str) -> (r: String)
    ensures
        r@ == or_else(s@, other@),
{
    let t = text::trim(s);
    if t.is_empty() {
        other.to_owned()
    } else {
        t.to_owned()
    }
}

/// The item of a page, where it can be attributed. A page without a title is
/// called by its host.
pub open spec fn source_item_of(s: SourceRef) -> Option<SourceItemView> {
    match s.domain {
        Some(d) => Some(SourceItemView { title: or_else(s.title@, d@), url: s.url@, domain: d@ }),
        None => None,
    }
}

/// The tile of an image, where both it and its page can be attributed.
pub open spec fn gallery_image_of(i: ImageRef) -> Option<SourcedImageView> {
    match (i.source_domain, i.domain) {
        (Some(d), Some(_)) => Some(
            SourcedImageView {
                url: i.url@,
                source_url: i.source_url@,
                source_domain: d@,
                alt: or_else(i.alt@, PLAIN_ALT@),
            },
        ),
        _ => None,
    }
}

/// The items of a bibliography, in order.
pub open spec fn attributed(sources: Seq<SourceRef>) -> Seq<SourceItemView>
    decreases sources.len(),
{
    if sources.len() == 0 {
        seq![]
    } else {
        let before = attributed(sources.drop_last());
        match source_item_of(sources.last()) {
            Some(item) => before.push(item),
            None => before,
        }
    }
}

/// The tiles of a gallery, in order.
pub open spec fn attributed_images(images: Seq<ImageRef>) -> Seq<SourcedImageView>
    decreases images.len(),
{
    if images.len() == 0 {
        seq![]
    } else {
        let before = attributed_images(images.drop_last());
        match gallery_image_of(images.last()) {
            Some(tile) => before.push(tile),
            None => before,
        }
    }
}

pub fn source_item(s: &SourceRef) -> (r: Option<SourceItemDto>)
    ensures
        match (r, source_item_of(*s)) {
            (Some(i), Some(v)) => i@ == v,
            (None, None) => true,
            _ => false,
        },
{
    match &s.domain {
        Some(d) => Some(
            SourceItemDto {
                title: trimmed_or(s.title.as_str(), d.as_str()),
                url: s.url.clone(),
                domain: d.clone(),
            },
        ),
        None => None,
    }
}

pub fn gallery_image(i: &ImageRef) -> (r: Option<SourcedImageDto>)
    ensures
        match (r, gallery_image_of(*i)) {
            (Some(t), Some(v)) => t@ == v,
            (None, None) => true,
            _ => false,
        },
{
    let source_domain = match &i.source_domain {
        Some(d) => d.clone(),
        None => {
            return None;
        },
    };
    if i.domain.is_none() {
        return None;
    }
    Some(
        SourcedImageDto {
            url: i.url.clone(),
            source_url: i.source_url.clone(),
            source_domain,
            alt: trimmed_or(i.alt.as_str(), PLAIN_ALT),
        },
    )
}

/// The pages that a thread consulted, as a card. Nothing where none can be
/// attributed: an empty card would promise a bibliography and show none.
pub fn sources_card(id: String, title: &str, sources: &Vec<SourceRef>) -> (r: Option<HudCardDto>)
    ensures
        match r {
            Some(HudCardDto::Sources { id: i, title: t, items }) => i@ == id@ && t@ == title@
                && items_of(items@) == attributed(sources@) && items@.len() > 0,
            Some(_) => false,
            None => attributed(sources@).len() == 0,
        },
{
    let mut items: Vec<SourceItemDto> = Vec::new();
    assert(items_of(items@) =~= seq![]);
    assert(sources@.take(0) =~= seq![]);
    let mut i: usize = 0;
    while i < sources.len()
        invariant
            i <= sources@.len(),
            items_of(items@) == attributed(sources@.take(i as int)),
        decreases sources@.len() - i,
    {
        assert(sources@.take(i + 1).drop_last() =~= sources@.take(i as int));
        if let Some(item) = source_item(&sources[i]) {
            let ghost before = items_of(items@);
            let ghost said = item@;
            items.push(item);
            assert(items_of(items@) =~= before.push(said));
        }
        i = i + 1;
    }
    assert(sources@.take(sources@.len() as int) =~= sources@);
    if items.len() == 0 {
        return None;
    }
    Some(HudCardDto::Sources { id, title: title.to_owned(), items })
}

/// The images that a thread offers for its gallery, as a card. Each tile carries
/// the label of its own page and borrows no neighbour's.
pub fn gallery_card(id: String, title: &str, images: &Vec<ImageRef>) -> (r: Option<HudCardDto>)
    ensures
        match r {
            Some(HudCardDto::Gallery { id: i, title: t, images: tiles }) => i@ == id@ && t@
                == title@ && tiles_of(tiles@) == attributed_images(images@) && tiles@.len() > 0,
            Some(_) => false,
            None => attributed_images(images@).len() == 0,
        },
{
    let mut tiles: Vec<SourcedImageDto> = Vec::new();
    assert(tiles_of(tiles@) =~= seq![]);
    assert(images@.take(0) =~= seq![]);
    let mut i: usize = 0;
    while i < images.len()
        invariant
            i <= images@.len(),
            tiles_of(tiles@) == attributed_images(images@.take(i as int)),
        decreases images@.len() - i,
    {
        assert(images@.take(i + 1).drop_last() =~= images@.take(i as int));
        if let Some(tile) = gallery_image(&images[i]) {
            let ghost before = tiles_of(tiles@);
            let ghost said = tile@;
            tiles.push(tile);
            assert(tiles_of(tiles@) =~= before.push(said));
        }
        i = i + 1;
    }
    assert(images@.take(images@.len() as int) =~= images@);
    if tiles.len() == 0 {
        return None;
    }
    Some(HudCardDto::Gallery { id, title: title.to_owned(), images: tiles })
}

/// The answer to "what is playing". A field that the player did not publish
/// stays absent: nothing is filled in.
pub fn now_playing_card(now_playing: &NowPlaying) -> (card: HudCardDto)
    ensures
        card matches HudCardDto::NowPlaying { id, title, artist, album, art_url, source_app }
            && id@ == NOW_PLAYING_CARD_ID@ && text::opt_view(title) == text::opt_view(
            now_playing.title,
        ) && text::opt_view(artist) == text::opt_view(now_playing.artist) && text::opt_view(album)
            == text::opt_view(now_playing.album) && text::opt_view(art_url) == text::opt_view(
            now_playing.art_url,
        ) && source_app@ == now_playing.source_app@,
{
    HudCardDto::NowPlaying {
        id: NOW_PLAYING_CARD_ID.to_owned(),
        title: text::copy_opt(&now_playing.title),
        artist: text::copy_opt(&now_playing.artist),
        album: text::copy_opt(&now_playing.album),
        art_url: text::copy_opt(&now_playing.art_url),
        source_app: now_playing.source_app.clone(),
    }
}

/// Whether a shown item stands for a page with its own label.
pub open spec fn stands_for(item: SourceItemView, s: SourceRef) -> bool {
    s.domain matches Some(d) && item.domain == d@ && item.url == s.url@
}

/// Every shown reference is a page that was consulted, labelled with the host of
/// its own address.
pub proof fn law_references_are_attributed(sources: Seq<SourceRef>, i: int)
    requires
        0 <= i < attributed(sources).len(),
    ensures
        exists|k: int|
            0 <= k < sources.len() && stands_for(attributed(sources)[i], #[trigger] sources[k]),
    decreases sources.len(),
{
    let before = attributed(sources.drop_last());
    if i < before.len() {
        law_references_are_attributed(sources.drop_last(), i);
        let k = choose|k: int|
            0 <= k < sources.drop_last().len() && stands_for(
                before[i],
                #[trigger] sources.drop_last()[k],
            );
        assert(sources[k] == sources.drop_last()[k]);
        assert(stands_for(attributed(sources)[i], sources[k]));
    } else {
        assert(stands_for(attributed(sources)[i], sources[sources.len() - 1]));
    }
}

/// Whether a shown tile stands for an image with the label of its own page.
pub open spec fn depicts(tile: SourcedImageView, i: ImageRef) -> bool {
    &&& i.source_domain matches Some(d) && tile.source_domain == d@
    &&& i.domain is Some
    &&& tile.url == i.url@
    &&& tile.source_url == i.source_url@
    &&& tile.alt.len() > 0
}

/// Every tile is an image that was offered, with the label of its own page and
/// something for a screen reader; there are no more of them than were offered.
pub proof fn law_tiles_are_attributed(images: Seq<ImageRef>)
    ensures
        attributed_images(images).len() <= images.len(),
        forall|i: int|
            0 <= i < attributed_images(images).len() ==> exists|k: int|
                0 <= k < images.len() && depicts(
                    #[trigger] attributed_images(images)[i],
                    #[trigger] images[k],
                ),
    decreases images.len(),
{
    if images.len() > 0 {
        law_tiles_are_attributed(images.drop_last());
        let before = attributed_images(images.drop_last());
        assert forall|i: int| 0 <= i < attributed_images(images).len() implies exists|k: int|
            0 <= k < images.len() && depicts(
                #[trigger] attributed_images(images)[i],
                #[trigger] images[k],
            ) by {
            if i < before.len() {
                let k = choose|k: int|
                    0 <= k < images.drop_last().len() && depicts(
                        before[i],
                        #[trigger] images.drop_last()[k],
                    );
                assert(images[k] == images.drop_last()[k]);
                assert(depicts(attributed_images(images)[i], images[k]));
            } else {
                reveal_strlit("Image from the web");
                assert(depicts(attributed_images(images)[i], images[images.len() - 1]));
            }
        }
    }
}

/// The sources of a card are told one by one and in their order: those of two
/// runs are those of the first and then those of the second, and a source stands
/// there exactly where its domain is known, under its own title or, for want of
/// one, under the domain.
pub proof fn law_sources_keep_their_order(a: Seq<SourceRef>, b: Seq<SourceRef>, s: SourceRef)
    ensures
        attributed(a + b) == attributed(a) + attributed(b),
        s.domain is None ==> attributed(seq![s]).len() == 0,
        s.domain matches Some(d) ==> {
            &&& attributed(seq![s]).len() == 1
            &&& attributed(seq![s])[0].domain == d@
            &&& attributed(seq![s])[0].url == s.url@
            &&& attributed(seq![s])[0].title == (if text::is_blank(s.title@) {
                d@
            } else {
                text::trimmed(s.title@)
            })
        },
    decreases b.len(),
{
    assert(seq![s].drop_last() =~= Seq::<SourceRef>::empty());
    assert(seq![s].last() == s);
    assert(attributed(Seq::<SourceRef>::empty()) =~= Seq::<SourceItemView>::empty());
    if b.len() == 0 {
        assert(a + b =~= a);
        assert(attributed(a) + attributed(b) =~= attributed(a));
    } else {
        law_sources_keep_their_order(a, b.drop_last(), s);
        assert((a + b).drop_last() =~= a + b.drop_last());
        assert(attributed(a + b) =~= attributed(a) + attributed(b));
    }
}

/// The pictures of a gallery keep their order too. A picture is shown exactly
/// where both the page it is from and its own address are known, under its own
/// description or, for want of one, under a plain one.
pub proof fn law_pictures_keep_their_order(a: Seq<ImageRef>, b: Seq<ImageRef>, i: ImageRef)
    ensures
        attributed_images(a + b) == attributed_images(a) + attributed_images(b),
        attributed_images(seq![i]).len() == (if i.source_domain is Some && i.domain is Some {
            1nat
        } else {
            0nat
        }),
        i.source_domain is Some && i.domain is Some ==> {
            let tile = attributed_images(seq![i])[0];
            &&& tile.url == i.url@
            &&& tile.source_url == i.source_url@
            &&& tile.source_domain == i.source_domain->0@
            &&& tile.alt == (if text::is_blank(i.alt@) {
                "Image from the web"@
            } else {
                text::trimmed(i.alt@)
            })
        },
    decreases b.len(),
{
    assert(seq![i].drop_last() =~= Seq::<ImageRef>::empty());
    assert(seq![i].last() == i);
    assert(attributed_images(Seq::<ImageRef>::empty()) =~= Seq::<SourcedImageView>::empty());
    if b.len() == 0 {
        assert(a + b =~= a);
        assert(attributed_images(a) + attributed_images(b) =~= attributed_images(a));
    } else {
        law_pictures_keep_their_order(a, b.drop_last(), i);
        assert((a + b).drop_last() =~= a + b.drop_last());
        assert(attributed_images(a + b) =~= attributed_images(a) + attributed_images(b));
    }
}

} // verus!
