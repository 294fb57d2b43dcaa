use jarvisd::cards::{
    gallery_card, now_playing_card, sources_card, HudCardDto, ImageRef, NowPlaying, SourceRef,
    SourceItemDto, SourcedImageDto, NOW_PLAYING_CARD_ID,
};

fn source(title: &str, url: &str, domain: Option<&str>) -> SourceRef {
    SourceRef {
        title: title.to_owned(),
        url: url.to_owned(),
        domain: domain.map(str::to_owned),
    }
}

fn image(alt: &str, url: &str, domain: &str, source_url: &str, source_domain: &str) -> ImageRef {
    ImageRef {
        alt: alt.to_owned(),
        url: url.to_owned(),
        domain: Some(domain.to_owned()),
        source_url: source_url.to_owned(),
        source_domain: Some(source_domain.to_owned()),
    }
}

fn tiles(images: &Vec<ImageRef>) -> Vec<SourcedImageDto> {
    match gallery_card("card-2".to_owned(), "Pictures", images) {
        Some(HudCardDto::Gallery { images, .. }) => images,
        _ => panic!("expected a gallery card"),
    }
}

#[test]
fn a_sources_card_lists_title_domain_and_link_for_each_page() {
    let thread = vec![
        source(
            "Ramen — Wikipedia",
            "https://en.wikipedia.org/wiki/Ramen",
            Some("en.wikipedia.org"),
        ),
        source(
            "Berlin Ramen Guide",
            "https://www.guide.example/ramen?p=2",
            Some("guide.example"),
        ),
    ];
    match sources_card("card-1".to_owned(), "References", &thread) {
        Some(HudCardDto::Sources { id, title, items }) => {
            assert_eq!(id, "card-1");
            assert_eq!(title, "References");
            assert_eq!(items.len(), 2);
            assert_eq!(items[0].domain, "en.wikipedia.org");
            assert_eq!(items[0].title, "Ramen — Wikipedia");
            assert_eq!(items[1].domain, "guide.example");
            assert_eq!(items[1].url, "https://www.guide.example/ramen?p=2");
        }
        _ => panic!("expected a sources card"),
    }
}

#[test]
fn a_thread_with_no_attributable_sources_produces_no_card() {
    assert!(sources_card("card-1".to_owned(), "References", &Vec::new()).is_none());
    let odd = vec![source("Totally safe", "javascript:alert(1)", None)];
    assert!(sources_card("card-1".to_owned(), "References", &odd).is_none());
}

#[test]
fn an_untitled_reference_falls_back_to_its_domain_not_to_blank() {
    let thread = vec![source("   ", "https://example.org/x", Some("example.org"))];
    match sources_card("card-1".to_owned(), "References", &thread) {
        Some(HudCardDto::Sources { items, .. }) => assert_eq!(items[0].title, "example.org"),
        _ => panic!("expected a sources card"),
    }
}

#[test]
fn every_gallery_tile_gets_its_own_chip_from_its_own_page() {
    let images = tiles(&vec![
        image(
            "shoyu ramen",
            "https://cdn.a.example/1.jpg",
            "cdn.a.example",
            "https://a.example/page",
            "a.example",
        ),
        image(
            "miso ramen",
            "https://cdn.b.example/2.jpg",
            "cdn.b.example",
            "https://b.example/other",
            "b.example",
        ),
    ]);
    assert_eq!(images[0].source_domain, "a.example");
    assert_eq!(images[1].source_domain, "b.example");
    assert_eq!(images[0].source_url, "https://a.example/page");
    assert_eq!(images[1].source_url, "https://b.example/other");
}

#[test]
fn an_image_without_a_page_borrows_no_badge() {
    let mut orphan = image("x", "https://cdn.example/1.jpg", "cdn.example", "data:x", "-");
    orphan.source_domain = None;
    let kept = image("y", "https://cdn.example/2.jpg", "cdn.example", "https://e.org/p", "e.org");
    let images = tiles(&vec![orphan, kept]);
    assert_eq!(images.len(), 1);
    assert_eq!(images[0].alt, "y");
}

#[test]
fn an_image_with_no_alt_text_still_gets_something_a_screen_reader_can_read() {
    let images = tiles(&vec![image(
        "",
        "https://cdn.example/1.jpg",
        "cdn.example",
        "https://example.org/p",
        "example.org",
    )]);
    assert!(!images[0].alt.is_empty());
    assert_eq!(images[0].alt, "Image from the web");
}

#[test]
fn a_spoofing_source_url_is_labelled_by_its_real_host() {
    let thread = vec![source(
        "Totally Wikipedia",
        "https://wikipedia.org@evil.example/x",
        Some("evil.example"),
    )];
    match sources_card("card-1".to_owned(), "References", &thread) {
        Some(HudCardDto::Sources { items, .. }) => assert_eq!(items[0].domain, "evil.example"),
        _ => panic!("expected a sources card"),
    }
}

fn now_playing(album: Option<&str>, art: Option<&str>) -> NowPlaying {
    NowPlaying {
        title: Some("Dancing Queen".to_owned()),
        artist: Some("ABBA".to_owned()),
        album: album.map(str::to_owned),
        art_url: art.map(str::to_owned),
        source_app: "Spotify".to_owned(),
    }
}

#[test]
fn a_now_playing_card_carries_title_artist_album_art_and_the_source_app() {
    let card = now_playing_card(&now_playing(
        Some("Arrival"),
        Some("https://cdn.example/art.jpg"),
    ));
    match card {
        HudCardDto::NowPlaying { id, title, artist, album, art_url, source_app } => {
            assert_eq!(id, NOW_PLAYING_CARD_ID);
            assert_eq!(title.as_deref(), Some("Dancing Queen"));
            assert_eq!(artist.as_deref(), Some("ABBA"));
            assert_eq!(album.as_deref(), Some("Arrival"));
            assert_eq!(art_url.as_deref(), Some("https://cdn.example/art.jpg"));
            assert_eq!(source_app, "Spotify");
        }
        _ => panic!("expected a now-playing card"),
    }
}

#[test]
fn a_missing_album_or_art_is_omitted_rather_than_invented() {
    match now_playing_card(&now_playing(None, None)) {
        HudCardDto::NowPlaying { album, art_url, source_app, .. } => {
            assert!(album.is_none());
            assert!(art_url.is_none());
            assert_eq!(source_app, "Spotify");
        }
        _ => panic!("expected a now-playing card"),
    }
}

#[test]
fn asking_twice_addresses_the_same_card() {
    let first = now_playing_card(&now_playing(Some("Arrival"), None));
    let second = now_playing_card(&NowPlaying {
        title: Some("Take a Chance on Me".to_owned()),
        ..now_playing(None, None)
    });
    match (first, second) {
        (HudCardDto::NowPlaying { id: a, .. }, HudCardDto::NowPlaying { id: b, .. }) => {
            assert_eq!(a, b);
        }
        _ => panic!("expected now-playing cards"),
    }
}

#[test]
fn the_now_playing_card_has_nowhere_to_put_a_control() {
    let shown = now_playing(Some("Arrival"), Some("https://cdn.example/art.jpg"));
    // Every field is named: "controls", "actions", "player", "commands" and
    // "canPause" are not among them.
    match now_playing_card(&shown) {
        HudCardDto::NowPlaying { id, title, artist, album, art_url, source_app } => {
            assert_eq!(id, NOW_PLAYING_CARD_ID);
            assert_eq!(title.as_deref(), Some("Dancing Queen"));
            assert_eq!(artist.as_deref(), Some("ABBA"));
            assert_eq!(album.as_deref(), Some("Arrival"));
            assert_eq!(art_url.as_deref(), Some("https://cdn.example/art.jpg"));
            assert_eq!(source_app, "Spotify");
        }
        _ => panic!("expected a now-playing card"),
    }
}

#[test]
fn neither_card_has_anywhere_to_put_page_body_text() {
    let sources = vec![source("A page", "https://a.example/page", Some("a.example"))];
    let images = vec![image(
        "shoyu ramen",
        "https://cdn.a.example/1.jpg",
        "cdn.a.example",
        "https://a.example/page",
        "a.example",
    )];
    // Every field is named: "body", "content", "html", "text", "pageText" and
    // "excerpt" are not among them.
    match sources_card("card-1".to_owned(), "References", &sources) {
        Some(HudCardDto::Sources { id, title, items }) => {
            assert_eq!((id.as_str(), title.as_str()), ("card-1", "References"));
            let SourceItemDto { title, url, domain } = &items[0];
            assert_eq!((title.as_str(), url.as_str()), ("A page", "https://a.example/page"));
            assert_eq!(domain, "a.example");
        }
        _ => panic!("expected a sources card"),
    }
    match gallery_card("card-2".to_owned(), "Pictures", &images) {
        Some(HudCardDto::Gallery { id, title, images }) => {
            assert_eq!((id.as_str(), title.as_str()), ("card-2", "Pictures"));
            let SourcedImageDto { url, source_url, source_domain, alt } = &images[0];
            assert_eq!(url, "https://cdn.a.example/1.jpg");
            assert_eq!(source_url, "https://a.example/page");
            assert_eq!((source_domain.as_str(), alt.as_str()), ("a.example", "shoyu ramen"));
        }
        _ => panic!("expected a gallery card"),
    }
}
